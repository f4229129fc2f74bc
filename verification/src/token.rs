//! Lobby tokens: the user a JSON Web Token names. The token's signature is
//! the lobby server's to check; here the token is decoded with an empty
//! secret and no signature check, its expiry checked against the clock, and
//! its `sub` claim read.
use vstd::prelude::*;
use crate::text::{chars_eq_str, chars_of};

verus! {

/// `jsonwebtoken::errors::Error`, the error of decoding a token.
#[verifier::external_type_specification]
#[verifier::external_body]
pub struct ExJwtError(jsonwebtoken::errors::Error);

/// The string claims of a token's payload, by name: each claim's name with
/// its text, `None` for a claim that is no string (an empty list for a
/// payload that is no object). A function of the token alone.
pub uninterp spec fn jwt_string_claims(token: Seq<char>) -> Seq<(Seq<char>, Option<Seq<char>>)>;

/// The text views of decoded claims.
pub open spec fn claim_views(cs: Seq<(String, Option<String>)>) -> Seq<(Seq<char>, Option<Seq<char>>)> {
    cs.map_values(
        |c: (String, Option<String>)|
            (
                c.0@,
                match c.1 {
                    Some(t) => Some(t@),
                    None => None,
                },
            ),
    )
}

/// `jsonwebtoken::decode::<serde_json::Value>` with the given secret and
/// checks, then each claim of the payload object with its `as_str()` text.
/// Whether it succeeds may depend on the clock (the expiry check), but what
/// it returns on success is the payload of the token.
#[verifier::external_body]
fn decode_string_claims(
    token: &str,
    secret: &[u8],
    check_signature: bool,
    check_expiry: bool,
) -> (r: Result<Vec<(String, Option<String>)>, jsonwebtoken::errors::Error>)
    ensures
        r matches Ok(cs) ==> claim_views(cs@) == jwt_string_claims(token@),
{
    let mut validation = jsonwebtoken::Validation::default();
    if !check_signature {
        validation.insecure_disable_signature_validation();
    }
    validation.validate_exp = check_expiry;
    let data = jsonwebtoken::decode::<serde_json::Value>(token, &jsonwebtoken::DecodingKey::from_secret(secret), &validation)?;
    Ok(match data.claims {
        serde_json::Value::Object(m) => m.iter().map(|(k, v)| (k.clone(), v.as_str().map(|t| t.to_string()))).collect(),
        _ => Vec::new(),
    })
}

/// The `Display` text of a decoding error.
#[verifier::external_body]
fn jwt_error_text(e: &jsonwebtoken::errors::Error) -> String {
    format!("{e}")
}

/// Why no user could be read from a token.
#[derive(Debug)]
pub enum TokenError {
    /// The token did not decode, or it has expired.
    Invalid(jsonwebtoken::errors::Error),
    /// The token names no user: it has no `sub` claim that is a string.
    NoSubject,
}

/// The message of a token without a user.
pub open spec fn no_subject_message() -> Seq<char> {
    "JWT に sub クレームがありません"@
}

impl TokenError {
    /// The human-readable message of the error.
    pub fn message(&self) -> (r: String)
        ensures
            *self is NoSubject ==> r@ == no_subject_message(),
    {
        match self {
            TokenError::Invalid(e) => jwt_error_text(e),
            TokenError::NoSubject => String::from_str("JWT に sub クレームがありません"),
        }
    }
}

/// The text of the first claim with the given name, when it is a string.
pub open spec fn claim_of(cs: Seq<(Seq<char>, Option<Seq<char>>)>, key: Seq<char>) -> Option<Seq<char>>
    decreases cs.len(),
{
    if cs.len() == 0 {
        None
    } else if cs[0].0 == key {
        cs[0].1
    } else {
        claim_of(cs.drop_first(), key)
    }
}

/// The user named by decoded claims: the text of the `sub` claim, or
/// [`TokenError::NoSubject`] when there is no such string claim.
pub fn user_of_claims(cs: &[(String, Option<String>)]) -> (r: Result<String, TokenError>)
    ensures
        match claim_of(claim_views(cs@), "sub"@) {
            Some(s) => r matches Ok(u) && u@ == s,
            None => r matches Err(TokenError::NoSubject),
        },
{
    proof {
        reveal_strlit("sub");
    }
    let key = chars_of("sub");
    let ghost v = claim_views(cs@);
    assert(v.skip(0) == v);
    let mut i: usize = 0;
    while i < cs.len()
        invariant
            i <= cs@.len(),
            v == claim_views(cs@),
            key@ == "sub"@,
            claim_of(v, "sub"@) == claim_of(v.skip(i as int), "sub"@),
        decreases cs@.len() - i,
    {
        let name = chars_of(cs[i].0.as_str());
        proof {
            assert(v.skip(i as int)[0] == v[i as int]);
            assert(v.skip(i as int).drop_first() == v.skip(i + 1));
            assert(v[i as int].0 == cs@[i as int].0@);
        }
        if chars_eq_str(name.as_slice(), "sub") {
            return match &cs[i].1 {
                Some(t) => Ok(t.clone()),
                None => Err(TokenError::NoSubject),
            };
        }
        i = i + 1;
    }
    proof {
        assert(v.skip(cs@.len() as int).len() == 0);
    }
    Err(TokenError::NoSubject)
}

/// The user (`sub`) a token names. The token is decoded without a signature
/// check (the lobby server checks it) and with its expiry checked; a token
/// that does not decode or has expired gives [`TokenError::Invalid`]. Of a
/// decoded token, the user is its `sub` claim ([`user_of_claims`]).
pub fn user_id_from_token(token: &str) -> (r: Result<String, TokenError>)
    ensures
        r matches Ok(u) ==> claim_of(jwt_string_claims(token@), "sub"@) == Some(u@),
        r matches Err(TokenError::NoSubject) ==> claim_of(jwt_string_claims(token@), "sub"@) is None,
{
    let secret: Vec<u8> = Vec::new();
    match decode_string_claims(token, secret.as_slice(), false, true) {
        Ok(cs) => user_of_claims(cs.as_slice()),
        Err(e) => Err(TokenError::Invalid(e)),
    }
}

} // verus!
