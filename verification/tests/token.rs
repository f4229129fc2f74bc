use cplp::token::{user_id_from_token, user_of_claims, TokenError};

fn now() -> u64 {
    std::time::SystemTime::now().duration_since(std::time::UNIX_EPOCH).unwrap().as_secs()
}

fn make_token(claims: serde_json::Map<String, serde_json::Value>) -> String {
    jsonwebtoken::encode(
        &jsonwebtoken::Header::default(),
        &serde_json::Value::Object(claims),
        &jsonwebtoken::EncodingKey::from_secret(b"test-secret"),
    )
    .unwrap()
}

fn claims(pairs: &[(&str, serde_json::Value)]) -> serde_json::Map<String, serde_json::Value> {
    let mut m = serde_json::Map::new();
    for (k, v) in pairs {
        m.insert(k.to_string(), v.clone());
    }
    m
}

#[test]
fn test_extract_user_id_valid_token() {
    let now = now();
    let token = make_token(claims(&[
        ("sub", serde_json::Value::from("users:player1")),
        ("exp", serde_json::Value::from(now + 3600)),
        ("iat", serde_json::Value::from(now)),
    ]));
    let result = user_id_from_token(&token).unwrap();
    assert_eq!(result, "users:player1");
}

#[test]
fn test_extract_user_id_expired_token() {
    let token = make_token(claims(&[
        ("sub", serde_json::Value::from("users:expired")),
        ("exp", serde_json::Value::from(1_000_000_000_u64)),
        ("iat", serde_json::Value::from(999_999_000_u64)),
    ]));
    let result = user_id_from_token(&token);
    assert!(result.is_err(), "期限切れトークンはエラーになるべき");
}

#[test]
fn test_extract_user_id_no_sub_claim() {
    let now = now();
    let token = make_token(claims(&[
        ("exp", serde_json::Value::from(now + 3600)),
        ("iat", serde_json::Value::from(now)),
    ]));
    let result = user_id_from_token(&token);
    assert!(result.is_err(), "sub クレームがないトークンはエラーになるべき");
    assert!(result.unwrap_err().message().contains("sub"));
}

#[test]
fn test_extract_user_id_garbage_token() {
    let result = user_id_from_token("not-a-jwt-token");
    assert!(result.is_err(), "不正なトークンはエラーになるべき");
    assert!(matches!(result, Err(TokenError::Invalid(_))));
}

#[test]
fn a_sub_claim_that_is_no_string_names_no_user() {
    let now = now();
    let token = make_token(claims(&[
        ("sub", serde_json::Value::from(42)),
        ("exp", serde_json::Value::from(now + 3600)),
    ]));
    assert!(matches!(user_id_from_token(&token), Err(TokenError::NoSubject)));
}

#[test]
fn user_of_claims_reads_the_sub_claim() {
    let cs = vec![
        ("exp".to_string(), None),
        ("iss".to_string(), Some("lobby".to_string())),
        ("sub".to_string(), Some("users:a".to_string())),
    ];
    assert_eq!(user_of_claims(&cs).unwrap(), "users:a");
    let e = user_of_claims(&cs[..2]).unwrap_err();
    assert_eq!(e.message(), "JWT に sub クレームがありません");
    let not_text = vec![("sub".to_string(), None)];
    assert!(matches!(user_of_claims(&not_text), Err(TokenError::NoSubject)));
}
