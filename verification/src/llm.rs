//! The text side of asking the language model for a sequence: how the
//! request is authenticated, where the JSON lies in the model's answer, and
//! the checks on the notes it gives back.
use vstd::prelude::*;
use crate::sequence::MidiEvent;
use crate::text::{chars_of, chars_slice, contains_seq, decimal_chars, decimal_string, string_from_chars, trim, trim_chars};

verus! {

/// How requests to the model are authenticated.
#[derive(Debug, Clone, PartialEq, Eq)]
pub enum AuthMethod {
    /// An `x-api-key` header (`ANTHROPIC_API_KEY`).
    ApiKey(String),
    /// An `Authorization: Bearer` header (an OAuth token).
    Bearer(String),
}

/// The header that carries the credential: its name and its value.
pub open spec fn auth_header_of(a: AuthMethod) -> (Seq<char>, Seq<char>) {
    match a {
        AuthMethod::ApiKey(k) => ("x-api-key"@, k@),
        AuthMethod::Bearer(t) => ("authorization"@, "Bearer "@ + t@),
    }
}

/// The header that carries the credential: its name and its value.
pub fn auth_header(auth: &AuthMethod) -> (r: (String, String))
    ensures
        (r.0@, r.1@) == auth_header_of(*auth),
{
    match auth {
        AuthMethod::ApiKey(key) => (String::from_str("x-api-key"), key.clone()),
        AuthMethod::Bearer(token) => {
            let mut v = String::from_str("Bearer ");
            v.append(token.as_str());
            (String::from_str("authorization"), v)
        },
    }
}

/// `i` is where `needle` first occurs in `hay`.
pub open spec fn first_at(hay: Seq<char>, needle: Seq<char>, i: int) -> bool {
    &&& 0 <= i <= hay.len() - needle.len()
    &&& hay.subrange(i, i + needle.len()) == needle
    &&& forall|j: int| 0 <= j < i ==> #[trigger] hay.subrange(j, j + needle.len()) != needle
}

/// Where `needle` first occurs in `hay`, if it does.
pub open spec fn find_first(hay: Seq<char>, needle: Seq<char>) -> Option<int> {
    if contains_seq(hay, needle) {
        Some(choose|i: int| first_at(hay, needle, i))
    } else {
        None
    }
}

proof fn lemma_first_unique(hay: Seq<char>, needle: Seq<char>, i: int)
    requires
        first_at(hay, needle, i),
    ensures
        find_first(hay, needle) == Some(i),
{
    assert(contains_seq(hay, needle));
    let k = choose|k: int| first_at(hay, needle, k);
    assert(first_at(hay, needle, k));
    if k < i {
        assert(hay.subrange(k, k + needle.len()) != needle);
    }
    if i < k {
        assert(hay.subrange(i, i + needle.len()) != needle);
    }
}

/// Where `needle` first occurs in `hay`.
fn find_chars(hay: &[char], needle: &[char]) -> (r: Option<usize>)
    ensures
        match r {
            Some(i) => first_at(hay@, needle@, i as int) && find_first(hay@, needle@) == Some(i as int),
            None => find_first(hay@, needle@) is None,
        },
{
    let n = hay.len();
    if needle.len() > n {
        return None;
    }
    let last = n - needle.len();
    let mut i: usize = 0;
    loop
        invariant
            n == hay@.len(),
            last + needle@.len() == hay@.len(),
            i <= last,
            forall|k: int| 0 <= k < i ==> #[trigger] hay@.subrange(k, k + needle@.len()) != needle@,
        decreases last - i,
    {
        let mut j: usize = 0;
        let mut same = true;
        while j < needle.len()
            invariant
                n == hay@.len(),
                last + needle@.len() == hay@.len(),
                i <= last,
                j <= needle@.len(),
                same ==> forall|m: int| 0 <= m < j ==> hay@[i + m] == needle@[m],
                !same ==> hay@.subrange(i as int, i + needle@.len()) != needle@,
            decreases needle@.len() - j,
        {
            if same && hay[i + j] != needle[j] {
                assert(hay@.subrange(i as int, i + needle@.len())[j as int] != needle@[j as int]);
                same = false;
            }
            j = j + 1;
        }
        if same {
            assert(hay@.subrange(i as int, i + needle@.len()) =~= needle@);
            proof {
                lemma_first_unique(hay@, needle@, i as int);
            }
            return Some(i);
        }
        if i == last {
            return None;
        }
        i = i + 1;
    }
}

/// The text of a fenced JSON block of the answer: what lies between the
/// first "```json" and the next "```", trimmed. `None` when there is none.
pub open spec fn fenced_json_of(t: Seq<char>) -> Option<Seq<char>> {
    match find_first(t, "```json"@) {
        Some(s) => {
            let start = s + 7;
            match find_first(t.skip(start), "```"@) {
                Some(e) => Some(trim(t.subrange(start, start + e))),
                None => None,
            }
        },
        None => None,
    }
}

/// The text of a fenced JSON block of the answer, trimmed.
pub fn fenced_json(text: &str) -> (r: Option<String>)
    ensures
        match r {
            Some(s) => fenced_json_of(text@) == Some(s@),
            None => fenced_json_of(text@) is None,
        },
{
    proof {
        reveal_strlit("```json");
        reveal_strlit("```");
    }
    let t = chars_of(text);
    let open = chars_of("```json");
    let close = chars_of("```");
    let n = t.len();
    assert(open@.len() == 7);
    match find_chars(t.as_slice(), open.as_slice()) {
        Some(s) => {
            let start = s + 7;
            let rest = chars_slice(t.as_slice(), start, t.len());
            assert(rest@ == t@.skip(start as int));
            match find_chars(rest.as_slice(), close.as_slice()) {
                Some(e) => {
                    let inner = chars_slice(t.as_slice(), start, start + e);
                    let trimmed = trim_chars(inner.as_slice());
                    Some(string_from_chars(trimmed.as_slice()))
                },
                None => None,
            }
        },
        None => None,
    }
}

/// The answer trimmed, to be read whole as JSON.
pub fn trimmed_answer(text: &str) -> (r: String)
    ensures
        r@ == trim(text@),
{
    let t = chars_of(text);
    string_from_chars(trim_chars(t.as_slice()).as_slice())
}

/// Whether `c` occurs at `i` and nowhere before.
pub open spec fn first_char_at(t: Seq<char>, c: char, i: int) -> bool {
    0 <= i < t.len() && t[i] == c && forall|j: int| 0 <= j < i ==> t[j] != c
}

/// Whether `c` occurs at `i` and nowhere after.
pub open spec fn last_char_at(t: Seq<char>, c: char, i: int) -> bool {
    0 <= i < t.len() && t[i] == c && forall|j: int| i < j < t.len() ==> t[j] != c
}

/// Whether the answer's last '}' lies more than one place before its first
/// '{', so that cutting from the first '{' to the last '}' is no range at all
/// (right before it, the cut is empty).
pub open spec fn braces_reversed(t: Seq<char>) -> bool {
    exists|s: int, e: int| first_char_at(t, '{', s) && last_char_at(t, '}', e) && e + 1 < s
}

/// The position of the first '{' and of the last '}' of the characters.
fn brace_positions(t: &Vec<char>) -> (r: (Option<usize>, Option<usize>))
    ensures
        match r.0 {
            Some(i) => first_char_at(t@, '{', i as int),
            None => forall|k: int| 0 <= k < t@.len() ==> t@[k] != '{',
        },
        match r.1 {
            Some(e) => last_char_at(t@, '}', e as int),
            None => forall|k: int| 0 <= k < t@.len() ==> t@[k] != '}',
        },
{
    let n = t.len();
    let mut i: usize = 0;
    while i < n && t[i] != '{'
        invariant
            n == t@.len(),
            i <= n,
            forall|k: int| 0 <= k < i ==> t@[k] != '{',
        decreases n - i,
    {
        i = i + 1;
    }
    let mut j: usize = n;
    while j > 0 && t[j - 1] != '}'
        invariant
            n == t@.len(),
            j <= n,
            forall|k: int| j <= k < n ==> t@[k] != '}',
        decreases j,
    {
        j = j - 1;
    }
    let first = if i == n { None } else { Some(i) };
    let last = if j == 0 { None } else { Some(j - 1) };
    (first, last)
}

/// Whether the answer's last '}' lies more than one place before its first '{'.
pub fn has_reversed_braces(text: &str) -> (r: bool)
    ensures
        r == braces_reversed(text@),
{
    let t = chars_of(text);
    match brace_positions(&t) {
        (Some(i), Some(e)) => {
            proof {
                assert forall|s: int, e2: int| first_char_at(text@, '{', s) && last_char_at(text@, '}', e2) implies s
                    == i && e2 == e by {
                    if s < i {
                        assert(text@[s] != '{');
                    }
                    if i < s {
                        assert(text@[i as int] != '{');
                    }
                    if e2 < e {
                        assert(text@[e2] != '}');
                    }
                    if e < e2 {
                        assert(text@[e2] != '}');
                    }
                }
            }
            i > 0 && e < i - 1
        },
        _ => false,
    }
}

/// The object embedded in the answer: from its first '{' to its last '}'
/// (empty when the '}' comes right before the '{'). `None` when either
/// brace is missing.
pub fn embedded_json(text: &str) -> (r: Option<String>)
    requires
        !braces_reversed(text@),
    ensures
        match r {
            Some(s) => exists|i: int, j: int| {
                &&& first_char_at(text@, '{', i)
                &&& last_char_at(text@, '}', j)
                &&& j + 1 >= i
                &&& s@ == text@.subrange(i, j + 1)
            },
            None => (forall|k: int| 0 <= k < text@.len() ==> text@[k] != '{') || (forall|k: int|
                0 <= k < text@.len() ==> text@[k] != '}'),
        },
{
    let t = chars_of(text);
    let (i, e) = match brace_positions(&t) {
        (Some(i), Some(e)) => (i, e),
        _ => {
            return None;
        },
    };
    assert(first_char_at(text@, '{', i as int) && last_char_at(text@, '}', e as int));
    if i > 0 && e < i - 1 {
        assert(false);
        return None;
    }
    let n = t.len();
    assert(e < n);
    let r = string_from_chars(chars_slice(t.as_slice(), i, e + 1).as_slice());
    assert(r@ == text@.subrange(i as int, e + 1));
    Some(r)
}

/// Why the model's notes were refused.
#[derive(Debug, Clone, Copy, PartialEq, Eq, Structural)]
pub enum NoteCheckError {
    /// A note number above 127.
    InvalidNote(u8),
    /// A velocity above 127.
    InvalidVelocity(u8),
}

/// The first problem among the events, in order, looking at each event's
/// note before its velocity.
pub open spec fn first_note_problem(events: Seq<MidiEvent>) -> Option<NoteCheckError>
    decreases events.len(),
{
    if events.len() == 0 {
        None
    } else if events[0].note > 127 {
        Some(NoteCheckError::InvalidNote(events[0].note))
    } else if events[0].velocity > 127 {
        Some(NoteCheckError::InvalidVelocity(events[0].velocity))
    } else {
        first_note_problem(events.drop_first())
    }
}

/// Checks the notes and velocities of a sequence the model made.
pub fn check_notes(events: &[MidiEvent]) -> (r: Result<(), NoteCheckError>)
    ensures
        match first_note_problem(events@) {
            Some(e) => r == Err::<(), NoteCheckError>(e),
            None => r is Ok,
        },
{
    let mut i: usize = 0;
    assert(events@.skip(0) =~= events@);
    while i < events.len()
        invariant
            i <= events@.len(),
            first_note_problem(events@) == first_note_problem(events@.skip(i as int)),
        decreases events@.len() - i,
    {
        assert(events@.skip(i as int).drop_first() =~= events@.skip(i + 1));
        assert(events@.skip(i as int)[0] == events@[i as int]);
        let e = events[i];
        if e.note > 127 {
            return Err(NoteCheckError::InvalidNote(e.note));
        }
        if e.velocity > 127 {
            return Err(NoteCheckError::InvalidVelocity(e.velocity));
        }
        i = i + 1;
    }
    assert(events@.skip(i as int) =~= Seq::<MidiEvent>::empty());
    Ok(())
}

/// The message of a refused note.
pub open spec fn note_check_message(e: NoteCheckError) -> Seq<char> {
    match e {
        NoteCheckError::InvalidNote(n) => "無効なノート番号: "@ + decimal_chars(n as nat) + " (0-127)"@,
        NoteCheckError::InvalidVelocity(v) => "無効なベロシティ: "@ + decimal_chars(v as nat) + " (0-127)"@,
    }
}

impl NoteCheckError {
    /// The human-readable message of the error.
    pub fn message(&self) -> (r: String)
        ensures
            r@ == note_check_message(*self),
    {
        let (head, n) = match self {
            NoteCheckError::InvalidNote(n) => ("無効なノート番号: ", *n),
            NoteCheckError::InvalidVelocity(v) => ("無効なベロシティ: ", *v),
        };
        let mut r = String::from_str(head);
        let d = decimal_string(n as usize);
        r.append(d.as_str());
        r.append(" (0-127)");
        r
    }
}

} // verus!
