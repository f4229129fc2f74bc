//! Character-level helpers on strings: Unicode white space, ASCII case folding,
//! trimming, splitting on white space and decimal numbers.
use vstd::prelude::*;

verus! {

/// `String::push` appends one character to the end of the string.
#[verifier::external_body]
pub(crate) fn string_push(s: &mut String, c: char)
    ensures
        final(s)@ == old(s)@.push(c),
{
    s.push(c);
}

/// The characters of a string slice, in order.
pub fn chars_of(s: &str) -> (v: Vec<char>)
    ensures
        v@ == s@,
{
    let mut v: Vec<char> = Vec::new();
    let n = s.unicode_len();
    let mut i: usize = 0;
    while i < n
        invariant
            n == s@.len(),
            i <= n,
            v@ == s@.take(i as int),
        decreases n - i,
    {
        let c = s.get_char(i);
        v.push(c);
        i = i + 1;
        assert(v@ == s@.take(i as int));
    }
    assert(s@.take(n as int) == s@);
    v
}

/// A string holding the given characters.
pub fn string_from_chars(v: &[char]) -> (s: String)
    ensures
        s@ == v@,
{
    let mut s = String::new();
    let mut i: usize = 0;
    while i < v.len()
        invariant
            i <= v.len(),
            s@ == v@.take(i as int),
        decreases v.len() - i,
    {
        string_push(&mut s, v[i]);
        i = i + 1;
        assert(s@ == v@.take(i as int));
    }
    assert(v@.take(v@.len() as int) == v@);
    s
}


/// Whether the characters spell out the given string.
pub fn chars_eq_str(v: &[char], s: &str) -> (r: bool)
    ensures
        r == (v@ == s@),
{
    let n = s.unicode_len();
    if v.len() != n {
        return false;
    }
    let mut i: usize = 0;
    while i < n
        invariant
            n == s@.len(),
            n == v@.len(),
            i <= n,
            v@.take(i as int) == s@.take(i as int),
        decreases n - i,
    {
        if v[i] != s.get_char(i) {
            assert(v@[i as int] != s@[i as int]);
            return false;
        }
        i = i + 1;
        assert(v@.take(i as int) == s@.take(i as int)) by {
            assert forall|j: int| 0 <= j < i implies v@.take(i as int)[j] == s@.take(i as int)[j] by {
                if j < i - 1 {
                    assert(v@.take(i - 1)[j] == s@.take(i - 1)[j]);
                }
            }
        }
    }
    assert(v@.take(n as int) == v@);
    assert(s@.take(n as int) == s@);
    true
}

/// Whether the characters end with the characters of the given string.
pub fn chars_ends_with_str(v: &[char], s: &str) -> (r: bool)
    ensures
        r == (v@.len() >= s@.len() && v@.skip(v@.len() - s@.len()) == s@),
{
    let n = s.unicode_len();
    if v.len() < n {
        return false;
    }
    let off = v.len() - n;
    let mut i: usize = 0;
    while i < n
        invariant
            n == s@.len(),
            off + n == v.len(),
            i <= n,
            forall|j: int| 0 <= j < i ==> v@[off + j] == s@[j],
        decreases n - i,
    {
        if v[off + i] != s.get_char(i) {
            assert(v@.skip(off as int)[i as int] != s@[i as int]);
            return false;
        }
        i = i + 1;
    }
    assert(v@.skip(off as int) == s@);
    true
}

/// Whether the characters start with the characters of the given string.
pub fn chars_starts_with_str(v: &[char], s: &str) -> (r: bool)
    ensures
        r == (v@.len() >= s@.len() && v@.take(s@.len() as int) == s@),
{
    let n = s.unicode_len();
    if v.len() < n {
        return false;
    }
    let mut i: usize = 0;
    while i < n
        invariant
            n == s@.len(),
            n <= v@.len(),
            i <= n,
            forall|j: int| 0 <= j < i ==> v@[j] == s@[j],
        decreases n - i,
    {
        if v[i] != s.get_char(i) {
            assert(v@.take(n as int)[i as int] != s@[i as int]);
            return false;
        }
        i = i + 1;
    }
    assert(v@.take(n as int) == s@);
    true
}

/// The characters from index `from` (inclusive) to `to` (exclusive).
pub fn chars_slice(v: &[char], from: usize, to: usize) -> (r: Vec<char>)
    requires
        from <= to <= v@.len(),
    ensures
        r@ == v@.subrange(from as int, to as int),
{
    let mut r: Vec<char> = Vec::new();
    let mut i: usize = from;
    while i < to
        invariant
            from <= i <= to <= v@.len(),
            r@ == v@.subrange(from as int, i as int),
        decreases to - i,
    {
        r.push(v[i]);
        i = i + 1;
        assert(r@ == v@.subrange(from as int, i as int));
    }
    r
}

/// The Unicode `White_Space` property, which `char::is_whitespace`,
/// `str::trim` and `str::split_whitespace` go by.
pub open spec fn is_white_space(c: char) -> bool {
    let u = c as u32;
    ||| 0x9 <= u <= 0xD
    ||| u == 0x20
    ||| u == 0x85
    ||| u == 0xA0
    ||| u == 0x1680
    ||| 0x2000 <= u <= 0x200A
    ||| u == 0x2028
    ||| u == 0x2029
    ||| u == 0x202F
    ||| u == 0x205F
    ||| u == 0x3000
}

/// Executable test of the `White_Space` property.
pub fn char_is_white_space(c: char) -> (r: bool)
    ensures
        r == is_white_space(c),
{
    let u = c as u32;
    (0x9 <= u && u <= 0xD) || u == 0x20 || u == 0x85 || u == 0xA0 || u == 0x1680 || (0x2000 <= u
        && u <= 0x200A) || u == 0x2028 || u == 0x2029 || u == 0x202F || u == 0x205F || u == 0x3000
}

/// ASCII lower case of one character: `A`..=`Z` become `a`..=`z`, all others stay.
pub open spec fn ascii_lower(c: char) -> char {
    if 'A' <= c && c <= 'Z' {
        ((c as u32) + 32) as char
    } else {
        c
    }
}

/// ASCII lower case of a character sequence (`str::to_ascii_lowercase`).
pub open spec fn ascii_lower_seq(s: Seq<char>) -> Seq<char> {
    s.map_values(|c: char| ascii_lower(c))
}

/// Number of white-space characters at the start of `s`.
pub open spec fn leading_ws(s: Seq<char>) -> nat
    decreases s.len(),
{
    if s.len() == 0 {
        0
    } else if is_white_space(s[0]) {
        1 + leading_ws(s.drop_first())
    } else {
        0
    }
}

/// Number of white-space characters at the end of `s`.
pub open spec fn trailing_ws(s: Seq<char>) -> nat
    decreases s.len(),
{
    if s.len() == 0 {
        0
    } else if is_white_space(s.last()) {
        1 + trailing_ws(s.drop_last())
    } else {
        0
    }
}

/// `s` without leading and trailing white space (`str::trim`).
pub open spec fn trim(s: Seq<char>) -> Seq<char> {
    let l = leading_ws(s) as int;
    if l == s.len() {
        Seq::empty()
    } else {
        s.subrange(l, s.len() - trailing_ws(s))
    }
}

/// Splitting on white space, read from left to right: the words completed so
/// far and the word being read.
pub open spec fn split_ws_state(s: Seq<char>) -> (Seq<Seq<char>>, Seq<char>)
    decreases s.len(),
{
    if s.len() == 0 {
        (Seq::empty(), Seq::empty())
    } else {
        let (words, cur) = split_ws_state(s.drop_last());
        let c = s.last();
        if is_white_space(c) {
            if cur.len() > 0 {
                (words.push(cur), Seq::empty())
            } else {
                (words, Seq::empty())
            }
        } else {
            (words, cur.push(c))
        }
    }
}

/// The non-empty maximal runs of non-white-space characters of `s`, in order
/// (`str::split_whitespace`).
pub open spec fn split_ws(s: Seq<char>) -> Seq<Seq<char>> {
    let (words, cur) = split_ws_state(s);
    if cur.len() > 0 {
        words.push(cur)
    } else {
        words
    }
}

/// Value of a sequence of decimal digits.
pub open spec fn decimal_value(s: Seq<char>) -> nat
    decreases s.len(),
{
    if s.len() == 0 {
        0
    } else {
        decimal_value(s.drop_last()) * 10 + ((s.last() as u32) - ('0' as u32)) as nat
    }
}

/// Every character is an ASCII digit.
pub open spec fn all_digits(s: Seq<char>) -> bool {
    forall|i: int| 0 <= i < s.len() ==> '0' <= #[trigger] s[i] && s[i] <= '9'
}

/// `u32::from_str`: an optional `+`, then at least one ASCII digit, with a
/// value that fits in a `u32`.
pub open spec fn parse_u32(s: Seq<char>) -> Option<u32> {
    let digits = if s.len() > 0 && s[0] == '+' {
        s.drop_first()
    } else {
        s
    };
    if digits.len() == 0 || !all_digits(digits) || decimal_value(digits) > u32::MAX {
        None
    } else {
        Some(decimal_value(digits) as u32)
    }
}

/// The ASCII lower case of the characters.
pub fn to_ascii_lower(v: &[char]) -> (r: Vec<char>)
    ensures
        r@ == ascii_lower_seq(v@),
{
    let mut r: Vec<char> = Vec::new();
    let mut i: usize = 0;
    while i < v.len()
        invariant
            i <= v.len(),
            r@ == ascii_lower_seq(v@.take(i as int)),
        decreases v.len() - i,
    {
        let c = v[i];
        let l = if 'A' <= c && c <= 'Z' {
            char_add_32(c)
        } else {
            c
        };
        r.push(l);
        i = i + 1;
        assert(v@.take(i as int).drop_last() == v@.take(i - 1));
        assert(r@ == ascii_lower_seq(v@.take(i as int)));
    }
    assert(v@.take(v@.len() as int) == v@);
    r
}

/// Whether `needle` occurs in `hay` as a contiguous run of characters; the
/// empty needle occurs everywhere.
pub open spec fn contains_seq(hay: Seq<char>, needle: Seq<char>) -> bool {
    exists|i: int| 0 <= i <= hay.len() - needle.len() && #[trigger] hay.subrange(i, i + needle.len()) == needle
}

/// Whether `needle` occurs at position `at` of `hay`.
fn occurs_at(hay: &[char], needle: &[char], at: usize) -> (r: bool)
    requires
        at + needle@.len() <= hay@.len(),
    ensures
        r == (hay@.subrange(at as int, at + needle@.len()) == needle@),
{
    let n = hay.len();
    let mut j: usize = 0;
    while j < needle.len()
        invariant
            n == hay@.len(),
            at + needle@.len() <= hay@.len(),
            j <= needle@.len(),
            forall|k: int| 0 <= k < j ==> hay@[at + k] == needle@[k],
        decreases needle@.len() - j,
    {
        if hay[at + j] != needle[j] {
            assert(hay@.subrange(at as int, at + needle@.len())[j as int] != needle@[j as int]);
            return false;
        }
        j = j + 1;
    }
    assert(hay@.subrange(at as int, at + needle@.len()) =~= needle@);
    true
}

/// Whether `needle` occurs in `hay`.
pub fn chars_contains(hay: &[char], needle: &[char]) -> (r: bool)
    ensures
        r == contains_seq(hay@, needle@),
{
    if needle.len() > hay.len() {
        return false;
    }
    let last = hay.len() - needle.len();
    let mut i: usize = 0;
    loop
        invariant
            last + needle@.len() == hay@.len(),
            i <= last,
            forall|k: int| 0 <= k < i ==> #[trigger] hay@.subrange(k, k + needle@.len()) != needle@,
        decreases last - i,
    {
        if occurs_at(hay, needle, i) {
            return true;
        }
        if i == last {
            return false;
        }
        i = i + 1;
    }
}

/// The decimal digit character of a number below ten.
pub open spec fn digit_char(d: nat) -> char {
    if d == 0 { '0' } else if d == 1 { '1' } else if d == 2 { '2' } else if d == 3 { '3' } else if d == 4 { '4' }
    else if d == 5 { '5' } else if d == 6 { '6' } else if d == 7 { '7' } else if d == 8 { '8' } else { '9' }
}

/// The decimal numeral of a number, without leading zeros ("0" for zero).
pub open spec fn decimal_chars(n: nat) -> Seq<char>
    decreases n,
{
    if n < 10 {
        seq![digit_char(n)]
    } else {
        decimal_chars(n / 10).push(digit_char(n % 10))
    }
}

fn digit_of(d: usize) -> (r: char)
    requires
        d < 10,
    ensures
        r == digit_char(d as nat),
{
    if d == 0 { '0' } else if d == 1 { '1' } else if d == 2 { '2' } else if d == 3 { '3' } else if d == 4 { '4' }
    else if d == 5 { '5' } else if d == 6 { '6' } else if d == 7 { '7' } else if d == 8 { '8' } else { '9' }
}

fn decimal_vec(n: usize) -> (r: Vec<char>)
    ensures
        r@ == decimal_chars(n as nat),
    decreases n,
{
    if n < 10 {
        let mut v: Vec<char> = Vec::new();
        v.push(digit_of(n));
        v
    } else {
        let mut v = decimal_vec(n / 10);
        v.push(digit_of(n % 10));
        v
    }
}

/// The decimal numeral of a number, as `format!("{}", n)` writes it.
pub fn decimal_string(n: usize) -> (r: String)
    ensures
        r@ == decimal_chars(n as nat),
{
    let v = decimal_vec(n);
    string_from_chars(v.as_slice())
}

/// The lower-case letter of an upper-case ASCII letter.
fn char_add_32(c: char) -> (r: char)
    requires
        'A' <= c && c <= 'Z',
    ensures
        r == ascii_lower(c),
{
    let u: u8 = c as u8;
    let l: u8 = u + 32;
    l as char
}


proof fn lemma_trailing_bound(s: Seq<char>, j: int)
    requires
        0 <= j < s.len(),
        !is_white_space(s[j]),
    ensures
        trailing_ws(s) <= s.len() - 1 - j,
    decreases s.len(),
{
    if is_white_space(s.last()) {
        lemma_trailing_bound(s.drop_last(), j);
    }
}

/// The characters without leading and trailing white space.
pub fn trim_chars(v: &[char]) -> (r: Vec<char>)
    ensures
        r@ == trim(v@),
{
    let n = v.len();
    let mut l: usize = 0;
    assert(v@.skip(0) == v@);
    while l < n && char_is_white_space(v[l])
        invariant
            n == v@.len(),
            l <= n,
            leading_ws(v@) == l + leading_ws(v@.skip(l as int)),
        decreases n - l,
    {
        assert(v@.skip(l as int).drop_first() == v@.skip(l + 1));
        l = l + 1;
    }
    if l == n {
        assert(v@.skip(n as int).len() == 0);
        return Vec::new();
    }
    assert(v@.skip(l as int)[0] == v@[l as int]);
    let mut t: usize = 0;
    assert(v@.take(n as int) == v@);
    while t < n - l && char_is_white_space(v[n - 1 - t])
        invariant
            n == v@.len(),
            l < n,
            !is_white_space(v@[l as int]),
            t <= n - l,
            trailing_ws(v@) == t + trailing_ws(v@.take(n - t)),
        decreases n - l - t,
    {
        assert(v@.take(n - t).drop_last() == v@.take(n - t - 1));
        assert(v@.take(n - t).last() == v@[n - 1 - t]);
        t = t + 1;
    }
    proof {
        lemma_trailing_bound(v@, l as int);
        if t < n - l {
            assert(v@.take(n - t).last() == v@[n - 1 - t]);
        }
    }
    let mut r: Vec<char> = Vec::new();
    let mut i: usize = l;
    while i < n - t
        invariant
            n == v@.len(),
            l <= i <= n - t,
            r@ == v@.subrange(l as int, i as int),
        decreases n - t - i,
    {
        r.push(v[i]);
        i = i + 1;
        assert(r@ == v@.subrange(l as int, i as int));
    }
    r
}

/// The character sequences of a sequence of character vectors.
pub open spec fn views(ws: Seq<Vec<char>>) -> Seq<Seq<char>> {
    ws.map_values(|w: Vec<char>| w@)
}

/// The white-space separated words of the characters.
pub fn split_white_space(v: &[char]) -> (r: Vec<Vec<char>>)
    ensures
        views(r@) == split_ws(v@),
{
    let mut words: Vec<Vec<char>> = Vec::new();
    let mut cur: Vec<char> = Vec::new();
    let mut i: usize = 0;
    while i < v.len()
        invariant
            i <= v.len(),
            (views(words@), cur@) == split_ws_state(v@.take(i as int)),
        decreases v.len() - i,
    {
        let c = v[i];
        proof {
            assert(v@.take(i + 1).drop_last() == v@.take(i as int));
            assert(v@.take(i + 1).last() == c);
        }
        if char_is_white_space(c) {
            if cur.len() > 0 {
                let w = cur;
                let ghost old_words = words@;
                words.push(w);
                assert(views(words@) == views(old_words).push(w@));
                cur = Vec::new();
            }
        } else {
            cur.push(c);
        }
        i = i + 1;
    }
    assert(v@.take(v@.len() as int) == v@);
    if cur.len() > 0 {
        let ghost old_words = words@;
        let ghost c = cur@;
        words.push(cur);
        assert(views(words@) == views(old_words).push(c));
    }
    words
}

proof fn lemma_decimal_grows(s: Seq<char>, i: int)
    requires
        0 <= i <= s.len(),
        all_digits(s),
    ensures
        decimal_value(s.take(i)) <= decimal_value(s),
    decreases s.len() - i,
{
    if i < s.len() {
        lemma_decimal_grows(s, i + 1);
        assert(s.take(i + 1).drop_last() == s.take(i));
    } else {
        assert(s.take(i) == s);
    }
}

/// Parses a decimal `u32` the way `u32::from_str` does.
pub fn parse_u32_chars(v: &[char]) -> (r: Option<u32>)
    ensures
        r == parse_u32(v@),
{
    let start: usize = if v.len() > 0 && v[0] == '+' {
        1
    } else {
        0
    };
    let ghost digits = if v@.len() > 0 && v@[0] == '+' {
        v@.drop_first()
    } else {
        v@
    };
    assert(digits == v@.skip(start as int));
    if start == v.len() {
        return None;
    }
    let mut i: usize = start;
    while i < v.len()
        invariant
            start <= i <= v.len(),
            digits == v@.skip(start as int),
            digits == (if v@.len() > 0 && v@[0] == '+' { v@.drop_first() } else { v@ }),
            digits.len() > 0,
            all_digits(digits.take(i - start)),
        decreases v.len() - i,
    {
        if !('0' <= v[i] && v[i] <= '9') {
            assert(digits[i - start] == v@[i as int]);
            assert(!all_digits(digits));
            assert(parse_u32(v@) is None);
            return None;
        }
        i = i + 1;
        assert(all_digits(digits.take(i - start))) by {
            assert forall|j: int| 0 <= j < i - start implies '0' <= #[trigger] digits.take(
                i - start,
            )[j] && digits.take(i - start)[j] <= '9' by {
                if j < i - 1 - start {
                    assert(digits.take(i - start)[j] == digits.take(i - 1 - start)[j]);
                }
            }
        }
    }
    assert(digits.take(digits.len() as int) == digits);
    let mut acc: u32 = 0;
    let mut k: usize = start;
    while k < v.len()
        invariant
            start <= k <= v.len(),
            digits == v@.skip(start as int),
            digits == (if v@.len() > 0 && v@[0] == '+' { v@.drop_first() } else { v@ }),
            digits.len() > 0,
            all_digits(digits),
            acc == decimal_value(digits.take(k - start)),
        decreases v.len() - k,
    {
        assert(digits[k - start] == v@[k as int]);
        assert('0' <= digits[k - start] && digits[k - start] <= '9');
        let d: u32 = (v[k] as u32) - ('0' as u32);
        assert(digits.take(k + 1 - start).drop_last() == digits.take(k - start));
        assert(digits.take(k + 1 - start).last() == v@[k as int]);
        assert(decimal_value(digits.take(k + 1 - start)) == acc * 10 + d);
        if acc > 429_496_729 || (acc == 429_496_729 && d > 5) {
            proof {
                lemma_decimal_grows(digits, k + 1 - start);
                assert(decimal_value(digits) > u32::MAX);
                assert(parse_u32(v@) is None);
            }
            return None;
        }
        acc = acc * 10 + d;
        k = k + 1;
    }
    assert(digits.take(digits.len() as int) == digits);
    Some(acc)
}

} // verus!
