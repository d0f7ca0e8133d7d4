//! Character-level helpers shared by the lexer, the selector printer and the
//! string utilities.

use vstd::prelude::*;

verus! {

/// Copies the characters of `s` into a vector.
pub fn chars_of(s: &str) -> (res: Vec<char>)
    ensures
        res@ == s@,
{
    let mut res: Vec<char> = Vec::new();
    for c in it: s.chars()
        invariant
            res@ == it.seq().take(it.index() as int),
    {
        res.push(c);
    }
    res
}

/// Appends one character to a string (`String::push`).
#[verifier::external_body]
pub(crate) fn push_char(s: &mut String, c: char)
    ensures
        final(s)@ == old(s)@.push(c),
{
    s.push(c);
}

/// Appends a string slice.
pub fn push_str(s: &mut String, t: &str)
    ensures
        final(s)@ == old(s)@ + t@,
{
    s.append(t);
}

/// Builds a string from a slice of characters.
pub fn string_from_chars(cs: &[char]) -> (res: String)
    ensures
        res@ == cs@,
{
    let mut res = String::new();
    let mut i: usize = 0;
    while i < cs.len()
        invariant
            0 <= i <= cs.len(),
            res@ == cs@.take(i as int),
        decreases cs.len() - i,
    {
        push_char(&mut res, cs[i]);
        i = i + 1;
        assert(res@ =~= cs@.take(i as int));
    }
    assert(cs@.take(cs.len() as int) =~= cs@);
    res
}

/// Whether two string slices hold the same characters.
pub fn str_eq(a: &str, b: &str) -> (res: bool)
    ensures
        res == (a@ == b@),
{
    let ca = chars_of(a);
    let cb = chars_of(b);
    chars_eq(ca.as_slice(), cb.as_slice())
}

/// Whether two character slices are equal.
pub fn chars_eq(a: &[char], b: &[char]) -> (res: bool)
    ensures
        res == (a@ == b@),
{
    if a.len() != b.len() {
        return false;
    }
    let mut i: usize = 0;
    while i < a.len()
        invariant
            a.len() == b.len(),
            0 <= i <= a.len(),
            forall|k: int| 0 <= k < i ==> a@[k] == b@[k],
        decreases a.len() - i,
    {
        if a[i] != b[i] {
            assert(a@[i as int] != b@[i as int]);
            return false;
        }
        i = i + 1;
    }
    assert(a@ =~= b@);
    true
}

/// Builds a string from the characters `cs[start..end]`.
pub fn string_from_range(cs: &[char], start: usize, end: usize) -> (res: String)
    requires
        start <= end <= cs.len(),
    ensures
        res@ == cs@.subrange(start as int, end as int),
{
    let mut res = String::new();
    let mut i: usize = start;
    while i < end
        invariant
            start <= i <= end <= cs.len(),
            res@ == cs@.subrange(start as int, i as int),
        decreases end - i,
    {
        push_char(&mut res, cs[i]);
        i = i + 1;
        assert(res@ =~= cs@.subrange(start as int, i as int));
    }
    res
}

/// Copies a string (`String::clone` keeps the characters).
pub fn copy_string(s: &String) -> (res: String)
    ensures
        res@ == s@,
{
    s.clone()
}

/// The decimal digits of a natural number.
pub open spec fn decimal(n: nat) -> Seq<char>
    decreases n,
{
    if n < 10 {
        seq![digit_char(n)]
    } else {
        decimal(n / 10).push(digit_char(n % 10))
    }
}

/// The ASCII digit for a value below ten.
pub open spec fn digit_char(d: nat) -> char {
    if d == 0 { '0' }
    else if d == 1 { '1' }
    else if d == 2 { '2' }
    else if d == 3 { '3' }
    else if d == 4 { '4' }
    else if d == 5 { '5' }
    else if d == 6 { '6' }
    else if d == 7 { '7' }
    else if d == 8 { '8' }
    else { '9' }
}

fn digit_to_char(d: usize) -> (c: char)
    requires
        d < 10,
    ensures
        c == digit_char(d as nat),
{
    if d == 0 { '0' }
    else if d == 1 { '1' }
    else if d == 2 { '2' }
    else if d == 3 { '3' }
    else if d == 4 { '4' }
    else if d == 5 { '5' }
    else if d == 6 { '6' }
    else if d == 7 { '7' }
    else if d == 8 { '8' }
    else { '9' }
}

/// Writes `n` in decimal.
pub fn usize_to_decimal(n: usize) -> (res: String)
    ensures
        res@ == decimal(n as nat),
    decreases n,
{
    if n < 10 {
        let mut s = String::new();
        push_char(&mut s, digit_to_char(n));
        assert(s@ =~= seq![digit_char(n as nat)]);
        s
    } else {
        let mut s = usize_to_decimal(n / 10);
        push_char(&mut s, digit_to_char(n % 10));
        s
    }
}


/// The Unicode `White_Space` property of a character: tab through carriage
/// return, space, next line, no-break space, ogham space mark, the spaces
/// U+2000 to U+200A, line and paragraph separators, narrow no-break space,
/// medium mathematical space and ideographic space.
pub open spec fn white_space(c: char) -> bool {
    let u = c as u32;
    (0x9 <= u && u <= 0xD) || u == 0x20 || u == 0x85 || u == 0xA0 || u == 0x1680 || (0x2000 <= u
        && u <= 0x200A) || u == 0x2028 || u == 0x2029 || u == 0x202F || u == 0x205F || u == 0x3000
}

/// The Unicode `Alphabetic` property of a character.
pub uninterp spec fn alphabetic(c: char) -> bool;

/// Whether a character is alphabetic or numeric in the Unicode sense.
pub uninterp spec fn alphanumeric(c: char) -> bool;

/// ASCII white space in the Unicode sense: tab, line feed, vertical tab,
/// form feed, carriage return and space.
pub open spec fn ascii_white_space(c: char) -> bool {
    ('\t' <= c && c <= '\r') || c == ' '
}

/// ASCII letters.
pub open spec fn ascii_letter(c: char) -> bool {
    ('a' <= c && c <= 'z') || ('A' <= c && c <= 'Z')
}

/// `char::is_whitespace`: whether the character has the Unicode
/// `White_Space` property, as its documentation says (`white_space` lists
/// the characters that have it); on ASCII that is tab through carriage
/// return and space.
#[verifier::external_body]
pub(crate) fn is_whitespace(c: char) -> (res: bool)
    ensures
        res == white_space(c),
        (c as u32) < 128 ==> (res <==> ascii_white_space(c)),
{
    c.is_whitespace()
}

/// `char::is_alphabetic`. The contract claims that the answer is a property
/// of the character alone (`alphabetic(c)`) and that among ASCII characters
/// exactly the letters have it.
#[verifier::external_body]
pub(crate) fn is_alphabetic(c: char) -> (res: bool)
    ensures
        res == alphabetic(c),
        (c as u32) < 128 ==> (res <==> ascii_letter(c)),
{
    c.is_alphabetic()
}

/// `char::is_alphanumeric`. The contract claims that the answer is a property
/// of the character alone (`alphanumeric(c)`), that every alphabetic
/// character has it ("alphabetic or numeric", as its documentation says), and
/// that among ASCII characters exactly the letters and digits have it.
#[verifier::external_body]
pub(crate) fn is_alphanumeric(c: char) -> (res: bool)
    ensures
        res == alphanumeric(c),
        alphabetic(c) ==> res,
        (c as u32) < 128 ==> (res <==> ascii_letter(c) || ('0' <= c && c <= '9')),
{
    c.is_alphanumeric()
}

/// ASCII decimal digit.
pub open spec fn is_digit_spec(c: char) -> bool {
    '0' <= c && c <= '9'
}

/// Number of leading white-space characters.
pub open spec fn lead_ws(s: Seq<char>) -> nat
    decreases s.len(),
{
    if s.len() > 0 && white_space(s[0]) {
        1 + lead_ws(s.drop_first())
    } else {
        0
    }
}

/// Number of trailing white-space characters.
pub open spec fn trail_ws(s: Seq<char>) -> nat
    decreases s.len(),
{
    if s.len() > 0 && white_space(s.last()) {
        1 + trail_ws(s.drop_last())
    } else {
        0
    }
}

proof fn lemma_lead_ws_bound(s: Seq<char>)
    ensures
        lead_ws(s) <= s.len(),
    decreases s.len(),
{
    if s.len() > 0 && white_space(s[0]) {
        lemma_lead_ws_bound(s.drop_first());
    }
}

proof fn lemma_trail_ws_bound(s: Seq<char>)
    ensures
        trail_ws(s) <= s.len(),
    decreases s.len(),
{
    if s.len() > 0 && white_space(s.last()) {
        lemma_trail_ws_bound(s.drop_last());
    }
}

/// Trimming never lengthens a string.
pub proof fn lemma_trim_len(s: Seq<char>)
    ensures
        trim(s).len() <= s.len(),
{
    lemma_lead_ws_bound(s);
    lemma_trail_ws_bound(trim_start(s));
}

proof fn lemma_lead_ws_stop(s: Seq<char>)
    ensures
        lead_ws(s) <= s.len(),
        lead_ws(s) < s.len() ==> !white_space(s[lead_ws(s) as int]),
    decreases s.len(),
{
    if s.len() > 0 && white_space(s[0]) {
        lemma_lead_ws_stop(s.drop_first());
    }
}

proof fn lemma_trail_ws_stop(s: Seq<char>)
    ensures
        trail_ws(s) <= s.len(),
        trail_ws(s) < s.len() ==> !white_space(s[s.len() - 1 - trail_ws(s)]),
    decreases s.len(),
{
    if s.len() > 0 && white_space(s.last()) {
        lemma_trail_ws_stop(s.drop_last());
    }
}

/// Trimming twice is trimming once.
pub proof fn lemma_trim_idempotent(s: Seq<char>)
    ensures
        trim(trim(s)) == trim(s),
{
    let u = trim_start(s);
    lemma_lead_ws_stop(s);
    lemma_trail_ws_stop(u);
    let t = trim(s);
    assert(t.len() > 0 ==> t[0] == u[0]);
    assert(lead_ws(t) == 0);
    assert(trim_start(t) =~= t);
    assert(t.len() > 0 ==> t.last() == u[u.len() - 1 - trail_ws(u)]);
    assert(trail_ws(t) == 0);
    assert(trim_end(t) =~= t);
}

/// `s` without leading white space (`str::trim_start`).
pub open spec fn trim_start(s: Seq<char>) -> Seq<char> {
    s.skip(lead_ws(s) as int)
}

/// `s` without trailing white space (`str::trim_end`).
pub open spec fn trim_end(s: Seq<char>) -> Seq<char> {
    s.take(s.len() - trail_ws(s))
}

/// `s` without leading and trailing white space (`str::trim`).
pub open spec fn trim(s: Seq<char>) -> Seq<char> {
    trim_end(trim_start(s))
}

/// The bounds `(i, j)` of the trimmed part of `cs[a..b]`: leading white space
/// ends at `i`, and `cs[i..j]` is the trimmed text.
pub fn trim_bounds(cs: &[char], a: usize, b: usize) -> (res: (usize, usize))
    requires
        a <= b <= cs.len(),
    ensures
        a <= res.0 <= res.1 <= b,
        res.0 == a + lead_ws(cs@.subrange(a as int, b as int)),
        cs@.subrange(res.0 as int, b as int) == trim_start(cs@.subrange(a as int, b as int)),
        cs@.subrange(res.0 as int, res.1 as int) == trim(cs@.subrange(a as int, b as int)),
{
    let ghost sub = cs@.subrange(a as int, b as int);
    let mut i = a;
    while i < b && is_whitespace(cs[i])
        invariant
            a <= i <= b <= cs.len(),
            sub == cs@.subrange(a as int, b as int),
            lead_ws(sub) == (i - a) + lead_ws(cs@.subrange(i as int, b as int)),
        decreases b - i,
    {
        proof {
            let r = cs@.subrange(i as int, b as int);
            assert(r.drop_first() =~= cs@.subrange(i + 1, b as int));
        }
        i = i + 1;
    }
    proof {
        let r = cs@.subrange(i as int, b as int);
        assert(lead_ws(r) == 0);
        lemma_lead_ws_bound(sub);
        assert(trim_start(sub) =~= r);
    }
    let ghost ts = cs@.subrange(i as int, b as int);
    let mut j = b;
    while j > i && is_whitespace(cs[j - 1])
        invariant
            a <= i <= j <= b <= cs.len(),
            ts == cs@.subrange(i as int, b as int),
            trail_ws(ts) == (b - j) + trail_ws(cs@.subrange(i as int, j as int)),
        decreases j - i,
    {
        proof {
            let r = cs@.subrange(i as int, j as int);
            assert(r.drop_last() =~= cs@.subrange(i as int, j - 1));
        }
        j = j - 1;
    }
    proof {
        assert(trail_ws(cs@.subrange(i as int, j as int)) == 0);
        lemma_trail_ws_bound(ts);
        assert(trim_end(ts) =~= cs@.subrange(i as int, j as int));
    }
    (i, j)
}

/// Trims a string (`str::trim`).
pub fn trim_string(s: &str) -> (res: String)
    ensures
        res@ == trim(s@),
{
    let cs = chars_of(s);
    let (i, j) = trim_bounds(cs.as_slice(), 0, cs.len());
    proof {
        assert(cs@.subrange(0, cs@.len() as int) =~= s@);
    }
    string_from_range(cs.as_slice(), i, j)
}

} // verus!
