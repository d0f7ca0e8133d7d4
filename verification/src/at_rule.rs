//! Variables inside an at-rule prelude (`@media (min-width: @bp)`).
//!
//! A prelude is split into literal text, interpolations `@{name}`, and
//! variables `@name`, each variable possibly followed by a chain of map keys
//! `[key]["quoted"]`. Forms that do not close (`@{x` without `}`, a `[`
//! without `]`) and a lone `@` stay literal text. Evaluating the variables
//! and joining the pieces is left to the caller.

use crate::text::{chars_of, push_char, string_from_range, trim, trim_bounds};
use vstd::prelude::*;

verus! {

/// A key of a map access chain.
#[derive(Debug, Clone, PartialEq, Eq)]
pub enum MapKey {
    /// A quoted key (`["a b"]`), without its quotes
    Quoted(String),
    /// A bare key (`[name]`), trimmed
    Ident(String),
}

/// One piece of a prelude.
#[derive(Debug, Clone, PartialEq, Eq)]
pub enum PreludePiece {
    /// Literal text
    Text(String),
    /// `@{name}`: the trimmed name
    Interpolation(String),
    /// `@name[key]...`: the name and its map keys
    Variable { name: String, keys: Vec<MapKey> },
}

/// A map key as a value.
pub enum KeyView {
    Quoted(Seq<char>),
    Ident(Seq<char>),
}

/// A prelude piece as a value.
pub enum PieceView {
    Text(Seq<char>),
    Interpolation(Seq<char>),
    Variable(Seq<char>, Seq<KeyView>),
}

impl View for MapKey {
    type V = KeyView;

    open spec fn view(&self) -> KeyView {
        match self {
            MapKey::Quoted(s) => KeyView::Quoted(s@),
            MapKey::Ident(s) => KeyView::Ident(s@),
        }
    }
}

/// The values of some map keys.
pub open spec fn keys_view(k: Seq<MapKey>) -> Seq<KeyView> {
    Seq::new(k.len(), |i: int| k[i]@)
}

impl View for PreludePiece {
    type V = PieceView;

    open spec fn view(&self) -> PieceView {
        match self {
            PreludePiece::Text(s) => PieceView::Text(s@),
            PreludePiece::Interpolation(s) => PieceView::Interpolation(s@),
            PreludePiece::Variable { name, keys } => PieceView::Variable(name@, keys_view(keys@)),
        }
    }
}

/// The values of some prelude pieces.
pub open spec fn pieces_view(p: Seq<PreludePiece>) -> Seq<PieceView> {
    Seq::new(p.len(), |i: int| p[i]@)
}

/// Characters of a variable name in a prelude: ASCII letters and digits,
/// `-` and `_`.
pub open spec fn prelude_ident_char(c: char) -> bool {
    ('a' <= c && c <= 'z') || ('A' <= c && c <= 'Z') || ('0' <= c && c <= '9') || c == '-' || c
        == '_'
}

/// The end of the run of name characters starting at `j`.
pub open spec fn ident_end(c: Seq<char>, j: int) -> int
    decreases c.len() - j,
{
    if 0 <= j < c.len() && prelude_ident_char(c[j]) {
        ident_end(c, j + 1)
    } else {
        j
    }
}

/// The first `}` at or after `j` (the length when there is none).
pub open spec fn brace_end(c: Seq<char>, j: int) -> int
    decreases c.len() - j,
{
    if 0 <= j < c.len() && c[j] != '}' {
        brace_end(c, j + 1)
    } else {
        j
    }
}

/// The `]` that closes a map key whose text starts at `k`, skipping quoted
/// text (`quote` is the quote character open at `k`); the length when
/// there is none.
pub open spec fn bracket_end(c: Seq<char>, k: int, quote: Option<char>) -> int
    decreases c.len() - k,
{
    if !(0 <= k < c.len()) {
        k
    } else {
        match quote {
            Some(q) => if c[k] == q {
                bracket_end(c, k + 1, None)
            } else {
                bracket_end(c, k + 1, quote)
            },
            None => if c[k] == '"' || c[k] == '\'' {
                bracket_end(c, k + 1, Some(c[k]))
            } else if c[k] == ']' {
                k
            } else {
                bracket_end(c, k + 1, None)
            },
        }
    }
}

/// The key written between brackets: trimmed, and without its quotes when
/// it is quoted on both ends with the same quote.
pub open spec fn key_of(raw: Seq<char>) -> KeyView {
    let t = trim(raw);
    if t.len() >= 2 && ((t[0] == '"' && t.last() == '"') || (t[0] == '\'' && t.last() == '\'')) {
        KeyView::Quoted(t.subrange(1, t.len() - 1))
    } else {
        KeyView::Ident(t)
    }
}

pub proof fn lemma_ident_end_bounds(c: Seq<char>, j: int)
    requires
        0 <= j <= c.len(),
    ensures
        j <= ident_end(c, j) <= c.len(),
    decreases c.len() - j,
{
    if j < c.len() && prelude_ident_char(c[j]) {
        lemma_ident_end_bounds(c, j + 1);
    }
}

pub proof fn lemma_brace_end_bounds(c: Seq<char>, j: int)
    requires
        0 <= j <= c.len(),
    ensures
        j <= brace_end(c, j) <= c.len(),
    decreases c.len() - j,
{
    if j < c.len() && c[j] != '}' {
        lemma_brace_end_bounds(c, j + 1);
    }
}

pub proof fn lemma_bracket_end_bounds(c: Seq<char>, k: int, quote: Option<char>)
    requires
        0 <= k <= c.len(),
    ensures
        k <= bracket_end(c, k, quote) <= c.len(),
    decreases c.len() - k,
{
    if k < c.len() {
        match quote {
            Some(q) => if c[k] == q {
                lemma_bracket_end_bounds(c, k + 1, None);
            } else {
                lemma_bracket_end_bounds(c, k + 1, quote);
            },
            None => if c[k] == '"' || c[k] == '\'' {
                lemma_bracket_end_bounds(c, k + 1, Some(c[k]));
            } else if c[k] != ']' {
                lemma_bracket_end_bounds(c, k + 1, None);
            },
        }
    }
}

/// The map keys written from `j` on, and where they end: each `[` with its
/// closing `]` gives a key; an unclosed `[` ends the chain before it.
pub open spec fn key_chain(c: Seq<char>, j: int) -> (Seq<KeyView>, int)
    decreases c.len() - j,
{
    if 0 <= j < c.len() && c[j] == '[' {
        let k = bracket_end(c, j + 1, None);
        if k >= c.len() {
            (seq![], j)
        } else {
            proof {
                lemma_bracket_end_bounds(c, j + 1, None);
            }
            let r = key_chain(c, k + 1);
            (seq![key_of(c.subrange(j + 1, k))] + r.0, r.1)
        }
    } else {
        (seq![], j)
    }
}

pub proof fn lemma_key_chain_bounds(c: Seq<char>, j: int)
    requires
        0 <= j <= c.len(),
    ensures
        j <= key_chain(c, j).1 <= c.len(),
    decreases c.len() - j,
{
    if j < c.len() && c[j] == '[' {
        let k = bracket_end(c, j + 1, None);
        lemma_bracket_end_bounds(c, j + 1, None);
        if k < c.len() {
            lemma_key_chain_bounds(c, k + 1);
        }
    }
}

/// `ps` followed by the text `t`, which joins a text piece at its end.
pub open spec fn add_text(ps: Seq<PieceView>, t: Seq<char>) -> Seq<PieceView> {
    if ps.len() > 0 {
        match ps.last() {
            PieceView::Text(s0) => ps.drop_last().push(PieceView::Text(s0 + t)),
            _ => ps.push(PieceView::Text(t)),
        }
    } else {
        ps.push(PieceView::Text(t))
    }
}

/// The pieces of `c` from `i` on, after the pieces `acc` of what comes
/// before.
pub open spec fn scan_pieces(c: Seq<char>, i: int, acc: Seq<PieceView>) -> Seq<PieceView>
    decreases c.len() - i,
{
    if !(0 <= i < c.len()) {
        acc
    } else if c[i] != '@' {
        scan_pieces(c, i + 1, add_text(acc, seq![c[i]]))
    } else if i + 1 < c.len() && c[i + 1] == '{' {
        let j = brace_end(c, i + 2);
        proof {
            lemma_brace_end_bounds(c, i + 2);
        }
        if j >= c.len() {
            scan_pieces(c, i + 1, add_text(acc, seq!['@']))
        } else {
            scan_pieces(c, j + 1, acc.push(PieceView::Interpolation(trim(c.subrange(i + 2, j)))))
        }
    } else {
        let j = ident_end(c, i + 1);
        proof {
            lemma_ident_end_bounds(c, i + 1);
        }
        if j == i + 1 {
            scan_pieces(c, i + 1, add_text(acc, seq!['@']))
        } else {
            let kc = key_chain(c, j);
            proof {
                lemma_key_chain_bounds(c, j);
            }
            scan_pieces(c, kc.1, acc.push(PieceView::Variable(c.subrange(i + 1, j), kc.0)))
        }
    }
}

/// The pieces of a prelude: the whole prelude as one text when it holds no
/// `@`, else the pieces found by scanning it.
pub open spec fn prelude_pieces_spec(p: Seq<char>) -> Seq<PieceView> {
    if !p.contains('@') {
        seq![PieceView::Text(p)]
    } else {
        scan_pieces(p, 0, seq![])
    }
}

fn is_prelude_ident_char(c: char) -> (res: bool)
    ensures
        res == prelude_ident_char(c),
{
    ('a' <= c && c <= 'z') || ('A' <= c && c <= 'Z') || ('0' <= c && c <= '9') || c == '-' || c
        == '_'
}

fn ident_end_exec(c: &Vec<char>, j: usize) -> (res: usize)
    requires
        j <= c@.len(),
    ensures
        res == ident_end(c@, j as int),
{
    let mut k = j;
    while k < c.len() && is_prelude_ident_char(c[k])
        invariant
            j <= k <= c@.len(),
            ident_end(c@, k as int) == ident_end(c@, j as int),
        decreases c@.len() - k,
    {
        k = k + 1;
    }
    k
}

fn brace_end_exec(c: &Vec<char>, j: usize) -> (res: usize)
    requires
        j <= c@.len(),
    ensures
        res == brace_end(c@, j as int),
{
    let mut k = j;
    while k < c.len() && c[k] != '}'
        invariant
            j <= k <= c@.len(),
            brace_end(c@, k as int) == brace_end(c@, j as int),
        decreases c@.len() - k,
    {
        k = k + 1;
    }
    k
}

fn bracket_end_exec(c: &Vec<char>, start: usize) -> (res: usize)
    requires
        start <= c@.len(),
    ensures
        res == bracket_end(c@, start as int, None),
{
    let mut k = start;
    let mut quote: Option<char> = None;
    while k < c.len()
        invariant
            start <= k <= c@.len(),
            bracket_end(c@, k as int, quote) == bracket_end(c@, start as int, None),
        decreases c@.len() - k,
    {
        let ch = c[k];
        match quote {
            Some(q) => {
                if ch == q {
                    quote = None;
                }
            },
            None => {
                if ch == '"' || ch == '\'' {
                    quote = Some(ch);
                } else if ch == ']' {
                    return k;
                }
            },
        }
        k = k + 1;
    }
    k
}

fn key_of_exec(c: &Vec<char>, a: usize, b: usize) -> (res: MapKey)
    requires
        a <= b <= c@.len(),
    ensures
        res@ == key_of(c@.subrange(a as int, b as int)),
{
    let (ta, tb) = trim_bounds(c.as_slice(), a, b);
    let ghost t = trim(c@.subrange(a as int, b as int));
    assert(c@.subrange(ta as int, tb as int) == t);
    if tb - ta >= 2 && ((c[ta] == '"' && c[tb - 1] == '"') || (c[ta] == '\'' && c[tb - 1] == '\'')) {
        assert(t[0] == c@[ta as int] && t.last() == c@[tb - 1]);
        let s = string_from_range(c.as_slice(), ta + 1, tb - 1);
        assert(s@ =~= t.subrange(1, t.len() - 1));
        MapKey::Quoted(s)
    } else {
        proof {
            if t.len() >= 2 {
                assert(t[0] == c@[ta as int] && t.last() == c@[tb - 1]);
            }
        }
        MapKey::Ident(string_from_range(c.as_slice(), ta, tb))
    }
}

fn key_chain_exec(c: &Vec<char>, j0: usize) -> (res: (Vec<MapKey>, usize))
    requires
        j0 <= c@.len(),
    ensures
        keys_view(res.0@) == key_chain(c@, j0 as int).0,
        res.1 == key_chain(c@, j0 as int).1,
{
    let mut keys: Vec<MapKey> = Vec::new();
    let mut j = j0;
    loop
        invariant
            j0 <= j <= c@.len(),
            key_chain(c@, j0 as int).0 == keys_view(keys@) + key_chain(c@, j as int).0,
            key_chain(c@, j0 as int).1 == key_chain(c@, j as int).1,
        decreases c@.len() - j,
    {
        if j < c.len() && c[j] == '[' {
            let k = bracket_end_exec(c, j + 1);
            proof {
                lemma_bracket_end_bounds(c@, j + 1, None);
            }
            if k >= c.len() {
                assert(keys_view(keys@) + key_chain(c@, j as int).0 =~= keys_view(keys@));
                return (keys, j);
            }
            let key = key_of_exec(c, j + 1, k);
            let ghost before = keys_view(keys@);
            keys.push(key);
            proof {
                assert(keys_view(keys@) =~= before.push(key@));
                let r = key_chain(c@, k + 1);
                assert(key_chain(c@, j as int).0 == seq![key_of(c@.subrange(j + 1, k as int))]
                    + r.0);
                assert(before + key_chain(c@, j as int).0 =~= keys_view(keys@) + r.0);
            }
            j = k + 1;
        } else {
            assert(keys_view(keys@) + key_chain(c@, j as int).0 =~= keys_view(keys@));
            return (keys, j);
        }
    }
}

fn add_text_exec(acc: &mut Vec<PreludePiece>, t: &Vec<char>, a: usize, b: usize)
    requires
        a <= b <= t@.len(),
    ensures
        pieces_view(final(acc)@) == add_text(pieces_view(old(acc)@), t@.subrange(a as int, b as int)),
{
    let ghost sub = t@.subrange(a as int, b as int);
    let ghost old_v = pieces_view(acc@);
    let n = acc.len();
    if n > 0 {
        let last = acc.pop().unwrap();
        assert(pieces_view(acc@) =~= old_v.drop_last());
        match last {
            PreludePiece::Text(mut s) => {
                let mut i = a;
                let ghost s0 = s@;
                while i < b
                    invariant
                        a <= i <= b <= t@.len(),
                        s@ == s0 + t@.subrange(a as int, i as int),
                    decreases b - i,
                {
                    push_char(&mut s, t[i]);
                    i = i + 1;
                    assert(s@ =~= s0 + t@.subrange(a as int, i as int));
                }
                acc.push(PreludePiece::Text(s));
                assert(pieces_view(acc@) =~= old_v.drop_last().push(PieceView::Text(s0 + sub)));
            },
            other => {
                acc.push(other);
                acc.push(PreludePiece::Text(string_from_range(t.as_slice(), a, b)));
                assert(pieces_view(acc@) =~= old_v.push(PieceView::Text(sub)));
            },
        }
    } else {
        acc.push(PreludePiece::Text(string_from_range(t.as_slice(), a, b)));
        assert(pieces_view(acc@) =~= old_v.push(PieceView::Text(sub)));
    }
}

fn has_at_sign(c: &Vec<char>) -> (res: bool)
    ensures
        res == c@.contains('@'),
{
    let mut i: usize = 0;
    while i < c.len()
        invariant
            0 <= i <= c@.len(),
            forall|k: int| 0 <= k < i ==> c@[k] != '@',
        decreases c@.len() - i,
    {
        if c[i] == '@' {
            assert(c@[i as int] == '@');
            return true;
        }
        i = i + 1;
    }
    false
}

/// Splits an at-rule prelude into literal text, interpolations and
/// variables with their map keys. A prelude without `@` is one text piece;
/// otherwise it is scanned from the start:
/// - `@{name}` is an interpolation of the trimmed name; without a closing
///   `}` the `@` is literal text;
/// - `@` followed by letters, digits, `-` or `_` is a variable, followed by
///   as many `[key]` as are closed (quotes inside a key may hold `]`);
/// - any other `@`, and every other character, is literal text, and
///   adjacent text forms one piece.
pub fn prelude_pieces(prelude: &str) -> (res: Vec<PreludePiece>)
    ensures
        pieces_view(res@) == prelude_pieces_spec(prelude@),
        !prelude@.contains('@') ==> res@.len() == 1 && res@[0] is Text,
{
    let c = chars_of(prelude);
    if !has_at_sign(&c) {
        let res = vec![PreludePiece::Text(prelude.to_string())];
        assert(pieces_view(res@) =~= seq![PieceView::Text(prelude@)]);
        return res;
    }
    let len = c.len();
    let mut acc: Vec<PreludePiece> = Vec::new();
    assert(pieces_view(acc@) =~= seq![]);
    let mut i: usize = 0;
    while i < len
        invariant
            0 <= i <= len,
            len == c@.len(),
            c@ == prelude@,
            c@.contains('@'),
            scan_pieces(c@, 0, seq![]) == scan_pieces(c@, i as int, pieces_view(acc@)),
        decreases len - i,
    {
        let ghost acc0 = pieces_view(acc@);
        if c[i] != '@' {
            add_text_exec(&mut acc, &c, i, i + 1);
            assert(c@.subrange(i as int, i + 1) =~= seq![c@[i as int]]);
            i = i + 1;
            continue;
        }
        if i + 1 < len && c[i + 1] == '{' {
            let j = brace_end_exec(&c, i + 2);
            proof {
                lemma_brace_end_bounds(c@, i + 2);
            }
            if j >= len {
                add_text_exec(&mut acc, &c, i, i + 1);
                assert(c@.subrange(i as int, i + 1) =~= seq!['@']);
                i = i + 1;
                continue;
            }
            let (a, b) = trim_bounds(c.as_slice(), i + 2, j);
            let name = string_from_range(c.as_slice(), a, b);
            acc.push(PreludePiece::Interpolation(name));
            assert(pieces_view(acc@) =~= acc0.push(
                PieceView::Interpolation(trim(c@.subrange(i + 2, j as int))),
            ));
            i = j + 1;
            continue;
        }
        let j = ident_end_exec(&c, i + 1);
        proof {
            lemma_ident_end_bounds(c@, i + 1);
        }
        if j == i + 1 {
            add_text_exec(&mut acc, &c, i, i + 1);
            assert(c@.subrange(i as int, i + 1) =~= seq!['@']);
            i = i + 1;
            continue;
        }
        let name = string_from_range(c.as_slice(), i + 1, j);
        let (keys, e) = key_chain_exec(&c, j);
        proof {
            lemma_key_chain_bounds(c@, j as int);
        }
        acc.push(PreludePiece::Variable { name, keys });
        assert(pieces_view(acc@) =~= acc0.push(
            PieceView::Variable(c@.subrange(i + 1, j as int), key_chain(c@, j as int).0),
        ));
        i = e;
    }
    acc
}

proof fn lemma_ident_end_all(c: Seq<char>, j: int)
    requires
        0 <= j <= c.len(),
        forall|k: int| j <= k < c.len() ==> prelude_ident_char(#[trigger] c[k]),
    ensures
        ident_end(c, j) == c.len(),
    decreases c.len() - j,
{
    if j < c.len() {
        lemma_ident_end_all(c, j + 1);
    }
}

/// A variable name in a prelude runs over every ASCII letter, digit, `-`
/// and `_`: for every non-empty name `n` made of such characters, the
/// prelude `@n` is one variable piece named `n`, with no map keys.
pub proof fn lemma_prelude_variable_name(n: Seq<char>)
    requires
        n.len() > 0,
        forall|k: int|
            0 <= k < n.len() ==> ('a' <= #[trigger] n[k] && n[k] <= 'z') || ('A' <= n[k] && n[k]
                <= 'Z') || ('0' <= n[k] && n[k] <= '9') || n[k] == '-' || n[k] == '_',
    ensures
        prelude_pieces_spec(seq!['@'] + n) == seq![PieceView::Variable(n, seq![])],
{
    let p = seq!['@'] + n;
    assert(p[0] == '@');
    assert(p.contains('@'));
    assert forall|k: int| 1 <= k < p.len() implies prelude_ident_char(#[trigger] p[k]) by {
        assert(p[k] == n[k - 1]);
    }
    lemma_ident_end_all(p, 1);
    assert(p[1] == n[0]);
    assert(p.subrange(1, p.len() as int) =~= n);
    assert(key_chain(p, p.len() as int) == (Seq::<KeyView>::empty(), p.len() as int));
    assert(scan_pieces(p, p.len() as int, seq![PieceView::Variable(n, seq![])]) == seq![
        PieceView::Variable(n, seq![]),
    ]);
    assert(seq![].push(PieceView::Variable(n, seq![])) =~= seq![PieceView::Variable(n, seq![])]);
}

/// A variable name in a prelude stops at the first other character: for
/// every non-empty name `n` of ASCII letters, digits, `-` and `_`, and every
/// character `x` that is none of these, the prelude `@n` followed by `x` is
/// the variable `n` and then the text `x`.
pub proof fn lemma_prelude_variable_name_ends(n: Seq<char>, x: char)
    requires
        n.len() > 0,
        forall|k: int|
            0 <= k < n.len() ==> ('a' <= #[trigger] n[k] && n[k] <= 'z') || ('A' <= n[k] && n[k]
                <= 'Z') || ('0' <= n[k] && n[k] <= '9') || n[k] == '-' || n[k] == '_',
        !(('a' <= x && x <= 'z') || ('A' <= x && x <= 'Z') || ('0' <= x && x <= '9') || x == '-'
            || x == '_'),
    ensures
        prelude_pieces_spec(seq!['@'] + n + seq![x]) == seq![
            PieceView::Variable(n, seq![]),
            PieceView::Text(seq![x]),
        ],
{
    let p = seq!['@'] + n + seq![x];
    let e: int = n.len() as int + 1;
    assert(p[0] == '@');
    assert(p.contains('@'));
    assert(p[e] == x);
    assert forall|k: int| 1 <= k < e implies prelude_ident_char(#[trigger] p[k]) by {
        assert(p[k] == n[k - 1]);
    }
    assert(ident_end(p, 1) == e) by {
        lemma_ident_end_from(p, 1, e);
    }
    assert(p[1] == n[0]);
    assert(p.subrange(1, e) =~= n);
    if x == '[' {
        assert(bracket_end(p, e + 1, None) == e + 1);
    }
    assert(key_chain(p, e) == (Seq::<KeyView>::empty(), e));
    let acc = seq![PieceView::Variable(n, seq![])];
    assert(seq![].push(PieceView::Variable(n, seq![])) =~= acc);
    if x == '@' {
        assert(ident_end(p, e + 1) == e + 1);
    }
    assert(p.subrange(1, e) == n);
    assert(scan_pieces(p, 0, seq![]) == scan_pieces(p, e, acc));
    assert(scan_pieces(p, e, acc) == scan_pieces(p, e + 1, add_text(acc, seq![x])));
    assert(add_text(acc, seq![x]) =~= acc.push(PieceView::Text(seq![x])));
    assert(scan_pieces(p, e + 1, acc.push(PieceView::Text(seq![x]))) == acc.push(
        PieceView::Text(seq![x]),
    ));
    assert(acc.push(PieceView::Text(seq![x])) =~= seq![
        PieceView::Variable(n, seq![]),
        PieceView::Text(seq![x]),
    ]);
}

proof fn lemma_ident_end_from(c: Seq<char>, j: int, e: int)
    requires
        0 <= j <= e < c.len(),
        forall|k: int| j <= k < e ==> prelude_ident_char(#[trigger] c[k]),
        !prelude_ident_char(c[e]),
    ensures
        ident_end(c, j) == e,
    decreases e - j,
{
    if j < e {
        lemma_ident_end_from(c, j + 1, e);
    }
}

} // verus!
