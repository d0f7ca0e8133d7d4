//! The `:extend` machinery: a registry of extend relationships, the
//! resolution of nested selectors, and the string-level rewriting of
//! selectors (`&` replacement, target matching and replacement).

use crate::ast::Selector;
use crate::text::{
    chars_eq, chars_of, copy_string, push_char, push_str, string_from_range, trim, trim_bounds,
    trim_start, trim_string, lead_ws,
};
use vstd::prelude::*;

verus! {

// ---------------------------------------------------------------------------
// Parent-reference replacement
// ---------------------------------------------------------------------------

/// Scanner state of `replace_parent_refs`.
#[derive(Debug, Clone, Copy, PartialEq, Eq, Structural)]
pub enum RefMode {
    /// Outside strings and attribute selectors
    Normal,
    /// Inside a string opened by the given quote
    Quote(char),
    /// Inside a string, right after a backslash
    QuoteEscape(char),
    /// Inside an attribute selector, outside quotes
    Attr,
    /// Inside a quoted value of an attribute selector
    AttrQuote(char),
    /// Right after a backslash outside strings
    Escape,
}

/// One step of the `&` replacement: what a character produces and the next state.
pub open spec fn rpr_step(m: RefMode, c: char, parent: Seq<char>) -> (Seq<char>, RefMode) {
    match m {
        RefMode::Normal => if c == '"' || c == '\'' {
            (seq![c], RefMode::Quote(c))
        } else if c == '[' {
            (seq![c], RefMode::Attr)
        } else if c == '\\' {
            (seq![c], RefMode::Escape)
        } else if c == '&' {
            (parent, RefMode::Normal)
        } else {
            (seq![c], RefMode::Normal)
        },
        RefMode::Quote(q) => (seq![c], if c == '\\' {
            RefMode::QuoteEscape(q)
        } else if c == q {
            RefMode::Normal
        } else {
            RefMode::Quote(q)
        }),
        RefMode::QuoteEscape(q) => (seq![c], RefMode::Quote(q)),
        RefMode::Attr => (seq![c], if c == '"' || c == '\'' {
            RefMode::AttrQuote(c)
        } else if c == ']' {
            RefMode::Normal
        } else {
            RefMode::Attr
        }),
        RefMode::AttrQuote(q) => (seq![c], if c == q {
            RefMode::Attr
        } else {
            RefMode::AttrQuote(q)
        }),
        RefMode::Escape => (seq![c], RefMode::Normal),
    }
}

/// The output of the `&` replacement on `s`, starting in state `m`.
pub open spec fn rpr_run(s: Seq<char>, parent: Seq<char>, m: RefMode) -> Seq<char>
    decreases s.len(),
{
    if s.len() == 0 {
        seq![]
    } else {
        let (o, m2) = rpr_step(m, s[0], parent);
        o + rpr_run(s.drop_first(), parent, m2)
    }
}

/// `selector` with every parent reference `&` replaced by `parent`.
pub open spec fn spec_replace_parent_refs(selector: Seq<char>, parent: Seq<char>) -> Seq<char> {
    rpr_run(selector, parent, RefMode::Normal)
}

fn rpr_step_exec(m: RefMode, c: char) -> (res: (bool, RefMode))
    ensures
        res.1 == rpr_step(m, c, seq![]).1,
        res.0 == (m is Normal && c == '&'),
{
    match m {
        RefMode::Normal => if c == '"' || c == '\'' {
            (false, RefMode::Quote(c))
        } else if c == '[' {
            (false, RefMode::Attr)
        } else if c == '\\' {
            (false, RefMode::Escape)
        } else if c == '&' {
            (true, RefMode::Normal)
        } else {
            (false, RefMode::Normal)
        },
        RefMode::Quote(q) => (false, if c == '\\' {
            RefMode::QuoteEscape(q)
        } else if c == q {
            RefMode::Normal
        } else {
            RefMode::Quote(q)
        }),
        RefMode::QuoteEscape(q) => (false, RefMode::Quote(q)),
        RefMode::Attr => (false, if c == '"' || c == '\'' {
            RefMode::AttrQuote(c)
        } else if c == ']' {
            RefMode::Normal
        } else {
            RefMode::Attr
        }),
        RefMode::AttrQuote(q) => (false, if c == q {
            RefMode::Attr
        } else {
            RefMode::AttrQuote(q)
        }),
        RefMode::Escape => (false, RefMode::Normal),
    }
}

/// Replaces each parent reference `&` in `selector` by `parent`, skipping
/// `&` inside quoted strings and attribute selectors; `\&` stays literal.
pub fn replace_parent_refs(selector: &str, parent: &str) -> (res: String)
    ensures
        res@ == spec_replace_parent_refs(selector@, parent@),
{
    let cs = chars_of(selector);
    let mut out = String::new();
    let mut mode = RefMode::Normal;
    let mut i: usize = 0;
    proof {
        assert(cs@.skip(0) =~= cs@);
        assert(out@ + rpr_run(cs@, parent@, mode) =~= rpr_run(cs@, parent@, mode));
    }
    while i < cs.len()
        invariant
            0 <= i <= cs@.len(),
            cs@ == selector@,
            out@ + rpr_run(cs@.skip(i as int), parent@, mode) == spec_replace_parent_refs(
                selector@,
                parent@,
            ),
        decreases cs.len() - i,
    {
        let c = cs[i];
        let (is_ref, next) = rpr_step_exec(mode, c);
        let ghost old_out = out@;
        let ghost rest = cs@.skip(i as int);
        if is_ref {
            push_str(&mut out, parent);
        } else {
            push_char(&mut out, c);
        }
        proof {
            assert(rest.drop_first() =~= cs@.skip(i + 1));
            assert(rest[0] == c);
            let (o, m2) = rpr_step(mode, c, parent@);
            assert(m2 == next);
            assert(out@ == old_out + o);
            assert(rpr_run(rest, parent@, mode) == o + rpr_run(cs@.skip(i + 1), parent@, next));
            assert(out@ + rpr_run(cs@.skip(i + 1), parent@, next) =~= old_out + rpr_run(
                rest,
                parent@,
                mode,
            ));
        }
        mode = next;
        i = i + 1;
    }
    proof {
        assert(cs@.skip(i as int) =~= seq![]);
        assert(out@ + seq![] =~= out@);
    }
    out
}

/// Replacing parent references by `&` itself leaves any selector unchanged.
pub proof fn lemma_replace_parent_refs_with_ampersand(s: Seq<char>, m: RefMode)
    ensures
        rpr_run(s, seq!['&'], m) == s,
    decreases s.len(),
{
    if s.len() > 0 {
        let (o, m2) = rpr_step(m, s[0], seq!['&']);
        lemma_replace_parent_refs_with_ampersand(s.drop_first(), m2);
        assert(o == seq![s[0]]);
        assert(s =~= seq![s[0]] + s.drop_first());
    }
}

/// A selector without any `&` is left unchanged, whatever the parent.
pub proof fn lemma_replace_parent_refs_without_ampersand(s: Seq<char>, parent: Seq<char>, m: RefMode)
    requires
        forall|i: int| 0 <= i < s.len() ==> s[i] != '&',
    ensures
        rpr_run(s, parent, m) == s,
    decreases s.len(),
{
    if s.len() > 0 {
        let (o, m2) = rpr_step(m, s[0], parent);
        lemma_replace_parent_refs_without_ampersand(s.drop_first(), parent, m2);
        assert(o == seq![s[0]]);
        assert(s =~= seq![s[0]] + s.drop_first());
    }
}


// ---------------------------------------------------------------------------
// Structural matching of extend targets
// ---------------------------------------------------------------------------

/// Characters that separate compound selectors: space, `>`, `+` and `~`.
pub open spec fn is_comb(c: char) -> bool {
    c == ' ' || c == '>' || c == '+' || c == '~'
}

fn is_comb_exec(c: char) -> (res: bool)
    ensures
        res == is_comb(c),
{
    c == ' ' || c == '>' || c == '+' || c == '~'
}

/// The views of a sequence of strings.
pub open spec fn strings_view(v: Seq<String>) -> Seq<Seq<char>> {
    Seq::new(v.len(), |k: int| v[k]@)
}

/// Appends `t` to `d` unless it is empty.
pub open spec fn push_nonempty(d: Seq<Seq<char>>, t: Seq<char>) -> Seq<Seq<char>> {
    if t.len() > 0 {
        d.push(t)
    } else {
        d
    }
}

/// Scanning state of the split after reading `s`: the trimmed compound
/// parts completed so far and the characters of the current part.
pub open spec fn split_scan(s: Seq<char>) -> (Seq<Seq<char>>, Seq<char>)
    decreases s.len(),
{
    if s.len() == 0 {
        (seq![], seq![])
    } else {
        let (d, cur) = split_scan(s.drop_last());
        if is_comb(s.last()) {
            (push_nonempty(d, trim(cur)), seq![])
        } else {
            (d, cur.push(s.last()))
        }
    }
}

/// The compound parts of `s`: the maximal runs of non-combinator
/// characters, trimmed, with empty ones left out.
pub open spec fn spec_split_by_combinators(s: Seq<char>) -> Seq<Seq<char>> {
    let (d, cur) = split_scan(s);
    push_nonempty(d, trim(cur))
}

/// Splits a selector into its trimmed, non-empty compound parts at the
/// combinators (space, `>`, `+`, `~`).
pub fn split_by_combinators(selector: &str) -> (res: Vec<String>)
    ensures
        strings_view(res@) == spec_split_by_combinators(selector@),
{
    let cs = chars_of(selector);
    let mut done: Vec<String> = Vec::new();
    let mut start: usize = 0;
    let mut i: usize = 0;
    proof {
        assert(cs@.take(0) =~= seq![]);
        assert(strings_view(done@) =~= seq![]);
        assert(cs@.subrange(0, 0) =~= seq![]);
    }
    while i < cs.len()
        invariant
            cs@ == selector@,
            0 <= start <= i <= cs@.len(),
            split_scan(cs@.take(i as int)) == (strings_view(done@), cs@.subrange(
                start as int,
                i as int,
            )),
        decreases cs.len() - i,
    {
        proof {
            assert(cs@.take(i + 1).drop_last() =~= cs@.take(i as int));
            assert(cs@.take(i + 1).last() == cs@[i as int]);
        }
        if is_comb_exec(cs[i]) {
            let (a, b) = trim_bounds(cs.as_slice(), start, i);
            if b > a {
                let piece = string_from_range(cs.as_slice(), a, b);
                done.push(piece);
            }
            proof {
                assert(strings_view(done@) =~= push_nonempty(
                    split_scan(cs@.take(i as int)).0,
                    trim(cs@.subrange(start as int, i as int)),
                ));
            }
            start = i + 1;
            proof {
                assert(cs@.subrange(start as int, i + 1) =~= seq![]);
            }
        } else {
            proof {
                assert(cs@.subrange(start as int, i + 1) =~= cs@.subrange(
                    start as int,
                    i as int,
                ).push(cs@[i as int]));
            }
        }
        i = i + 1;
    }
    let (a, b) = trim_bounds(cs.as_slice(), start, cs.len());
    if b > a {
        let piece = string_from_range(cs.as_slice(), a, b);
        done.push(piece);
    }
    proof {
        assert(cs@.take(cs@.len() as int) =~= cs@);
        assert(strings_view(done@) =~= spec_split_by_combinators(selector@));
    }
    done
}

/// Characters that may follow a simple selector inside a compound one.
pub open spec fn is_compound_boundary(c: char) -> bool {
    c == '.' || c == '#' || c == ':' || c == '['
}

/// Whether `target` is a structural sub-selector of the compound selector
/// `c`: equal to it, or a prefix of it followed by `.`, `#`, `:` or `[`.
pub open spec fn spec_compound_contains_simple(c: Seq<char>, target: Seq<char>) -> bool {
    ||| c == target
    ||| (target.len() <= c.len() && c.take(target.len() as int) == target && (c.len()
        == target.len() || is_compound_boundary(c[target.len() as int])))
}

fn ccs_range(cs: &[char], i: usize, j: usize, t: &[char]) -> (res: bool)
    requires
        i <= j <= cs.len(),
    ensures
        res == spec_compound_contains_simple(cs@.subrange(i as int, j as int), t@),
{
    let ghost c = cs@.subrange(i as int, j as int);
    let n = j - i;
    if t.len() > n {
        proof {
            assert(c.len() != t@.len());
        }
        return false;
    }
    let mut k: usize = 0;
    while k < t.len()
        invariant
            i <= j <= cs.len(),
            n == j - i,
            t.len() <= n,
            c == cs@.subrange(i as int, j as int),
            0 <= k <= t.len(),
            forall|m: int| 0 <= m < k ==> c[m] == t@[m],
        decreases t.len() - k,
    {
        if cs[i + k] != t[k] {
            proof {
                assert(c[k as int] != t@[k as int]);
                assert(c.take(t@.len() as int)[k as int] != t@[k as int]);
            }
            return false;
        }
        k = k + 1;
    }
    proof {
        assert(c.take(t@.len() as int) =~= t@);
    }
    if n == t.len() {
        proof {
            assert(c =~= t@);
        }
        return true;
    }
    let nc = cs[i + t.len()];
    nc == '.' || nc == '#' || nc == ':' || nc == '['
}

/// Whether `target` is a structural sub-selector of the compound selector:
/// `.a` matches `.a`, `.a:hover` and `.a.b`, but not `.ab`.
pub fn compound_contains_simple(compound: &str, target: &str) -> (res: bool)
    ensures
        res == spec_compound_contains_simple(compound@, target@),
{
    let c = chars_of(compound);
    let t = chars_of(target);
    proof {
        assert(c@.subrange(0, c@.len() as int) =~= c@);
    }
    ccs_range(c.as_slice(), 0, c.len(), t.as_slice())
}

/// Whether some compound part of `selector` structurally contains `target`.
pub open spec fn spec_selector_contains_target(selector: Seq<char>, target: Seq<char>) -> bool {
    let parts = spec_split_by_combinators(selector);
    exists|k: int|
        0 <= k < parts.len() && trim(parts[k]).len() > 0 && spec_compound_contains_simple(
            #[trigger] trim(parts[k]),
            target,
        )
}

/// Whether `selector` contains `target` at a selector-part boundary
/// (so `.b` is not found in `.button`).
pub fn selector_contains_target(selector: &str, target: &str) -> (res: bool)
    ensures
        res == spec_selector_contains_target(selector@, target@),
{
    let parts = split_by_combinators(selector);
    let ghost p = spec_split_by_combinators(selector@);
    let mut k: usize = 0;
    while k < parts.len()
        invariant
            strings_view(parts@) == p,
            p == spec_split_by_combinators(selector@),
            0 <= k <= parts@.len(),
            forall|m: int|
                0 <= m < k ==> !(trim(p[m]).len() > 0 && spec_compound_contains_simple(
                    #[trigger] trim(p[m]),
                    target@,
                )),
        decreases parts.len() - k,
    {
        let compound = trim_string(parts[k].as_str());
        proof {
            assert(p[k as int] == parts@[k as int]@);
        }
        let cc = chars_of(compound.as_str());
        if cc.len() > 0 && compound_contains_simple(compound.as_str(), target) {
            return true;
        }
        k = k + 1;
    }
    false
}

/// What a compound part becomes in `replace_selector_target`: when its
/// trimmed form contains the target, the leading white space is kept and
/// the target (a prefix of the trimmed part, hence its first occurrence) is
/// replaced; the trailing white space is dropped. Otherwise the part is kept.
pub open spec fn part_out(part: Seq<char>, target: Seq<char>, replacement: Seq<char>) -> Seq<
    char,
> {
    let tr = trim(part);
    if tr.len() > 0 && spec_compound_contains_simple(tr, target) {
        part.take(lead_ws(part) as int) + replacement + tr.skip(target.len() as int)
    } else {
        part
    }
}

/// Scanning state of the target replacement after reading `s`: output so far
/// and the characters of the current compound part.
pub open spec fn rst_scan(s: Seq<char>, target: Seq<char>, replacement: Seq<char>) -> (
    Seq<char>,
    Seq<char>,
)
    decreases s.len(),
{
    if s.len() == 0 {
        (seq![], seq![])
    } else {
        let (o, cur) = rst_scan(s.drop_last(), target, replacement);
        if is_comb(s.last()) {
            (o + part_out(cur, target, replacement) + seq![s.last()], seq![])
        } else {
            (o, cur.push(s.last()))
        }
    }
}

/// The selector with the target replaced in every compound part that
/// contains it; combinators are copied as they are.
pub open spec fn spec_replace_selector_target(
    selector: Seq<char>,
    target: Seq<char>,
    replacement: Seq<char>,
) -> Seq<char> {
    let (o, cur) = rst_scan(selector, target, replacement);
    o + part_out(cur, target, replacement)
}

proof fn lemma_ccs_prefix(c: Seq<char>, t: Seq<char>)
    requires
        spec_compound_contains_simple(c, t),
    ensures
        t.len() <= c.len(),
        c.take(t.len() as int) == t,
{
    if c == t {
        assert(c.take(t.len() as int) =~= t);
    }
}

fn part_out_exec(cs: &[char], a: usize, b: usize, t: &[char], r: &str) -> (res: String)
    requires
        a <= b <= cs.len(),
    ensures
        res@ == part_out(cs@.subrange(a as int, b as int), t@, r@),
{
    let ghost part = cs@.subrange(a as int, b as int);
    let (i, j) = trim_bounds(cs, a, b);
    if j > i && ccs_range(cs, i, j, t) {
        proof {
            lemma_ccs_prefix(cs@.subrange(i as int, j as int), t@);
        }
        let mut out = string_from_range(cs, a, i);
        push_str(&mut out, r);
        let tail = string_from_range(cs, i + t.len(), j);
        push_str(&mut out, tail.as_str());
        proof {
            assert(part.take(lead_ws(part) as int) =~= cs@.subrange(a as int, i as int));
            assert(trim(part).skip(t@.len() as int) =~= cs@.subrange(i + t@.len(), j as int));
        }
        out
    } else {
        string_from_range(cs, a, b)
    }
}

/// Replaces `target` by `replacement` in every compound part of `selector`
/// that structurally contains it (see `compound_contains_simple`).
pub fn replace_selector_target(selector: &str, target: &str, replacement: &str) -> (res: String)
    ensures
        res@ == spec_replace_selector_target(selector@, target@, replacement@),
{
    let cs = chars_of(selector);
    let t = chars_of(target);
    let mut out = String::new();
    let mut start: usize = 0;
    let mut i: usize = 0;
    proof {
        assert(cs@.take(0) =~= seq![]);
        assert(cs@.subrange(0, 0) =~= seq![]);
    }
    while i < cs.len()
        invariant
            cs@ == selector@,
            t@ == target@,
            0 <= start <= i <= cs@.len(),
            rst_scan(cs@.take(i as int), target@, replacement@) == (out@, cs@.subrange(
                start as int,
                i as int,
            )),
        decreases cs.len() - i,
    {
        proof {
            assert(cs@.take(i + 1).drop_last() =~= cs@.take(i as int));
            assert(cs@.take(i + 1).last() == cs@[i as int]);
        }
        if is_comb_exec(cs[i]) {
            let piece = part_out_exec(cs.as_slice(), start, i, t.as_slice(), replacement);
            push_str(&mut out, piece.as_str());
            push_char(&mut out, cs[i]);
            start = i + 1;
            proof {
                assert(cs@.subrange(start as int, i + 1) =~= seq![]);
            }
        } else {
            proof {
                assert(cs@.subrange(start as int, i + 1) =~= cs@.subrange(
                    start as int,
                    i as int,
                ).push(cs@[i as int]));
            }
        }
        i = i + 1;
    }
    let piece = part_out_exec(cs.as_slice(), start, cs.len(), t.as_slice(), replacement);
    push_str(&mut out, piece.as_str());
    proof {
        assert(cs@.take(cs@.len() as int) =~= cs@);
    }
    out
}


// ---------------------------------------------------------------------------
// The registry
// ---------------------------------------------------------------------------

/// An extend record: the extending selectors and whether `all` was given.
pub type ExtendItem = (Seq<Seq<char>>, bool);

/// The registry's contents: one entry per extended selector, holding its
/// extend records in the order they were added.
pub type ExtendEntries = Seq<(Seq<char>, Seq<ExtendItem>)>;

/// The view of one stored extend record.
pub open spec fn item_view(i: (Vec<String>, bool)) -> ExtendItem {
    (strings_view(i.0@), i.1)
}

/// The view of a stored list of extend records.
pub open spec fn list_view(l: Seq<(Vec<String>, bool)>) -> Seq<ExtendItem> {
    Seq::new(l.len(), |k: int| item_view(l[k]))
}

/// The view of the stored entries.
pub open spec fn entries_view(e: Seq<(String, Vec<(Vec<String>, bool)>)>) -> ExtendEntries {
    Seq::new(e.len(), |k: int| (e[k].0@, list_view(e[k].1@)))
}

/// No extended selector has two entries.
pub open spec fn keys_distinct(e: ExtendEntries) -> bool {
    forall|i: int, j: int| 0 <= i < e.len() && 0 <= j < e.len() && i != j ==> e[i].0 != e[j].0
}

/// Whether `key` has an entry.
pub open spec fn has_key(e: ExtendEntries, key: Seq<char>) -> bool {
    exists|k: int| 0 <= k < e.len() && e[k].0 == key
}

/// The index of the entry of `key` (meaningful when `has_key`).
pub open spec fn key_pos(e: ExtendEntries, key: Seq<char>) -> int {
    choose|k: int| 0 <= k < e.len() && e[k].0 == key
}

/// The entries after recording `item` under `key`.
pub open spec fn with_extend(e: ExtendEntries, key: Seq<char>, item: ExtendItem) -> ExtendEntries {
    if has_key(e, key) {
        let k = key_pos(e, key);
        e.update(k, (key, e[k].1.push(item)))
    } else {
        e.push((key, seq![item]))
    }
}

/// All extending selectors of a list of records, in order.
pub open spec fn flatten_items(l: Seq<ExtendItem>) -> Seq<Seq<char>>
    decreases l.len(),
{
    if l.len() == 0 {
        seq![]
    } else {
        flatten_items(l.drop_last()) + l.last().0
    }
}

/// The selectors that extend `key` exactly.
pub open spec fn exact_matches(e: ExtendEntries, key: Seq<char>) -> Seq<Seq<char>> {
    if has_key(e, key) {
        flatten_items(e[key_pos(e, key)].1)
    } else {
        seq![]
    }
}

/// The partial-match rewrites of `sel` for target `t` with the given
/// extenders: each rewrite that differs from `sel`, in order.
pub open spec fn partial_exts(sel: Seq<char>, t: Seq<char>, exts: Seq<Seq<char>>) -> Seq<Seq<char>>
    decreases exts.len(),
{
    if exts.len() == 0 {
        seq![]
    } else {
        let prev = partial_exts(sel, t, exts.drop_last());
        let n = spec_replace_selector_target(sel, t, exts.last());
        if n != sel {
            prev.push(n)
        } else {
            prev
        }
    }
}

/// The partial-match rewrites of `sel` contributed by the records of target `t`
/// (only records made with `all` count, and only when `sel` contains `t`).
pub open spec fn partial_items(sel: Seq<char>, t: Seq<char>, l: Seq<ExtendItem>) -> Seq<Seq<char>>
    decreases l.len(),
{
    if l.len() == 0 {
        seq![]
    } else {
        let prev = partial_items(sel, t, l.drop_last());
        if l.last().1 && spec_selector_contains_target(sel, t) {
            prev + partial_exts(sel, t, l.last().0)
        } else {
            prev
        }
    }
}

/// The partial-match rewrites of `sel` over all entries, in entry order.
pub open spec fn partial_matches(e: ExtendEntries, sel: Seq<char>) -> Seq<Seq<char>>
    decreases e.len(),
{
    if e.len() == 0 {
        seq![]
    } else {
        partial_matches(e.drop_last(), sel) + partial_items(sel, trim(e.last().0), e.last().1)
    }
}

/// The entries after recording the items of `l` under `key`, in order.
pub open spec fn merge_items(e: ExtendEntries, key: Seq<char>, l: Seq<ExtendItem>) -> ExtendEntries
    decreases l.len(),
{
    if l.len() == 0 {
        e
    } else {
        with_extend(merge_items(e, key, l.drop_last()), key, l.last())
    }
}

/// The entries after recording every record of `o`, entry by entry.
pub open spec fn merge_entries(e: ExtendEntries, o: ExtendEntries) -> ExtendEntries
    decreases o.len(),
{
    if o.len() == 0 {
        e
    } else {
        merge_items(merge_entries(e, o.drop_last()), o.last().0, o.last().1)
    }
}

/// Registry of extend relationships: for each extended selector (trimmed
/// CSS text), the selectors that extend it and whether `all` was used.
#[derive(Debug)]
pub struct ExtendRegistry {
    extends: Vec<(String, Vec<(Vec<String>, bool)>)>,
}

impl View for ExtendRegistry {
    type V = ExtendEntries;

    closed spec fn view(&self) -> ExtendEntries {
        entries_view(self.extends@)
    }
}

fn copy_list(list: &Vec<(Vec<String>, bool)>) -> (res: Vec<(Vec<String>, bool)>)
    ensures
        list_view(res@) == list_view(list@),
{
    let mut copied: Vec<(Vec<String>, bool)> = Vec::new();
    let mut j: usize = 0;
    while j < list.len()
        invariant
            0 <= j <= list@.len(),
            copied@.len() == j,
            forall|m: int| 0 <= m < j ==> #[trigger] item_view(copied@[m]) == item_view(list@[m]),
        decreases list.len() - j,
    {
        let item = (copy_strings(&list[j].0), list[j].1);
        copied.push(item);
        j = j + 1;
    }
    assert forall|m: int| 0 <= m < copied@.len() implies #[trigger] list_view(copied@)[m]
        == list_view(list@)[m] by {
        assert(item_view(copied@[m]) == item_view(list@[m]));
    }
    assert(list_view(copied@) =~= list_view(list@));
    copied
}

impl Clone for ExtendRegistry {
    /// A copy with the same entries.
    fn clone(&self) -> (res: Self)
        ensures
            res@ == self@,
    {
        proof {
            use_type_invariant(self);
        }
        let mut ext: Vec<(String, Vec<(Vec<String>, bool)>)> = Vec::new();
        let mut k: usize = 0;
        while k < self.extends.len()
            invariant
                0 <= k <= self.extends@.len(),
                ext@.len() == k,
                forall|m: int|
                    0 <= m < k ==> #[trigger] ext@[m].0@ == self.extends@[m].0@ && list_view(
                        ext@[m].1@,
                    ) == list_view(self.extends@[m].1@),
            decreases self.extends.len() - k,
        {
            let entry = (copy_string(&self.extends[k].0), copy_list(&self.extends[k].1));
            ext.push(entry);
            k = k + 1;
        }
        assert forall|m: int| 0 <= m < ext@.len() implies #[trigger] entries_view(ext@)[m]
            == entries_view(self.extends@)[m] by {
            assert(ext@[m].0@ == self.extends@[m].0@);
        }
        assert(entries_view(ext@) =~= entries_view(self.extends@));
        ExtendRegistry { extends: ext }
    }
}

impl Default for ExtendRegistry {
    /// An empty registry.
    fn default() -> (res: Self)
        ensures
            res@ == Seq::<(Seq<char>, Seq<ExtendItem>)>::empty(),
    {
        ExtendRegistry::new()
    }
}

proof fn lemma_with_extend(e: ExtendEntries, key: Seq<char>, item: ExtendItem)
    requires
        keys_distinct(e),
    ensures
        keys_distinct(with_extend(e, key, item)),
        has_key(with_extend(e, key, item), key),
        exact_matches(with_extend(e, key, item), key) == exact_matches(e, key) + item.0,
        forall|k2: Seq<char>|
            k2 != key ==> #[trigger] exact_matches(with_extend(e, key, item), k2)
                == exact_matches(e, k2),
{
    let n = with_extend(e, key, item);
    if has_key(e, key) {
        let k = key_pos(e, key);
        assert(n[k].0 == key);
        assert(key_pos(n, key) == k);
        assert(n[k].1.drop_last() =~= e[k].1);
        assert forall|k2: Seq<char>| k2 != key implies #[trigger] exact_matches(n, k2)
            == exact_matches(e, k2) by {
            if has_key(e, k2) {
                let j = key_pos(e, k2);
                assert(n[j].0 == k2);
                assert(key_pos(n, k2) == j);
            }
            if has_key(n, k2) {
                let j = key_pos(n, k2);
                assert(e[j].0 == k2);
            }
        }
    } else {
        let k = e.len() as int;
        assert(n[k].0 == key);
        assert(key_pos(n, key) == k);
        assert(seq![item].drop_last() =~= Seq::<ExtendItem>::empty());
        assert(flatten_items(Seq::<ExtendItem>::empty()) =~= seq![]);
        assert(flatten_items(seq![item]) =~= item.0);
        assert forall|k2: Seq<char>| k2 != key implies #[trigger] exact_matches(n, k2)
            == exact_matches(e, k2) by {
            if has_key(e, k2) {
                let j = key_pos(e, k2);
                assert(n[j].0 == k2);
                assert(key_pos(n, k2) == j);
            }
            if has_key(n, k2) {
                let j = key_pos(n, k2);
                assert(e[j].0 == k2);
            }
        }
    }
}

fn append_copies(out: &mut Vec<String>, v: &Vec<String>)
    ensures
        strings_view(final(out)@) == strings_view(old(out)@) + strings_view(v@),
{
    let ghost start = out@;
    let mut i: usize = 0;
    while i < v.len()
        invariant
            0 <= i <= v@.len(),
            out@.len() == start.len() + i,
            forall|k: int| 0 <= k < start.len() ==> #[trigger] out@[k]@ == start[k]@,
            forall|k: int| 0 <= k < i ==> #[trigger] out@[start.len() + k]@ == v@[k]@,
        decreases v.len() - i,
    {
        out.push(copy_string(&v[i]));
        i = i + 1;
    }
    assert forall|k: int| 0 <= k < out@.len() implies #[trigger] strings_view(out@)[k] == (
    strings_view(start) + strings_view(v@))[k] by {
        if k >= start.len() {
            let j = k - start.len();
            assert(out@[start.len() + j]@ == v@[j]@);
        }
    }
    assert(strings_view(out@) =~= strings_view(start) + strings_view(v@));
}

fn copy_strings(v: &Vec<String>) -> (res: Vec<String>)
    ensures
        strings_view(res@) == strings_view(v@),
{
    let mut out: Vec<String> = Vec::new();
    append_copies(&mut out, v);
    assert(strings_view(out@) =~= strings_view(v@));
    out
}

fn add_item(ext: &mut Vec<(String, Vec<(Vec<String>, bool)>)>, key: String, item: (
    Vec<String>,
    bool,
))
    requires
        keys_distinct(entries_view(old(ext)@)),
    ensures
        keys_distinct(entries_view(final(ext)@)),
        entries_view(final(ext)@) == with_extend(entries_view(old(ext)@), key@, item_view(item)),
{
    let ghost e = entries_view(ext@);
    let mut k: usize = 0;
    while k < ext.len()
        invariant
            e == entries_view(ext@),
            e == entries_view(old(ext)@),
            keys_distinct(e),
            0 <= k <= ext@.len(),
            forall|m: int| 0 <= m < k ==> e[m].0 != key@,
        decreases ext.len() - k,
    {
        if ext[k].0 == key {
            proof {
                assert(e[k as int].0 == key@);
                assert(has_key(e, key@));
                assert(key_pos(e, key@) == k);
            }
            let (kk, mut list) = ext.remove(k);
            let ghost old_list = list@;
            list.push(item);
            ext.insert(k, (kk, list));
            proof {
                assert(list_view(list@) =~= list_view(old_list).push(item_view(item)));
                assert(entries_view(ext@) =~= with_extend(e, key@, item_view(item)));
                lemma_with_extend(e, key@, item_view(item));
            }
            return;
        }
        k = k + 1;
    }
    proof {
        assert(!has_key(e, key@));
    }
    let mut list: Vec<(Vec<String>, bool)> = Vec::new();
    let ghost iv = item_view(item);
    list.push(item);
    ext.push((key, list));
    proof {
        assert(list_view(list@) =~= seq![iv]);
        assert(entries_view(ext@) =~= with_extend(e, key@, iv));
        lemma_with_extend(e, key@, iv);
    }
}

impl ExtendRegistry {
    /// No extended selector has two entries.
    #[verifier::type_invariant]
    spec fn inv(self) -> bool {
        keys_distinct(entries_view(self.extends@))
    }

    /// Creates an empty registry.
    pub fn new() -> (res: Self)
        ensures
            res@ == Seq::<(Seq<char>, Seq<ExtendItem>)>::empty(),
    {
        let r = ExtendRegistry { extends: Vec::new() };
        assert(r@ =~= Seq::<(Seq<char>, Seq<ExtendItem>)>::empty());
        r
    }

    /// Records that `extending_selectors` extend `target`; `all` tells
    /// whether the `all` keyword was used. The key is the trimmed CSS of
    /// `target`.
    pub fn add_extend(&mut self, target: &Selector, extending_selectors: Vec<String>, all: bool)
        ensures
            final(self)@ == with_extend(
                old(self)@,
                trim(target.spec_css()),
                (strings_view(extending_selectors@), all),
            ),
    {
        proof {
            use_type_invariant(&*self);
        }
        let css = target.to_css();
        let key = trim_string(css.as_str());
        let mut ext: Vec<(String, Vec<(Vec<String>, bool)>)> = Vec::new();
        std::mem::swap(&mut ext, &mut self.extends);
        add_item(&mut ext, key, (extending_selectors, all));
        std::mem::swap(&mut ext, &mut self.extends);
    }

    /// The selectors that extend exactly the (trimmed) `selector_str`, in the
    /// order their extends were recorded.
    pub fn find_exact_matches(&self, selector_str: &str) -> (res: Vec<String>)
        ensures
            strings_view(res@) == exact_matches(self@, trim(selector_str@)),
    {
        proof {
            use_type_invariant(self);
        }
        let key = trim_string(selector_str);
        let ghost e = self@;
        let mut result: Vec<String> = Vec::new();
        let mut k: usize = 0;
        while k < self.extends.len()
            invariant
                e == self@,
                e == entries_view(self.extends@),
                keys_distinct(e),
                key@ == trim(selector_str@),
                0 <= k <= self.extends@.len(),
                forall|m: int| 0 <= m < k ==> e[m].0 != key@,
                result@.len() == 0,
            decreases self.extends.len() - k,
        {
            if self.extends[k].0 == key {
                proof {
                    assert(e[k as int].0 == key@);
                    assert(key_pos(e, key@) == k);
                }
                let list = &self.extends[k].1;
                let ghost lv = list_view(list@);
                let mut j: usize = 0;
                proof {
                    assert(lv.take(0) =~= Seq::<ExtendItem>::empty());
                    assert(strings_view(result@) =~= seq![]);
                }
                while j < list.len()
                    invariant
                        lv == list_view(list@),
                        0 <= j <= list@.len(),
                        strings_view(result@) == flatten_items(lv.take(j as int)),
                    decreases list.len() - j,
                {
                    let exts = &list[j].0;
                    append_copies(&mut result, exts);
                    proof {
                        assert(lv.take(j + 1).drop_last() =~= lv.take(j as int));
                        assert(lv.take(j + 1).last() == lv[j as int]);
                    }
                    j = j + 1;
                }
                proof {
                    assert(lv.take(list@.len() as int) =~= lv);
                    assert(lv == e[k as int].1);
                    assert(has_key(e, key@));
                    assert(strings_view(result@) == flatten_items(lv));
                    assert(key_pos(e, key@) == k);
                    assert(exact_matches(e, key@) == flatten_items(e[key_pos(e, key@)].1));
                    assert(strings_view(result@) == exact_matches(e, key@));
                    assert(key@ == trim(selector_str@));
                    assert(e == self@);
                }
                return result;
            }
            k = k + 1;
        }
        proof {
            assert(!has_key(e, key@));
            assert(strings_view(result@) =~= seq![]);
        }
        result
    }

    /// Rewrites of `selector_str` for partial matching: for every record made
    /// with `all` whose (trimmed) target `selector_str` structurally contains,
    /// each extender's replacement of the target, when it differs from
    /// `selector_str`; entries in registry order.
    pub fn find_partial_matches(&self, selector_str: &str) -> (res: Vec<String>)
        ensures
            strings_view(res@) == partial_matches(self@, selector_str@),
    {
        let sel = chars_of(selector_str);
        let ghost e = self@;
        let mut result: Vec<String> = Vec::new();
        let mut k: usize = 0;
        proof {
            assert(e.take(0) =~= Seq::<(Seq<char>, Seq<ExtendItem>)>::empty());
            assert(strings_view(result@) =~= seq![]);
        }
        while k < self.extends.len()
            invariant
                e == self@,
                e == entries_view(self.extends@),
                sel@ == selector_str@,
                0 <= k <= self.extends@.len(),
                strings_view(result@) == partial_matches(e.take(k as int), selector_str@),
            decreases self.extends.len() - k,
        {
            let target_trimmed = trim_string(self.extends[k].0.as_str());
            let list = &self.extends[k].1;
            let ghost lv = list_view(list@);
            let ghost before_entry = strings_view(result@);
            let contains = selector_contains_target(selector_str, target_trimmed.as_str());
            let mut j: usize = 0;
            proof {
                assert(lv.take(0) =~= Seq::<ExtendItem>::empty());
                assert(before_entry + seq![] =~= before_entry);
            }
            while j < list.len()
                invariant
                    lv == list_view(list@),
                    sel@ == selector_str@,
                    contains == spec_selector_contains_target(selector_str@, target_trimmed@),
                    0 <= j <= list@.len(),
                    strings_view(result@) == before_entry + partial_items(
                        selector_str@,
                        target_trimmed@,
                        lv.take(j as int),
                    ),
                decreases list.len() - j,
            {
                let all = list[j].1;
                let exts = &list[j].0;
                let ghost before_item = strings_view(result@);
                proof {
                    assert(lv.take(j + 1).drop_last() =~= lv.take(j as int));
                    assert(lv.take(j + 1).last() == lv[j as int]);
                }
                if all && contains {
                    let ghost ev = strings_view(exts@);
                    let mut m: usize = 0;
                    proof {
                        assert(ev.take(0) =~= Seq::<Seq<char>>::empty());
                        assert(before_item + seq![] =~= before_item);
                    }
                    while m < exts.len()
                        invariant
                            ev == strings_view(exts@),
                            sel@ == selector_str@,
                            0 <= m <= exts@.len(),
                            strings_view(result@) == before_item + partial_exts(
                                selector_str@,
                                target_trimmed@,
                                ev.take(m as int),
                            ),
                        decreases exts.len() - m,
                    {
                        let new_selector = replace_selector_target(
                            selector_str,
                            target_trimmed.as_str(),
                            exts[m].as_str(),
                        );
                        let nc = chars_of(new_selector.as_str());
                        proof {
                            assert(ev.take(m + 1).drop_last() =~= ev.take(m as int));
                            assert(ev.take(m + 1).last() == ev[m as int]);
                        }
                        let ghost before_ext = strings_view(result@);
                        if !chars_eq(nc.as_slice(), sel.as_slice()) {
                            result.push(new_selector);
                            proof {
                                assert(strings_view(result@) =~= before_ext.push(nc@));
                            }
                        }
                        m = m + 1;
                    }
                    proof {
                        assert(ev.take(exts@.len() as int) =~= ev);
                    }
                }
                proof {
                    assert(partial_items(selector_str@, target_trimmed@, lv.take(j + 1))
                        == partial_items(selector_str@, target_trimmed@, lv.take(j as int)) + (
                    if lv[j as int].1 && contains {
                        partial_exts(selector_str@, target_trimmed@, lv[j as int].0)
                    } else {
                        seq![]
                    }));
                }
                j = j + 1;
            }
            proof {
                assert(lv.take(list@.len() as int) =~= lv);
                assert(e.take(k + 1).drop_last() =~= e.take(k as int));
                assert(e.take(k + 1).last() == e[k as int]);
            }
            k = k + 1;
        }
        proof {
            assert(e.take(e.len() as int) =~= e);
        }
        result
    }

    /// Adds every record of `other` to this registry.
    pub fn merge(&mut self, other: ExtendRegistry)
        ensures
            final(self)@ == merge_entries(old(self)@, other@),
            forall|k: Seq<char>|
                #[trigger] exact_matches(final(self)@, k) == exact_matches(old(self)@, k)
                    + exact_matches(other@, k),
            forall|sel: Seq<char>|
                #[trigger] partial_matches(final(self)@, sel).to_multiset() == partial_matches(
                    old(self)@,
                    sel,
                ).to_multiset().add(partial_matches(other@, sel).to_multiset()),
    {
        proof {
            use_type_invariant(&*self);
            use_type_invariant(&other);
            let e = self@;
            let o = other@;
            assert forall|k: Seq<char>| #[trigger] exact_matches(merge_entries(e, o), k)
                == exact_matches(e, k) + exact_matches(o, k) by {
                lemma_merge_then_lookup(e, o, k);
            }
            assert forall|sel: Seq<char>| #[trigger] partial_matches(merge_entries(e, o), sel).to_multiset()
                == partial_matches(e, sel).to_multiset().add(partial_matches(o, sel).to_multiset()) by {
                lemma_merge_then_partial(e, o, sel);
            }
        }
        let ghost o = other@;
        let ghost start = self@;
        let mut ext: Vec<(String, Vec<(Vec<String>, bool)>)> = Vec::new();
        std::mem::swap(&mut ext, &mut self.extends);
        let mut k: usize = 0;
        proof {
            assert(o.take(0) =~= Seq::<(Seq<char>, Seq<ExtendItem>)>::empty());
        }
        while k < other.extends.len()
            invariant
                o == entries_view(other.extends@),
                keys_distinct(entries_view(ext@)),
                0 <= k <= other.extends@.len(),
                entries_view(ext@) == merge_entries(start, o.take(k as int)),
            decreases other.extends.len() - k,
        {
            let key = &other.extends[k].0;
            let list = &other.extends[k].1;
            let ghost lv = list_view(list@);
            let ghost before = entries_view(ext@);
            let mut j: usize = 0;
            proof {
                assert(lv.take(0) =~= Seq::<ExtendItem>::empty());
            }
            while j < list.len()
                invariant
                    lv == list_view(list@),
                    keys_distinct(entries_view(ext@)),
                    0 <= j <= list@.len(),
                    entries_view(ext@) == merge_items(before, key@, lv.take(j as int)),
                decreases list.len() - j,
            {
                let item = (copy_strings(&list[j].0), list[j].1);
                proof {
                    assert(item_view(item) == lv[j as int]);
                    assert(lv.take(j + 1).drop_last() =~= lv.take(j as int));
                    assert(lv.take(j + 1).last() == lv[j as int]);
                }
                add_item(&mut ext, copy_string(key), item);
                j = j + 1;
            }
            proof {
                assert(lv.take(list@.len() as int) =~= lv);
                assert(o.take(k + 1).drop_last() =~= o.take(k as int));
                assert(o.take(k + 1).last() == o[k as int]);
            }
            k = k + 1;
        }
        proof {
            assert(o.take(o.len() as int) =~= o);
        }
        std::mem::swap(&mut ext, &mut self.extends);
    }
}

// ---------------------------------------------------------------------------
// Selectors of a rule after extension
// ---------------------------------------------------------------------------

/// `cur` with each of `ms` appended, in order, unless it is already there.
pub open spec fn push_unique(cur: Seq<Seq<char>>, ms: Seq<Seq<char>>) -> Seq<Seq<char>>
    decreases ms.len(),
{
    if ms.len() == 0 {
        cur
    } else {
        let p = push_unique(cur, ms.drop_last());
        if p.contains(ms.last()) {
            p
        } else {
            p.push(ms.last())
        }
    }
}

/// The selectors a rule is written under, given its compiled selectors:
/// each selector in turn, followed by the selectors that extend it exactly
/// and its partial-match rewrites, each of those added once.
pub open spec fn rule_selectors_spec(e: ExtendEntries, sels: Seq<Seq<char>>) -> Seq<Seq<char>>
    decreases sels.len(),
{
    if sels.len() == 0 {
        seq![]
    } else {
        let s = sels.last();
        push_unique(
            rule_selectors_spec(e, sels.drop_last()).push(s),
            exact_matches(e, trim(s)) + partial_matches(e, s),
        )
    }
}

fn contains_string(v: &Vec<String>, s: &str) -> (res: bool)
    ensures
        res == strings_view(v@).contains(s@),
{
    let mut i: usize = 0;
    while i < v.len()
        invariant
            0 <= i <= v@.len(),
            forall|k: int| 0 <= k < i ==> v@[k]@ != s@,
        decreases v@.len() - i,
    {
        if crate::text::str_eq(v[i].as_str(), s) {
            assert(strings_view(v@)[i as int] == s@);
            return true;
        }
        i = i + 1;
    }
    assert forall|k: int| 0 <= k < strings_view(v@).len() implies strings_view(v@)[k] != s@ by {
        assert(strings_view(v@)[k] == v@[k]@);
    }
    false
}

fn push_unique_strings(cur: &mut Vec<String>, ms: &Vec<String>)
    ensures
        strings_view(final(cur)@) == push_unique(strings_view(old(cur)@), strings_view(ms@)),
{
    let ghost start = strings_view(cur@);
    let mut i: usize = 0;
    while i < ms.len()
        invariant
            0 <= i <= ms@.len(),
            strings_view(cur@) == push_unique(start, strings_view(ms@).take(i as int)),
        decreases ms@.len() - i,
    {
        let ghost prefix = strings_view(ms@).take(i + 1);
        proof {
            assert(prefix.drop_last() =~= strings_view(ms@).take(i as int));
            assert(prefix.last() == ms@[i as int]@);
        }
        if !contains_string(cur, ms[i].as_str()) {
            let ghost before = strings_view(cur@);
            cur.push(copy_string(&ms[i]));
            assert(strings_view(cur@) =~= before.push(ms@[i as int]@));
        }
        i = i + 1;
    }
    assert(strings_view(ms@).take(ms@.len() as int) =~= strings_view(ms@));
}

/// The selectors a rule is written under: each of its compiled selectors,
/// followed by the selectors that extend it (exactly or by partial match)
/// and are not listed yet.
pub fn rule_selectors(selector_strs: &[String], reg: &ExtendRegistry) -> (res: Vec<String>)
    ensures
        strings_view(res@) == rule_selectors_spec(reg@, strings_view(selector_strs@)),
{
    let ghost sels = strings_view(selector_strs@);
    let mut cur: Vec<String> = Vec::new();
    let mut i: usize = 0;
    while i < selector_strs.len()
        invariant
            0 <= i <= selector_strs@.len(),
            sels == strings_view(selector_strs@),
            strings_view(cur@) == rule_selectors_spec(reg@, sels.take(i as int)),
        decreases selector_strs@.len() - i,
    {
        let s = selector_strs[i].as_str();
        let exact = reg.find_exact_matches(s);
        let partial = reg.find_partial_matches(s);
        let mut ms = copy_strings(&exact);
        append_copies(&mut ms, &partial);
        let ghost before = strings_view(cur@);
        cur.push(copy_string(&selector_strs[i]));
        assert(strings_view(cur@) =~= before.push(s@));
        push_unique_strings(&mut cur, &ms);
        proof {
            let pre = sels.take(i + 1);
            assert(pre.drop_last() =~= sels.take(i as int));
            assert(pre.last() == s@);
            assert(strings_view(ms@) == exact_matches(reg@, trim(s@)) + partial_matches(reg@, s@));
            assert(rule_selectors_spec(reg@, pre) == push_unique(
                rule_selectors_spec(reg@, pre.drop_last()).push(pre.last()),
                exact_matches(reg@, trim(pre.last())) + partial_matches(reg@, pre.last()),
            ));
        }
        i = i + 1;
    }
    assert(sels.take(selector_strs@.len() as int) =~= sels);
    cur
}

/// Reading back after recording: the exact matches of the recorded key gain
/// the new extending selectors at the end, and every other key's matches are
/// unchanged.
pub proof fn lemma_add_then_find_exact(
    e: ExtendEntries,
    key: Seq<char>,
    item: ExtendItem,
    other: Seq<char>,
)
    requires
        keys_distinct(e),
    ensures
        exact_matches(with_extend(e, key, item), key) == exact_matches(e, key) + item.0,
        other != key ==> exact_matches(with_extend(e, key, item), other) == exact_matches(
            e,
            other,
        ),
{
    lemma_with_extend(e, key, item);
}

proof fn lemma_merge_items(e: ExtendEntries, key: Seq<char>, l: Seq<ExtendItem>)
    requires
        keys_distinct(e),
    ensures
        keys_distinct(merge_items(e, key, l)),
        exact_matches(merge_items(e, key, l), key) == exact_matches(e, key) + flatten_items(l),
        forall|k2: Seq<char>|
            k2 != key ==> #[trigger] exact_matches(merge_items(e, key, l), k2) == exact_matches(
                e,
                k2,
            ),
    decreases l.len(),
{
    if l.len() > 0 {
        lemma_merge_items(e, key, l.drop_last());
        let prev = merge_items(e, key, l.drop_last());
        lemma_with_extend(prev, key, l.last());
        assert(exact_matches(e, key) + flatten_items(l.drop_last()) + l.last().0 =~= exact_matches(
            e,
            key,
        ) + flatten_items(l));
    } else {
        assert(exact_matches(e, key) + flatten_items(l) =~= exact_matches(e, key));
    }
}

proof fn lemma_exact_last(o: ExtendEntries, k: Seq<char>)
    requires
        keys_distinct(o),
        o.len() > 0,
    ensures
        keys_distinct(o.drop_last()),
        k == o.last().0 ==> exact_matches(o, k) == flatten_items(o.last().1) && !has_key(
            o.drop_last(),
            k,
        ),
        k != o.last().0 ==> exact_matches(o, k) == exact_matches(o.drop_last(), k),
{
    let p = o.drop_last();
    let n = o.len() - 1;
    if k == o.last().0 {
        assert(o[n].0 == k);
        assert(key_pos(o, k) == n);
        if has_key(p, k) {
            let j = key_pos(p, k);
            assert(o[j].0 == k);
        }
    } else {
        if has_key(p, k) {
            let j = key_pos(p, k);
            assert(o[j].0 == k);
            assert(key_pos(o, k) == j);
        }
        if has_key(o, k) {
            let j = key_pos(o, k);
            assert(j < n);
            assert(p[j].0 == k);
        }
    }
}

/// Merging a registry into another: every selector then has the extenders
/// it had, followed by those of the merged registry.
pub proof fn lemma_merge_then_lookup(e: ExtendEntries, o: ExtendEntries, k: Seq<char>)
    requires
        keys_distinct(e),
        keys_distinct(o),
    ensures
        keys_distinct(merge_entries(e, o)),
        exact_matches(merge_entries(e, o), k) == exact_matches(e, k) + exact_matches(o, k),
    decreases o.len(),
{
    if o.len() == 0 {
        assert(!has_key(o, k));
        assert(exact_matches(e, k) + exact_matches(o, k) =~= exact_matches(e, k));
    } else {
        let p = o.drop_last();
        let key = o.last().0;
        lemma_exact_last(o, k);
        lemma_merge_then_lookup(e, p, k);
        lemma_merge_items(merge_entries(e, p), key, o.last().1);
        if k == key {
            assert(exact_matches(p, k) == Seq::<Seq<char>>::empty());
            assert(exact_matches(e, k) + exact_matches(p, k) + flatten_items(o.last().1)
                =~= exact_matches(e, k) + exact_matches(o, k));
        }
    }
}

/// The partial-match rewrites of `sel` that one extend record of target `t`
/// contributes.
pub open spec fn item_contrib(sel: Seq<char>, t: Seq<char>, item: ExtendItem) -> Seq<Seq<char>> {
    if item.1 && spec_selector_contains_target(sel, t) {
        partial_exts(sel, t, item.0)
    } else {
        seq![]
    }
}

proof fn lemma_partial_items_push(sel: Seq<char>, t: Seq<char>, l: Seq<ExtendItem>, item: ExtendItem)
    ensures
        partial_items(sel, t, l.push(item)) == partial_items(sel, t, l) + item_contrib(sel, t, item),
{
    assert(l.push(item).drop_last() =~= l);
    assert(partial_items(sel, t, l) + Seq::<Seq<char>>::empty() =~= partial_items(sel, t, l));
}

proof fn lemma_partial_update(
    e: ExtendEntries,
    k: int,
    l2: Seq<ExtendItem>,
    extra: Seq<Seq<char>>,
    sel: Seq<char>,
)
    requires
        0 <= k < e.len(),
        partial_items(sel, trim(e[k].0), l2) == partial_items(sel, trim(e[k].0), e[k].1) + extra,
    ensures
        partial_matches(e.update(k, (e[k].0, l2)), sel).to_multiset() == partial_matches(
            e,
            sel,
        ).to_multiset().add(extra.to_multiset()),
    decreases e.len(),
{
    broadcast use vstd::seq_lib::lemma_multiset_commutative;
    broadcast use vstd::multiset::group_multiset_axioms;

    let e2 = e.update(k, (e[k].0, l2));
    if k == e.len() - 1 {
        assert(e2.drop_last() =~= e.drop_last());
        let p = partial_matches(e.drop_last(), sel);
        let a = partial_items(sel, trim(e[k].0), e[k].1);
        assert(partial_matches(e2, sel) == p + (a + extra));
        assert(p + (a + extra) =~= (p + a) + extra);
        assert((p + a).to_multiset().add(extra.to_multiset()) =~= ((p + a) + extra).to_multiset());
    } else {
        assert(e2.drop_last() =~= e.drop_last().update(k, (e[k].0, l2)));
        assert(e.drop_last()[k] == e[k]);
        lemma_partial_update(e.drop_last(), k, l2, extra, sel);
        let p = partial_matches(e.drop_last(), sel);
        let p2 = partial_matches(e2.drop_last(), sel);
        let last = partial_items(sel, trim(e.last().0), e.last().1);
        assert(e2.last() == e.last());
        assert(partial_matches(e2, sel) == p2 + last);
        assert(partial_matches(e, sel) == p + last);
        assert((p2 + last).to_multiset() =~= p.to_multiset().add(extra.to_multiset()).add(
            last.to_multiset(),
        ));
        assert((p + last).to_multiset().add(extra.to_multiset()) =~= p.to_multiset().add(
            extra.to_multiset(),
        ).add(last.to_multiset()));
    }
}

proof fn lemma_partial_with_extend(e: ExtendEntries, key: Seq<char>, item: ExtendItem, sel: Seq<char>)
    ensures
        partial_matches(with_extend(e, key, item), sel).to_multiset() == partial_matches(
            e,
            sel,
        ).to_multiset().add(item_contrib(sel, trim(key), item).to_multiset()),
{
    broadcast use vstd::seq_lib::lemma_multiset_commutative;
    broadcast use vstd::multiset::group_multiset_axioms;

    if has_key(e, key) {
        let k = key_pos(e, key);
        lemma_partial_items_push(sel, trim(key), e[k].1, item);
        lemma_partial_update(e, k, e[k].1.push(item), item_contrib(sel, trim(key), item), sel);
    } else {
        let n = e.push((key, seq![item]));
        assert(n.drop_last() =~= e);
        lemma_partial_items_push(sel, trim(key), Seq::<ExtendItem>::empty(), item);
        assert(Seq::<ExtendItem>::empty().push(item) =~= seq![item]);
        assert(partial_items(sel, trim(key), Seq::<ExtendItem>::empty()) =~= Seq::<
            Seq<char>,
        >::empty());
        assert(Seq::<Seq<char>>::empty() + item_contrib(sel, trim(key), item) =~= item_contrib(
            sel,
            trim(key),
            item,
        ));
    }
}

proof fn lemma_partial_merge_items(e: ExtendEntries, key: Seq<char>, l: Seq<ExtendItem>, sel: Seq<char>)
    ensures
        partial_matches(merge_items(e, key, l), sel).to_multiset() == partial_matches(
            e,
            sel,
        ).to_multiset().add(partial_items(sel, trim(key), l).to_multiset()),
    decreases l.len(),
{
    broadcast use vstd::seq_lib::lemma_multiset_commutative;
    broadcast use vstd::multiset::group_multiset_axioms;

    if l.len() == 0 {
        let p = partial_matches(e, sel);
        let q = partial_items(sel, trim(key), l);
        assert(q =~= Seq::<Seq<char>>::empty());
        assert(p + q =~= p);
        assert((p + q).to_multiset() =~= p.to_multiset().add(q.to_multiset()));
    } else {
        lemma_partial_merge_items(e, key, l.drop_last(), sel);
        lemma_partial_with_extend(merge_items(e, key, l.drop_last()), key, l.last(), sel);
        lemma_partial_items_push(sel, trim(key), l.drop_last(), l.last());
        assert(l.drop_last().push(l.last()) =~= l);
        let a = partial_matches(e, sel).to_multiset();
        let b = partial_items(sel, trim(key), l.drop_last());
        let c = item_contrib(sel, trim(key), l.last());
        assert(a.add(b.to_multiset()).add(c.to_multiset()) =~= a.add((b + c).to_multiset()));
    }
}

/// Merging a registry into another: the partial matches of any selector are
/// then those of both registries together (as multisets: a selector already
/// present keeps its place, so the order may interleave).
pub proof fn lemma_merge_then_partial(e: ExtendEntries, o: ExtendEntries, sel: Seq<char>)
    ensures
        partial_matches(merge_entries(e, o), sel).to_multiset() == partial_matches(
            e,
            sel,
        ).to_multiset().add(partial_matches(o, sel).to_multiset()),
    decreases o.len(),
{
    broadcast use vstd::seq_lib::lemma_multiset_commutative;
    broadcast use vstd::multiset::group_multiset_axioms;

    if o.len() == 0 {
        let p = partial_matches(e, sel);
        let q = partial_matches(o, sel);
        assert(q =~= Seq::<Seq<char>>::empty());
        assert(p + q =~= p);
        assert((p + q).to_multiset() =~= p.to_multiset().add(q.to_multiset()));
    } else {
        let p = o.drop_last();
        lemma_merge_then_partial(e, p, sel);
        lemma_partial_merge_items(merge_entries(e, p), o.last().0, o.last().1, sel);
        let a = partial_matches(e, sel).to_multiset();
        let b = partial_matches(p, sel);
        let c = partial_items(sel, trim(o.last().0), o.last().1);
        assert(partial_matches(o, sel) == b + c);
        assert(a.add(b.to_multiset()).add(c.to_multiset()) =~= a.add((b + c).to_multiset()));
    }
}

/// After extending a selector, looking it up by its CSS text, trimmed or
/// not, finds the new extenders after the earlier ones.
pub proof fn lemma_extend_then_lookup_by_css(
    e: ExtendEntries,
    css: Seq<char>,
    item: ExtendItem,
    query: Seq<char>,
)
    requires
        keys_distinct(e),
        query == css || query == trim(css),
    ensures
        exact_matches(with_extend(e, trim(css), item), trim(query)) == exact_matches(e, trim(css))
            + item.0,
{
    crate::text::lemma_trim_idempotent(css);
    lemma_with_extend(e, trim(css), item);
}


// ---------------------------------------------------------------------------
// Selector resolution
// ---------------------------------------------------------------------------

/// The selectors a rule's selector stands for under the given parents: the
/// selector itself without parents; with parents, one selector per parent,
/// either with `&` replaced by the parent or as a descendant of it.
pub open spec fn resolve_one(css: Seq<char>, has_parent: bool, parents: Seq<Seq<char>>) -> Seq<
    Seq<char>,
> {
    if parents.len() == 0 {
        seq![css]
    } else if has_parent {
        Seq::new(parents.len(), |k: int| spec_replace_parent_refs(css, parents[k]))
    } else {
        Seq::new(parents.len(), |k: int| parents[k] + seq![' '] + css)
    }
}

/// The resolution of the first `n` selectors, in order.
pub open spec fn resolve_all(sels: Seq<Selector>, parents: Seq<Seq<char>>, n: int) -> Seq<
    Seq<char>,
>
    decreases n,
{
    if n <= 0 {
        seq![]
    } else {
        resolve_all(sels, parents, n - 1) + resolve_one(
            sels[n - 1].spec_css(),
            sels[n - 1].spec_has_parent_reference(),
            parents,
        )
    }
}

/// Collects extend statements into a registry.
#[derive(Debug)]
pub struct ExtendCollector {
    /// The registry being filled
    pub registry: ExtendRegistry,
}

impl Default for ExtendCollector {
    /// A collector with an empty registry.
    fn default() -> (res: Self)
        ensures
            res.registry@ == Seq::<(Seq<char>, Seq<ExtendItem>)>::empty(),
    {
        ExtendCollector::new()
    }
}

impl ExtendCollector {
    /// Creates a collector with an empty registry.
    pub fn new() -> (res: Self)
        ensures
            res.registry@ == Seq::<(Seq<char>, Seq<ExtendItem>)>::empty(),
    {
        ExtendCollector { registry: ExtendRegistry::new() }
    }

    /// The full selectors that `selectors` stand for when nested in rules
    /// with the resolved `parent_selectors`.
    pub fn resolve_selectors(&self, selectors: &[Selector], parent_selectors: &[String]) -> (res:
        Vec<String>)
        ensures
            strings_view(res@) == resolve_all(
                selectors@,
                strings_view(parent_selectors@),
                selectors@.len() as int,
            ),
    {
        let ghost ps = strings_view(parent_selectors@);
        let mut result: Vec<String> = Vec::new();
        let mut i: usize = 0;
        proof {
            assert(strings_view(result@) =~= seq![]);
        }
        while i < selectors.len()
            invariant
                ps == strings_view(parent_selectors@),
                0 <= i <= selectors@.len(),
                strings_view(result@) == resolve_all(selectors@, ps, i as int),
            decreases selectors.len() - i,
        {
            let selector = &selectors[i];
            let selector_str = selector.to_css();
            let ghost before = strings_view(result@);
            let ghost one = resolve_one(
                selector.spec_css(),
                selector.spec_has_parent_reference(),
                ps,
            );
            if parent_selectors.len() == 0 {
                result.push(selector_str);
                proof {
                    assert(strings_view(result@) =~= before + one);
                }
            } else {
                let has_parent = selector.has_parent_reference();
                let mut j: usize = 0;
                while j < parent_selectors.len()
                    invariant
                        ps == strings_view(parent_selectors@),
                        parent_selectors@.len() > 0,
                        selector_str@ == selector.spec_css(),
                        has_parent == selector.spec_has_parent_reference(),
                        one == resolve_one(selector.spec_css(), has_parent, ps),
                        0 <= j <= parent_selectors@.len(),
                        strings_view(result@) == before + one.take(j as int),
                    decreases parent_selectors.len() - j,
                {
                    let parent = &parent_selectors[j];
                    let item = if has_parent {
                        replace_parent_refs(selector_str.as_str(), parent.as_str())
                    } else {
                        let mut s = copy_string(parent);
                        push_char(&mut s, ' ');
                        push_str(&mut s, selector_str.as_str());
                        s
                    };
                    proof {
                        assert(item@ == one[j as int]);
                    }
                    let ghost prev = result@;
                    result.push(item);
                    proof {
                        assert(strings_view(result@) =~= strings_view(prev).push(item@));
                        assert(one.take(j + 1) =~= one.take(j as int).push(one[j as int]));
                    }
                    j = j + 1;
                }
                proof {
                    assert(one.take(parent_selectors@.len() as int) =~= one);
                }
            }
            i = i + 1;
        }
        result
    }
}

/// A simple selector followed by another simple selector in the same
/// compound is contained in it: for every target `t` and every rest `c`,
/// `t` is contained in `t` followed by `.c`, `#c`, `:c` or `[c` (a class,
/// ID, pseudo-class or attribute selector); and it is not contained in `t`
/// followed directly by a letter, digit, `-` or `_`, which would only
/// lengthen its last name (`.a` is not in `.ab`).
pub proof fn lemma_compound_continuations(t: Seq<char>, c: Seq<char>, x: char)
    ensures
        (x == '.' || x == '#' || x == ':' || x == '[') ==> spec_compound_contains_simple(
            t + seq![x] + c,
            t,
        ),
        (('a' <= x && x <= 'z') || ('A' <= x && x <= 'Z') || ('0' <= x && x <= '9') || x == '-'
            || x == '_') ==> !spec_compound_contains_simple(t + seq![x] + c, t),
{
    let w = t + seq![x] + c;
    assert(w.take(t.len() as int) =~= t);
    assert(w[t.len() as int] == x);
    assert(w.len() != t.len());
}

} // verus!
