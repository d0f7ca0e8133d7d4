//! Text helpers behind the language server: the lines of a document,
//! positions from byte offsets, the word under the cursor, and the names
//! shown for rules and namespaces.

use crate::ast::selectors::{Selector, SelectorPart, SimpleSelector};
use crate::lexer::{line_end, pos_at};
use crate::text::{alphanumeric, chars_of, is_alphanumeric, push_char, push_str, string_from_range};
use vstd::prelude::*;

verus! {

/// The lines of `s` from index `j` on, as `str::lines` gives them: split at
/// each `\n`, a `\r` right before the `\n` dropped, and no empty line after
/// a final `\n`.
pub open spec fn lines_from(s: Seq<char>, j: int) -> Seq<Seq<char>>
    decreases s.len() - j,
{
    if j < 0 || j >= s.len() {
        seq![]
    } else {
        proof {
            lemma_line_end_bounds(s, j);
        }
        let e = line_end(s, j);
        let raw = s.subrange(j, e);
        let line = if e < s.len() && raw.len() > 0 && raw.last() == '\r' {
            raw.drop_last()
        } else {
            raw
        };
        if e < s.len() {
            seq![line] + lines_from(s, e + 1)
        } else {
            seq![line]
        }
    }
}

/// The line of index `n` (0-based) of `s`, if there is one.
pub open spec fn line_at(s: Seq<char>, n: int) -> Option<Seq<char>> {
    let ls = lines_from(s, 0);
    if 0 <= n < ls.len() {
        Some(ls[n])
    } else {
        None
    }
}

/// A line ends at or after where it starts, at a newline or at the end.
pub proof fn lemma_line_end_bounds(s: Seq<char>, j: int)
    requires
        0 <= j <= s.len(),
    ensures
        j <= line_end(s, j) <= s.len(),
        line_end(s, j) < s.len() ==> s[line_end(s, j)] == '\n',
    decreases s.len() - j,
{
    if j < s.len() && s[j] != '\n' {
        lemma_line_end_bounds(s, j + 1);
    }
}

/// The text of line `line0` (0-based), without its line ending.
pub fn line_text(text: &str, line0: u32) -> (res: Option<String>)
    ensures
        opt_seq(res) == line_at(text@, line0 as int),
{
    let cs = chars_of(text);
    let ghost s = cs@;
    let target = line0 as usize;
    assert(target as int == line0 as int);
    let mut j: usize = 0;
    let mut k: usize = 0;
    while j < cs.len()
        invariant
            s == cs@,
            s == text@,
            0 <= j <= cs.len(),
            k <= target,
            target as int == line0 as int,
            lines_from(s, 0).len() == k + lines_from(s, j as int).len(),
            forall|m: int|
                0 <= m < lines_from(s, j as int).len() ==> lines_from(s, 0)[k + m]
                    == #[trigger] lines_from(s, j as int)[m],
        decreases cs.len() - j,
    {
        let mut e = j;
        while e < cs.len() && cs[e] != '\n'
            invariant
                j <= e <= cs.len(),
                s == cs@,
                line_end(s, j as int) == line_end(s, e as int),
            decreases cs.len() - e,
        {
            e = e + 1;
        }
        proof {
            lemma_line_end_bounds(s, j as int);
            assert(line_end(s, e as int) == e);
            let rest = lines_from(s, j as int);
            if e == cs.len() {
                assert(rest.len() == 1);
            }
            if e < cs.len() {
                assert(rest == seq![rest[0]] + lines_from(s, e + 1));
                assert forall|m: int| 0 <= m < lines_from(s, e + 1).len() implies lines_from(
                    s,
                    0,
                )[k + 1 + m] == #[trigger] lines_from(s, e + 1)[m] by {
                    assert(rest[m + 1] == lines_from(s, e + 1)[m]);
                }
            }
        }
        if k == target {
            let end = if e < cs.len() && e > j && cs[e - 1] == '\r' {
                e - 1
            } else {
                e
            };
            let line = string_from_range(cs.as_slice(), j, end);
            proof {
                let rest = lines_from(s, j as int);
                assert(rest.len() >= 1);
                assert(lines_from(s, 0)[k as int] == rest[0]);
                let raw = s.subrange(j as int, e as int);
                if end < e {
                    assert(s.subrange(j as int, end as int) =~= raw.drop_last());
                }
                assert(line@ == rest[0]);
                assert(line_at(s, target as int) == Some(rest[0]));
            }
            return Some(line);
        }
        if e == cs.len() {
            proof {
                assert(lines_from(s, 0).len() == k + 1);
                assert(target > k);
                assert(line_at(s, target as int) is None);
            }
            return None;
        }
        j = e + 1;
        k = k + 1;
    }
    None
}

/// The view of an optional string.
pub open spec fn opt_seq(o: Option<String>) -> Option<Seq<char>> {
    match o {
        Some(s) => Some(s@),
        None => None,
    }
}

/// How many UTF-8 bytes encode `c`.
pub open spec fn utf8_width(c: char) -> int {
    if (c as u32) < 0x80 {
        1
    } else if (c as u32) < 0x800 {
        2
    } else if (c as u32) < 0x10000 {
        3
    } else {
        4
    }
}

/// The byte offset at which character `k` of `s` starts in UTF-8.
pub open spec fn byte_start(s: Seq<char>, k: int) -> int
    decreases k,
{
    if k <= 0 {
        0
    } else {
        byte_start(s, k - 1) + utf8_width(s[k - 1])
    }
}

/// The number of characters, from `k` on, that start before byte `offset`.
pub open spec fn chars_before(s: Seq<char>, offset: int, k: int) -> int
    decreases s.len() - k,
{
    if k < 0 || k >= s.len() || byte_start(s, k) >= offset {
        k
    } else {
        chars_before(s, offset, k + 1)
    }
}

/// A string of `k` characters takes between `k` and `4 * k` UTF-8 bytes.
pub proof fn lemma_byte_start_bound(s: Seq<char>, k: int)
    requires
        0 <= k <= s.len(),
    ensures
        k <= byte_start(s, k) <= 4 * k,
    decreases k,
{
    if k > 0 {
        lemma_byte_start_bound(s, k - 1);
    }
}

proof fn lemma_pos_at_bound(s: Seq<char>, n: int)
    requires
        0 <= n,
    ensures
        1 <= pos_at(s, n).0 <= n + 1,
        1 <= pos_at(s, n).1 <= n + 1,
    decreases n,
{
    if n > 0 {
        lemma_pos_at_bound(s, n - 1);
    }
}

/// The 1-based line and column of the character at byte `offset`, counting
/// the characters that start before it (as the parser counts positions).
pub fn offset_to_pos(text: &str, offset: usize) -> (res: (usize, usize))
    requires
        4 * text@.len() < usize::MAX,
    ensures
        (res.0 as int, res.1 as int) == pos_at(text@, chars_before(text@, offset as int, 0)),
{
    let cs = chars_of(text);
    let ghost s = cs@;
    let mut line: usize = 1;
    let mut column: usize = 1;
    let mut i: usize = 0;
    let mut k: usize = 0;
    while k < cs.len()
        invariant
            s == cs@,
            s == text@,
            4 * s.len() < usize::MAX,
            0 <= k <= cs.len(),
            i == byte_start(s, k as int),
            (line as int, column as int) == pos_at(s, k as int),
            chars_before(s, offset as int, 0) == chars_before(s, offset as int, k as int),
        ensures
            k == chars_before(s, offset as int, k as int),
        decreases cs.len() - k,
    {
        if i >= offset {
            break;
        }
        proof {
            lemma_byte_start_bound(s, k + 1);
            lemma_pos_at_bound(s, k as int);
        }
        let ch = cs[k];
        if ch == '\n' {
            line = line + 1;
            column = 1;
        } else {
            column = column + 1;
        }
        let code = ch as u32;
        let width: usize = if code < 0x80 {
            1
        } else if code < 0x800 {
            2
        } else if code < 0x10000 {
            3
        } else {
            4
        };
        i = i + width;
        k = k + 1;
    }
    (line, column)
}

/// Characters of a word: letters, digits, `_` and `-`.
pub open spec fn is_word_char(c: char) -> bool {
    alphanumeric(c) || c == '_' || c == '-'
}

/// The prefixes that belong to a word: `@`, `.` and `#`.
pub open spec fn is_prefix_char(c: char) -> bool {
    c == '@' || c == '.' || c == '#'
}

/// Start of the run of word characters that ends just before `j`.
pub open spec fn word_start_before(cs: Seq<char>, j: int) -> int
    decreases j,
{
    if j > 0 && j <= cs.len() && is_word_char(cs[j - 1]) {
        word_start_before(cs, j - 1)
    } else {
        j
    }
}

/// End of the run of word characters that starts at `j`.
pub open spec fn word_end_after(cs: Seq<char>, j: int) -> int
    decreases cs.len() - j,
{
    if 0 <= j < cs.len() && is_word_char(cs[j]) {
        word_end_after(cs, j + 1)
    } else {
        j
    }
}

/// The word of line `cs` at column `character` (0-based): the run of word
/// characters around the cursor (or just before it), with one `@`, `.` or
/// `#` in front of it; `None` off any word or on a lone prefix.
pub open spec fn word_in_line(cs: Seq<char>, character: int) -> Option<Seq<char>> {
    let len = cs.len() as int;
    let last = if len > 0 {
        len - 1
    } else {
        0
    };
    let idx0 = if character < last {
        character
    } else {
        last
    };
    let off = idx0 < len && !is_word_char(cs[idx0]) && !is_prefix_char(cs[idx0]);
    if off && (idx0 == 0 || !is_word_char(cs[idx0 - 1])) {
        None
    } else if off && !(idx0 > 0 && (is_word_char(cs[idx0 - 1]) || is_prefix_char(cs[idx0 - 1]))) {
        None
    } else {
        let idx = if off {
            idx0 - 1
        } else {
            idx0
        };
        let s1 = word_start_before(cs, idx);
        let start = if s1 > 0 && is_prefix_char(cs[s1 - 1]) {
            s1 - 1
        } else {
            s1
        };
        if is_prefix_char(cs[start]) && start + 1 < len && !is_word_char(cs[start + 1]) {
            None
        } else {
            let end = word_end_after(cs, idx);
            if end <= start {
                None
            } else {
                Some(cs.subrange(start, end))
            }
        }
    }
}

proof fn lemma_word_start_bound(cs: Seq<char>, j: int)
    requires
        0 <= j <= cs.len(),
    ensures
        0 <= word_start_before(cs, j) <= j,
    decreases j,
{
    if j > 0 && is_word_char(cs[j - 1]) {
        lemma_word_start_bound(cs, j - 1);
    }
}

proof fn lemma_word_end_bound(cs: Seq<char>, j: int)
    requires
        0 <= j <= cs.len(),
    ensures
        j <= word_end_after(cs, j) <= cs.len(),
    decreases cs.len() - j,
{
    if j < cs.len() && is_word_char(cs[j]) {
        lemma_word_end_bound(cs, j + 1);
    }
}

fn word_char(c: char) -> (res: bool)
    ensures
        res == is_word_char(c),
{
    is_alphanumeric(c) || c == '_' || c == '-'
}

fn prefix_char(c: char) -> (res: bool)
    ensures
        res == is_prefix_char(c),
{
    c == '@' || c == '.' || c == '#'
}

/// The identifier under the cursor at `line` and `character` (0-based),
/// with its `@`, `.` or `#` prefix.
pub fn word_at(text: &str, line: u32, character: u32) -> (res: Option<String>)
    requires
        !(line_at(text@, line as int) matches Some(l) && l.len() == 0),
    ensures
        opt_seq(res) == match line_at(text@, line as int) {
            Some(l) => word_in_line(l, character as int),
            None => None,
        },
{
    let l = match line_text(text, line) {
        Some(l) => l,
        None => {
            return None;
        },
    };
    let chars = chars_of(l.as_str());
    let ghost cs = chars@;
    let len = chars.len();
    assert(len > 0);
    let last = if len > 0 {
        len - 1
    } else {
        0
    };
    let c = character as usize;
    let mut idx = if c < last {
        c
    } else {
        last
    };
    let off = idx < len && !word_char(chars[idx]) && !prefix_char(chars[idx]);
    if off && (idx == 0 || !word_char(chars[idx - 1])) {
        return None;
    }
    if off {
        if idx > 0 && (word_char(chars[idx - 1]) || prefix_char(chars[idx - 1])) {
            idx = idx - 1;
        } else {
            return None;
        }
    }
    let mut start = idx;
    while start > 0 && word_char(chars[start - 1])
        invariant
            0 <= start <= idx < len,
            len == chars@.len(),
            cs == chars@,
            word_start_before(cs, start as int) == word_start_before(cs, idx as int),
        decreases start,
    {
        assert(word_start_before(cs, start as int) == word_start_before(cs, start - 1));
        start = start - 1;
    }
    if start > 0 && prefix_char(chars[start - 1]) {
        start = start - 1;
    }
    if prefix_char(chars[start]) && start + 1 < len && !word_char(chars[start + 1]) {
        return None;
    }
    let mut end = idx;
    while end < len && word_char(chars[end])
        invariant
            idx <= end <= len,
            len == chars@.len(),
            cs == chars@,
            word_end_after(cs, end as int) == word_end_after(cs, idx as int),
        decreases len - end,
    {
        end = end + 1;
    }
    if end <= start {
        return None;
    }
    Some(string_from_range(chars.as_slice(), start, end))
}

/// The name of a namespace rule `#ns { ... }`: a single selector made of a
/// single part holding a single ID selector.
pub open spec fn namespace_of(selectors: Seq<Selector>) -> Option<Seq<char>> {
    if selectors.len() == 1 && selectors[0].parts@.len() == 1
        && selectors[0].parts@[0].simple_selectors@.len() == 1 {
        match selectors[0].parts@[0].simple_selectors@[0] {
            SimpleSelector::Id { name, .. } => Some(name@),
            _ => None,
        }
    } else {
        None
    }
}

/// The namespace name of a rule's selectors, if they form `#name`.
pub fn namespace_name(selectors: &[Selector]) -> (res: Option<String>)
    ensures
        opt_seq(res) == namespace_of(selectors@),
{
    if selectors.len() != 1 {
        return None;
    }
    let sel = &selectors[0];
    if sel.parts.len() != 1 {
        return None;
    }
    let part = &sel.parts[0];
    if part.simple_selectors.len() != 1 {
        return None;
    }
    match &part.simple_selectors[0] {
        SimpleSelector::Id { name, .. } => Some(name.clone()),
        _ => None,
    }
}

/// The label of a simple selector in a symbol name.
pub open spec fn simple_label(s: SimpleSelector) -> Seq<char> {
    match s {
        SimpleSelector::Universal(_) => seq!['*'],
        SimpleSelector::Type { name, .. } => name@,
        SimpleSelector::Class { name, .. } => seq!['.'] + name@,
        SimpleSelector::Id { name, .. } => seq!['#'] + name@,
        SimpleSelector::Attribute { name, .. } => seq!['['] + name@ + seq![']'],
        SimpleSelector::PseudoClass { name, argument, .. } => seq![':'] + name@ + match argument {
            Some(a) => seq!['('] + a@ + seq![')'],
            None => seq![],
        },
        SimpleSelector::PseudoElement { name, .. } => seq![':', ':'] + name@,
        SimpleSelector::Parent(_) => seq!['&'],
        SimpleSelector::Interpolation { variable, .. } => seq!['@', '{'] + variable@ + seq!['}'],
    }
}

/// The labels of the first `k` simple selectors, concatenated.
pub open spec fn simples_label(s: Seq<SimpleSelector>, k: int) -> Seq<char>
    decreases k,
{
    if k <= 0 {
        seq![]
    } else {
        simples_label(s, k - 1) + simple_label(s[k - 1])
    }
}

/// The label of a part: its simple selectors, then its combinator between
/// spaces.
pub open spec fn part_label(p: SelectorPart) -> Seq<char> {
    simples_label(p.simple_selectors@, p.simple_selectors@.len() as int) + match p.combinator {
        Some(c) => seq![' '] + c.spec_css() + seq![' '],
        None => seq![],
    }
}

/// The labels of the first `k` parts, concatenated.
pub open spec fn parts_label(p: Seq<SelectorPart>, k: int) -> Seq<char>
    decreases k,
{
    if k <= 0 {
        seq![]
    } else {
        parts_label(p, k - 1) + part_label(p[k - 1])
    }
}

fn push_simple_label(out: &mut String, simple: &SimpleSelector)
    ensures
        final(out)@ == old(out)@ + simple_label(*simple),
{
    match simple {
        SimpleSelector::Universal(_) => push_char(out, '*'),
        SimpleSelector::Type { name, .. } => push_str(out, name.as_str()),
        SimpleSelector::Class { name, .. } => {
            push_char(out, '.');
            push_str(out, name.as_str());
        },
        SimpleSelector::Id { name, .. } => {
            push_char(out, '#');
            push_str(out, name.as_str());
        },
        SimpleSelector::Attribute { name, .. } => {
            push_char(out, '[');
            push_str(out, name.as_str());
            push_char(out, ']');
        },
        SimpleSelector::PseudoClass { name, argument, .. } => {
            push_char(out, ':');
            push_str(out, name.as_str());
            if let Some(a) = argument {
                push_char(out, '(');
                push_str(out, a.as_str());
                push_char(out, ')');
            }
        },
        SimpleSelector::PseudoElement { name, .. } => {
            push_char(out, ':');
            push_char(out, ':');
            push_str(out, name.as_str());
        },
        SimpleSelector::Parent(_) => push_char(out, '&'),
        SimpleSelector::Interpolation { variable, .. } => {
            push_char(out, '@');
            push_char(out, '{');
            push_str(out, variable.as_str());
            push_char(out, '}');
        },
    }
    assert(final(out)@ =~= old(out)@ + simple_label(*simple));
}

/// The selector as shown in a symbol name: each part's simple selectors,
/// and each combinator between spaces.
pub fn selector_to_string(sel: &Selector) -> (res: String)
    ensures
        res@ == parts_label(sel.parts@, sel.parts@.len() as int),
{
    let mut out = String::new();
    let mut i: usize = 0;
    while i < sel.parts.len()
        invariant
            0 <= i <= sel.parts@.len(),
            out@ == parts_label(sel.parts@, i as int),
        decreases sel.parts@.len() - i,
    {
        let part = &sel.parts[i];
        let ghost before = out@;
        let mut j: usize = 0;
        while j < part.simple_selectors.len()
            invariant
                0 <= j <= part.simple_selectors@.len(),
                out@ == before + simples_label(part.simple_selectors@, j as int),
            decreases part.simple_selectors@.len() - j,
        {
            push_simple_label(&mut out, &part.simple_selectors[j]);
            j = j + 1;
            assert(out@ =~= before + simples_label(part.simple_selectors@, j as int));
        }
        if let Some(c) = &part.combinator {
            push_char(&mut out, ' ');
            push_str(&mut out, c.to_css());
            push_char(&mut out, ' ');
        }
        i = i + 1;
        assert(out@ =~= parts_label(sel.parts@, i as int));
    }
    out
}

/// A mixin parameter as a signature shows it: its name (without `@`),
/// whether it is variadic, and its default value already written as text.
pub struct ParamLabel {
    /// Parameter name
    pub name: String,
    /// Whether the parameter collects the remaining arguments
    pub variadic: bool,
    /// The default value as text, if the parameter has one
    pub default_text: Option<String>,
}

/// How one parameter is shown: `@name`, `...` when variadic, and `: value`
/// when it has a default.
pub open spec fn param_item(p: ParamLabel) -> Seq<char> {
    seq!['@'] + p.name@ + (if p.variadic {
        seq!['.', '.', '.']
    } else {
        seq![]
    }) + match p.default_text {
        Some(d) => seq![':', ' '] + d@,
        None => seq![],
    }
}

/// The items of the first `k` parameters joined by `; `.
pub open spec fn params_joined(ps: Seq<ParamLabel>, k: int) -> Seq<char>
    decreases k,
{
    if k <= 0 {
        seq![]
    } else if k == 1 {
        param_item(ps[0])
    } else {
        params_joined(ps, k - 1) + seq![';', ' '] + param_item(ps[k - 1])
    }
}

/// A mixin's parameter list as shown next to its name: nothing without
/// parameters, else the items in parentheses, separated by `; `.
pub open spec fn params_label(ps: Seq<ParamLabel>) -> Seq<char> {
    if ps.len() == 0 {
        seq![]
    } else {
        seq!['('] + params_joined(ps, ps.len() as int) + seq![')']
    }
}

fn push_param_item(out: &mut String, p: &ParamLabel)
    ensures
        final(out)@ == old(out)@ + param_item(*p),
{
    push_char(out, '@');
    push_str(out, p.name.as_str());
    if p.variadic {
        proof {
            reveal_strlit("...");
        }
        push_str(out, "...");
    }
    if let Some(d) = &p.default_text {
        push_char(out, ':');
        push_char(out, ' ');
        push_str(out, d.as_str());
    }
    assert(final(out)@ =~= old(out)@ + param_item(*p));
}

/// The parameter list of a mixin as shown in a symbol's detail.
pub fn params_to_string(params: &[ParamLabel]) -> (res: String)
    ensures
        res@ == params_label(params@),
{
    let mut out = String::new();
    if params.len() == 0 {
        return out;
    }
    push_char(&mut out, '(');
    let mut i: usize = 0;
    while i < params.len()
        invariant
            0 <= i <= params@.len(),
            params@.len() > 0,
            out@ == seq!['('] + params_joined(params@, i as int),
        decreases params@.len() - i,
    {
        if i > 0 {
            push_char(&mut out, ';');
            push_char(&mut out, ' ');
        }
        push_param_item(&mut out, &params[i]);
        i = i + 1;
        assert(out@ =~= seq!['('] + params_joined(params@, i as int));
    }
    push_char(&mut out, ')');
    out
}

} // verus!
