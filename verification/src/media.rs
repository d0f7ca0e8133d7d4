//! Helpers for conditional at-rules: where the items of a media prelude
//! end, and the column pairs that source maps record for a media header.

use crate::ast::values::ascii_lower_char;
use crate::source_map::{drop_leading, drop_trailing, lemma_drop_leading_suffix, lemma_drop_trailing_prefix};
use crate::text::{
    chars_of, copy_string, is_whitespace, push_char, push_str, str_eq, string_from_range, trim,
    trim_string, white_space,
};
use vstd::prelude::*;

verus! {

/// ASCII letters and digits, `-` and `_`.
pub open spec fn ident_ascii(c: char) -> bool {
    ('a' <= c && c <= 'z') || ('A' <= c && c <= 'Z') || ('0' <= c && c <= '9') || c == '-' || c
        == '_'
}

/// Whether `ch` may be part of a function name in a media feature.
pub fn is_identifier_char(ch: char) -> (res: bool)
    ensures
        res == ident_ascii(ch),
{
    ('a' <= ch && ch <= 'z') || ('A' <= ch && ch <= 'Z') || ('0' <= ch && ch <= '9') || ch == '-'
        || ch == '_'
}

/// Whether an `and` starts at `idx` as a word of its own: preceded by the
/// start or white space, followed by the end or white space.
pub open spec fn word_and_at(s: Seq<char>, idx: int) -> bool {
    &&& 0 <= idx
    &&& idx + 2 < s.len()
    &&& s[idx] == 'a' && s[idx + 1] == 'n' && s[idx + 2] == 'd'
    &&& (idx == 0 || white_space(s[idx - 1]))
    &&& (idx + 3 >= s.len() || white_space(s[idx + 3]))
}

/// The first top-level separator (a comma or a word `and` outside
/// parentheses) at or after `idx`, with `depth` parentheses open; a `)`
/// never makes the depth negative.
pub open spec fn separator_scan(s: Seq<char>, idx: int, depth: nat) -> Option<int>
    decreases s.len() - idx,
{
    if idx < 0 || idx >= s.len() {
        None
    } else if s[idx] == '(' {
        separator_scan(s, idx + 1, depth + 1)
    } else if s[idx] == ')' {
        separator_scan(s, idx + 1, if depth > 0 { (depth - 1) as nat } else { 0 })
    } else if depth == 0 && (s[idx] == ',' || word_and_at(s, idx)) {
        Some(idx)
    } else {
        separator_scan(s, idx + 1, depth)
    }
}

/// Finds the first top-level separator of a media prelude at or after
/// `from`.
pub fn find_top_level_separator(chars: &[char], from: usize) -> (res: Option<usize>)
    ensures
        match res {
            Some(i) => separator_scan(chars@, from as int, 0) == Some(i as int),
            None => separator_scan(chars@, from as int, 0) is None,
        },
{
    let mut depth: usize = 0;
    let mut idx = from;
    while idx < chars.len()
        invariant
            from <= idx,
            depth <= idx - from,
            separator_scan(chars@, from as int, 0) == separator_scan(
                chars@,
                idx as int,
                depth as nat,
            ),
        decreases chars.len() - idx,
    {
        let c = chars[idx];
        if c == '(' {
            depth = depth + 1;
        } else if c == ')' {
            if depth > 0 {
                depth = depth - 1;
            }
        } else if c == ',' && depth == 0 {
            return Some(idx);
        } else if c == 'a' && depth == 0 && chars.len() - idx > 2 && chars[idx + 1] == 'n'
            && chars[idx + 2] == 'd' {
            let prev_ok = idx == 0 || is_whitespace(chars[idx - 1]);
            let next_ok = chars.len() - idx <= 3 || is_whitespace(chars[idx + 3]);
            if prev_ok && next_ok {
                return Some(idx);
            }
        }
        idx = idx + 1;
    }
    None
}

/// The start of the run of identifier characters that ends at `j`
/// (inclusive).
pub open spec fn ident_run_start(s: Seq<char>, j: int) -> int
    decreases j,
{
    if j > 0 && ident_ascii(s[j - 1]) {
        ident_run_start(s, j - 1)
    } else {
        j
    }
}

/// Whether `name` is `url` in any ASCII case.
pub open spec fn is_url_name(name: Seq<char>) -> bool {
    name.len() == 3 && ascii_lower_char(name[0]) == 'u' && ascii_lower_char(name[1]) == 'r'
        && ascii_lower_char(name[2]) == 'l'
}

/// One step of the media-header scan at index `k` of `s`, given the pairs
/// so far and the parenthesis depth: a top-level `(` maps the column after
/// it to the next item's separator (or the end); a `(` that follows a
/// function name maps the name's start to itself (for `url(` the column
/// after the parenthesis to itself).
pub open spec fn media_step(s: Seq<char>, k: int, m: Seq<(int, int)>, d: nat) -> (
    Seq<(int, int)>,
    nat,
) {
    let len = s.len() as int;
    if s[k] == '(' {
        if d == 0 {
            let target = match separator_scan(s, k + 1, 0) {
                Some(x) => 7 + x,
                None => 8 + len,
            };
            (m.push((8 + k, target)), 1)
        } else if k > 0 && ident_ascii(s[k - 1]) {
            let st = ident_run_start(s, k - 1);
            if is_url_name(s.subrange(st, k)) {
                (m.push((8 + k, 8 + k)), d + 1)
            } else {
                (m.push((7 + st, 7 + st)), d + 1)
            }
        } else {
            (m, d + 1)
        }
    } else if s[k] == ')' {
        (m, if d > 0 { (d - 1) as nat } else { 0 })
    } else {
        (m, d)
    }
}

/// The pairs and the depth after scanning the first `i` characters of `s`.
pub open spec fn media_prefix(s: Seq<char>, i: int) -> (Seq<(int, int)>, nat)
    decreases i,
{
    if i <= 0 {
        (seq![], 0)
    } else {
        let (m, d) = media_prefix(s, i - 1);
        media_step(s, i - 1, m, d)
    }
}

/// The (generated, source) column pairs of a media prelude, as offsets
/// from the `@media` keyword, after trimming the prelude.
pub open spec fn media_mappings_spec(prelude: Seq<char>) -> Seq<(int, int)> {
    let t = trim(prelude);
    media_prefix(t, t.len() as int).0
}

/// The pairs as integers.
pub open spec fn pairs_view(v: Seq<(usize, usize)>) -> Seq<(int, int)> {
    Seq::new(v.len(), |k: int| (v[k].0 as int, v[k].1 as int))
}

proof fn lemma_media_prefix_bounds(s: Seq<char>, i: int)
    requires
        0 <= i <= s.len(),
    ensures
        media_prefix(s, i).1 <= i,
        media_prefix(s, i).0.len() <= i,
        forall|k: int|
            0 <= k < media_prefix(s, i).0.len() ==> 0 <= (#[trigger] media_prefix(s, i).0[k]).0
                <= 8 + s.len() && 0 <= media_prefix(s, i).0[k].1 <= 8 + s.len(),
    decreases i,
{
    if i > 0 {
        lemma_media_prefix_bounds(s, i - 1);
        lemma_separator_bound(s, i, 0);
        lemma_run_start_bound(s, i - 2);
    }
}

proof fn lemma_separator_bound(s: Seq<char>, idx: int, depth: nat)
    ensures
        separator_scan(s, idx, depth) matches Some(x) ==> idx <= x < s.len(),
    decreases s.len() - idx,
{
    if 0 <= idx < s.len() {
        lemma_separator_bound(s, idx + 1, depth + 1);
        lemma_separator_bound(s, idx + 1, if depth > 0 { (depth - 1) as nat } else { 0 });
        lemma_separator_bound(s, idx + 1, depth);
    }
}

proof fn lemma_run_start_bound(s: Seq<char>, j: int)
    ensures
        j >= 0 ==> 0 <= ident_run_start(s, j) <= j,
    decreases j,
{
    if j > 0 {
        lemma_run_start_bound(s, j - 1);
    }
}

/// The (generated, source) column pairs that less.js records for a media
/// header, as offsets from the `@media` keyword.
pub fn media_feature_mappings(prelude: &str) -> (res: Vec<(usize, usize)>)
    requires
        prelude@.len() + 8 < usize::MAX,
    ensures
        pairs_view(res@) == media_mappings_spec(prelude@),
{
    let normalized = trim_string(prelude);
    if normalized.as_str().is_empty() {
        proof {
            assert(trim(prelude@).len() == 0);
        }
        return Vec::new();
    }
    let chars = chars_of(normalized.as_str());
    let len = chars.len();
    proof {
        assert(trim(prelude@).len() <= prelude@.len()) by {
            crate::text::lemma_trim_len(prelude@);
        }
    }
    let mut mappings: Vec<(usize, usize)> = Vec::new();
    let mut depth: usize = 0;
    let mut i: usize = 0;
    while i < len
        invariant
            chars@ == trim(prelude@),
            len == chars@.len(),
            len + 8 < usize::MAX,
            0 <= i <= len,
            (pairs_view(mappings@), depth as nat) == media_prefix(chars@, i as int),
        decreases len - i,
    {
        proof {
            lemma_media_prefix_bounds(chars@, i as int);
            lemma_separator_bound(chars@, i + 1, 0);
            lemma_run_start_bound(chars@, i - 1);
        }
        let ghost before = mappings@;
        let c = chars[i];
        if c == '(' {
            if depth == 0 {
                let next_separator = find_top_level_separator(chars.as_slice(), i + 1);
                let source_delta = match next_separator {
                    Some(separator_idx) => 7 + separator_idx,
                    None => 8 + len,
                };
                mappings.push((8 + i, source_delta));
            } else if i > 0 && is_identifier_char(chars[i - 1]) {
                let mut start = i - 1;
                while start > 0 && is_identifier_char(chars[start - 1])
                    invariant
                        0 <= start < i <= len,
                        chars@ == trim(prelude@),
                        len == chars@.len(),
                        ident_run_start(chars@, start as int) == ident_run_start(
                            chars@,
                            i - 1,
                        ),
                    decreases start,
                {
                    start = start - 1;
                }
                let is_url = i - start == 3 && ascii_lower_exec(chars[start]) == 'u'
                    && ascii_lower_exec(chars[start + 1]) == 'r' && ascii_lower_exec(
                    chars[start + 2],
                ) == 'l';
                if is_url {
                    mappings.push((8 + i, 8 + i));
                } else {
                    mappings.push((7 + start, 7 + start));
                }
            }
            depth = depth + 1;
        } else if c == ')' {
            if depth > 0 {
                depth = depth - 1;
            }
        }
        proof {
            assert(pairs_view(mappings@) =~= media_prefix(chars@, i + 1).0);
        }
        i = i + 1;
    }
    mappings
}

/// ASCII lower-casing of one character.
fn ascii_lower_exec(c: char) -> (res: char)
    ensures
        res == ascii_lower_char(c),
{
    if 'A' <= c && c <= 'Z' {
        ((c as u8) + 32) as char
    } else {
        c
    }
}

/// The pairs for a header whose emitted prelude differs from the source
/// prelude: generated columns from the emitted text, source columns from the
/// source text, pair by pair as far as both go.
pub open spec fn resolved_spec(emitted: Seq<char>, source: Seq<char>) -> Seq<(int, int)> {
    if emitted == source {
        media_mappings_spec(emitted)
    } else {
        let g = media_mappings_spec(emitted);
        let o = media_mappings_spec(source);
        let n = if g.len() < o.len() {
            g.len()
        } else {
            o.len()
        };
        Seq::new(n, |k: int| (g[k].0, o[k].1))
    }
}

/// Media header pairs when variables in the prelude were resolved.
pub fn media_feature_mappings_resolved(emitted: &str, source: &str) -> (res: Vec<(usize, usize)>)
    requires
        emitted@.len() + 8 < usize::MAX,
        source@.len() + 8 < usize::MAX,
    ensures
        pairs_view(res@) == resolved_spec(emitted@, source@),
{
    if str_eq(emitted, source) {
        return media_feature_mappings(emitted);
    }
    let generated = media_feature_mappings(emitted);
    let from_source = media_feature_mappings(source);
    let n = if generated.len() < from_source.len() {
        generated.len()
    } else {
        from_source.len()
    };
    let mut res: Vec<(usize, usize)> = Vec::new();
    let mut k: usize = 0;
    while k < n
        invariant
            0 <= k <= n,
            n <= generated@.len(),
            n <= from_source@.len(),
            pairs_view(generated@) == media_mappings_spec(emitted@),
            pairs_view(from_source@) == media_mappings_spec(source@),
            res@.len() == k,
            forall|j: int|
                0 <= j < k ==> #[trigger] res@[j] == (generated@[j].0, from_source@[j].1),
        decreases n - k,
    {
        res.push((generated[k].0, from_source[k].1));
        k = k + 1;
    }
    proof {
        let g = media_mappings_spec(emitted@);
        let o = media_mappings_spec(source@);
        assert(g.len() == generated@.len() && o.len() == from_source@.len());
        assert forall|j: int| 0 <= j < n implies #[trigger] pairs_view(res@)[j] == (g[j].0, o[j].1) by {
            assert(res@[j] == (generated@[j].0, from_source@[j].1));
            assert(pairs_view(generated@)[j].0 == g[j].0);
            assert(pairs_view(from_source@)[j].1 == o[j].1);
        }
        assert(pairs_view(res@) =~= resolved_spec(emitted@, source@));
    }
    res
}

/// Conditional at-rules that bubble out of rules like `@media` does.
pub fn should_bubble_conditional_at_rule(name: &str) -> (res: bool)
    ensures
        res == (name@ == "supports"@),
{
    str_eq(name, "supports")
}


/// The name a source map records for an at-rule: `@` and the rule's name,
/// then a space and the trimmed prelude when that is not blank.
pub open spec fn at_rule_name_spec(name: Seq<char>, prelude: Option<Seq<char>>) -> Seq<char> {
    let base = seq!['@'] + name;
    match prelude {
        Some(p) => if trim(p).len() > 0 {
            base + seq![' '] + trim(p)
        } else {
            base
        },
        None => base,
    }
}

/// The name a source map records for the at-rule `name` with `prelude`.
pub fn at_rule_mapping_name(name: &str, prelude: Option<&str>) -> (res: String)
    ensures
        res@ == at_rule_name_spec(
            name@,
            match prelude {
                Some(p) => Some(p@),
                None => None,
            },
        ),
{
    let mut out = String::new();
    push_char(&mut out, '@');
    push_str(&mut out, name);
    if let Some(p) = prelude {
        let trimmed = trim_string(p);
        if !trimmed.as_str().is_empty() {
            push_char(&mut out, ' ');
            push_str(&mut out, trimmed.as_str());
        }
    }
    out
}

/// The media conditions in force inside a nested `@media`: those of the
/// enclosing queries, then the nested prelude trimmed, unless it is blank.
pub open spec fn combined_conditions_spec(stack: Seq<Seq<char>>, current: Seq<char>) -> Seq<
    Seq<char>,
> {
    if trim(current).len() > 0 {
        stack.push(trim(current))
    } else {
        stack
    }
}

/// One condition as it appears in a merged header: trimmed, without its
/// leading `(`s and trailing `)`s, in one pair of parentheses.
pub open spec fn wrapped_condition(c: Seq<char>) -> Seq<char> {
    seq!['('] + drop_trailing(drop_leading(trim(c), '('), ')') + seq![')']
}

/// The first `k` conditions, the empty ones skipped, wrapped and joined by
/// ` and `.
pub open spec fn joined_conditions(cs: Seq<Seq<char>>, k: int) -> Seq<char>
    decreases k,
{
    if k <= 0 {
        seq![]
    } else {
        let p = joined_conditions(cs, k - 1);
        if cs[k - 1].len() == 0 {
            p
        } else if p.len() == 0 {
            wrapped_condition(cs[k - 1])
        } else {
            p + seq![' ', 'a', 'n', 'd', ' '] + wrapped_condition(cs[k - 1])
        }
    }
}

/// The header of a merged media query: `@media` alone when no condition
/// remains, else `@media ` and the joined conditions.
pub open spec fn media_header_spec(cs: Seq<Seq<char>>) -> Seq<char> {
    let j = joined_conditions(cs, cs.len() as int);
    if j.len() == 0 {
        seq!['@', 'm', 'e', 'd', 'i', 'a']
    } else {
        seq!['@', 'm', 'e', 'd', 'i', 'a', ' '] + j
    }
}

/// The views of a list of strings.
pub open spec fn string_seq(v: Seq<String>) -> Seq<Seq<char>> {
    Seq::new(v.len(), |i: int| v[i]@)
}

/// The conditions in force inside a nested `@media` with prelude `current`,
/// given those of the enclosing queries.
pub fn merge_media_conditions(stack: &[String], current: &str) -> (res: Vec<String>)
    ensures
        string_seq(res@) == combined_conditions_spec(string_seq(stack@), current@),
{
    let mut res: Vec<String> = Vec::new();
    let mut i: usize = 0;
    while i < stack.len()
        invariant
            0 <= i <= stack@.len(),
            res@.len() == i,
            forall|k: int| 0 <= k < i ==> #[trigger] res@[k]@ == stack@[k]@,
        decreases stack@.len() - i,
    {
        res.push(copy_string(&stack[i]));
        i = i + 1;
    }
    assert(string_seq(res@) =~= string_seq(stack@));
    let t = trim_string(current);
    if !t.as_str().is_empty() {
        let ghost before = string_seq(res@);
        res.push(t);
        assert(string_seq(res@) =~= before.push(trim(current@)));
    }
    res
}

fn push_wrapped_condition(out: &mut String, c: &str)
    ensures
        final(out)@ == old(out)@ + wrapped_condition(c@),
{
    let t = trim_string(c);
    let cs = chars_of(t.as_str());
    let mut start: usize = 0;
    while start < cs.len() && cs[start] == '('
        invariant
            0 <= start <= cs.len(),
            forall|k: int| 0 <= k < start ==> cs@[k] == '(',
        decreases cs.len() - start,
    {
        start = start + 1;
    }
    proof {
        lemma_drop_leading_suffix(cs@, '(', start as int);
    }
    let ghost rest = cs@.subrange(start as int, cs@.len() as int);
    let mut end: usize = cs.len();
    while end > start && cs[end - 1] == ')'
        invariant
            start <= end <= cs.len(),
            forall|k: int| end <= k < cs@.len() ==> cs@[k] == ')',
        decreases end,
    {
        end = end - 1;
    }
    proof {
        assert forall|k: int| end - start <= k < rest.len() implies rest[k] == ')' by {
            assert(rest[k] == cs@[start + k]);
        }
        if end > start {
            assert(rest[end - start - 1] == cs@[end - 1]);
        }
        lemma_drop_trailing_prefix(rest, ')', end - start);
        assert(rest.subrange(0, end - start) =~= cs@.subrange(start as int, end as int));
    }
    let inner = string_from_range(cs.as_slice(), start, end);
    push_char(out, '(');
    push_str(out, inner.as_str());
    push_char(out, ')');
    assert(final(out)@ =~= old(out)@ + wrapped_condition(c@));
}

/// The header of the merged media query for the conditions in force:
/// the non-empty conditions, each in one pair of parentheses, joined by
/// ` and ` after `@media`.
pub fn merged_media_query(conditions: &[String]) -> (res: String)
    ensures
        res@ == media_header_spec(string_seq(conditions@)),
{
    let ghost cs = string_seq(conditions@);
    let mut joined = String::new();
    let mut i: usize = 0;
    while i < conditions.len()
        invariant
            0 <= i <= conditions@.len(),
            cs == string_seq(conditions@),
            joined@ == joined_conditions(cs, i as int),
        decreases conditions@.len() - i,
    {
        let c = conditions[i].as_str();
        assert(c@ == cs[i as int]);
        if !c.is_empty() {
            if !joined.as_str().is_empty() {
                push_str(&mut joined, " and ");
                proof {
                    reveal_strlit(" and ");
                }
            }
            push_wrapped_condition(&mut joined, c);
        }
        i = i + 1;
        assert(joined@ =~= joined_conditions(cs, i as int));
    }
    let mut res = String::new();
    push_str(&mut res, "@media");
    proof {
        reveal_strlit("@media");
    }
    if !joined.as_str().is_empty() {
        push_char(&mut res, ' ');
        push_str(&mut res, joined.as_str());
    }
    assert(res@ =~= media_header_spec(cs));
    res
}

/// A separator found is a comma or the start of a word `and`, and it lies
/// at or after where the search began.
pub proof fn lemma_separator_is_comma_or_and(s: Seq<char>, idx: int, depth: nat)
    ensures
        separator_scan(s, idx, depth) matches Some(x) ==> idx <= x < s.len() && (s[x] == ','
            || word_and_at(s, x)),
    decreases s.len() - idx,
{
    if 0 <= idx < s.len() {
        lemma_separator_is_comma_or_and(s, idx + 1, depth + 1);
        lemma_separator_is_comma_or_and(s, idx + 1, if depth > 0 { (depth - 1) as nat } else { 0 });
        lemma_separator_is_comma_or_and(s, idx + 1, depth);
    }
}

} // verus!
