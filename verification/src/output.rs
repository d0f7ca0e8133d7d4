//! Writing rules and queued media blocks as CSS text.
//!
//! A rule's block is its selectors joined by `", "`, then its body items in
//! source order (by line, then column; items at the same position keep the
//! order they are given in), then the merged `+:` declarations, between
//! braces. Pretty output indents by two spaces per level and puts each line
//! on its own; compressed output writes neither indentation, spaces nor
//! newlines. The values of declarations arrive already evaluated, as text.

use crate::ast::Position;
use crate::extend::strings_view;
use crate::text::{push_char, push_str};
use vstd::prelude::*;

verus! {

/// An item of a rule's body, ready to be written.
#[derive(Debug, Clone, PartialEq, Eq)]
pub enum RuleBodyItem {
    /// `property: value;`, with `!important` when set
    Declaration { property: String, value: String, important: bool },
    /// A comment: a block comment is written, a line comment is not
    Comment { content: String, block: bool },
    /// The text a mixin call wrote, inserted as it is
    MixinOutput(String),
}

/// A body item as a value.
pub enum ItemView {
    Declaration(Seq<char>, Seq<char>, bool),
    Comment(Seq<char>, bool),
    MixinOutput(Seq<char>),
}

impl View for RuleBodyItem {
    type V = ItemView;

    open spec fn view(&self) -> ItemView {
        match self {
            RuleBodyItem::Declaration { property, value, important } => ItemView::Declaration(
                property@,
                value@,
                *important,
            ),
            RuleBodyItem::Comment { content, block } => ItemView::Comment(content@, *block),
            RuleBodyItem::MixinOutput(t) => ItemView::MixinOutput(t@),
        }
    }
}

/// The values of some body items.
pub open spec fn items_view(s: Seq<RuleBodyItem>) -> Seq<ItemView> {
    Seq::new(s.len(), |i: int| s[i]@)
}

/// The values of some positioned body items.
pub open spec fn positioned_view(s: Seq<(Position, RuleBodyItem)>) -> Seq<(Position, ItemView)> {
    Seq::new(s.len(), |i: int| (s[i].0, s[i].1@))
}

/// `level` times two spaces.
pub open spec fn spaces(level: nat) -> Seq<char>
    decreases level,
{
    if level == 0 {
        seq![]
    } else {
        spaces((level - 1) as nat) + seq![' ', ' ']
    }
}

/// The indentation of a line at `level`: none in compressed output.
pub open spec fn indent_text(level: nat, compressed: bool) -> Seq<char> {
    if compressed {
        seq![]
    } else {
        spaces(level)
    }
}

/// An optional space: none in compressed output.
pub open spec fn space_text(compressed: bool) -> Seq<char> {
    if compressed {
        seq![]
    } else {
        seq![' ']
    }
}

/// A line break: none in compressed output.
pub open spec fn newline_text(compressed: bool) -> Seq<char> {
    if compressed {
        seq![]
    } else {
        seq!['\n']
    }
}

/// Texts joined by `sep`.
pub open spec fn join_with(s: Seq<Seq<char>>, sep: Seq<char>) -> Seq<char>
    decreases s.len(),
{
    if s.len() == 0 {
        seq![]
    } else if s.len() == 1 {
        s[0]
    } else {
        join_with(s.drop_last(), sep) + sep + s.last()
    }
}

/// The text of one body item at indentation `level`.
pub open spec fn item_text(it: ItemView, level: nat, compressed: bool) -> Seq<char> {
    match it {
        ItemView::Declaration(p, v, important) => indent_text(level, compressed) + p + seq![':']
            + space_text(compressed) + v + (if important {
            space_text(compressed) + "!important"@
        } else {
            seq![]
        }) + seq![';'] + newline_text(compressed),
        ItemView::Comment(t, block) => if block {
            indent_text(level, compressed) + seq!['/', '*'] + t + seq!['*', '/'] + newline_text(
                compressed,
            )
        } else {
            seq![]
        },
        ItemView::MixinOutput(t) => t,
    }
}

/// The texts of body items, one after the other.
pub open spec fn items_text(s: Seq<ItemView>, level: nat, compressed: bool) -> Seq<char>
    decreases s.len(),
{
    if s.len() == 0 {
        seq![]
    } else {
        items_text(s.drop_last(), level, compressed) + item_text(s.last(), level, compressed)
    }
}

/// Whether position `a` comes no later than `b` (by line, then column).
pub open spec fn position_le(a: Position, b: Position) -> bool {
    a.line < b.line || (a.line == b.line && a.column <= b.column)
}

/// `x` inserted into `s` after every item that does not come later.
pub open spec fn insert_by_position<T>(s: Seq<(Position, T)>, x: (Position, T)) -> Seq<(Position, T)>
    decreases s.len(),
{
    if s.len() == 0 {
        seq![x]
    } else if position_le(s.last().0, x.0) {
        s.push(x)
    } else {
        insert_by_position(s.drop_last(), x).push(s.last())
    }
}

/// The items sorted by position; items at the same position keep their
/// order (a stable sort).
pub open spec fn sorted_by_position<T>(s: Seq<(Position, T)>) -> Seq<(Position, T)>
    decreases s.len(),
{
    if s.len() == 0 {
        seq![]
    } else {
        insert_by_position(sorted_by_position(s.drop_last()), s.last())
    }
}

/// The second components of pairs.
pub open spec fn seconds<T>(s: Seq<(Position, T)>) -> Seq<T> {
    Seq::new(s.len(), |i: int| s[i].1)
}

/// The text of a rule's block: its selectors joined by `", "` and `{` on
/// one line at `indent`, the body items sorted by position and then the
/// merged declarations one level deeper, and `}` at `indent`.
pub open spec fn rule_block_spec(
    sels: Seq<Seq<char>>,
    items: Seq<(Position, ItemView)>,
    merged: Seq<ItemView>,
    indent: nat,
    compressed: bool,
) -> Seq<char> {
    indent_text(indent, compressed) + join_with(sels, ", "@) + space_text(compressed) + seq!['{']
        + newline_text(compressed) + items_text(seconds(sorted_by_position(items)), indent + 1, compressed)
        + items_text(merged, indent + 1, compressed) + indent_text(indent, compressed) + seq!['}']
        + newline_text(compressed)
}

/// Inserting after the last item that comes no later is inserting at `j`.
proof fn lemma_insert_at<T>(s: Seq<(Position, T)>, x: (Position, T), j: int)
    requires
        0 <= j <= s.len(),
        forall|k: int| j <= k < s.len() ==> !position_le(#[trigger] s[k].0, x.0),
        j == 0 || position_le(s[j - 1].0, x.0),
    ensures
        insert_by_position(s, x) == s.insert(j, x),
    decreases s.len(),
{
    if s.len() == 0 {
        assert(s.insert(j, x) =~= seq![x]);
    } else if j == s.len() {
        assert(s.insert(j, x) =~= s.push(x));
    } else {
        assert(!position_le(s[s.len() - 1].0, x.0));
        let d = s.drop_last();
        assert forall|k: int| j <= k < d.len() implies !position_le(#[trigger] d[k].0, x.0) by {
            assert(d[k] == s[k]);
        }
        if j > 0 {
            assert(d[j - 1] == s[j - 1]);
        }
        lemma_insert_at(d, x, j);
        assert(d.insert(j, x).push(s.last()) =~= s.insert(j, x));
    }
}

fn position_le_exec(a: &Position, b: &Position) -> (res: bool)
    ensures
        res == position_le(*a, *b),
{
    a.line < b.line || (a.line == b.line && a.column <= b.column)
}

/// The indices of `items` in the order `sorted_by_position` puts them.
fn sorted_indices(items: &[(Position, RuleBodyItem)]) -> (res: Vec<usize>)
    ensures
        res@.len() == items@.len(),
        forall|k: int| 0 <= k < res@.len() ==> #[trigger] res@[k] < items@.len(),
        Seq::new(res@.len(), |k: int| positioned_view(items@)[res@[k] as int]) == sorted_by_position(
            positioned_view(items@),
        ),
{
    let ghost pv = positioned_view(items@);
    let mut idx: Vec<usize> = Vec::new();
    let mut i: usize = 0;
    assert(Seq::new(idx@.len(), |k: int| pv[idx@[k] as int]) =~= sorted_by_position(pv.take(0)));
    while i < items.len()
        invariant
            0 <= i <= items@.len(),
            pv == positioned_view(items@),
            idx@.len() == i,
            forall|k: int| 0 <= k < idx@.len() ==> #[trigger] idx@[k] < i,
            Seq::new(idx@.len(), |k: int| pv[idx@[k] as int]) == sorted_by_position(pv.take(i as int)),
        decreases items@.len() - i,
    {
        let ghost s = Seq::new(idx@.len(), |k: int| pv[idx@[k] as int]);
        let ghost x = pv[i as int];
        let mut j: usize = idx.len();
        while j > 0 && !position_le_exec(&items[idx[j - 1]].0, &items[i].0)
            invariant
                0 <= j <= idx@.len(),
                i < items@.len(),
                idx@.len() == i,
                forall|k: int| 0 <= k < idx@.len() ==> #[trigger] idx@[k] < i,
                pv == positioned_view(items@),
                s == Seq::new(idx@.len(), |k: int| pv[idx@[k] as int]),
                x == pv[i as int],
                forall|k: int| j <= k < s.len() ==> !position_le(#[trigger] s[k].0, x.0),
            decreases j,
        {
            j = j - 1;
        }
        proof {
            if j > 0 {
                assert(s[j - 1].0 == items@[idx@[j - 1] as int].0);
            }
            lemma_insert_at(s, x, j as int);
            let t = pv.take(i + 1);
            assert(t.drop_last() =~= pv.take(i as int));
            assert(t.last() == x);
        }
        idx.insert(j, i);
        proof {
            assert(Seq::new(idx@.len(), |k: int| pv[idx@[k] as int]) =~= s.insert(j as int, x));
        }
        i = i + 1;
    }
    assert(pv.take(items@.len() as int) =~= pv);
    idx
}

fn push_indent(out: &mut String, level: usize, compressed: bool)
    ensures
        final(out)@ == old(out)@ + indent_text(level as nat, compressed),
{
    if compressed {
        assert(final(out)@ =~= old(out)@ + indent_text(level as nat, compressed));
        return;
    }
    let ghost base = out@;
    let mut k: usize = 0;
    assert(out@ =~= base + spaces(0));
    while k < level
        invariant
            0 <= k <= level,
            !compressed,
            out@ == base + spaces(k as nat),
        decreases level - k,
    {
        push_char(out, ' ');
        push_char(out, ' ');
        k = k + 1;
        assert(out@ =~= base + spaces(k as nat));
    }
}

fn push_space(out: &mut String, compressed: bool)
    ensures
        final(out)@ == old(out)@ + space_text(compressed),
{
    if !compressed {
        push_char(out, ' ');
    } else {
        assert(out@ =~= out@ + space_text(compressed));
    }
}

fn push_newline(out: &mut String, compressed: bool)
    ensures
        final(out)@ == old(out)@ + newline_text(compressed),
{
    if !compressed {
        push_char(out, '\n');
    } else {
        assert(out@ =~= out@ + newline_text(compressed));
    }
}

fn push_item(out: &mut String, item: &RuleBodyItem, level: usize, compressed: bool)
    ensures
        final(out)@ == old(out)@ + item_text(item@, level as nat, compressed),
{
    let ghost base = out@;
    match item {
        RuleBodyItem::Declaration { property, value, important } => {
            push_indent(out, level, compressed);
            push_str(out, property.as_str());
            push_char(out, ':');
            push_space(out, compressed);
            push_str(out, value.as_str());
            if *important {
                push_space(out, compressed);
                push_str(out, "!important");
            }
            push_char(out, ';');
            push_newline(out, compressed);
            proof {
                reveal_strlit("!important");
            }
            assert(out@ =~= base + item_text(item@, level as nat, compressed));
        },
        RuleBodyItem::Comment { content, block } => {
            if *block {
                push_indent(out, level, compressed);
                push_char(out, '/');
                push_char(out, '*');
                push_str(out, content.as_str());
                push_char(out, '*');
                push_char(out, '/');
                push_newline(out, compressed);
            }
            assert(out@ =~= base + item_text(item@, level as nat, compressed));
        },
        RuleBodyItem::MixinOutput(t) => {
            push_str(out, t.as_str());
        },
    }
}

fn push_joined(out: &mut String, sels: &[String], sep: &str)
    ensures
        final(out)@ == old(out)@ + join_with(strings_view(sels@), sep@),
{
    let ghost base = out@;
    let ghost sv = strings_view(sels@);
    let mut i: usize = 0;
    assert(sv.take(0) =~= seq![]);
    while i < sels.len()
        invariant
            0 <= i <= sels@.len(),
            sv == strings_view(sels@),
            out@ == base + join_with(sv.take(i as int), sep@),
        decreases sels@.len() - i,
    {
        if i > 0 {
            push_str(out, sep);
        }
        push_str(out, sels[i].as_str());
        proof {
            let t = sv.take(i + 1);
            assert(t.drop_last() =~= sv.take(i as int));
            assert(t.last() == sels@[i as int]@);
            if i == 0 {
                assert(t[0] == sels@[0]@);
            }
        }
        i = i + 1;
    }
    assert(sv.take(sels@.len() as int) =~= sv);
}

/// Writes a rule's block. A rule with no body items and no merged
/// declarations writes nothing. Otherwise: at `indent`, the selectors
/// joined by `", "`, a space and `{`, a line break; one level deeper, the
/// body items sorted by position (stably) and then the merged declarations
/// in the order given; at `indent`, `}` and a line break. Compressed output
/// leaves out the indentation, the optional spaces and the line breaks.
pub fn write_rule_block(
    selectors: &[String],
    items: &[(Position, RuleBodyItem)],
    merged: &[RuleBodyItem],
    indent: usize,
    compressed: bool,
) -> (res: String)
    requires
        indent < usize::MAX,
    ensures
        items@.len() + merged@.len() == 0 ==> res@ == Seq::<char>::empty(),
        items@.len() + merged@.len() > 0 ==> res@ == rule_block_spec(
            strings_view(selectors@),
            positioned_view(items@),
            items_view(merged@),
            indent as nat,
            compressed,
        ),
{
    let mut out = String::new();
    if items.len() == 0 && merged.len() == 0 {
        return out;
    }
    let ghost pv = positioned_view(items@);
    push_indent(&mut out, indent, compressed);
    push_joined(&mut out, selectors, ", ");
    push_space(&mut out, compressed);
    push_char(&mut out, '{');
    push_newline(&mut out, compressed);
    let ghost head = out@;
    let order = sorted_indices(items);
    let ghost sorted = seconds(sorted_by_position(pv));
    let mut k: usize = 0;
    assert(sorted.take(0) =~= seq![]);
    while k < order.len()
        invariant
            0 <= k <= order@.len(),
            order@.len() == items@.len(),
            indent < usize::MAX,
            pv == positioned_view(items@),
            forall|m: int| 0 <= m < order@.len() ==> #[trigger] order@[m] < items@.len(),
            Seq::new(order@.len(), |m: int| pv[order@[m] as int]) == sorted_by_position(pv),
            sorted == seconds(sorted_by_position(pv)),
            out@ == head + items_text(sorted.take(k as int), (indent + 1) as nat, compressed),
        decreases order@.len() - k,
    {
        let item = &items[order[k]].1;
        push_item(&mut out, item, indent + 1, compressed);
        proof {
            let t = sorted.take(k + 1);
            assert(t.drop_last() =~= sorted.take(k as int));
            assert(sorted[k as int] == Seq::new(order@.len(), |m: int| pv[order@[m] as int])[k as int].1);
            assert(t.last() == item@);
        }
        k = k + 1;
    }
    assert(sorted.take(order@.len() as int) =~= sorted);
    let ghost mid = out@;
    let ghost mv = items_view(merged@);
    let mut m: usize = 0;
    assert(mv.take(0) =~= seq![]);
    while m < merged.len()
        invariant
            0 <= m <= merged@.len(),
            indent < usize::MAX,
            mv == items_view(merged@),
            out@ == mid + items_text(mv.take(m as int), (indent + 1) as nat, compressed),
        decreases merged@.len() - m,
    {
        push_item(&mut out, &merged[m], indent + 1, compressed);
        proof {
            let t = mv.take(m + 1);
            assert(t.drop_last() =~= mv.take(m as int));
            assert(t.last() == merged@[m as int]@);
        }
        m = m + 1;
    }
    assert(mv.take(merged@.len() as int) =~= mv);
    push_indent(&mut out, indent, compressed);
    push_char(&mut out, '}');
    push_newline(&mut out, compressed);
    proof {
        reveal_strlit(", ");
    }
    assert(out@ =~= rule_block_spec(
        strings_view(selectors@),
        pv,
        mv,
        indent as nat,
        compressed,
    ));
    out
}

/// Whether items are in position order.
pub open spec fn in_position_order<T>(s: Seq<(Position, T)>) -> bool {
    forall|i: int, j: int| 0 <= i < j < s.len() ==> position_le(#[trigger] s[i].0, #[trigger] s[j].0)
}

proof fn lemma_insert_by_position<T>(s: Seq<(Position, T)>, x: (Position, T))
    requires
        in_position_order(s),
    ensures
        in_position_order(insert_by_position(s, x)),
        insert_by_position(s, x).to_multiset() == s.to_multiset().insert(x),
    decreases s.len(),
{
    broadcast use vstd::seq_lib::group_to_multiset_ensures;

    if s.len() == 0 {
        assert(seq![x] =~= Seq::<(Position, T)>::empty().push(x));
    } else if position_le(s.last().0, x.0) {
        let r = s.push(x);
        assert forall|i: int, j: int| 0 <= i < j < r.len() implies position_le(
            #[trigger] r[i].0,
            #[trigger] r[j].0,
        ) by {
            if j == s.len() {
                if i < s.len() - 1 {
                    assert(position_le(s[i].0, s[s.len() - 1].0));
                }
            } else {
                assert(position_le(s[i].0, s[j].0));
            }
        }
    } else {
        let d = s.drop_last();
        let l = s.last();
        assert(in_position_order(d)) by {
            assert forall|i: int, j: int| 0 <= i < j < d.len() implies position_le(
                #[trigger] d[i].0,
                #[trigger] d[j].0,
            ) by {
                assert(position_le(s[i].0, s[j].0));
            }
        }
        lemma_insert_by_position(d, x);
        let r0 = insert_by_position(d, x);
        let r = r0.push(l);
        assert forall|k: int| 0 <= k < r0.len() implies position_le(#[trigger] r0[k].0, l.0) by {
            assert(r0.contains(r0[k]));
            assert(r0.to_multiset().count(r0[k]) > 0);
            if r0[k] != x {
                assert(d.to_multiset().count(r0[k]) > 0);
                assert(d.contains(r0[k]));
                let m = choose|m: int| 0 <= m < d.len() && d[m] == r0[k];
                assert(position_le(s[m].0, s[s.len() - 1].0));
            }
        }
        assert forall|i: int, j: int| 0 <= i < j < r.len() implies position_le(
            #[trigger] r[i].0,
            #[trigger] r[j].0,
        ) by {
            if j == r0.len() {
                assert(position_le(r0[i].0, l.0));
            } else {
                assert(position_le(r0[i].0, r0[j].0));
            }
        }
        assert(s == d.push(l));
        assert(r.to_multiset() =~= s.to_multiset().insert(x));
    }
}

/// Sorting body items by position puts them in position order and keeps
/// every item, each as often as it was given.
pub proof fn lemma_sorted_by_position<T>(s: Seq<(Position, T)>)
    ensures
        in_position_order(sorted_by_position(s)),
        sorted_by_position(s).to_multiset() == s.to_multiset(),
    decreases s.len(),
{
    broadcast use vstd::seq_lib::group_to_multiset_ensures;

    if s.len() > 0 {
        lemma_sorted_by_position(s.drop_last());
        lemma_insert_by_position(sorted_by_position(s.drop_last()), s.last());
        assert(s == s.drop_last().push(s.last()));
    }
}

/// Items already in position order are left as they are.
pub proof fn lemma_sorted_items_unchanged<T>(s: Seq<(Position, T)>)
    requires
        in_position_order(s),
    ensures
        sorted_by_position(s) == s,
    decreases s.len(),
{
    if s.len() > 0 {
        let d = s.drop_last();
        assert(in_position_order(d)) by {
            assert forall|i: int, j: int| 0 <= i < j < d.len() implies position_le(
                #[trigger] d[i].0,
                #[trigger] d[j].0,
            ) by {
                assert(position_le(s[i].0, s[j].0));
            }
        }
        lemma_sorted_items_unchanged(d);
        if d.len() > 0 {
            assert(position_le(s[s.len() - 2].0, s[s.len() - 1].0));
            assert(d.last() == s[s.len() - 2]);
        }
        assert(d.push(s.last()) =~= s);
    }
}

/// The text of a queued media block written after a rule: the query, a
/// space and `{`, a line break, the block's already written statements,
/// and `}` with a line break at `indent`.
pub open spec fn queued_media_spec(query: Seq<char>, body: Seq<char>, indent: nat, compressed: bool) -> Seq<
    char,
> {
    query + space_text(compressed) + seq!['{'] + newline_text(compressed) + body + indent_text(
        indent,
        compressed,
    ) + seq!['}'] + newline_text(compressed)
}

/// Writes a media block queued while a rule was compiled: the query (not
/// indented), a space and `{`, a line break, the statements of the block
/// as the caller wrote them one level deeper, then `}` and a line break at
/// `indent`.
pub fn write_queued_media(query: &str, body: &str, indent: usize, compressed: bool) -> (res: String)
    ensures
        res@ == queued_media_spec(query@, body@, indent as nat, compressed),
{
    let mut out = String::new();
    push_str(&mut out, query);
    push_space(&mut out, compressed);
    push_char(&mut out, '{');
    push_newline(&mut out, compressed);
    push_str(&mut out, body);
    push_indent(&mut out, indent, compressed);
    push_char(&mut out, '}');
    push_newline(&mut out, compressed);
    assert(out@ =~= queued_media_spec(query@, body@, indent as nat, compressed));
    out
}

/// Texts one after the other.
pub open spec fn concat_texts(s: Seq<Seq<char>>) -> Seq<char>
    decreases s.len(),
{
    if s.len() == 0 {
        seq![]
    } else {
        concat_texts(s.drop_last()) + s.last()
    }
}

fn push_all(out: &mut String, texts: &[String])
    ensures
        final(out)@ == old(out)@ + concat_texts(strings_view(texts@)),
{
    let ghost base = out@;
    let ghost sv = strings_view(texts@);
    let mut i: usize = 0;
    assert(sv.take(0) =~= seq![]);
    while i < texts.len()
        invariant
            0 <= i <= texts@.len(),
            sv == strings_view(texts@),
            out@ == base + concat_texts(sv.take(i as int)),
        decreases texts@.len() - i,
    {
        push_str(out, texts[i].as_str());
        proof {
            let t = sv.take(i + 1);
            assert(t.drop_last() =~= sv.take(i as int));
            assert(t.last() == texts@[i as int]@);
        }
        i = i + 1;
    }
    assert(sv.take(texts@.len() as int) =~= sv);
}

/// The whole output of a rule: its block, then what its nested rules and
/// at-rules wrote, in order, then the media blocks queued while it was
/// compiled, so that they follow the rule in the cascade.
pub fn rule_output(block: &str, nested: &[String], queued_media: &[String]) -> (res: String)
    ensures
        res@ == block@ + concat_texts(strings_view(nested@)) + concat_texts(
            strings_view(queued_media@),
        ),
{
    let mut out = String::new();
    push_str(&mut out, block);
    push_all(&mut out, nested);
    push_all(&mut out, queued_media);
    out
}

/// The header of a media query nested in a rule: `@media`, then a space
/// and the prelude when there is one.
pub open spec fn media_header_of(prelude: Option<Seq<char>>) -> Seq<char> {
    match prelude {
        Some(p) => "@media "@ + p,
        None => "@media"@,
    }
}

/// Writes the header of a media query nested in a rule.
pub fn nested_media_header(prelude: Option<&str>) -> (res: String)
    ensures
        res@ == media_header_of(match prelude {
            Some(p) => Some(p@),
            None => None,
        }),
{
    let mut out = String::new();
    push_str(&mut out, "@media");
    proof {
        reveal_strlit("@media");
        reveal_strlit("@media ");
    }
    if let Some(p) = prelude {
        push_char(&mut out, ' ');
        push_str(&mut out, p);
        assert(out@ =~= "@media "@ + p@);
    }
    out
}

/// What a statement of a media block nested in a rule is, as the
/// regrouping sees it (calls of mixins, detached rulesets and `each` are
/// expanded by the caller into these first).
#[derive(Debug, Clone, Copy, PartialEq, Eq, Structural)]
pub enum MediaItemKind {
    /// A declaration: gathered, to be wrapped in rules under the current
    /// selectors
    Declaration,
    /// A variable: evaluated, written nowhere
    Variable,
    /// A nested rule
    Rule,
    /// A conditional at-rule (`@supports`) that bubbles
    BubblingAtRule,
    /// Anything else: kept as it is
    Other,
}

/// One statement of the regrouped media block.
#[derive(Debug, Clone, PartialEq, Eq)]
pub enum MediaStep {
    /// The declarations of these indices, wrapped in one rule per current
    /// selector
    WrapDeclarations(Vec<usize>),
    /// The statement of this index, kept (a nested rule or a bubbling
    /// at-rule is processed for the current selectors)
    Keep(usize),
}

/// A regrouping step as a value.
pub enum StepView {
    WrapDeclarations(Seq<usize>),
    Keep(usize),
}

impl View for MediaStep {
    type V = StepView;

    open spec fn view(&self) -> StepView {
        match self {
            MediaStep::WrapDeclarations(v) => StepView::WrapDeclarations(v@),
            MediaStep::Keep(i) => StepView::Keep(*i),
        }
    }
}

/// The values of some regrouping steps.
pub open spec fn steps_view(s: Seq<MediaStep>) -> Seq<StepView> {
    Seq::new(s.len(), |i: int| s[i]@)
}

/// `steps` followed by the wrapping of the gathered declarations, if any.
pub open spec fn flush_gathered(steps: Seq<StepView>, gathered: Seq<usize>) -> Seq<StepView> {
    if gathered.len() > 0 {
        steps.push(StepView::WrapDeclarations(gathered))
    } else {
        steps
    }
}

/// The regrouping of the first `k` statements: the steps so far and the
/// declarations gathered since the last flush. A nested rule or bubbling
/// at-rule first flushes the gathered declarations; other statements are
/// kept in place without a flush.
pub open spec fn media_regroup(k: Seq<MediaItemKind>, n: int) -> (Seq<StepView>, Seq<usize>)
    decreases n,
{
    if n <= 0 {
        (seq![], seq![])
    } else {
        let r = media_regroup(k, n - 1);
        let i = (n - 1) as usize;
        match k[n - 1] {
            MediaItemKind::Declaration => (r.0, r.1.push(i)),
            MediaItemKind::Variable => r,
            MediaItemKind::Rule => (flush_gathered(r.0, r.1).push(StepView::Keep(i)), seq![]),
            MediaItemKind::BubblingAtRule => (
                flush_gathered(r.0, r.1).push(StepView::Keep(i)),
                seq![],
            ),
            MediaItemKind::Other => (r.0.push(StepView::Keep(i)), r.1),
        }
    }
}

/// The regrouped media block: all statements, then a last flush.
pub open spec fn media_regroup_spec(k: Seq<MediaItemKind>) -> Seq<StepView> {
    let r = media_regroup(k, k.len() as int);
    flush_gathered(r.0, r.1)
}

fn flush_exec(steps: &mut Vec<MediaStep>, gathered: Vec<usize>)
    ensures
        steps_view(final(steps)@) == flush_gathered(steps_view(old(steps)@), gathered@),
{
    let ghost g = gathered@;
    let ghost before = steps_view(steps@);
    if gathered.len() > 0 {
        steps.push(MediaStep::WrapDeclarations(gathered));
        assert(steps_view(steps@) =~= before.push(StepView::WrapDeclarations(g)));
    }
}

/// Regroups the statements of a media block nested in a rule, as the
/// compiler does before queueing the block: declarations are gathered and,
/// before each nested rule or bubbling at-rule and at the end, wrapped in
/// rules under the current selectors; nested rules, bubbling at-rules and
/// other statements are kept in order; variables write nothing.
pub fn regroup_media_block(kinds: &[MediaItemKind]) -> (res: Vec<MediaStep>)
    ensures
        steps_view(res@) == media_regroup_spec(kinds@),
{
    let mut steps: Vec<MediaStep> = Vec::new();
    let mut gathered: Vec<usize> = Vec::new();
    let mut i: usize = 0;
    assert(steps_view(steps@) =~= seq![]);
    while i < kinds.len()
        invariant
            0 <= i <= kinds@.len(),
            steps_view(steps@) == media_regroup(kinds@, i as int).0,
            gathered@ == media_regroup(kinds@, i as int).1,
        decreases kinds@.len() - i,
    {
        let ghost before = steps_view(steps@);
        match kinds[i] {
            MediaItemKind::Declaration => {
                gathered.push(i);
            },
            MediaItemKind::Variable => {},
            MediaItemKind::Rule | MediaItemKind::BubblingAtRule => {
                let g = gathered;
                gathered = Vec::new();
                flush_exec(&mut steps, g);
                let ghost mid = steps_view(steps@);
                steps.push(MediaStep::Keep(i));
                assert(steps_view(steps@) =~= mid.push(StepView::Keep(i)));
                assert(gathered@ =~= seq![]);
            },
            MediaItemKind::Other => {
                steps.push(MediaStep::Keep(i));
                assert(steps_view(steps@) =~= before.push(StepView::Keep(i)));
            },
        }
        i = i + 1;
    }
    flush_exec(&mut steps, gathered);
    steps
}

/// The regrouping of a media block inside a media query that merges with
/// the enclosing one: each declaration on its own.
pub open spec fn merged_media_regroup_spec(k: Seq<MediaItemKind>) -> Seq<StepView> {
    Seq::new(
        k.len(),
        |i: int|
            if k[i] == MediaItemKind::Declaration {
                StepView::WrapDeclarations(seq![i as usize])
            } else {
                StepView::Keep(i as usize)
            },
    )
}

/// Regroups the statements of a media block nested inside another media
/// query (whose headers are merged): each declaration is wrapped at once in
/// rules under the current selectors; every other statement is kept in
/// order (nested rules and bubbling at-rules are processed for the current
/// selectors, the rest, variables included, stay as they are).
pub fn regroup_merged_media_block(kinds: &[MediaItemKind]) -> (res: Vec<MediaStep>)
    ensures
        steps_view(res@) == merged_media_regroup_spec(kinds@),
{
    let mut steps: Vec<MediaStep> = Vec::new();
    let mut i: usize = 0;
    while i < kinds.len()
        invariant
            0 <= i <= kinds@.len(),
            steps_view(steps@) == merged_media_regroup_spec(kinds@).take(i as int),
        decreases kinds@.len() - i,
    {
        let ghost before = steps_view(steps@);
        if kinds[i] == MediaItemKind::Declaration {
            let mut one: Vec<usize> = Vec::new();
            one.push(i);
            assert(one@ =~= seq![i]);
            steps.push(MediaStep::WrapDeclarations(one));
            assert(steps_view(steps@) =~= before.push(StepView::WrapDeclarations(seq![i])));
        } else {
            steps.push(MediaStep::Keep(i));
            assert(steps_view(steps@) =~= before.push(StepView::Keep(i)));
        }
        assert(steps_view(steps@) =~= merged_media_regroup_spec(kinds@).take(i + 1));
        i = i + 1;
    }
    assert(merged_media_regroup_spec(kinds@).take(kinds@.len() as int) =~= merged_media_regroup_spec(kinds@));
    steps
}

/// Whether an item's texts hold no line break.
pub open spec fn item_free_of_newlines(it: ItemView) -> bool {
    match it {
        ItemView::Declaration(p, v, _) => !p.contains('\n') && !v.contains('\n'),
        ItemView::Comment(t, _) => !t.contains('\n'),
        ItemView::MixinOutput(t) => !t.contains('\n'),
    }
}

proof fn lemma_concat_free(a: Seq<char>, b: Seq<char>, c: char)
    requires
        !a.contains(c),
        !b.contains(c),
    ensures
        !(a + b).contains(c),
{
    assert forall|k: int| 0 <= k < (a + b).len() implies (a + b)[k] != c by {
        if k < a.len() {
            assert((a + b)[k] == a[k]);
        } else {
            assert((a + b)[k] == b[k - a.len()]);
        }
    }
}

proof fn lemma_join_free(s: Seq<Seq<char>>, sep: Seq<char>, c: char)
    requires
        !sep.contains(c),
        forall|i: int| 0 <= i < s.len() ==> !(#[trigger] s[i]).contains(c),
    ensures
        !join_with(s, sep).contains(c),
    decreases s.len(),
{
    if s.len() == 1 {
        assert(!s[0].contains(c));
    } else if s.len() > 1 {
        lemma_join_free(s.drop_last(), sep, c);
        assert(!s[s.len() - 1].contains(c));
        lemma_concat_free(join_with(s.drop_last(), sep), sep, c);
        lemma_concat_free(join_with(s.drop_last(), sep) + sep, s.last(), c);
    }
}

proof fn lemma_items_free(s: Seq<ItemView>, level: nat)
    requires
        forall|i: int| 0 <= i < s.len() ==> item_free_of_newlines(#[trigger] s[i]),
    ensures
        !items_text(s, level, true).contains('\n'),
    decreases s.len(),
{
    if s.len() > 0 {
        lemma_items_free(s.drop_last(), level);
        let it = s.last();
        assert(item_free_of_newlines(s[s.len() - 1]));
        let t = item_text(it, level, true);
        assert(!t.contains('\n')) by {
            match it {
                ItemView::Declaration(p, v, imp) => {
                    reveal_strlit("!important");
                    let tail = (if imp { "!important"@ } else { seq![] }) + seq![';'];
                    assert(!tail.contains('\n')) by {
                        assert forall|k: int| 0 <= k < tail.len() implies tail[k] != '\n' by {
                            if imp && k < 10 {
                                assert(tail[k] == "!important"@[k]);
                            }
                        }
                    }
                    lemma_concat_free(p, seq![':'], '\n');
                    lemma_concat_free(p + seq![':'], v, '\n');
                    lemma_concat_free(p + seq![':'] + v, tail, '\n');
                    assert(t =~= p + seq![':'] + v + tail);
                },
                ItemView::Comment(c, block) => {
                    if block {
                        lemma_concat_free(seq!['/', '*'], c, '\n');
                        lemma_concat_free(seq!['/', '*'] + c, seq!['*', '/'], '\n');
                        assert(t =~= seq!['/', '*'] + c + seq!['*', '/']);
                    }
                },
                ItemView::MixinOutput(_) => {},
            }
        }
        lemma_concat_free(items_text(s.drop_last(), level, true), t, '\n');
    }
}

/// Compressed output puts a rule on one line: when the selectors and the
/// texts of the items hold no line break, neither does the block.
pub proof fn lemma_compressed_block_is_one_line(
    sels: Seq<Seq<char>>,
    items: Seq<(Position, ItemView)>,
    merged: Seq<ItemView>,
    indent: nat,
)
    requires
        forall|i: int| 0 <= i < sels.len() ==> !(#[trigger] sels[i]).contains('\n'),
        forall|i: int| 0 <= i < items.len() ==> item_free_of_newlines(#[trigger] items[i].1),
        forall|i: int| 0 <= i < merged.len() ==> item_free_of_newlines(#[trigger] merged[i]),
    ensures
        !rule_block_spec(sels, items, merged, indent, true).contains('\n'),
{
    broadcast use vstd::seq_lib::group_to_multiset_ensures;

    reveal_strlit(", ");
    assert(!", "@.contains('\n')) by {
        assert(", "@[0] == ',' && ", "@[1] == ' ');
    }
    lemma_join_free(sels, ", "@, '\n');
    let sorted = sorted_by_position(items);
    lemma_sorted_by_position(items);
    let sv = seconds(sorted);
    assert forall|i: int| 0 <= i < sv.len() implies item_free_of_newlines(#[trigger] sv[i]) by {
        assert(sorted.contains(sorted[i]));
        assert(sorted.to_multiset().count(sorted[i]) > 0);
        assert(items.contains(sorted[i]));
        let j = choose|j: int| 0 <= j < items.len() && items[j] == sorted[i];
        assert(item_free_of_newlines(items[j].1));
    }
    lemma_items_free(sv, indent + 1);
    lemma_items_free(merged, indent + 1);
    let j = join_with(sels, ", "@);
    let a = items_text(sv, indent + 1, true);
    let b = items_text(merged, indent + 1, true);
    lemma_concat_free(j, seq!['{'], '\n');
    lemma_concat_free(j + seq!['{'], a, '\n');
    lemma_concat_free(j + seq!['{'] + a, b, '\n');
    lemma_concat_free(j + seq!['{'] + a + b, seq!['}'], '\n');
    assert(rule_block_spec(sels, items, merged, indent, true) =~= j + seq!['{'] + a + b + seq!['}']);
}

} // verus!
