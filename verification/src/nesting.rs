//! Putting a nested rule's selector under the selectors of its parent rule.
//!
//! The selector arrives compiled to text (its `:extend` parts removed and
//! its interpolations evaluated); what is decided here is where the parent
//! selectors go: in place of a leading `&`, in place of every `&` elsewhere,
//! or in front of the selector with a space.

use crate::ast::selectors::{Combinator, Selector, SelectorPart, SimpleSelector};
use crate::error::Error;
use crate::extend::strings_view;
use crate::text::{chars_of, push_char, push_str, str_eq};
use vstd::prelude::*;

verus! {

/// `s` with every `&` replaced by `r`.
pub open spec fn replace_amp(s: Seq<char>, r: Seq<char>) -> Seq<char>
    decreases s.len(),
{
    if s.len() == 0 {
        seq![]
    } else {
        replace_amp(s.drop_last(), r) + (if s.last() == '&' {
            r
        } else {
            seq![s.last()]
        })
    }
}

/// The selector `sel` put under one parent selector.
pub open spec fn nest_under(sel: Seq<char>, parent: Seq<char>, has_parent_ref: bool) -> Seq<char> {
    if has_parent_ref {
        if sel.len() > 0 && sel[0] == '&' {
            parent + sel.skip(1)
        } else {
            replace_amp(sel, parent)
        }
    } else {
        parent + " "@ + sel
    }
}

/// The selector put under each parent in turn, joined by `", "`.
pub open spec fn nest_under_all(
    sel: Seq<char>,
    parents: Seq<Seq<char>>,
    has_parent_ref: bool,
) -> Seq<char>
    decreases parents.len(),
{
    if parents.len() == 0 {
        seq![]
    } else if parents.len() == 1 {
        nest_under(sel, parents[0], has_parent_ref)
    } else {
        nest_under_all(sel, parents.drop_last(), has_parent_ref) + ", "@ + nest_under(
            sel,
            parents.last(),
            has_parent_ref,
        )
    }
}

/// The message of the error for a `&` outside any rule.
pub open spec fn no_parent_message() -> Seq<char> {
    "Parent selector (&) used without parent context"@
}

fn replace_amp_into(out: &mut String, sel: &Vec<char>, start: usize, parent: &str)
    requires
        start <= sel@.len(),
    ensures
        final(out)@ == old(out)@ + replace_amp(sel@.skip(start as int), parent@),
{
    let ghost base = out@;
    let mut i: usize = start;
    while i < sel.len()
        invariant
            start <= i <= sel@.len(),
            out@ == base + replace_amp(sel@.subrange(start as int, i as int), parent@),
        decreases sel@.len() - i,
    {
        let ghost pre = sel@.subrange(start as int, i as int);
        let c = sel[i];
        if c == '&' {
            push_str(out, parent);
        } else {
            push_char(out, c);
        }
        proof {
            let next = sel@.subrange(start as int, i + 1);
            assert(next.drop_last() =~= pre);
            assert(next.last() == c);
        }
        i = i + 1;
    }
    assert(sel@.subrange(start as int, sel@.len() as int) =~= sel@.skip(start as int));
}

fn nest_under_into(out: &mut String, sel: &Vec<char>, parent: &str, has_parent_ref: bool)
    ensures
        final(out)@ == old(out)@ + nest_under(sel@, parent@, has_parent_ref),
{
    if has_parent_ref {
        if sel.len() > 0 && sel[0] == '&' {
            push_str(out, parent);
            let ghost mid = out@;
            let mut i: usize = 1;
            while i < sel.len()
                invariant
                    1 <= i <= sel@.len(),
                    out@ == mid + sel@.subrange(1, i as int),
                decreases sel@.len() - i,
            {
                push_char(out, sel[i]);
                i = i + 1;
                assert(out@ =~= mid + sel@.subrange(1, i as int));
            }
            assert(sel@.subrange(1, sel@.len() as int) =~= sel@.skip(1));
        } else {
            replace_amp_into(out, sel, 0, parent);
            assert(sel@.skip(0) =~= sel@);
        }
    } else {
        push_str(out, parent);
        push_str(out, " ");
        let ghost mid = out@;
        let mut i: usize = 0;
        while i < sel.len()
            invariant
                0 <= i <= sel@.len(),
                out@ == mid + sel@.take(i as int),
            decreases sel@.len() - i,
        {
            push_char(out, sel[i]);
            i = i + 1;
            assert(out@ =~= mid + sel@.take(i as int));
        }
        proof {
            reveal_strlit(" ");
            assert(sel@.take(sel@.len() as int) =~= sel@);
        }
    }
}

/// The compiled selector `selector_css` of a nested rule, put under the
/// compiled selectors of its parent rule. With a parent reference, each
/// parent takes the place of a leading `&` (later `&`s stay), or else of
/// every `&`; without one, the parent is written in front with a space.
/// The results for the parents are joined by `", "`. A selector with a
/// parent reference and no parents is an error; one without a parent
/// reference and no parents is returned as it is.
pub fn nest_selector(selector_css: &str, has_parent_ref: bool, parents: &[String]) -> (res: Result<
    String,
    Error,
>)
    ensures
        res is Err <==> (has_parent_ref && parents@.len() == 0),
        res matches Err(e) ==> e matches Error::CompilationError { message } && message@
            == no_parent_message(),
        res matches Ok(s) ==> s@ == (if parents@.len() == 0 {
            selector_css@
        } else {
            nest_under_all(selector_css@, strings_view(parents@), has_parent_ref)
        }),
{
    if parents.len() == 0 {
        if has_parent_ref {
            return Err(Error::compilation_error("Parent selector (&) used without parent context"));
        }
        return Ok(selector_css.to_string());
    }
    let sel = chars_of(selector_css);
    let ghost ps = strings_view(parents@);
    let mut out = String::new();
    let mut i: usize = 0;
    while i < parents.len()
        invariant
            0 <= i <= parents@.len(),
            parents@.len() > 0,
            ps == strings_view(parents@),
            sel@ == selector_css@,
            out@ == nest_under_all(sel@, ps.take(i as int), has_parent_ref),
        decreases parents@.len() - i,
    {
        let ghost before = out@;
        if i > 0 {
            push_str(&mut out, ", ");
        }
        nest_under_into(&mut out, &sel, parents[i].as_str(), has_parent_ref);
        proof {
            reveal_strlit(", ");
            let pre = ps.take(i + 1);
            assert(pre.drop_last() =~= ps.take(i as int));
            assert(pre.last() == parents@[i as int]@);
            if i == 0 {
                assert(pre[0] == parents@[0]@);
                assert(before =~= seq![]);
            }
        }
        i = i + 1;
    }
    assert(ps.take(parents@.len() as int) =~= ps);
    Ok(out)
}

/// Whether a simple selector is an `:extend(...)` pseudo-class, which the
/// compiled selector leaves out.
pub open spec fn is_extend(s: SimpleSelector) -> bool {
    s matches SimpleSelector::PseudoClass { name, .. } && name@ == "extend"@
}

/// The simple selectors that are not `:extend`, in order.
pub open spec fn kept_simples(s: Seq<SimpleSelector>) -> Seq<SimpleSelector>
    decreases s.len(),
{
    if s.len() == 0 {
        seq![]
    } else {
        let prev = kept_simples(s.drop_last());
        if is_extend(s.last()) {
            prev
        } else {
            prev.push(s.last())
        }
    }
}

/// The parts of a selector once `:extend` is removed: each part's kept
/// simple selectors with its combinator, parts left empty dropped.
pub open spec fn clean_parts(p: Seq<SelectorPart>) -> Seq<(Seq<SimpleSelector>, Option<Combinator>)>
    decreases p.len(),
{
    if p.len() == 0 {
        seq![]
    } else {
        let prev = clean_parts(p.drop_last());
        let k = kept_simples(p.last().simple_selectors@);
        if k.len() == 0 {
            prev
        } else {
            prev.push((k, p.last().combinator))
        }
    }
}

/// What separates a compiled part from the next: one space for a
/// descendant combinator or none, else the combinator between spaces.
pub open spec fn separator_of(c: Option<Combinator>) -> Seq<char> {
    match c {
        Some(Combinator::Descendant) => seq![' '],
        None => seq![' '],
        Some(c) => seq![' '] + c.spec_css() + seq![' '],
    }
}

/// The value given for the interpolation of index `k` (empty when none is
/// given).
pub open spec fn interpolated_value(vals: Seq<Seq<char>>, k: int) -> Seq<char> {
    if 0 <= k < vals.len() {
        vals[k]
    } else {
        seq![]
    }
}

/// The text of some simple selectors whose interpolations take the values
/// from index `k` on, and the index after the last value used.
pub open spec fn simples_text(s: Seq<SimpleSelector>, vals: Seq<Seq<char>>, k: int) -> (Seq<char>, int)
    decreases s.len(),
{
    if s.len() == 0 {
        (seq![], k)
    } else {
        let r = simples_text(s.drop_last(), vals, k);
        if s.last() is Interpolation {
            (r.0 + interpolated_value(vals, r.1), r.1 + 1)
        } else {
            (r.0 + s.last().spec_css(), r.1)
        }
    }
}

/// The text of cleaned parts, joined by their separators, with the
/// interpolations taking the values in order; and how many were used.
pub open spec fn parts_text(
    c: Seq<(Seq<SimpleSelector>, Option<Combinator>)>,
    vals: Seq<Seq<char>>,
) -> (Seq<char>, int)
    decreases c.len(),
{
    if c.len() == 0 {
        (seq![], 0)
    } else {
        let r = parts_text(c.drop_last(), vals);
        let sep = if c.len() > 1 {
            separator_of(c[c.len() - 2].1)
        } else {
            seq![]
        };
        let t = simples_text(c.last().0, vals, r.1);
        (r.0 + sep + t.0, t.1)
    }
}

fn is_extend_exec(s: &SimpleSelector) -> (res: bool)
    ensures
        res == is_extend(*s),
{
    match s {
        SimpleSelector::PseudoClass { name, .. } => {
            proof {
                reveal_strlit("extend");
            }
            str_eq(name.as_str(), "extend")
        },
        _ => false,
    }
}

/// `n` capped at `cap`.
pub open spec fn capped(n: int, cap: int) -> int {
    if n <= cap {
        n
    } else {
        cap
    }
}

fn copy_or_empty(vals: &[String], k: usize) -> (res: String)
    ensures
        res@ == interpolated_value(strings_view(vals@), k as int),
{
    if k < vals.len() {
        vals[k].clone()
    } else {
        String::new()
    }
}

/// The text of a selector as a rule is compiled under it: `:extend(...)`
/// pseudo-classes are left out and parts left empty dropped; each kept
/// simple selector prints as CSS, except that the interpolations take, in
/// order, the values `interpolated` (already evaluated; empty past the
/// last); parts are joined by a single space for a descendant combinator
/// or none, else by the combinator between spaces.
pub fn compiled_selector_text(sel: &Selector, interpolated: &[String]) -> (res: String)
    ensures
        res@ == parts_text(clean_parts(sel.parts@), strings_view(interpolated@)).0,
{
    selector_text_parts(sel, interpolated).0
}

fn selector_text_parts(sel: &Selector, interpolated: &[String]) -> (res: (String, bool))
    ensures
        res.0@ == parts_text(clean_parts(sel.parts@), strings_view(interpolated@)).0,
        res.1 == (clean_parts(sel.parts@).len() > 0),
{
    let ghost vals = strings_view(interpolated@);
    let ghost p = sel.parts@;
    let mut out = String::new();
    let mut k: usize = 0;
    let mut any = false;
    let mut pending: Option<Combinator> = None;
    let mut i: usize = 0;
    assert(p.take(0) =~= seq![]);
    while i < sel.parts.len()
        invariant
            0 <= i <= p.len(),
            p == sel.parts@,
            vals == strings_view(interpolated@),
            out@ == parts_text(clean_parts(p.take(i as int)), vals).0,
            0 <= parts_text(clean_parts(p.take(i as int)), vals).1,
            k == capped(parts_text(clean_parts(p.take(i as int)), vals).1, vals.len() as int),
            any == (clean_parts(p.take(i as int)).len() > 0),
            any ==> pending == clean_parts(p.take(i as int)).last().1,
        decreases p.len() - i,
    {
        let part = &sel.parts[i];
        let ghost ss = part.simple_selectors@;
        let mut ptext = String::new();
        let ghost gk = parts_text(clean_parts(p.take(i as int)), vals).1;
        let mut kk: usize = k;
        let mut kept_any = false;
        let mut j: usize = 0;
        assert(ss.take(0) =~= seq![]);
        while j < part.simple_selectors.len()
            invariant
                0 <= j <= ss.len(),
                ss == part.simple_selectors@,
                vals == strings_view(interpolated@),
                0 <= gk,
                interpolated@.len() == vals.len(),
                ptext@ == simples_text(kept_simples(ss.take(j as int)), vals, gk).0,
                gk <= simples_text(kept_simples(ss.take(j as int)), vals, gk).1,
                kk == capped(simples_text(kept_simples(ss.take(j as int)), vals, gk).1, vals.len() as int),
                kept_any == (kept_simples(ss.take(j as int)).len() > 0),
            decreases ss.len() - j,
        {
            let s = &part.simple_selectors[j];
            proof {
                assert(ss.take(j + 1).drop_last() =~= ss.take(j as int));
                assert(ss.take(j + 1).last() == ss[j as int]);
            }
            if !is_extend_exec(s) {
                let ghost kept = kept_simples(ss.take(j as int));
                proof {
                    assert(kept_simples(ss.take(j + 1)) == kept.push(ss[j as int]));
                    assert(kept.push(ss[j as int]).drop_last() =~= kept);
                }
                match s {
                    SimpleSelector::Interpolation { .. } => {
                        let v = copy_or_empty(interpolated, kk);
                        push_str(&mut ptext, v.as_str());
                        if kk < interpolated.len() {
                            kk = kk + 1;
                        }
                    },
                    _ => {
                        let t = s.to_css();
                        push_str(&mut ptext, t.as_str());
                    },
                }
                kept_any = true;
            }
            j = j + 1;
        }
        proof {
            assert(ss.take(ss.len() as int) =~= ss);
            assert(p.take(i + 1).drop_last() =~= p.take(i as int));
            assert(p.take(i + 1).last() == p[i as int]);
        }
        if kept_any {
            if any {
                match pending {
                    Some(Combinator::Descendant) => push_char(&mut out, ' '),
                    None => push_char(&mut out, ' '),
                    Some(c) => {
                        push_char(&mut out, ' ');
                        push_str(&mut out, c.to_css());
                        push_char(&mut out, ' ');
                    },
                }
            }
            push_str(&mut out, ptext.as_str());
            k = kk;
            any = true;
            pending = part.combinator;
            proof {
                let c0 = clean_parts(p.take(i as int));
                let c1 = clean_parts(p.take(i + 1));
                assert(c1 == c0.push((kept_simples(ss), part.combinator)));
                assert(c1.drop_last() =~= c0);
                if c1.len() > 1 {
                    assert(c1[c1.len() - 2] == c0.last());
                }
            }
        }
        i = i + 1;
    }
    assert(p.take(p.len() as int) =~= p);
    (out, any)
}

/// A rule's selector compiled under the selectors of its parent rule:
/// its text as `compiled_selector_text` gives it (with the interpolations
/// taking the values `interpolated`), put under the parents as
/// `nest_selector` does. A selector left with no parts once `:extend` is
/// removed compiles to the empty text.
pub fn compile_selector(sel: &Selector, interpolated: &[String], parents: &[String]) -> (res: Result<
    String,
    Error,
>)
    ensures
        clean_parts(sel.parts@).len() == 0 ==> (res matches Ok(s) && s@ == Seq::<char>::empty()),
        clean_parts(sel.parts@).len() > 0 ==> {
            let text = parts_text(clean_parts(sel.parts@), strings_view(interpolated@)).0;
            let has_parent = sel.spec_has_parent_reference();
            &&& (res is Err <==> (has_parent && parents@.len() == 0))
            &&& (res matches Err(e) ==> e matches Error::CompilationError { message }
                && message@ == no_parent_message())
            &&& (res matches Ok(s) ==> s@ == (if parents@.len() == 0 {
                text
            } else {
                nest_under_all(text, strings_view(parents@), has_parent)
            }))
        },
{
    let (text, nonempty) = selector_text_parts(sel, interpolated);
    if !nonempty {
        return Ok(String::new());
    }
    let has_parent = sel.has_parent_reference();
    nest_selector(text.as_str(), has_parent, parents)
}

} // verus!
