//! Binding the arguments of a mixin call to the mixin's parameters.
//!
//! The plan says, for each variable the mixin body sees, where its value
//! comes from (an argument, a parameter's default, or the remaining
//! arguments); evaluating those values is left to the caller.

use crate::error::Error;
use crate::source_map::has_prefix;
use crate::text::{chars_of, decimal, push_str, usize_to_decimal};
use vstd::prelude::*;

verus! {

/// A mixin parameter as binding sees it.
#[derive(Debug, Clone)]
pub struct MixinParam {
    /// Variable name (without `@`)
    pub name: String,
    /// Whether the parameter has a default value
    pub has_default: bool,
    /// Whether it collects the remaining arguments (`@rest...`)
    pub variadic: bool,
    /// Whether it is a pattern that an argument must match (`.m(dark)`)
    pub is_pattern: bool,
}

/// Where a bound value comes from.
#[derive(Debug, Clone, Copy, PartialEq, Eq, Structural)]
pub enum BindingSource {
    /// The argument of that index
    Argument(usize),
    /// The default value of the parameter of that index
    Default(usize),
    /// The list of the arguments from that index on
    Rest(usize),
}

/// The outcome of binding: each variable with the source of its value, in
/// the order they are defined, and the sources that make up `@arguments`.
#[derive(Debug)]
pub struct MixinBinding {
    /// Variables and the sources of their values
    pub bindings: Vec<(String, BindingSource)>,
    /// The values of `@arguments`, in order
    pub all_arguments: Vec<BindingSource>,
}

/// Whether the last parameter is variadic.
pub open spec fn has_variadic(ps: Seq<MixinParam>) -> bool {
    ps.len() > 0 && ps.last().variadic
}

/// The number of parameters that are not variadic (all but a variadic last
/// one).
pub open spec fn fixed_count(ps: Seq<MixinParam>) -> int {
    if has_variadic(ps) {
        ps.len() - 1
    } else {
        ps.len() as int
    }
}

/// How many of the first `k` parameters a call must supply: those without
/// default that are neither variadic nor patterns, plus every pattern.
pub open spec fn required_count(ps: Seq<MixinParam>, k: int) -> int
    decreases k,
{
    if k <= 0 {
        0
    } else {
        let p = ps[k - 1];
        required_count(ps, k - 1) + (if !p.has_default && !p.variadic && !p.is_pattern {
            1int
        } else {
            0int
        }) + (if p.is_pattern {
            1int
        } else {
            0int
        })
    }
}

/// Whether a parameter bound to an argument defines a variable: ordinary
/// parameters do, patterns only when they carry a real name.
pub open spec fn binds_variable(p: MixinParam) -> bool {
    !p.is_pattern || !has_prefix(p.name@, "__pattern_"@)
}

/// The variables bound to the first `k` arguments.
pub open spec fn argument_bindings(ps: Seq<MixinParam>, k: int) -> Seq<(Seq<char>, BindingSource)>
    decreases k,
{
    if k <= 0 {
        seq![]
    } else {
        let prev = argument_bindings(ps, k - 1);
        if binds_variable(ps[k - 1]) {
            prev.push((ps[k - 1].name@, BindingSource::Argument((k - 1) as usize)))
        } else {
            prev
        }
    }
}

/// The defaults of the parameters from index `from` up to `k`, for those
/// that have one.
pub open spec fn default_bindings(ps: Seq<MixinParam>, from: int, k: int) -> Seq<
    (Seq<char>, BindingSource),
>
    decreases k - from,
{
    if k <= from {
        seq![]
    } else {
        let prev = default_bindings(ps, from, k - 1);
        if ps[k - 1].has_default {
            prev.push((ps[k - 1].name@, BindingSource::Default((k - 1) as usize)))
        } else {
            prev
        }
    }
}

/// The argument sources of indices `a` up to `b`.
pub open spec fn argument_range(a: int, b: int) -> Seq<BindingSource>
    decreases b - a,
{
    if b <= a {
        seq![]
    } else {
        argument_range(a, b - 1).push(BindingSource::Argument((b - 1) as usize))
    }
}

/// The sources of the names and values of a list of bindings.
pub open spec fn binding_sources(b: Seq<(Seq<char>, BindingSource)>) -> Seq<BindingSource> {
    Seq::new(b.len(), |i: int| b[i].1)
}

/// How many arguments bind to fixed parameters.
pub open spec fn bound_count(ps: Seq<MixinParam>, n: int) -> int {
    if n < fixed_count(ps) {
        n
    } else {
        fixed_count(ps)
    }
}

/// The variables a call with `n` arguments defines: the arguments bound to
/// fixed parameters, then the defaults of the fixed parameters left over,
/// then the variadic parameter with the remaining arguments.
pub open spec fn bindings_spec(ps: Seq<MixinParam>, n: int) -> Seq<(Seq<char>, BindingSource)> {
    let bc = bound_count(ps, n);
    argument_bindings(ps, bc) + default_bindings(ps, bc, fixed_count(ps)) + if has_variadic(ps) {
        seq![(ps.last().name@, BindingSource::Rest(bc as usize))]
    } else {
        seq![]
    }
}

/// The values of `@arguments`: the arguments bound to fixed parameters,
/// the defaults used, then every remaining argument.
pub open spec fn all_arguments_spec(ps: Seq<MixinParam>, n: int) -> Seq<BindingSource> {
    let bc = bound_count(ps, n);
    argument_range(0, bc) + binding_sources(default_bindings(ps, bc, fixed_count(ps)))
        + argument_range(bc, n)
}

/// The message when a call passes too few arguments.
pub open spec fn too_few_message(name: Seq<char>, required: nat, given: nat) -> Seq<char> {
    "Mixin '"@ + name + "' expects at least "@ + decimal(required) + " arguments, got "@
        + decimal(given)
}

/// The message when a call passes too many arguments.
pub open spec fn too_many_message(name: Seq<char>, most: nat, given: nat) -> Seq<char> {
    "Mixin '"@ + name + "' expects at most "@ + decimal(most) + " arguments, got "@ + decimal(
        given,
    )
}

proof fn lemma_required_bound(ps: Seq<MixinParam>, k: int)
    requires
        0 <= k <= ps.len(),
    ensures
        0 <= required_count(ps, k) <= k,
    decreases k,
{
    if k > 0 {
        lemma_required_bound(ps, k - 1);
    }
}

fn starts_with_pattern_prefix(name: &str) -> (res: bool)
    ensures
        res == has_prefix(name@, "__pattern_"@),
{
    let cs = chars_of(name);
    let p = chars_of("__pattern_");
    if p.len() > cs.len() {
        return false;
    }
    let mut i: usize = 0;
    while i < p.len()
        invariant
            0 <= i <= p.len() <= cs.len(),
            p@ == "__pattern_"@,
            cs@ == name@,
            forall|k: int| 0 <= k < i ==> cs@[k] == p@[k],
        decreases p.len() - i,
    {
        if cs[i] != p[i] {
            assert(cs@.subrange(0, p@.len() as int)[i as int] != p@[i as int]);
            return false;
        }
        i = i + 1;
    }
    assert(cs@.subrange(0, p@.len() as int) =~= p@);
    true
}

/// Plans how the `arg_count` arguments of a call bind to the parameters of
/// mixin `mixin_name`: an error at the call's position when there are fewer
/// arguments than required, or more than parameters without a variadic one.
pub fn bind_mixin_arguments(
    mixin_name: &str,
    params: &[MixinParam],
    arg_count: usize,
    line: usize,
    column: usize,
) -> (res: Result<MixinBinding, Error>)
    ensures
        arg_count < required_count(params@, params@.len() as int) ==> (res matches Err(
            Error::SemanticError { message, line: l, column: c },
        ) && message@ == too_few_message(
            mixin_name@,
            required_count(params@, params@.len() as int) as nat,
            arg_count as nat,
        ) && l == line && c == column),
        arg_count >= required_count(params@, params@.len() as int) && !has_variadic(params@)
            && arg_count > params@.len() ==> (res matches Err(
            Error::SemanticError { message, line: l, column: c },
        ) && message@ == too_many_message(mixin_name@, params@.len(), arg_count as nat) && l
            == line && c == column),
        arg_count >= required_count(params@, params@.len() as int) && (has_variadic(params@)
            || arg_count <= params@.len()) ==> (res matches Ok(b) && binding_view(b.bindings@)
            == bindings_spec(params@, arg_count as int) && b.all_arguments@ == all_arguments_spec(
            params@,
            arg_count as int,
        )),
{
    let ghost ps = params@;
    let n = params.len();
    let has_var = n > 0 && params[n - 1].variadic;
    let fixed = if has_var {
        n - 1
    } else {
        n
    };
    let mut required: usize = 0;
    let mut k: usize = 0;
    while k < n
        invariant
            0 <= k <= n,
            n == ps.len(),
            ps == params@,
            required == required_count(ps, k as int),
        decreases n - k,
    {
        proof {
            lemma_required_bound(ps, k as int);
        }
        let p = &params[k];
        if !p.has_default && !p.variadic && !p.is_pattern {
            required = required + 1;
        }
        if p.is_pattern {
            required = required + 1;
        }
        k = k + 1;
    }
    if arg_count < required {
        let mut message = String::new();
        push_str(&mut message, "Mixin '");
        push_str(&mut message, mixin_name);
        push_str(&mut message, "' expects at least ");
        let r = usize_to_decimal(required);
        push_str(&mut message, r.as_str());
        push_str(&mut message, " arguments, got ");
        let g = usize_to_decimal(arg_count);
        push_str(&mut message, g.as_str());
        return Err(Error::semantic_error(message.as_str(), line, column));
    }
    if !has_var && arg_count > n {
        let mut message = String::new();
        push_str(&mut message, "Mixin '");
        push_str(&mut message, mixin_name);
        push_str(&mut message, "' expects at most ");
        let r = usize_to_decimal(n);
        push_str(&mut message, r.as_str());
        push_str(&mut message, " arguments, got ");
        let g = usize_to_decimal(arg_count);
        push_str(&mut message, g.as_str());
        return Err(Error::semantic_error(message.as_str(), line, column));
    }
    let bc = if arg_count < fixed {
        arg_count
    } else {
        fixed
    };
    let mut bindings: Vec<(String, BindingSource)> = Vec::new();
    let mut all_arguments: Vec<BindingSource> = Vec::new();
    let mut i: usize = 0;
    while i < bc
        invariant
            0 <= i <= bc <= fixed <= n,
            n == ps.len(),
            ps == params@,
            binding_view(bindings@) == argument_bindings(ps, i as int),
            all_arguments@ == argument_range(0, i as int),
        decreases bc - i,
    {
        let p = &params[i];
        let binds = !p.is_pattern || !starts_with_pattern_prefix(p.name.as_str());
        if binds {
            let ghost before = binding_view(bindings@);
            bindings.push((p.name.clone(), BindingSource::Argument(i)));
            assert(binding_view(bindings@) =~= before.push((ps[i as int].name@, BindingSource::Argument(i))));
        }
        all_arguments.push(BindingSource::Argument(i));
        i = i + 1;
    }
    let ghost arg_part = binding_view(bindings@);
    let ghost args_before = all_arguments@;
    let mut defaults: Vec<(String, BindingSource)> = Vec::new();
    let mut j: usize = bc;
    while j < fixed
        invariant
            bc <= j <= fixed <= n,
            n == ps.len(),
            ps == params@,
            binding_view(defaults@) == default_bindings(ps, bc as int, j as int),
        decreases fixed - j,
    {
        let p = &params[j];
        if p.has_default {
            let ghost before = binding_view(defaults@);
            defaults.push((p.name.clone(), BindingSource::Default(j)));
            assert(binding_view(defaults@) =~= before.push((ps[j as int].name@, BindingSource::Default(j))));
        }
        j = j + 1;
    }
    let mut d: usize = 0;
    while d < defaults.len()
        invariant
            0 <= d <= defaults@.len(),
            binding_view(bindings@) == arg_part + binding_view(defaults@).take(d as int),
            all_arguments@ == args_before + binding_sources(binding_view(defaults@).take(d as int)),
        decreases defaults@.len() - d,
    {
        let ghost bv = binding_view(bindings@);
        let ghost av = all_arguments@;
        bindings.push((defaults[d].0.clone(), defaults[d].1));
        all_arguments.push(defaults[d].1);
        proof {
            let dv = binding_view(defaults@);
            assert(dv.take(d + 1) =~= dv.take(d as int).push(dv[d as int]));
            assert(binding_view(bindings@) =~= bv.push(dv[d as int]));
            assert(binding_sources(dv.take(d + 1)) =~= binding_sources(dv.take(d as int)).push(
                dv[d as int].1,
            ));
        }
        d = d + 1;
    }
    proof {
        assert(binding_view(defaults@).take(defaults@.len() as int) =~= binding_view(defaults@));
    }
    if has_var {
        let ghost bv = binding_view(bindings@);
        bindings.push((params[n - 1].name.clone(), BindingSource::Rest(bc)));
        assert(binding_view(bindings@) =~= bv + seq![(ps.last().name@, BindingSource::Rest(bc))]);
    }
    let ghost before_rest = all_arguments@;
    let mut r: usize = bc;
    while r < arg_count
        invariant
            bc <= r <= arg_count,
            all_arguments@ == before_rest + argument_range(bc as int, r as int),
        decreases arg_count - r,
    {
        all_arguments.push(BindingSource::Argument(r));
        r = r + 1;
    }
    proof {
        let ds = default_bindings(ps, bc as int, fixed as int);
        if has_var {
            assert(binding_view(bindings@) =~= bindings_spec(ps, arg_count as int));
        } else {
            assert(binding_view(bindings@) =~= argument_bindings(ps, bc as int) + ds + Seq::<
                (Seq<char>, BindingSource),
            >::empty());
        }
        assert(all_arguments@ =~= all_arguments_spec(ps, arg_count as int));
    }
    Ok(MixinBinding { bindings, all_arguments })
}

/// The names and sources of bindings.
pub open spec fn binding_view(v: Seq<(String, BindingSource)>) -> Seq<(Seq<char>, BindingSource)> {
    Seq::new(v.len(), |i: int| (v[i].0@, v[i].1))
}

/// What a mixin definition's guard is, as selection sees it.
#[derive(Debug, Clone, Copy, PartialEq, Eq, Structural)]
pub enum GuardKind {
    /// No guard: the mixin matches once its patterns do
    Unguarded,
    /// A guard that does not call `default()`
    Plain,
    /// A guard that calls `default()`: tried only after all others
    UsesDefault,
}

/// A mixin definition with the same name as a call, as selection sees it.
#[derive(Debug, Clone, Copy, PartialEq, Eq, Structural)]
pub struct MixinCandidate {
    /// Whether the call's arguments match the definition's pattern
    /// parameters
    pub patterns_match: bool,
    /// The definition's guard
    pub guard: GuardKind,
}

/// One step of mixin selection: the candidate of that index is taken
/// outright, or when its guard holds.
#[derive(Debug, Clone, Copy, PartialEq, Eq, Structural)]
pub struct MixinTrial {
    /// Index of the candidate
    pub index: usize,
    /// Whether its guard must be evaluated (and hold) for it to be taken
    pub guarded: bool,
}

/// The first pass over the first `k` candidates: the candidates whose
/// patterns match and whose guard does not use `default()`, in order, up to
/// and including the first unguarded one; and whether one was unguarded.
pub open spec fn first_pass(c: Seq<MixinCandidate>, k: int) -> (Seq<MixinTrial>, bool)
    decreases k,
{
    if k <= 0 {
        (seq![], false)
    } else {
        let r = first_pass(c, k - 1);
        let m = c[k - 1];
        if r.1 || !m.patterns_match {
            r
        } else {
            match m.guard {
                GuardKind::Unguarded => (r.0.push(MixinTrial { index: (k - 1) as usize, guarded: false }), true),
                GuardKind::Plain => (r.0.push(MixinTrial { index: (k - 1) as usize, guarded: true }), false),
                GuardKind::UsesDefault => r,
            }
        }
    }
}

/// The candidates among the first `k` whose guard uses `default()`
/// (whether or not their patterns match), in order, as guarded trials.
pub open spec fn default_trials(c: Seq<MixinCandidate>, k: int) -> Seq<MixinTrial>
    decreases k,
{
    if k <= 0 {
        seq![]
    } else {
        let r = default_trials(c, k - 1);
        if c[k - 1].guard == GuardKind::UsesDefault {
            r.push(MixinTrial { index: (k - 1) as usize, guarded: true })
        } else {
            r
        }
    }
}

/// The order in which a call tries the candidates: the first pass, and,
/// when it met no unguarded candidate, the `default()` candidates after it.
pub open spec fn mixin_trials_spec(c: Seq<MixinCandidate>) -> Seq<MixinTrial> {
    let r = first_pass(c, c.len() as int);
    if r.1 {
        r.0
    } else {
        r.0 + default_trials(c, c.len() as int)
    }
}

/// The order in which a mixin call tries the definitions of its name.
/// First, in order, every definition whose patterns match and whose guard
/// does not use `default()`: one without a guard is taken at once and ends
/// the search; one with a guard is taken when its guard holds. Then, if no
/// definition was taken outright, every definition whose guard uses
/// `default()`, in order, taken when its guard holds. The caller evaluates
/// the guards in this order and takes the first trial that is unguarded or
/// whose guard holds; none means no definition matches.
pub fn mixin_trials(candidates: &[MixinCandidate]) -> (res: Vec<MixinTrial>)
    ensures
        res@ == mixin_trials_spec(candidates@),
{
    let n = candidates.len();
    let mut trials: Vec<MixinTrial> = Vec::new();
    let mut stopped = false;
    let mut i: usize = 0;
    while i < n
        invariant
            0 <= i <= n,
            n == candidates@.len(),
            trials@ == first_pass(candidates@, i as int).0,
            stopped == first_pass(candidates@, i as int).1,
        decreases n - i,
    {
        let m = candidates[i];
        if !stopped && m.patterns_match {
            match m.guard {
                GuardKind::Unguarded => {
                    trials.push(MixinTrial { index: i, guarded: false });
                    stopped = true;
                },
                GuardKind::Plain => {
                    trials.push(MixinTrial { index: i, guarded: true });
                },
                GuardKind::UsesDefault => {},
            }
        }
        i = i + 1;
    }
    if stopped {
        return trials;
    }
    let ghost pass = trials@;
    let mut j: usize = 0;
    while j < n
        invariant
            0 <= j <= n,
            n == candidates@.len(),
            trials@ == pass + default_trials(candidates@, j as int),
        decreases n - j,
    {
        if candidates[j].guard == GuardKind::UsesDefault {
            trials.push(MixinTrial { index: j, guarded: true });
        }
        j = j + 1;
        proof {
            assert(pass + default_trials(candidates@, j as int) =~= trials@);
        }
    }
    trials
}

/// A candidate without a guard whose patterns match ends the search: the
/// trials end with one that is taken outright, and none is of a later
/// candidate.
pub proof fn lemma_unguarded_match_ends_search(c: Seq<MixinCandidate>, k: int)
    requires
        0 <= k < c.len(),
        c[k].patterns_match,
        c[k].guard == GuardKind::Unguarded,
    ensures
        mixin_trials_spec(c).len() > 0,
        !mixin_trials_spec(c).last().guarded,
        forall|i: int|
            0 <= i < mixin_trials_spec(c).len() ==> #[trigger] mixin_trials_spec(c)[i].index <= k,
{
    lemma_first_pass_stops(c, k, c.len() as int);
}

proof fn lemma_first_pass_facts(c: Seq<MixinCandidate>, k: int)
    requires
        0 <= k <= c.len(),
    ensures
        forall|i: int| 0 <= i < first_pass(c, k).0.len() ==> #[trigger] first_pass(c, k).0[i].index < k,
        first_pass(c, k).1 ==> first_pass(c, k).0.len() > 0 && !first_pass(c, k).0.last().guarded,
    decreases k,
{
    if k > 0 {
        lemma_first_pass_facts(c, k - 1);
    }
}

proof fn lemma_first_pass_stops(c: Seq<MixinCandidate>, k: int, m: int)
    requires
        0 <= k < m <= c.len(),
        c[k].patterns_match,
        c[k].guard == GuardKind::Unguarded,
    ensures
        first_pass(c, m).1,
        first_pass(c, m).0.len() > 0,
        !first_pass(c, m).0.last().guarded,
        forall|i: int| 0 <= i < first_pass(c, m).0.len() ==> #[trigger] first_pass(c, m).0[i].index <= k,
    decreases m,
{
    if m > k + 1 {
        lemma_first_pass_stops(c, k, m - 1);
    } else {
        lemma_first_pass_facts(c, k);
    }
}

} // verus!
