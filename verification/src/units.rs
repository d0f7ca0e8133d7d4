//! Unit bookkeeping for arithmetic on dimensioned numbers.

use crate::ast::values::{ascii_lower, Unit};
use crate::source_map::opt_view;
use crate::text::{copy_string, str_eq};
use vstd::prelude::*;

verus! {

/// The unit of a sum or difference: the left operand's unit when it has
/// one, else the right operand's.
pub fn merge_units(left: &Option<String>, right: &Option<String>) -> (res: Option<String>)
    ensures
        opt_view(res) == match (opt_view(*left), opt_view(*right)) {
            (Some(l), _) => Some(l),
            (None, r) => r,
        },
{
    match (left, right) {
        (Some(l), _) => Some(copy_string(l)),
        (None, Some(r)) => Some(copy_string(r)),
        (None, None) => None,
    }
}

/// The group of a unit name: 1 length, 2 angle, 3 time, 4 frequency,
/// 5 resolution, 6 percentage, 0 unknown.
pub open spec fn unit_group(u: Seq<char>) -> int {
    if u == "px"@ || u == "em"@ || u == "rem"@ || u == "ex"@ || u == "ch"@ || u == "vw"@ || u
        == "vh"@ || u == "vmin"@ || u == "vmax"@ || u == "cm"@ || u == "mm"@ || u == "in"@ || u
        == "pt"@ || u == "pc"@ || u == "q"@ {
        1
    } else if u == "deg"@ || u == "grad"@ || u == "rad"@ || u == "turn"@ {
        2
    } else if u == "s"@ || u == "ms"@ {
        3
    } else if u == "hz"@ || u == "khz"@ {
        4
    } else if u == "dpi"@ || u == "dpcm"@ || u == "dppx"@ {
        5
    } else if u == "%"@ {
        6
    } else {
        0
    }
}

/// Whether two units may be combined: the same name, or two known units of
/// one group.
pub open spec fn units_compatible_spec(a: Seq<char>, b: Seq<char>) -> bool {
    a == b || (unit_group(a) != 0 && unit_group(a) == unit_group(b))
}

fn unit_group_exec(u: &str) -> (res: u8)
    ensures
        res as int == unit_group(u@),
{
    if str_eq(u, "px") || str_eq(u, "em") || str_eq(u, "rem") || str_eq(u, "ex") || str_eq(
        u,
        "ch",
    ) || str_eq(u, "vw") || str_eq(u, "vh") || str_eq(u, "vmin") || str_eq(u, "vmax") || str_eq(
        u,
        "cm",
    ) || str_eq(u, "mm") || str_eq(u, "in") || str_eq(u, "pt") || str_eq(u, "pc") || str_eq(
        u,
        "q",
    ) {
        1
    } else if str_eq(u, "deg") || str_eq(u, "grad") || str_eq(u, "rad") || str_eq(u, "turn") {
        2
    } else if str_eq(u, "s") || str_eq(u, "ms") {
        3
    } else if str_eq(u, "hz") || str_eq(u, "khz") {
        4
    } else if str_eq(u, "dpi") || str_eq(u, "dpcm") || str_eq(u, "dppx") {
        5
    } else if str_eq(u, "%") {
        6
    } else {
        0
    }
}

/// Whether two unit names belong to the same unit group.
pub fn units_compatible(a: &str, b: &str) -> (res: bool)
    ensures
        res == units_compatible_spec(a@, b@),
{
    if str_eq(a, b) {
        return true;
    }
    let ga = unit_group_exec(a);
    let gb = unit_group_exec(b);
    ga != 0 && ga == gb
}

/// Unit compatibility is symmetric.
pub proof fn lemma_units_compatible_symmetric(a: Seq<char>, b: Seq<char>)
    ensures
        units_compatible_spec(a, b) == units_compatible_spec(b, a),
{
}

/// Every unit is compatible with itself.
pub proof fn lemma_units_compatible_reflexive(a: Seq<char>)
    ensures
        units_compatible_spec(a, a),
{
}

/// Unit compatibility is transitive.
pub proof fn lemma_units_compatible_transitive(a: Seq<char>, b: Seq<char>, c: Seq<char>)
    requires
        units_compatible_spec(a, b),
        units_compatible_spec(b, c),
    ensures
        units_compatible_spec(a, c),
{
}

/// The group of a unit, read from its printed name (lower-cased).
pub open spec fn unit_name_group(u: Unit) -> int {
    unit_group(ascii_lower(u.spec_to_str()))
}

/// The unit kinds agree with the unit names: a unit is a length, angle,
/// time, frequency or resolution unit exactly when its printed name is one
/// of that group's names (`s` and `ms` are the time units, `hz` and `khz`
/// the frequencies, and so on).
pub proof fn lemma_unit_kinds_follow_names(u: Unit)
    ensures
        u.spec_is_length() <==> unit_name_group(u) == 1,
        u.spec_is_angle() <==> unit_name_group(u) == 2,
        u.spec_is_time() <==> unit_name_group(u) == 3,
        u.spec_is_frequency() <==> unit_name_group(u) == 4,
        u.spec_is_resolution() <==> unit_name_group(u) == 5,
        u is Percent <==> unit_name_group(u) == 6,
        u is Dimensionless <==> unit_name_group(u) == 0,
{
    reveal_strlit("px");
    reveal_strlit("em");
    reveal_strlit("rem");
    reveal_strlit("ex");
    reveal_strlit("ch");
    reveal_strlit("vw");
    reveal_strlit("vh");
    reveal_strlit("vmin");
    reveal_strlit("vmax");
    reveal_strlit("cm");
    reveal_strlit("mm");
    reveal_strlit("in");
    reveal_strlit("pt");
    reveal_strlit("pc");
    reveal_strlit("q");
    reveal_strlit("deg");
    reveal_strlit("grad");
    reveal_strlit("rad");
    reveal_strlit("turn");
    reveal_strlit("s");
    reveal_strlit("ms");
    reveal_strlit("hz");
    reveal_strlit("khz");
    reveal_strlit("dpi");
    reveal_strlit("dpcm");
    reveal_strlit("dppx");
    reveal_strlit("%");
    assert("px"@[0] == 'p');
    assert("px"@[1] == 'x');
    assert("em"@[0] == 'e');
    assert("em"@[1] == 'm');
    assert("rem"@[0] == 'r');
    assert("rem"@[1] == 'e');
    assert("rem"@[2] == 'm');
    assert("ex"@[0] == 'e');
    assert("ex"@[1] == 'x');
    assert("ch"@[0] == 'c');
    assert("ch"@[1] == 'h');
    assert("vw"@[0] == 'v');
    assert("vw"@[1] == 'w');
    assert("vh"@[0] == 'v');
    assert("vh"@[1] == 'h');
    assert("vmin"@[0] == 'v');
    assert("vmin"@[1] == 'm');
    assert("vmin"@[2] == 'i');
    assert("vmin"@[3] == 'n');
    assert("vmax"@[0] == 'v');
    assert("vmax"@[1] == 'm');
    assert("vmax"@[2] == 'a');
    assert("vmax"@[3] == 'x');
    assert("cm"@[0] == 'c');
    assert("cm"@[1] == 'm');
    assert("mm"@[0] == 'm');
    assert("mm"@[1] == 'm');
    assert("in"@[0] == 'i');
    assert("in"@[1] == 'n');
    assert("pt"@[0] == 'p');
    assert("pt"@[1] == 't');
    assert("pc"@[0] == 'p');
    assert("pc"@[1] == 'c');
    assert("q"@[0] == 'q');
    assert("deg"@[0] == 'd');
    assert("deg"@[1] == 'e');
    assert("deg"@[2] == 'g');
    assert("grad"@[0] == 'g');
    assert("grad"@[1] == 'r');
    assert("grad"@[2] == 'a');
    assert("grad"@[3] == 'd');
    assert("rad"@[0] == 'r');
    assert("rad"@[1] == 'a');
    assert("rad"@[2] == 'd');
    assert("turn"@[0] == 't');
    assert("turn"@[1] == 'u');
    assert("turn"@[2] == 'r');
    assert("turn"@[3] == 'n');
    assert("s"@[0] == 's');
    assert("ms"@[0] == 'm');
    assert("ms"@[1] == 's');
    assert("hz"@[0] == 'h');
    assert("hz"@[1] == 'z');
    assert("khz"@[0] == 'k');
    assert("khz"@[1] == 'h');
    assert("khz"@[2] == 'z');
    assert("dpi"@[0] == 'd');
    assert("dpi"@[1] == 'p');
    assert("dpi"@[2] == 'i');
    assert("dpcm"@[0] == 'd');
    assert("dpcm"@[1] == 'p');
    assert("dpcm"@[2] == 'c');
    assert("dpcm"@[3] == 'm');
    assert("dppx"@[0] == 'd');
    assert("dppx"@[1] == 'p');
    assert("dppx"@[2] == 'p');
    assert("dppx"@[3] == 'x');
    assert("%"@[0] == '%');
    let n = u.spec_to_str();
    let l = ascii_lower(n);
    match u {
        Unit::Px => {
            assert(l =~= "px"@);
            assert(unit_group("px"@) == 1);
        },
        Unit::Em => {
            assert(l =~= "em"@);
            assert(unit_group("em"@) == 1);
        },
        Unit::Rem => {
            assert(l =~= "rem"@);
            assert(unit_group("rem"@) == 1);
        },
        Unit::Ex => {
            assert(l =~= "ex"@);
            assert(unit_group("ex"@) == 1);
        },
        Unit::Ch => {
            assert(l =~= "ch"@);
            assert(unit_group("ch"@) == 1);
        },
        Unit::Vw => {
            assert(l =~= "vw"@);
            assert(unit_group("vw"@) == 1);
        },
        Unit::Vh => {
            assert(l =~= "vh"@);
            assert(unit_group("vh"@) == 1);
        },
        Unit::Vmin => {
            assert(l =~= "vmin"@);
            assert(unit_group("vmin"@) == 1);
        },
        Unit::Vmax => {
            assert(l =~= "vmax"@);
            assert(unit_group("vmax"@) == 1);
        },
        Unit::Cm => {
            assert(l =~= "cm"@);
            assert(unit_group("cm"@) == 1);
        },
        Unit::Mm => {
            assert(l =~= "mm"@);
            assert(unit_group("mm"@) == 1);
        },
        Unit::Q => {
            assert(l =~= "q"@);
            assert(unit_group("q"@) == 1);
        },
        Unit::In => {
            assert(l =~= "in"@);
            assert(unit_group("in"@) == 1);
        },
        Unit::Pt => {
            assert(l =~= "pt"@);
            assert(unit_group("pt"@) == 1);
        },
        Unit::Pc => {
            assert(l =~= "pc"@);
            assert(unit_group("pc"@) == 1);
        },
        Unit::Deg => {
            assert(l =~= "deg"@);
            assert(unit_group("deg"@) == 2);
        },
        Unit::Grad => {
            assert(l =~= "grad"@);
            assert(unit_group("grad"@) == 2);
        },
        Unit::Rad => {
            assert(l =~= "rad"@);
            assert(unit_group("rad"@) == 2);
        },
        Unit::Turn => {
            assert(l =~= "turn"@);
            assert(unit_group("turn"@) == 2);
        },
        Unit::S => {
            assert(l =~= "s"@);
            assert(unit_group("s"@) == 3);
        },
        Unit::Ms => {
            assert(l =~= "ms"@);
            assert(unit_group("ms"@) == 3);
        },
        Unit::Hz => {
            assert(l =~= "hz"@);
            assert(unit_group("hz"@) == 4);
        },
        Unit::Khz => {
            assert(l =~= "khz"@);
            assert(unit_group("khz"@) == 4);
        },
        Unit::Dpi => {
            assert(l =~= "dpi"@);
            assert(unit_group("dpi"@) == 5);
        },
        Unit::Dpcm => {
            assert(l =~= "dpcm"@);
            assert(unit_group("dpcm"@) == 5);
        },
        Unit::Dppx => {
            assert(l =~= "dppx"@);
            assert(unit_group("dppx"@) == 5);
        },
        Unit::Percent => {
            assert(l =~= "%"@);
            assert(unit_group("%"@) == 6);
        },
        Unit::Dimensionless => {
            assert(l =~= Seq::<char>::empty());
            assert(unit_group(l) == 0);
        },
    }
}

/// Units are compatible for arithmetic exactly when their names are: for
/// two units that are neither dimensionless nor percentages,
/// `Unit::is_compatible` agrees with comparing the groups of their names
/// (`units_compatible`). So `s` and `ms` combine, `s` and `px` do not.
pub proof fn lemma_unit_compatibility_follows_names(a: Unit, b: Unit)
    requires
        !(a is Dimensionless || a is Percent),
        !(b is Dimensionless || b is Percent),
    ensures
        a.spec_is_compatible(&b) == units_compatible_spec(
            ascii_lower(a.spec_to_str()),
            ascii_lower(b.spec_to_str()),
        ),
{
    lemma_unit_kinds_follow_names(a);
    lemma_unit_kinds_follow_names(b);
    if ascii_lower(a.spec_to_str()) == ascii_lower(b.spec_to_str()) && a != b {
        assert(unit_name_group(a) == unit_name_group(b));
    }
}

} // verus!
