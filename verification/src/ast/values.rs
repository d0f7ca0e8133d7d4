//! Units, named colours and string kinds of LESS values.

use crate::text::{chars_of, push_char, push_str};
use vstd::prelude::*;

verus! {

/// CSS units.
#[derive(Debug, Clone, Copy, PartialEq, Eq, Structural)]
pub enum Unit {
    #[allow(missing_docs)]
    Px,
    #[allow(missing_docs)]
    Em,
    #[allow(missing_docs)]
    Rem,
    #[allow(missing_docs)]
    Ex,
    #[allow(missing_docs)]
    Ch,
    #[allow(missing_docs)]
    Vw,
    #[allow(missing_docs)]
    Vh,
    #[allow(missing_docs)]
    Vmin,
    #[allow(missing_docs)]
    Vmax,
    #[allow(missing_docs)]
    Cm,
    #[allow(missing_docs)]
    Mm,
    #[allow(missing_docs)]
    Q,
    #[allow(missing_docs)]
    In,
    #[allow(missing_docs)]
    Pt,
    #[allow(missing_docs)]
    Pc,
    #[allow(missing_docs)]
    Deg,
    #[allow(missing_docs)]
    Grad,
    #[allow(missing_docs)]
    Rad,
    #[allow(missing_docs)]
    Turn,
    #[allow(missing_docs)]
    S,
    #[allow(missing_docs)]
    Ms,
    #[allow(missing_docs)]
    Hz,
    #[allow(missing_docs)]
    Khz,
    #[allow(missing_docs)]
    Dpi,
    #[allow(missing_docs)]
    Dpcm,
    #[allow(missing_docs)]
    Dppx,
    #[allow(missing_docs)]
    Percent,
    /// No unit (a plain number)
    Dimensionless,
}

/// Named colours of CSS.
#[derive(Debug, Clone, Copy, PartialEq, Eq, Structural)]
pub enum NamedColor {
    #[allow(missing_docs)]
    Transparent,
    #[allow(missing_docs)]
    AliceBlue,
    #[allow(missing_docs)]
    AntiqueWhite,
    #[allow(missing_docs)]
    Aqua,
    #[allow(missing_docs)]
    Aquamarine,
    #[allow(missing_docs)]
    Azure,
    #[allow(missing_docs)]
    Beige,
    #[allow(missing_docs)]
    Bisque,
    #[allow(missing_docs)]
    Black,
    #[allow(missing_docs)]
    BlanchedAlmond,
    #[allow(missing_docs)]
    Blue,
    #[allow(missing_docs)]
    BlueViolet,
    #[allow(missing_docs)]
    Brown,
    #[allow(missing_docs)]
    BurlyWood,
    #[allow(missing_docs)]
    CadetBlue,
    #[allow(missing_docs)]
    Chartreuse,
    #[allow(missing_docs)]
    Chocolate,
    #[allow(missing_docs)]
    Coral,
    #[allow(missing_docs)]
    CornflowerBlue,
    #[allow(missing_docs)]
    Cornsilk,
    #[allow(missing_docs)]
    Crimson,
    #[allow(missing_docs)]
    Cyan,
    #[allow(missing_docs)]
    DarkBlue,
    #[allow(missing_docs)]
    DarkCyan,
    #[allow(missing_docs)]
    DarkGoldenRod,
    #[allow(missing_docs)]
    DarkGray,
    #[allow(missing_docs)]
    DarkGreen,
    #[allow(missing_docs)]
    DarkKhaki,
    #[allow(missing_docs)]
    DarkMagenta,
    #[allow(missing_docs)]
    DarkOliveGreen,
    #[allow(missing_docs)]
    DarkOrange,
    #[allow(missing_docs)]
    DarkOrchid,
    #[allow(missing_docs)]
    DarkRed,
    #[allow(missing_docs)]
    DarkSalmon,
    #[allow(missing_docs)]
    DarkSeaGreen,
    #[allow(missing_docs)]
    DarkSlateBlue,
    #[allow(missing_docs)]
    DarkSlateGray,
    #[allow(missing_docs)]
    DarkTurquoise,
    #[allow(missing_docs)]
    DarkViolet,
    #[allow(missing_docs)]
    DeepPink,
    #[allow(missing_docs)]
    DeepSkyBlue,
    #[allow(missing_docs)]
    DimGray,
    #[allow(missing_docs)]
    DodgerBlue,
    #[allow(missing_docs)]
    FireBrick,
    #[allow(missing_docs)]
    FloralWhite,
    #[allow(missing_docs)]
    ForestGreen,
    #[allow(missing_docs)]
    Fuchsia,
    #[allow(missing_docs)]
    Gainsboro,
    #[allow(missing_docs)]
    GhostWhite,
    #[allow(missing_docs)]
    Gold,
    #[allow(missing_docs)]
    GoldenRod,
    #[allow(missing_docs)]
    Gray,
    #[allow(missing_docs)]
    Green,
    #[allow(missing_docs)]
    GreenYellow,
    #[allow(missing_docs)]
    HoneyDew,
    #[allow(missing_docs)]
    HotPink,
    #[allow(missing_docs)]
    IndianRed,
    #[allow(missing_docs)]
    Indigo,
    #[allow(missing_docs)]
    Ivory,
    #[allow(missing_docs)]
    Khaki,
    #[allow(missing_docs)]
    Lavender,
    #[allow(missing_docs)]
    LavenderBlush,
    #[allow(missing_docs)]
    LawnGreen,
    #[allow(missing_docs)]
    LemonChiffon,
    #[allow(missing_docs)]
    LightBlue,
    #[allow(missing_docs)]
    LightCoral,
    #[allow(missing_docs)]
    LightCyan,
    #[allow(missing_docs)]
    LightGoldenRodYellow,
    #[allow(missing_docs)]
    LightGray,
    #[allow(missing_docs)]
    LightGreen,
    #[allow(missing_docs)]
    LightPink,
    #[allow(missing_docs)]
    LightSalmon,
    #[allow(missing_docs)]
    LightSeaGreen,
    #[allow(missing_docs)]
    LightSkyBlue,
    #[allow(missing_docs)]
    LightSlateGray,
    #[allow(missing_docs)]
    LightSteelBlue,
    #[allow(missing_docs)]
    LightYellow,
    #[allow(missing_docs)]
    Lime,
    #[allow(missing_docs)]
    LimeGreen,
    #[allow(missing_docs)]
    Linen,
    #[allow(missing_docs)]
    Magenta,
    #[allow(missing_docs)]
    Maroon,
    #[allow(missing_docs)]
    MediumAquaMarine,
    #[allow(missing_docs)]
    MediumBlue,
    #[allow(missing_docs)]
    MediumOrchid,
    #[allow(missing_docs)]
    MediumPurple,
    #[allow(missing_docs)]
    MediumSeaGreen,
    #[allow(missing_docs)]
    MediumSlateBlue,
    #[allow(missing_docs)]
    MediumSpringGreen,
    #[allow(missing_docs)]
    MediumTurquoise,
    #[allow(missing_docs)]
    MediumVioletRed,
    #[allow(missing_docs)]
    MidnightBlue,
    #[allow(missing_docs)]
    MintCream,
    #[allow(missing_docs)]
    MistyRose,
    #[allow(missing_docs)]
    Moccasin,
    #[allow(missing_docs)]
    NavajoWhite,
    #[allow(missing_docs)]
    Navy,
    #[allow(missing_docs)]
    OldLace,
    #[allow(missing_docs)]
    Olive,
    #[allow(missing_docs)]
    OliveDrab,
    #[allow(missing_docs)]
    Orange,
    #[allow(missing_docs)]
    OrangeRed,
    #[allow(missing_docs)]
    Orchid,
    #[allow(missing_docs)]
    PaleGoldenRod,
    #[allow(missing_docs)]
    PaleGreen,
    #[allow(missing_docs)]
    PaleTurquoise,
    #[allow(missing_docs)]
    PaleVioletRed,
    #[allow(missing_docs)]
    PapayaWhip,
    #[allow(missing_docs)]
    PeachPuff,
    #[allow(missing_docs)]
    Peru,
    #[allow(missing_docs)]
    Pink,
    #[allow(missing_docs)]
    Plum,
    #[allow(missing_docs)]
    PowderBlue,
    #[allow(missing_docs)]
    Purple,
    #[allow(missing_docs)]
    RebeccaPurple,
    #[allow(missing_docs)]
    Red,
    #[allow(missing_docs)]
    RosyBrown,
    #[allow(missing_docs)]
    RoyalBlue,
    #[allow(missing_docs)]
    SaddleBrown,
    #[allow(missing_docs)]
    Salmon,
    #[allow(missing_docs)]
    SandyBrown,
    #[allow(missing_docs)]
    SeaGreen,
    #[allow(missing_docs)]
    SeaShell,
    #[allow(missing_docs)]
    Sienna,
    #[allow(missing_docs)]
    Silver,
    #[allow(missing_docs)]
    SkyBlue,
    #[allow(missing_docs)]
    SlateBlue,
    #[allow(missing_docs)]
    SlateGray,
    #[allow(missing_docs)]
    Snow,
    #[allow(missing_docs)]
    SpringGreen,
    #[allow(missing_docs)]
    SteelBlue,
    #[allow(missing_docs)]
    Tan,
    #[allow(missing_docs)]
    Teal,
    #[allow(missing_docs)]
    Thistle,
    #[allow(missing_docs)]
    Tomato,
    #[allow(missing_docs)]
    Turquoise,
    #[allow(missing_docs)]
    Violet,
    #[allow(missing_docs)]
    Wheat,
    #[allow(missing_docs)]
    White,
    #[allow(missing_docs)]
    WhiteSmoke,
    #[allow(missing_docs)]
    Yellow,
    #[allow(missing_docs)]
    YellowGreen,
}

/// String value kinds.
#[derive(Debug, Clone, PartialEq)]
pub enum StringType {
    /// Quoted string: `"hello"` or `'hello'`
    Quoted(String),
    /// Unquoted identifier: `hello`
    Unquoted(String),
    /// URL: `url(path)`
    Url(String),
}

/// The Unicode lower-case form of a string, as `str::to_lowercase` computes it.
pub uninterp spec fn lowercase(s: Seq<char>) -> Seq<char>;

/// Whether every character is ASCII.
pub open spec fn ascii_only(s: Seq<char>) -> bool {
    forall|i: int| 0 <= i < s.len() ==> (s[i] as u32) < 128
}

/// ASCII lower-casing of one character.
pub open spec fn ascii_lower_char(c: char) -> char {
    if 'A' <= c && c <= 'Z' {
        ((c as u32) + 32) as char
    } else {
        c
    }
}

/// ASCII lower-casing of a string.
pub open spec fn ascii_lower(s: Seq<char>) -> Seq<char> {
    Seq::new(s.len(), |i: int| ascii_lower_char(s[i]))
}

/// `str::to_lowercase`. The contract claims that the result depends on the
/// characters of `s` alone (it is `lowercase(s@)`), and that on ASCII text it
/// lowers exactly the letters `A`..=`Z`; what it does to other characters is
/// left unsaid.
#[verifier::external_body]
fn str_to_lowercase(s: &str) -> (res: String)
    ensures
        res@ == lowercase(s@),
        ascii_only(s@) ==> res@ == ascii_lower(s@),
{
    s.to_lowercase()
}

impl Unit {
    /// The unit denoted by an already lower-cased name.
    pub open spec fn spec_from_lower(t: Seq<char>) -> Option<Unit> {
        if t.len() == 2 && t[0] == 'p' && t[1] == 'x' {
            Some(Unit::Px)
        }         else if t.len() == 2 && t[0] == 'e' && t[1] == 'm' {
            Some(Unit::Em)
        }         else if t.len() == 3 && t[0] == 'r' && t[1] == 'e' && t[2] == 'm' {
            Some(Unit::Rem)
        }         else if t.len() == 2 && t[0] == 'e' && t[1] == 'x' {
            Some(Unit::Ex)
        }         else if t.len() == 2 && t[0] == 'c' && t[1] == 'h' {
            Some(Unit::Ch)
        }         else if t.len() == 2 && t[0] == 'v' && t[1] == 'w' {
            Some(Unit::Vw)
        }         else if t.len() == 2 && t[0] == 'v' && t[1] == 'h' {
            Some(Unit::Vh)
        }         else if t.len() == 4 && t[0] == 'v' && t[1] == 'm' && t[2] == 'i' && t[3] == 'n' {
            Some(Unit::Vmin)
        }         else if t.len() == 4 && t[0] == 'v' && t[1] == 'm' && t[2] == 'a' && t[3] == 'x' {
            Some(Unit::Vmax)
        }         else if t.len() == 2 && t[0] == 'c' && t[1] == 'm' {
            Some(Unit::Cm)
        }         else if t.len() == 2 && t[0] == 'm' && t[1] == 'm' {
            Some(Unit::Mm)
        }         else if t.len() == 1 && t[0] == 'q' {
            Some(Unit::Q)
        }         else if t.len() == 2 && t[0] == 'i' && t[1] == 'n' {
            Some(Unit::In)
        }         else if t.len() == 2 && t[0] == 'p' && t[1] == 't' {
            Some(Unit::Pt)
        }         else if t.len() == 2 && t[0] == 'p' && t[1] == 'c' {
            Some(Unit::Pc)
        }         else if t.len() == 3 && t[0] == 'd' && t[1] == 'e' && t[2] == 'g' {
            Some(Unit::Deg)
        }         else if t.len() == 4 && t[0] == 'g' && t[1] == 'r' && t[2] == 'a' && t[3] == 'd' {
            Some(Unit::Grad)
        }         else if t.len() == 3 && t[0] == 'r' && t[1] == 'a' && t[2] == 'd' {
            Some(Unit::Rad)
        }         else if t.len() == 4 && t[0] == 't' && t[1] == 'u' && t[2] == 'r' && t[3] == 'n' {
            Some(Unit::Turn)
        }         else if t.len() == 1 && t[0] == 's' {
            Some(Unit::S)
        }         else if t.len() == 2 && t[0] == 'm' && t[1] == 's' {
            Some(Unit::Ms)
        }         else if t.len() == 2 && t[0] == 'h' && t[1] == 'z' {
            Some(Unit::Hz)
        }         else if t.len() == 3 && t[0] == 'k' && t[1] == 'h' && t[2] == 'z' {
            Some(Unit::Khz)
        }         else if t.len() == 3 && t[0] == 'd' && t[1] == 'p' && t[2] == 'i' {
            Some(Unit::Dpi)
        }         else if t.len() == 4 && t[0] == 'd' && t[1] == 'p' && t[2] == 'c' && t[3] == 'm' {
            Some(Unit::Dpcm)
        }         else if t.len() == 4 && t[0] == 'd' && t[1] == 'p' && t[2] == 'p' && t[3] == 'x' {
            Some(Unit::Dppx)
        }         else if t.len() == 1 && t[0] == '%' {
            Some(Unit::Percent)
        } else {
            None
        }
    }

    /// The unit named by `s`, compared after Unicode lower-casing.
    pub open spec fn spec_from_str(s: Seq<char>) -> Option<Unit> {
        Unit::spec_from_lower(lowercase(s))
    }

    /// Parses a unit from its name, ignoring case (`"PX"` is `px`); `None` for
    /// anything else, the empty string included.
    pub fn from_str(s: &str) -> (res: Option<Unit>)
        ensures
            res == Unit::spec_from_str(s@),
            ascii_only(s@) ==> res == Unit::spec_from_lower(ascii_lower(s@)),
    {
        let lower = str_to_lowercase(s);
        Unit::from_lowercase(lower.as_str())
    }

    /// The unit whose name is exactly `t` (which the caller has lower-cased).
    pub fn from_lowercase(t: &str) -> (res: Option<Unit>)
        ensures
            res == Unit::spec_from_lower(t@),
    {
        let c = chars_of(t);
        let n = c.len();
        if n == 2 && c[0] == 'p' && c[1] == 'x' {
            return Some(Unit::Px);
        }
        if n == 2 && c[0] == 'e' && c[1] == 'm' {
            return Some(Unit::Em);
        }
        if n == 3 && c[0] == 'r' && c[1] == 'e' && c[2] == 'm' {
            return Some(Unit::Rem);
        }
        if n == 2 && c[0] == 'e' && c[1] == 'x' {
            return Some(Unit::Ex);
        }
        if n == 2 && c[0] == 'c' && c[1] == 'h' {
            return Some(Unit::Ch);
        }
        if n == 2 && c[0] == 'v' && c[1] == 'w' {
            return Some(Unit::Vw);
        }
        if n == 2 && c[0] == 'v' && c[1] == 'h' {
            return Some(Unit::Vh);
        }
        if n == 4 && c[0] == 'v' && c[1] == 'm' && c[2] == 'i' && c[3] == 'n' {
            return Some(Unit::Vmin);
        }
        if n == 4 && c[0] == 'v' && c[1] == 'm' && c[2] == 'a' && c[3] == 'x' {
            return Some(Unit::Vmax);
        }
        if n == 2 && c[0] == 'c' && c[1] == 'm' {
            return Some(Unit::Cm);
        }
        if n == 2 && c[0] == 'm' && c[1] == 'm' {
            return Some(Unit::Mm);
        }
        if n == 1 && c[0] == 'q' {
            return Some(Unit::Q);
        }
        if n == 2 && c[0] == 'i' && c[1] == 'n' {
            return Some(Unit::In);
        }
        if n == 2 && c[0] == 'p' && c[1] == 't' {
            return Some(Unit::Pt);
        }
        if n == 2 && c[0] == 'p' && c[1] == 'c' {
            return Some(Unit::Pc);
        }
        if n == 3 && c[0] == 'd' && c[1] == 'e' && c[2] == 'g' {
            return Some(Unit::Deg);
        }
        if n == 4 && c[0] == 'g' && c[1] == 'r' && c[2] == 'a' && c[3] == 'd' {
            return Some(Unit::Grad);
        }
        if n == 3 && c[0] == 'r' && c[1] == 'a' && c[2] == 'd' {
            return Some(Unit::Rad);
        }
        if n == 4 && c[0] == 't' && c[1] == 'u' && c[2] == 'r' && c[3] == 'n' {
            return Some(Unit::Turn);
        }
        if n == 1 && c[0] == 's' {
            return Some(Unit::S);
        }
        if n == 2 && c[0] == 'm' && c[1] == 's' {
            return Some(Unit::Ms);
        }
        if n == 2 && c[0] == 'h' && c[1] == 'z' {
            return Some(Unit::Hz);
        }
        if n == 3 && c[0] == 'k' && c[1] == 'h' && c[2] == 'z' {
            return Some(Unit::Khz);
        }
        if n == 3 && c[0] == 'd' && c[1] == 'p' && c[2] == 'i' {
            return Some(Unit::Dpi);
        }
        if n == 4 && c[0] == 'd' && c[1] == 'p' && c[2] == 'c' && c[3] == 'm' {
            return Some(Unit::Dpcm);
        }
        if n == 4 && c[0] == 'd' && c[1] == 'p' && c[2] == 'p' && c[3] == 'x' {
            return Some(Unit::Dppx);
        }
        if n == 1 && c[0] == '%' {
            return Some(Unit::Percent);
        }
        None
    }

    /// The unit's name as printed after a number (`Hz`, `kHz`, `%`, empty for none).
    pub open spec fn spec_to_str(&self) -> Seq<char> {
        match self {
            Unit::Px => seq!['p', 'x'],
            Unit::Em => seq!['e', 'm'],
            Unit::Rem => seq!['r', 'e', 'm'],
            Unit::Ex => seq!['e', 'x'],
            Unit::Ch => seq!['c', 'h'],
            Unit::Vw => seq!['v', 'w'],
            Unit::Vh => seq!['v', 'h'],
            Unit::Vmin => seq!['v', 'm', 'i', 'n'],
            Unit::Vmax => seq!['v', 'm', 'a', 'x'],
            Unit::Cm => seq!['c', 'm'],
            Unit::Mm => seq!['m', 'm'],
            Unit::Q => seq!['q'],
            Unit::In => seq!['i', 'n'],
            Unit::Pt => seq!['p', 't'],
            Unit::Pc => seq!['p', 'c'],
            Unit::Deg => seq!['d', 'e', 'g'],
            Unit::Grad => seq!['g', 'r', 'a', 'd'],
            Unit::Rad => seq!['r', 'a', 'd'],
            Unit::Turn => seq!['t', 'u', 'r', 'n'],
            Unit::S => seq!['s'],
            Unit::Ms => seq!['m', 's'],
            Unit::Hz => seq!['H', 'z'],
            Unit::Khz => seq!['k', 'H', 'z'],
            Unit::Dpi => seq!['d', 'p', 'i'],
            Unit::Dpcm => seq!['d', 'p', 'c', 'm'],
            Unit::Dppx => seq!['d', 'p', 'p', 'x'],
            Unit::Percent => seq!['%'],
            Unit::Dimensionless => seq![],
        }
    }

    /// The unit's name as printed after a number.
    pub fn to_string(&self) -> (res: &'static str)
        ensures
            res@ == self.spec_to_str(),
    {
        match self {
            Unit::Px => { proof { reveal_strlit("px"); } "px" },
            Unit::Em => { proof { reveal_strlit("em"); } "em" },
            Unit::Rem => { proof { reveal_strlit("rem"); } "rem" },
            Unit::Ex => { proof { reveal_strlit("ex"); } "ex" },
            Unit::Ch => { proof { reveal_strlit("ch"); } "ch" },
            Unit::Vw => { proof { reveal_strlit("vw"); } "vw" },
            Unit::Vh => { proof { reveal_strlit("vh"); } "vh" },
            Unit::Vmin => { proof { reveal_strlit("vmin"); } "vmin" },
            Unit::Vmax => { proof { reveal_strlit("vmax"); } "vmax" },
            Unit::Cm => { proof { reveal_strlit("cm"); } "cm" },
            Unit::Mm => { proof { reveal_strlit("mm"); } "mm" },
            Unit::Q => { proof { reveal_strlit("q"); } "q" },
            Unit::In => { proof { reveal_strlit("in"); } "in" },
            Unit::Pt => { proof { reveal_strlit("pt"); } "pt" },
            Unit::Pc => { proof { reveal_strlit("pc"); } "pc" },
            Unit::Deg => { proof { reveal_strlit("deg"); } "deg" },
            Unit::Grad => { proof { reveal_strlit("grad"); } "grad" },
            Unit::Rad => { proof { reveal_strlit("rad"); } "rad" },
            Unit::Turn => { proof { reveal_strlit("turn"); } "turn" },
            Unit::S => { proof { reveal_strlit("s"); } "s" },
            Unit::Ms => { proof { reveal_strlit("ms"); } "ms" },
            Unit::Hz => { proof { reveal_strlit("Hz"); } "Hz" },
            Unit::Khz => { proof { reveal_strlit("kHz"); } "kHz" },
            Unit::Dpi => { proof { reveal_strlit("dpi"); } "dpi" },
            Unit::Dpcm => { proof { reveal_strlit("dpcm"); } "dpcm" },
            Unit::Dppx => { proof { reveal_strlit("dppx"); } "dppx" },
            Unit::Percent => { proof { reveal_strlit("%"); } "%" },
            Unit::Dimensionless => { proof { reveal_strlit(""); } "" },
        }
    }

    /// Length units.
    pub open spec fn spec_is_length(&self) -> bool {
        self is Px || self is Em || self is Rem || self is Ex || self is Ch || self is Vw
            || self is Vh || self is Vmin || self is Vmax || self is Cm || self is Mm
            || self is Q || self is In || self is Pt || self is Pc
    }

    /// Angle units.
    pub open spec fn spec_is_angle(&self) -> bool {
        self is Deg || self is Grad || self is Rad || self is Turn
    }

    /// Time units.
    pub open spec fn spec_is_time(&self) -> bool {
        self is S || self is Ms
    }

    /// Frequency units.
    pub open spec fn spec_is_frequency(&self) -> bool {
        self is Hz || self is Khz
    }

    /// Resolution units.
    pub open spec fn spec_is_resolution(&self) -> bool {
        self is Dpi || self is Dpcm || self is Dppx
    }

    /// Whether this is a length unit.
    pub fn is_length(&self) -> (res: bool)
        ensures
            res == self.spec_is_length(),
    {
        matches!(self, Unit::Px | Unit::Em | Unit::Rem | Unit::Ex | Unit::Ch | Unit::Vw
            | Unit::Vh | Unit::Vmin | Unit::Vmax | Unit::Cm | Unit::Mm | Unit::Q | Unit::In
            | Unit::Pt | Unit::Pc)
    }

    /// Whether this is an angle unit.
    pub fn is_angle(&self) -> (res: bool)
        ensures
            res == self.spec_is_angle(),
    {
        matches!(self, Unit::Deg | Unit::Grad | Unit::Rad | Unit::Turn)
    }

    /// Whether this is a time unit.
    pub fn is_time(&self) -> (res: bool)
        ensures
            res == self.spec_is_time(),
    {
        matches!(self, Unit::S | Unit::Ms)
    }

    /// Whether this is a frequency unit.
    pub fn is_frequency(&self) -> (res: bool)
        ensures
            res == self.spec_is_frequency(),
    {
        matches!(self, Unit::Hz | Unit::Khz)
    }

    /// Whether this is a resolution unit.
    pub fn is_resolution(&self) -> (res: bool)
        ensures
            res == self.spec_is_resolution(),
    {
        matches!(self, Unit::Dpi | Unit::Dpcm | Unit::Dppx)
    }

    /// Units may be combined arithmetically when either is dimensionless or a
    /// percentage, when they are equal, or when both lie in one group.
    pub open spec fn spec_is_compatible(&self, other: &Unit) -> bool {
        ||| *self is Dimensionless || *other is Dimensionless
        ||| *self is Percent || *other is Percent
        ||| *self == *other
        ||| self.spec_is_length() && other.spec_is_length()
        ||| self.spec_is_angle() && other.spec_is_angle()
        ||| self.spec_is_time() && other.spec_is_time()
        ||| self.spec_is_frequency() && other.spec_is_frequency()
        ||| self.spec_is_resolution() && other.spec_is_resolution()
    }

    /// Whether the two units are compatible for arithmetic.
    pub fn is_compatible(&self, other: &Unit) -> (res: bool)
        ensures
            res == self.spec_is_compatible(other),
    {
        if matches!(self, Unit::Dimensionless) || matches!(other, Unit::Dimensionless) {
            return true;
        }
        if matches!(self, Unit::Percent) || matches!(other, Unit::Percent) {
            return true;
        }
        if *self == *other {
            return true;
        }
        (self.is_length() && other.is_length()) || (self.is_angle() && other.is_angle())
            || (self.is_time() && other.is_time()) || (self.is_frequency()
            && other.is_frequency()) || (self.is_resolution() && other.is_resolution())
    }
}

/// Unit compatibility is reflexive and symmetric.
pub proof fn lemma_unit_compatibility_symmetric(a: Unit, b: Unit)
    ensures
        a.spec_is_compatible(&a),
        a.spec_is_compatible(&b) == b.spec_is_compatible(&a),
{
}

/// ASCII upper-casing of one character.
pub open spec fn ascii_upper_char(c: char) -> char {
    if 'a' <= c && c <= 'z' {
        ((c as u32) - 32) as char
    } else {
        c
    }
}

/// ASCII upper-casing of a string.
pub open spec fn ascii_upper(s: Seq<char>) -> Seq<char> {
    Seq::new(s.len(), |i: int| ascii_upper_char(s[i]))
}

/// Upper-casing ASCII text keeps it ASCII and does not change what it
/// lower-cases to.
pub proof fn lemma_ascii_upper_then_lower(s: Seq<char>)
    requires
        ascii_only(s),
    ensures
        ascii_only(ascii_upper(s)),
        ascii_lower(ascii_upper(s)) == ascii_lower(s),
{
    assert forall|i: int| 0 <= i < s.len() implies ((#[trigger] ascii_upper(s)[i]) as u32) < 128
        && ascii_lower_char(ascii_upper(s)[i]) == ascii_lower_char(s[i]) by {
        let c = s[i];
        if 'a' <= c && c <= 'z' {
            assert(('a' as u32) == 97 && ('z' as u32) == 122);
            assert((c as u32) >= 97 && (c as u32) <= 122);
            let u = ((c as u32) - 32) as char;
            assert((u as u32) == (c as u32) - 32);
            assert('A' <= u && u <= 'Z');
            assert(ascii_lower_char(u) == (((u as u32) + 32) as char));
            assert(((u as u32) + 32) == (c as u32));
        } else if 'A' <= c && c <= 'Z' {
        }
    }
    assert(ascii_lower(ascii_upper(s)) =~= ascii_lower(s));
}

/// No text parses to the dimensionless unit.
pub proof fn lemma_from_str_never_dimensionless(s: Seq<char>)
    ensures
        Unit::spec_from_str(s) != Some(Unit::Dimensionless),
        Unit::spec_from_lower(s) != Some(Unit::Dimensionless),
{
}

/// Parsing is case-insensitive on unit names: the printed name of every
/// unit but the dimensionless one, upper-cased, still parses to that unit
/// (through the ASCII clause of `Unit::from_str`).
pub proof fn lemma_unit_name_any_case(u: Unit)
    requires
        !(u is Dimensionless),
    ensures
        ascii_only(ascii_upper(u.spec_to_str())),
        Unit::spec_from_lower(ascii_lower(ascii_upper(u.spec_to_str()))) == Some(u),
{
    lemma_unit_name_roundtrip(u);
    lemma_ascii_upper_then_lower(u.spec_to_str());
}

/// Parsing the printed name of a unit gives the unit back, for every unit
/// but the dimensionless one (whose name is empty and parses to nothing).
pub proof fn lemma_unit_name_roundtrip(u: Unit)
    ensures
        ascii_only(u.spec_to_str()),
        u is Dimensionless ==> Unit::spec_from_lower(ascii_lower(u.spec_to_str())) is None,
        !(u is Dimensionless) ==> Unit::spec_from_lower(ascii_lower(u.spec_to_str())) == Some(u),
{
    let s = u.spec_to_str();
    assert(ascii_lower_char('H') == 'h');
    match u {
        Unit::Px => {
            assert(ascii_lower(s) =~= seq!['p', 'x']);
        },
        Unit::Em => {
            assert(ascii_lower(s) =~= seq!['e', 'm']);
        },
        Unit::Rem => {
            assert(ascii_lower(s) =~= seq!['r', 'e', 'm']);
        },
        Unit::Ex => {
            assert(ascii_lower(s) =~= seq!['e', 'x']);
        },
        Unit::Ch => {
            assert(ascii_lower(s) =~= seq!['c', 'h']);
        },
        Unit::Vw => {
            assert(ascii_lower(s) =~= seq!['v', 'w']);
        },
        Unit::Vh => {
            assert(ascii_lower(s) =~= seq!['v', 'h']);
        },
        Unit::Vmin => {
            assert(ascii_lower(s) =~= seq!['v', 'm', 'i', 'n']);
        },
        Unit::Vmax => {
            assert(ascii_lower(s) =~= seq!['v', 'm', 'a', 'x']);
        },
        Unit::Cm => {
            assert(ascii_lower(s) =~= seq!['c', 'm']);
        },
        Unit::Mm => {
            assert(ascii_lower(s) =~= seq!['m', 'm']);
        },
        Unit::Q => {
            assert(ascii_lower(s) =~= seq!['q']);
        },
        Unit::In => {
            assert(ascii_lower(s) =~= seq!['i', 'n']);
        },
        Unit::Pt => {
            assert(ascii_lower(s) =~= seq!['p', 't']);
        },
        Unit::Pc => {
            assert(ascii_lower(s) =~= seq!['p', 'c']);
        },
        Unit::Deg => {
            assert(ascii_lower(s) =~= seq!['d', 'e', 'g']);
        },
        Unit::Grad => {
            assert(ascii_lower(s) =~= seq!['g', 'r', 'a', 'd']);
        },
        Unit::Rad => {
            assert(ascii_lower(s) =~= seq!['r', 'a', 'd']);
        },
        Unit::Turn => {
            assert(ascii_lower(s) =~= seq!['t', 'u', 'r', 'n']);
        },
        Unit::S => {
            assert(ascii_lower(s) =~= seq!['s']);
        },
        Unit::Ms => {
            assert(ascii_lower(s) =~= seq!['m', 's']);
        },
        Unit::Hz => {
            assert(ascii_lower(s) =~= seq!['h', 'z']);
        },
        Unit::Khz => {
            assert(ascii_lower(s) =~= seq!['k', 'h', 'z']);
        },
        Unit::Dpi => {
            assert(ascii_lower(s) =~= seq!['d', 'p', 'i']);
        },
        Unit::Dpcm => {
            assert(ascii_lower(s) =~= seq!['d', 'p', 'c', 'm']);
        },
        Unit::Dppx => {
            assert(ascii_lower(s) =~= seq!['d', 'p', 'p', 'x']);
        },
        Unit::Percent => {
            assert(ascii_lower(s) =~= seq!['%']);
        },
        Unit::Dimensionless => {
            assert(ascii_lower(s) =~= seq![]);
        },
    }
}

impl NamedColor {
    /// The colour's red, green and blue components (transparent is black).
    pub open spec fn spec_rgb(&self) -> (u8, u8, u8) {
        match self {
            NamedColor::Transparent => (0, 0, 0),
            NamedColor::AliceBlue => (240, 248, 255),
            NamedColor::AntiqueWhite => (250, 235, 215),
            NamedColor::Aqua => (0, 255, 255),
            NamedColor::Aquamarine => (127, 255, 212),
            NamedColor::Azure => (240, 255, 255),
            NamedColor::Beige => (245, 245, 220),
            NamedColor::Bisque => (255, 228, 196),
            NamedColor::Black => (0, 0, 0),
            NamedColor::BlanchedAlmond => (255, 235, 205),
            NamedColor::Blue => (0, 0, 255),
            NamedColor::BlueViolet => (138, 43, 226),
            NamedColor::Brown => (165, 42, 42),
            NamedColor::BurlyWood => (222, 184, 135),
            NamedColor::CadetBlue => (95, 158, 160),
            NamedColor::Chartreuse => (127, 255, 0),
            NamedColor::Chocolate => (210, 105, 30),
            NamedColor::Coral => (255, 127, 80),
            NamedColor::CornflowerBlue => (100, 149, 237),
            NamedColor::Cornsilk => (255, 248, 220),
            NamedColor::Crimson => (220, 20, 60),
            NamedColor::Cyan => (0, 255, 255),
            NamedColor::DarkBlue => (0, 0, 139),
            NamedColor::DarkCyan => (0, 139, 139),
            NamedColor::DarkGoldenRod => (184, 134, 11),
            NamedColor::DarkGray => (169, 169, 169),
            NamedColor::DarkGreen => (0, 100, 0),
            NamedColor::DarkKhaki => (189, 183, 107),
            NamedColor::DarkMagenta => (139, 0, 139),
            NamedColor::DarkOliveGreen => (85, 107, 47),
            NamedColor::DarkOrange => (255, 140, 0),
            NamedColor::DarkOrchid => (153, 50, 204),
            NamedColor::DarkRed => (139, 0, 0),
            NamedColor::DarkSalmon => (233, 150, 122),
            NamedColor::DarkSeaGreen => (143, 188, 143),
            NamedColor::DarkSlateBlue => (72, 61, 139),
            NamedColor::DarkSlateGray => (47, 79, 79),
            NamedColor::DarkTurquoise => (0, 206, 209),
            NamedColor::DarkViolet => (148, 0, 211),
            NamedColor::DeepPink => (255, 20, 147),
            NamedColor::DeepSkyBlue => (0, 191, 255),
            NamedColor::DimGray => (105, 105, 105),
            NamedColor::DodgerBlue => (30, 144, 255),
            NamedColor::FireBrick => (178, 34, 34),
            NamedColor::FloralWhite => (255, 250, 240),
            NamedColor::ForestGreen => (34, 139, 34),
            NamedColor::Fuchsia => (255, 0, 255),
            NamedColor::Gainsboro => (220, 220, 220),
            NamedColor::GhostWhite => (248, 248, 255),
            NamedColor::Gold => (255, 215, 0),
            NamedColor::GoldenRod => (218, 165, 32),
            NamedColor::Gray => (128, 128, 128),
            NamedColor::Green => (0, 128, 0),
            NamedColor::GreenYellow => (173, 255, 47),
            NamedColor::HoneyDew => (240, 255, 240),
            NamedColor::HotPink => (255, 105, 180),
            NamedColor::IndianRed => (205, 92, 92),
            NamedColor::Indigo => (75, 0, 130),
            NamedColor::Ivory => (255, 255, 240),
            NamedColor::Khaki => (240, 230, 140),
            NamedColor::Lavender => (230, 230, 250),
            NamedColor::LavenderBlush => (255, 240, 245),
            NamedColor::LawnGreen => (124, 252, 0),
            NamedColor::LemonChiffon => (255, 250, 205),
            NamedColor::LightBlue => (173, 216, 230),
            NamedColor::LightCoral => (240, 128, 128),
            NamedColor::LightCyan => (224, 255, 255),
            NamedColor::LightGoldenRodYellow => (250, 250, 210),
            NamedColor::LightGray => (211, 211, 211),
            NamedColor::LightGreen => (144, 238, 144),
            NamedColor::LightPink => (255, 182, 193),
            NamedColor::LightSalmon => (255, 160, 122),
            NamedColor::LightSeaGreen => (32, 178, 170),
            NamedColor::LightSkyBlue => (135, 206, 250),
            NamedColor::LightSlateGray => (119, 136, 153),
            NamedColor::LightSteelBlue => (176, 196, 222),
            NamedColor::LightYellow => (255, 255, 224),
            NamedColor::Lime => (0, 255, 0),
            NamedColor::LimeGreen => (50, 205, 50),
            NamedColor::Linen => (250, 240, 230),
            NamedColor::Magenta => (255, 0, 255),
            NamedColor::Maroon => (128, 0, 0),
            NamedColor::MediumAquaMarine => (102, 205, 170),
            NamedColor::MediumBlue => (0, 0, 205),
            NamedColor::MediumOrchid => (186, 85, 211),
            NamedColor::MediumPurple => (147, 112, 219),
            NamedColor::MediumSeaGreen => (60, 179, 113),
            NamedColor::MediumSlateBlue => (123, 104, 238),
            NamedColor::MediumSpringGreen => (0, 250, 154),
            NamedColor::MediumTurquoise => (72, 209, 204),
            NamedColor::MediumVioletRed => (199, 21, 133),
            NamedColor::MidnightBlue => (25, 25, 112),
            NamedColor::MintCream => (245, 255, 250),
            NamedColor::MistyRose => (255, 228, 225),
            NamedColor::Moccasin => (255, 228, 181),
            NamedColor::NavajoWhite => (255, 222, 173),
            NamedColor::Navy => (0, 0, 128),
            NamedColor::OldLace => (253, 245, 230),
            NamedColor::Olive => (128, 128, 0),
            NamedColor::OliveDrab => (107, 142, 35),
            NamedColor::Orange => (255, 165, 0),
            NamedColor::OrangeRed => (255, 69, 0),
            NamedColor::Orchid => (218, 112, 214),
            NamedColor::PaleGoldenRod => (238, 232, 170),
            NamedColor::PaleGreen => (152, 251, 152),
            NamedColor::PaleTurquoise => (175, 238, 238),
            NamedColor::PaleVioletRed => (219, 112, 147),
            NamedColor::PapayaWhip => (255, 239, 213),
            NamedColor::PeachPuff => (255, 218, 185),
            NamedColor::Peru => (205, 133, 63),
            NamedColor::Pink => (255, 192, 203),
            NamedColor::Plum => (221, 160, 221),
            NamedColor::PowderBlue => (176, 224, 230),
            NamedColor::Purple => (128, 0, 128),
            NamedColor::RebeccaPurple => (102, 51, 153),
            NamedColor::Red => (255, 0, 0),
            NamedColor::RosyBrown => (188, 143, 143),
            NamedColor::RoyalBlue => (65, 105, 225),
            NamedColor::SaddleBrown => (139, 69, 19),
            NamedColor::Salmon => (250, 128, 114),
            NamedColor::SandyBrown => (244, 164, 96),
            NamedColor::SeaGreen => (46, 139, 87),
            NamedColor::SeaShell => (255, 245, 238),
            NamedColor::Sienna => (160, 82, 45),
            NamedColor::Silver => (192, 192, 192),
            NamedColor::SkyBlue => (135, 206, 235),
            NamedColor::SlateBlue => (106, 90, 205),
            NamedColor::SlateGray => (112, 128, 144),
            NamedColor::Snow => (255, 250, 250),
            NamedColor::SpringGreen => (0, 255, 127),
            NamedColor::SteelBlue => (70, 130, 180),
            NamedColor::Tan => (210, 180, 140),
            NamedColor::Teal => (0, 128, 128),
            NamedColor::Thistle => (216, 191, 216),
            NamedColor::Tomato => (255, 99, 71),
            NamedColor::Turquoise => (64, 224, 208),
            NamedColor::Violet => (238, 130, 238),
            NamedColor::Wheat => (245, 222, 179),
            NamedColor::White => (255, 255, 255),
            NamedColor::WhiteSmoke => (245, 245, 245),
            NamedColor::Yellow => (255, 255, 0),
            NamedColor::YellowGreen => (154, 205, 50),
        }
    }

    /// The colour's red, green and blue components.
    pub fn to_rgb(&self) -> (res: (u8, u8, u8))
        ensures
            res == self.spec_rgb(),
    {
        match self {
            NamedColor::Transparent => (0, 0, 0),
            NamedColor::AliceBlue => (240, 248, 255),
            NamedColor::AntiqueWhite => (250, 235, 215),
            NamedColor::Aqua => (0, 255, 255),
            NamedColor::Aquamarine => (127, 255, 212),
            NamedColor::Azure => (240, 255, 255),
            NamedColor::Beige => (245, 245, 220),
            NamedColor::Bisque => (255, 228, 196),
            NamedColor::Black => (0, 0, 0),
            NamedColor::BlanchedAlmond => (255, 235, 205),
            NamedColor::Blue => (0, 0, 255),
            NamedColor::BlueViolet => (138, 43, 226),
            NamedColor::Brown => (165, 42, 42),
            NamedColor::BurlyWood => (222, 184, 135),
            NamedColor::CadetBlue => (95, 158, 160),
            NamedColor::Chartreuse => (127, 255, 0),
            NamedColor::Chocolate => (210, 105, 30),
            NamedColor::Coral => (255, 127, 80),
            NamedColor::CornflowerBlue => (100, 149, 237),
            NamedColor::Cornsilk => (255, 248, 220),
            NamedColor::Crimson => (220, 20, 60),
            NamedColor::Cyan => (0, 255, 255),
            NamedColor::DarkBlue => (0, 0, 139),
            NamedColor::DarkCyan => (0, 139, 139),
            NamedColor::DarkGoldenRod => (184, 134, 11),
            NamedColor::DarkGray => (169, 169, 169),
            NamedColor::DarkGreen => (0, 100, 0),
            NamedColor::DarkKhaki => (189, 183, 107),
            NamedColor::DarkMagenta => (139, 0, 139),
            NamedColor::DarkOliveGreen => (85, 107, 47),
            NamedColor::DarkOrange => (255, 140, 0),
            NamedColor::DarkOrchid => (153, 50, 204),
            NamedColor::DarkRed => (139, 0, 0),
            NamedColor::DarkSalmon => (233, 150, 122),
            NamedColor::DarkSeaGreen => (143, 188, 143),
            NamedColor::DarkSlateBlue => (72, 61, 139),
            NamedColor::DarkSlateGray => (47, 79, 79),
            NamedColor::DarkTurquoise => (0, 206, 209),
            NamedColor::DarkViolet => (148, 0, 211),
            NamedColor::DeepPink => (255, 20, 147),
            NamedColor::DeepSkyBlue => (0, 191, 255),
            NamedColor::DimGray => (105, 105, 105),
            NamedColor::DodgerBlue => (30, 144, 255),
            NamedColor::FireBrick => (178, 34, 34),
            NamedColor::FloralWhite => (255, 250, 240),
            NamedColor::ForestGreen => (34, 139, 34),
            NamedColor::Fuchsia => (255, 0, 255),
            NamedColor::Gainsboro => (220, 220, 220),
            NamedColor::GhostWhite => (248, 248, 255),
            NamedColor::Gold => (255, 215, 0),
            NamedColor::GoldenRod => (218, 165, 32),
            NamedColor::Gray => (128, 128, 128),
            NamedColor::Green => (0, 128, 0),
            NamedColor::GreenYellow => (173, 255, 47),
            NamedColor::HoneyDew => (240, 255, 240),
            NamedColor::HotPink => (255, 105, 180),
            NamedColor::IndianRed => (205, 92, 92),
            NamedColor::Indigo => (75, 0, 130),
            NamedColor::Ivory => (255, 255, 240),
            NamedColor::Khaki => (240, 230, 140),
            NamedColor::Lavender => (230, 230, 250),
            NamedColor::LavenderBlush => (255, 240, 245),
            NamedColor::LawnGreen => (124, 252, 0),
            NamedColor::LemonChiffon => (255, 250, 205),
            NamedColor::LightBlue => (173, 216, 230),
            NamedColor::LightCoral => (240, 128, 128),
            NamedColor::LightCyan => (224, 255, 255),
            NamedColor::LightGoldenRodYellow => (250, 250, 210),
            NamedColor::LightGray => (211, 211, 211),
            NamedColor::LightGreen => (144, 238, 144),
            NamedColor::LightPink => (255, 182, 193),
            NamedColor::LightSalmon => (255, 160, 122),
            NamedColor::LightSeaGreen => (32, 178, 170),
            NamedColor::LightSkyBlue => (135, 206, 250),
            NamedColor::LightSlateGray => (119, 136, 153),
            NamedColor::LightSteelBlue => (176, 196, 222),
            NamedColor::LightYellow => (255, 255, 224),
            NamedColor::Lime => (0, 255, 0),
            NamedColor::LimeGreen => (50, 205, 50),
            NamedColor::Linen => (250, 240, 230),
            NamedColor::Magenta => (255, 0, 255),
            NamedColor::Maroon => (128, 0, 0),
            NamedColor::MediumAquaMarine => (102, 205, 170),
            NamedColor::MediumBlue => (0, 0, 205),
            NamedColor::MediumOrchid => (186, 85, 211),
            NamedColor::MediumPurple => (147, 112, 219),
            NamedColor::MediumSeaGreen => (60, 179, 113),
            NamedColor::MediumSlateBlue => (123, 104, 238),
            NamedColor::MediumSpringGreen => (0, 250, 154),
            NamedColor::MediumTurquoise => (72, 209, 204),
            NamedColor::MediumVioletRed => (199, 21, 133),
            NamedColor::MidnightBlue => (25, 25, 112),
            NamedColor::MintCream => (245, 255, 250),
            NamedColor::MistyRose => (255, 228, 225),
            NamedColor::Moccasin => (255, 228, 181),
            NamedColor::NavajoWhite => (255, 222, 173),
            NamedColor::Navy => (0, 0, 128),
            NamedColor::OldLace => (253, 245, 230),
            NamedColor::Olive => (128, 128, 0),
            NamedColor::OliveDrab => (107, 142, 35),
            NamedColor::Orange => (255, 165, 0),
            NamedColor::OrangeRed => (255, 69, 0),
            NamedColor::Orchid => (218, 112, 214),
            NamedColor::PaleGoldenRod => (238, 232, 170),
            NamedColor::PaleGreen => (152, 251, 152),
            NamedColor::PaleTurquoise => (175, 238, 238),
            NamedColor::PaleVioletRed => (219, 112, 147),
            NamedColor::PapayaWhip => (255, 239, 213),
            NamedColor::PeachPuff => (255, 218, 185),
            NamedColor::Peru => (205, 133, 63),
            NamedColor::Pink => (255, 192, 203),
            NamedColor::Plum => (221, 160, 221),
            NamedColor::PowderBlue => (176, 224, 230),
            NamedColor::Purple => (128, 0, 128),
            NamedColor::RebeccaPurple => (102, 51, 153),
            NamedColor::Red => (255, 0, 0),
            NamedColor::RosyBrown => (188, 143, 143),
            NamedColor::RoyalBlue => (65, 105, 225),
            NamedColor::SaddleBrown => (139, 69, 19),
            NamedColor::Salmon => (250, 128, 114),
            NamedColor::SandyBrown => (244, 164, 96),
            NamedColor::SeaGreen => (46, 139, 87),
            NamedColor::SeaShell => (255, 245, 238),
            NamedColor::Sienna => (160, 82, 45),
            NamedColor::Silver => (192, 192, 192),
            NamedColor::SkyBlue => (135, 206, 235),
            NamedColor::SlateBlue => (106, 90, 205),
            NamedColor::SlateGray => (112, 128, 144),
            NamedColor::Snow => (255, 250, 250),
            NamedColor::SpringGreen => (0, 255, 127),
            NamedColor::SteelBlue => (70, 130, 180),
            NamedColor::Tan => (210, 180, 140),
            NamedColor::Teal => (0, 128, 128),
            NamedColor::Thistle => (216, 191, 216),
            NamedColor::Tomato => (255, 99, 71),
            NamedColor::Turquoise => (64, 224, 208),
            NamedColor::Violet => (238, 130, 238),
            NamedColor::Wheat => (245, 222, 179),
            NamedColor::White => (255, 255, 255),
            NamedColor::WhiteSmoke => (245, 245, 245),
            NamedColor::Yellow => (255, 255, 0),
            NamedColor::YellowGreen => (154, 205, 50),
        }
    }
}

impl StringType {
    /// The printed form: quoted strings in double quotes, URLs in `url(..)`.
    pub open spec fn spec_display(&self) -> Seq<char> {
        match self {
            StringType::Quoted(s) => seq!['"'] + s@ + seq!['"'],
            StringType::Unquoted(s) => s@,
            StringType::Url(s) => seq!['u', 'r', 'l', '('] + s@ + seq![')'],
        }
    }

    /// The printed form of the string value.
    pub fn to_display_string(&self) -> (res: String)
        ensures
            res@ == self.spec_display(),
    {
        let mut out = String::new();
        match self {
            StringType::Quoted(s) => {
                push_char(&mut out, '"');
                push_str(&mut out, s.as_str());
                push_char(&mut out, '"');
            },
            StringType::Unquoted(s) => {
                push_str(&mut out, s.as_str());
            },
            StringType::Url(s) => {
                proof { reveal_strlit("url("); }
                push_str(&mut out, "url(");
                push_str(&mut out, s.as_str());
                push_char(&mut out, ')');
            },
        }
        out
    }
}

} // verus!
