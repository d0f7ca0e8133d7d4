//! Reading hexadecimal colours (`#rgb`, `#rgba`, `#rrggbb`, `#rrggbbaa`).
//!
//! The channels come out as bytes; the alpha byte is left for the caller to
//! scale.

use crate::lsp::{byte_start, lemma_byte_start_bound, utf8_width};
use crate::source_map::drop_leading;
use vstd::prelude::*;

verus! {

/// The value of a hexadecimal digit.
pub open spec fn hex_digit(c: char) -> Option<u8> {
    if '0' <= c && c <= '9' {
        Some(((c as u32) - ('0' as u32)) as u8)
    } else if 'a' <= c && c <= 'f' {
        Some(((c as u32) - ('a' as u32) + 10) as u8)
    } else if 'A' <= c && c <= 'F' {
        Some(((c as u32) - ('A' as u32) + 10) as u8)
    } else {
        None
    }
}

/// `u8::from_str_radix(t, 16)` for a text of one or two characters: an
/// optional `+` followed by one or two hexadecimal digits.
pub open spec fn parse_hex_byte(t: Seq<char>) -> Option<u8> {
    if t.len() == 1 {
        hex_digit(t[0])
    } else if t.len() == 2 && t[0] == '+' {
        hex_digit(t[1])
    } else if t.len() == 2 {
        match (hex_digit(t[0]), hex_digit(t[1])) {
            (Some(a), Some(b)) => Some((16 * a + b) as u8),
            _ => None,
        }
    } else {
        None
    }
}

/// The index of the character of `h` that starts at byte `p`, searching
/// from character `k` on; `None` when `p` falls inside a character or past
/// the end.
pub open spec fn char_at_byte(h: Seq<char>, p: int, k: int) -> Option<int>
    decreases h.len() + 1 - k,
{
    if k < 0 || k > h.len() {
        None
    } else if byte_start(h, k) == p {
        Some(k)
    } else {
        char_at_byte(h, p, k + 1)
    }
}

/// What reading one channel gives.
pub enum ChannelOutcome {
    /// The byte slice cuts a character: the reading panics
    Cut,
    /// The slice is not a hexadecimal byte
    Invalid,
    /// The channel's value
    Value(u8),
}

/// Reading the channel in bytes `p..q` of `h`, doubled for the short forms
/// (`#abc` reads `aa`, `bb`, `cc`).
pub open spec fn channel(h: Seq<char>, p: int, q: int, doubled: bool) -> ChannelOutcome {
    match (char_at_byte(h, p, 0), char_at_byte(h, q, 0)) {
        (Some(a), Some(b)) => {
            let t = h.subrange(a, b);
            match parse_hex_byte(if doubled { t + t } else { t }) {
                Some(v) => ChannelOutcome::Value(v),
                None => ChannelOutcome::Invalid,
            }
        },
        _ => ChannelOutcome::Cut,
    }
}

/// What reading a colour gives.
pub enum HexOutcome {
    /// A byte slice cuts a character: the reading panics
    Cut,
    /// The error message
    Failure(Seq<char>),
    /// Red, green, blue and, for the forms with alpha, the alpha byte
    Color(u8, u8, u8, Option<u8>),
}

/// Reading the channels of width `w` (1 for the short forms, doubled; 2 for
/// the long forms) from byte 0 on, `count` of them (3, or 4 with alpha), in
/// order; the first channel that does not read decides.
pub open spec fn read_channels(h: Seq<char>, w: int, count: int) -> HexOutcome {
    let d = w == 1;
    let r = channel(h, 0, w, d);
    let g = channel(h, w, 2 * w, d);
    let b = channel(h, 2 * w, 3 * w, d);
    let a = channel(h, 3 * w, 4 * w, d);
    match r {
        ChannelOutcome::Cut => HexOutcome::Cut,
        ChannelOutcome::Invalid => HexOutcome::Failure("Invalid hex color"@),
        ChannelOutcome::Value(rv) => match g {
            ChannelOutcome::Cut => HexOutcome::Cut,
            ChannelOutcome::Invalid => HexOutcome::Failure("Invalid hex color"@),
            ChannelOutcome::Value(gv) => match b {
                ChannelOutcome::Cut => HexOutcome::Cut,
                ChannelOutcome::Invalid => HexOutcome::Failure("Invalid hex color"@),
                ChannelOutcome::Value(bv) => if count == 3 {
                    HexOutcome::Color(rv, gv, bv, None)
                } else {
                    match a {
                        ChannelOutcome::Cut => HexOutcome::Cut,
                        ChannelOutcome::Invalid => HexOutcome::Failure("Invalid hex color"@),
                        ChannelOutcome::Value(av) => HexOutcome::Color(rv, gv, bv, Some(av)),
                    }
                },
            },
        },
    }
}

/// Reading a colour: leading `#`s dropped, then by the UTF-8 length of the
/// rest 3 (`rgb`), 4 (`rgba`), 6 (`rrggbb`) or 8 (`rrggbbaa`); any other
/// length is an error.
pub open spec fn hex_color_spec(s: Seq<char>) -> HexOutcome {
    let h = drop_leading(s, '#');
    let len = byte_start(h, h.len() as int);
    if len == 3 {
        read_channels(h, 1, 3)
    } else if len == 4 {
        read_channels(h, 1, 4)
    } else if len == 6 {
        read_channels(h, 2, 3)
    } else if len == 8 {
        read_channels(h, 2, 4)
    } else {
        HexOutcome::Failure("Invalid hex color length"@)
    }
}

fn hex_digit_exec(c: char) -> (res: Option<u8>)
    ensures
        res == hex_digit(c),
{
    if '0' <= c && c <= '9' {
        Some(((c as u32) - ('0' as u32)) as u8)
    } else if 'a' <= c && c <= 'f' {
        Some(((c as u32) - ('a' as u32) + 10) as u8)
    } else if 'A' <= c && c <= 'F' {
        Some(((c as u32) - ('A' as u32) + 10) as u8)
    } else {
        None
    }
}

fn parse_hex_byte_exec(t: &Vec<char>) -> (res: Option<u8>)
    ensures
        res == parse_hex_byte(t@),
{
    if t.len() == 1 {
        hex_digit_exec(t[0])
    } else if t.len() == 2 && t[0] == '+' {
        hex_digit_exec(t[1])
    } else if t.len() == 2 {
        match (hex_digit_exec(t[0]), hex_digit_exec(t[1])) {
            (Some(a), Some(b)) => {
                assert(a < 16 && b < 16);
                Some(16 * a + b)
            },
            _ => None,
        }
    } else {
        None
    }
}

fn utf8_width_exec(c: char) -> (res: usize)
    ensures
        res == utf8_width(c),
{
    let code = c as u32;
    if code < 0x80 {
        1
    } else if code < 0x800 {
        2
    } else if code < 0x10000 {
        3
    } else {
        4
    }
}

/// The character that starts at byte `p`, given the byte offsets `pos` of
/// the characters of `h` (and of its end).
fn find_char_at_byte(pos: &Vec<usize>, p: usize, Ghost(h): Ghost<Seq<char>>) -> (res: Option<usize>)
    requires
        pos@.len() == h.len() + 1,
        forall|k: int| 0 <= k <= h.len() ==> #[trigger] pos@[k] == byte_start(h, k),
    ensures
        match res {
            Some(k) => char_at_byte(h, p as int, 0) == Some(k as int),
            None => char_at_byte(h, p as int, 0) is None,
        },
{
    let mut k: usize = 0;
    while k < pos.len()
        invariant
            0 <= k <= pos@.len(),
            pos@.len() == h.len() + 1,
            forall|j: int| 0 <= j <= h.len() ==> #[trigger] pos@[j] == byte_start(h, j),
            char_at_byte(h, p as int, 0) == char_at_byte(h, p as int, k as int),
        decreases pos@.len() - k,
    {
        if pos[k] == p {
            return Some(k);
        }
        k = k + 1;
    }
    None
}

fn slice_chars(cs: &Vec<char>, a: usize, b: usize) -> (res: Vec<char>)
    requires
        a <= b <= cs@.len(),
    ensures
        res@ == cs@.subrange(a as int, b as int),
{
    let mut out: Vec<char> = Vec::new();
    let mut i = a;
    while i < b
        invariant
            a <= i <= b <= cs@.len(),
            out@ == cs@.subrange(a as int, i as int),
        decreases b - i,
    {
        out.push(cs[i]);
        i = i + 1;
        assert(out@ =~= cs@.subrange(a as int, i as int));
    }
    out
}

fn read_channel(
    h: &Vec<char>,
    pos: &Vec<usize>,
    p: usize,
    q: usize,
    doubled: bool,
) -> (res: ChannelOutcomeExec)
    requires
        p <= q,
        pos@.len() == h@.len() + 1,
        forall|k: int| 0 <= k <= h@.len() ==> #[trigger] pos@[k] == byte_start(h@, k),
    ensures
        res.view() == channel(h@, p as int, q as int, doubled),
{
    let a = match find_char_at_byte(pos, p, Ghost(h@)) {
        Some(a) => a,
        None => {
            return ChannelOutcomeExec::Cut;
        },
    };
    let b = match find_char_at_byte(pos, q, Ghost(h@)) {
        Some(b) => b,
        None => {
            return ChannelOutcomeExec::Cut;
        },
    };
    proof {
        lemma_char_at_byte_order(h@, p as int, q as int);
        lemma_char_at_byte_found(h@, q as int, 0);
    }
    let t = slice_chars(h, a, b);
    let text = if doubled {
        let mut tt = slice_chars(h, a, b);
        let mut i: usize = 0;
        while i < t.len()
            invariant
                0 <= i <= t@.len(),
                tt@ == t@ + t@.subrange(0, i as int),
            decreases t@.len() - i,
        {
            tt.push(t[i]);
            i = i + 1;
            assert(tt@ =~= t@ + t@.subrange(0, i as int));
        }
        assert(t@.subrange(0, t@.len() as int) =~= t@);
        tt
    } else {
        t
    };
    match parse_hex_byte_exec(&text) {
        Some(v) => ChannelOutcomeExec::Value(v),
        None => ChannelOutcomeExec::Invalid,
    }
}

proof fn lemma_byte_start_mono(h: Seq<char>, a: int, b: int)
    requires
        0 <= a <= b <= h.len(),
    ensures
        byte_start(h, a) <= byte_start(h, b),
        a < b ==> byte_start(h, a) < byte_start(h, b),
    decreases b - a,
{
    if a < b {
        lemma_byte_start_mono(h, a, b - 1);
    }
}

proof fn lemma_char_at_byte_found(h: Seq<char>, p: int, k: int)
    requires
        0 <= k,
    ensures
        char_at_byte(h, p, k) matches Some(a) ==> k <= a <= h.len() && byte_start(h, a) == p,
    decreases h.len() + 1 - k,
{
    if k <= h.len() && byte_start(h, k) != p {
        lemma_char_at_byte_found(h, p, k + 1);
    }
}

proof fn lemma_char_at_byte_order(h: Seq<char>, p: int, q: int)
    requires
        p <= q,
    ensures
        (char_at_byte(h, p, 0), char_at_byte(h, q, 0)) matches (Some(a), Some(b)) ==> a <= b,
{
    lemma_char_at_byte_found(h, p, 0);
    lemma_char_at_byte_found(h, q, 0);
    if let (Some(a), Some(b)) = (char_at_byte(h, p, 0), char_at_byte(h, q, 0)) {
        if a > b {
            lemma_byte_start_mono(h, b, a);
        }
    }
}

/// The outcome of reading one channel, as computed.
pub enum ChannelOutcomeExec {
    /// The byte slice cuts a character
    Cut,
    /// Not a hexadecimal byte
    Invalid,
    /// The channel's value
    Value(u8),
}

impl ChannelOutcomeExec {
    /// The outcome it stands for.
    pub open spec fn view(&self) -> ChannelOutcome {
        match self {
            ChannelOutcomeExec::Cut => ChannelOutcome::Cut,
            ChannelOutcomeExec::Invalid => ChannelOutcome::Invalid,
            ChannelOutcomeExec::Value(v) => ChannelOutcome::Value(*v),
        }
    }
}

/// Reads a hexadecimal colour: red, green and blue bytes, and the alpha
/// byte for the forms with four or eight digits; the error message when the
/// length (in UTF-8 bytes, after leading `#`s) is not 3, 4, 6 or 8, or a
/// channel is not hexadecimal.
pub fn parse_hex_color(hex: &str) -> (res: Result<(u8, u8, u8, Option<u8>), &'static str>)
    requires
        4 * hex@.len() < usize::MAX,
        !(hex_color_spec(hex@) is Cut),
    ensures
        match hex_color_spec(hex@) {
            HexOutcome::Color(r, g, b, a) => res == Ok::<(u8, u8, u8, Option<u8>), &'static str>(
                (r, g, b, a),
            ),
            HexOutcome::Failure(m) => res matches Err(e) && e@ == m,
            HexOutcome::Cut => false,
        },
{
    match try_parse_hex_color(hex) {
        Some(r) => r,
        None => Err("Invalid hex color"),
    }
}

/// Reads a hexadecimal colour as `parse_hex_color` does, on every input:
/// `None` where a byte slice of the reading would cut a character (where
/// `str` slicing panics), else `Some` of what `parse_hex_color` returns.
pub fn try_parse_hex_color(hex: &str) -> (res: Option<Result<(u8, u8, u8, Option<u8>), &'static str>>)
    requires
        4 * hex@.len() < usize::MAX,
    ensures
        match hex_color_spec(hex@) {
            HexOutcome::Color(r, g, b, a) => res == Some(
                Ok::<(u8, u8, u8, Option<u8>), &'static str>((r, g, b, a)),
            ),
            HexOutcome::Failure(m) => res matches Some(Err(e)) && e@ == m,
            HexOutcome::Cut => res is None,
        },
{
    let cs = crate::text::chars_of(hex);
    let mut start: usize = 0;
    while start < cs.len() && cs[start] == '#'
        invariant
            0 <= start <= cs@.len(),
            forall|k: int| 0 <= k < start ==> cs@[k] == '#',
        decreases cs@.len() - start,
    {
        start = start + 1;
    }
    proof {
        crate::source_map::lemma_drop_leading_suffix(cs@, '#', start as int);
    }
    let h = slice_chars(&cs, start, cs.len());
    let ghost hv = h@;
    let mut pos: Vec<usize> = Vec::new();
    pos.push(0);
    let mut k: usize = 0;
    let mut total: usize = 0;
    while k < h.len()
        invariant
            0 <= k <= h@.len(),
            h@ == hv,
            4 * hv.len() < usize::MAX,
            pos@.len() == k + 1,
            total == byte_start(hv, k as int),
            forall|j: int| 0 <= j <= k ==> #[trigger] pos@[j] == byte_start(hv, j),
        decreases h@.len() - k,
    {
        proof {
            lemma_byte_start_bound(hv, k + 1);
        }
        total = total + utf8_width_exec(h[k]);
        pos.push(total);
        k = k + 1;
    }
    let w: usize = if total == 3 || total == 4 {
        1
    } else if total == 6 || total == 8 {
        2
    } else {
        proof {
            reveal_strlit("Invalid hex color length");
        }
        return Some(Err("Invalid hex color length"));
    };
    let count: usize = if total == 3 || total == 6 {
        3
    } else {
        4
    };
    let d = w == 1;
    proof {
        reveal_strlit("Invalid hex color");
    }
    let r = match read_channel(&h, &pos, 0, w, d) {
        ChannelOutcomeExec::Value(v) => v,
        ChannelOutcomeExec::Cut => {
            return None;
        },
        ChannelOutcomeExec::Invalid => {
            return Some(Err("Invalid hex color"));
        },
    };
    let g = match read_channel(&h, &pos, w, 2 * w, d) {
        ChannelOutcomeExec::Value(v) => v,
        ChannelOutcomeExec::Cut => {
            return None;
        },
        ChannelOutcomeExec::Invalid => {
            return Some(Err("Invalid hex color"));
        },
    };
    let b = match read_channel(&h, &pos, 2 * w, 3 * w, d) {
        ChannelOutcomeExec::Value(v) => v,
        ChannelOutcomeExec::Cut => {
            return None;
        },
        ChannelOutcomeExec::Invalid => {
            return Some(Err("Invalid hex color"));
        },
    };
    if count == 3 {
        return Some(Ok((r, g, b, None)));
    }
    let a = match read_channel(&h, &pos, 3 * w, 4 * w, d) {
        ChannelOutcomeExec::Value(v) => v,
        ChannelOutcomeExec::Cut => {
            return None;
        },
        ChannelOutcomeExec::Invalid => {
            return Some(Err("Invalid hex color"));
        },
    };
    Some(Ok((r, g, b, Some(a))))
}

} // verus!
