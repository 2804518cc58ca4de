use vstd::prelude::*;
use crate::rng::SeededRng;
use crate::rng::chacha_draw;

verus! {

/// One of the 16 fixed dye colors. The declaration order is the stable
/// numeric id 0..=15 used by seeds, packed identifiers and queries.
#[derive(Debug, Hash, Clone, Copy, PartialEq, Eq, Structural)]
pub enum Color {
    White,
    Orange,
    Magenta,
    LightBlue,
    Yellow,
    Lime,
    Pink,
    Gray,
    LightGray,
    Cyan,
    Purple,
    Blue,
    Brown,
    Green,
    Red,
    Black,
}

impl Color {
    /// The numeric id of this color: its position in the declaration order.
    pub open spec fn spec_id(self) -> u8 {
        match self {
            Color::White => 0,
            Color::Orange => 1,
            Color::Magenta => 2,
            Color::LightBlue => 3,
            Color::Yellow => 4,
            Color::Lime => 5,
            Color::Pink => 6,
            Color::Gray => 7,
            Color::LightGray => 8,
            Color::Cyan => 9,
            Color::Purple => 10,
            Color::Blue => 11,
            Color::Brown => 12,
            Color::Green => 13,
            Color::Red => 14,
            Color::Black => 15,
        }
    }

    /// The color with the given id, for ids below 16.
    pub open spec fn spec_from_id(id: u8) -> Color
        recommends
            id < 16,
    {
        if id == 0 {
            Color::White
        } else if id == 1 {
            Color::Orange
        } else if id == 2 {
            Color::Magenta
        } else if id == 3 {
            Color::LightBlue
        } else if id == 4 {
            Color::Yellow
        } else if id == 5 {
            Color::Lime
        } else if id == 6 {
            Color::Pink
        } else if id == 7 {
            Color::Gray
        } else if id == 8 {
            Color::LightGray
        } else if id == 9 {
            Color::Cyan
        } else if id == 10 {
            Color::Purple
        } else if id == 11 {
            Color::Blue
        } else if id == 12 {
            Color::Brown
        } else if id == 13 {
            Color::Green
        } else if id == 14 {
            Color::Red
        } else {
            Color::Black
        }
    }

    /// Returns the numeric id of this color.
    pub fn id(self) -> (r: u8)
        ensures
            r == self.spec_id(),
            r < 16,
    {
        match self {
            Color::White => 0,
            Color::Orange => 1,
            Color::Magenta => 2,
            Color::LightBlue => 3,
            Color::Yellow => 4,
            Color::Lime => 5,
            Color::Pink => 6,
            Color::Gray => 7,
            Color::LightGray => 8,
            Color::Cyan => 9,
            Color::Purple => 10,
            Color::Blue => 11,
            Color::Brown => 12,
            Color::Green => 13,
            Color::Red => 14,
            Color::Black => 15,
        }
    }

    /// Returns the color whose id is `id`, or `None` for ids of 16 or more.
    pub fn from_repr(id: u8) -> (r: Option<Color>)
        ensures
            id < 16 ==> r == Some(Color::spec_from_id(id)),
            id >= 16 ==> r is None,
            r matches Some(c) ==> c.spec_id() == id,
    {
        if id == 0 {
            Some(Color::White)
        } else if id == 1 {
            Some(Color::Orange)
        } else if id == 2 {
            Some(Color::Magenta)
        } else if id == 3 {
            Some(Color::LightBlue)
        } else if id == 4 {
            Some(Color::Yellow)
        } else if id == 5 {
            Some(Color::Lime)
        } else if id == 6 {
            Some(Color::Pink)
        } else if id == 7 {
            Some(Color::Gray)
        } else if id == 8 {
            Some(Color::LightGray)
        } else if id == 9 {
            Some(Color::Cyan)
        } else if id == 10 {
            Some(Color::Purple)
        } else if id == 11 {
            Some(Color::Blue)
        } else if id == 12 {
            Some(Color::Brown)
        } else if id == 13 {
            Some(Color::Green)
        } else if id == 14 {
            Some(Color::Red)
        } else if id == 15 {
            Some(Color::Black)
        } else {
            None
        }
    }

    /// Draws one of the 16 colors uniformly from the stream, consuming one
    /// draw with bound 16.
    pub fn random(rng: &mut SeededRng) -> (r: Color)
        ensures
            r == Color::spec_from_id(
                chacha_draw(old(rng).seed(), old(rng).history(), 16) as u8,
            ),
            final(rng).seed() == old(rng).seed(),
            final(rng).history() == old(rng).history().push(16u64),
    {
        let id = rng.random_below(16);
        match Color::from_repr(id as u8) {
            Some(c) => c,
            None => Color::White,
        }
    }

    /// Returns all 16 colors in declaration order, so that `all()[i]` has id `i`.
    pub fn all() -> (r: Vec<Color>)
        ensures
            r@.len() == 16,
            forall|i: int| 0 <= i < 16 ==> #[trigger] r@[i].spec_id() == i,
    {
        let r: Vec<Color> = vec![
            Color::White,
            Color::Orange,
            Color::Magenta,
            Color::LightBlue,
            Color::Yellow,
            Color::Lime,
            Color::Pink,
            Color::Gray,
            Color::LightGray,
            Color::Cyan,
            Color::Purple,
            Color::Blue,
            Color::Brown,
            Color::Green,
            Color::Red,
            Color::Black,
        ];
        assert(forall|i: int| 0 <= i < 16 ==> #[trigger] r@[i].spec_id() == i) by {
            assert(r@[0].spec_id() == 0);
            assert(r@[1].spec_id() == 1);
            assert(r@[2].spec_id() == 2);
            assert(r@[3].spec_id() == 3);
            assert(r@[4].spec_id() == 4);
            assert(r@[5].spec_id() == 5);
            assert(r@[6].spec_id() == 6);
            assert(r@[7].spec_id() == 7);
            assert(r@[8].spec_id() == 8);
            assert(r@[9].spec_id() == 9);
            assert(r@[10].spec_id() == 10);
            assert(r@[11].spec_id() == 11);
            assert(r@[12].spec_id() == 12);
            assert(r@[13].spec_id() == 13);
            assert(r@[14].spec_id() == 14);
            assert(r@[15].spec_id() == 15);
        }
        r
    }
}

/// The canonical red, green and blue channel values of each color, the
/// triple encoded by its 6-digit hex code.
pub open spec fn spec_rgb(c: Color) -> (u8, u8, u8) {
    match c {
        Color::White => (0xF9, 0xFF, 0xFE),
        Color::Orange => (0xF9, 0x80, 0x1D),
        Color::Magenta => (0xC7, 0x4E, 0xBD),
        Color::LightBlue => (0x3A, 0xB3, 0xDA),
        Color::Yellow => (0xFE, 0xD8, 0x3D),
        Color::Lime => (0x80, 0xC7, 0x1F),
        Color::Pink => (0xF3, 0x8B, 0xAA),
        Color::Gray => (0x47, 0x4F, 0x52),
        Color::LightGray => (0x9D, 0x9D, 0x97),
        Color::Cyan => (0x16, 0x9C, 0x9C),
        Color::Purple => (0x89, 0x32, 0xB8),
        Color::Blue => (0x3C, 0x44, 0xAA),
        Color::Brown => (0x83, 0x54, 0x32),
        Color::Green => (0x5E, 0x7C, 0x16),
        Color::Red => (0xB0, 0x2E, 0x26),
        Color::Black => (0x1D, 0x1D, 0x21),
    }
}

impl Color {
    /// Returns the red, green and blue channel values of this color.
    pub fn rgb(self) -> (r: (u8, u8, u8))
        ensures
            r == spec_rgb(self),
    {
        match self {
            Color::White => (0xF9, 0xFF, 0xFE),
            Color::Orange => (0xF9, 0x80, 0x1D),
            Color::Magenta => (0xC7, 0x4E, 0xBD),
            Color::LightBlue => (0x3A, 0xB3, 0xDA),
            Color::Yellow => (0xFE, 0xD8, 0x3D),
            Color::Lime => (0x80, 0xC7, 0x1F),
            Color::Pink => (0xF3, 0x8B, 0xAA),
            Color::Gray => (0x47, 0x4F, 0x52),
            Color::LightGray => (0x9D, 0x9D, 0x97),
            Color::Cyan => (0x16, 0x9C, 0x9C),
            Color::Purple => (0x89, 0x32, 0xB8),
            Color::Blue => (0x3C, 0x44, 0xAA),
            Color::Brown => (0x83, 0x54, 0x32),
            Color::Green => (0x5E, 0x7C, 0x16),
            Color::Red => (0xB0, 0x2E, 0x26),
            Color::Black => (0x1D, 0x1D, 0x21),
        }
    }

    /// Returns the canonical hex code of this color, `#` followed by six
    /// hex digits: the code that decodes to exactly this color's `rgb()`
    /// triple.
    pub fn hex_code(self) -> (r: &'static str)
        ensures
            r@.len() == 7,
            spec_hex_to_rgb(r@) == Option::Some(spec_rgb(self)),
    {
        let r: &'static str = match self {
            Color::White => "#F9FFFE",
            Color::Orange => "#F9801D",
            Color::Magenta => "#C74EBD",
            Color::LightBlue => "#3AB3DA",
            Color::Yellow => "#FED83D",
            Color::Lime => "#80C71F",
            Color::Pink => "#F38BAA",
            Color::Gray => "#474F52",
            Color::LightGray => "#9D9D97",
            Color::Cyan => "#169C9C",
            Color::Purple => "#8932B8",
            Color::Blue => "#3C44AA",
            Color::Brown => "#835432",
            Color::Green => "#5E7C16",
            Color::Red => "#B02E26",
            Color::Black => "#1D1D21",
        };
        proof {
            reveal_strlit("#F9FFFE");
            reveal_strlit("#F9801D");
            reveal_strlit("#C74EBD");
            reveal_strlit("#3AB3DA");
            reveal_strlit("#FED83D");
            reveal_strlit("#80C71F");
            reveal_strlit("#F38BAA");
            reveal_strlit("#474F52");
            reveal_strlit("#9D9D97");
            reveal_strlit("#169C9C");
            reveal_strlit("#8932B8");
            reveal_strlit("#3C44AA");
            reveal_strlit("#835432");
            reveal_strlit("#5E7C16");
            reveal_strlit("#B02E26");
            reveal_strlit("#1D1D21");
            assert(r@[0] == '#' && r@.len() == 7);
            assert(spec_strip_hashes(r@) == spec_strip_hashes(r@.skip(1)));
            assert(r@.skip(1).len() == 6 && r@.skip(1)[0] != '#');
            assert(spec_strip_hashes(r@.skip(1)) == r@.skip(1));
            assert(r@.skip(1)[0] == r@[1] && r@.skip(1)[1] == r@[2] && r@.skip(1)[2] == r@[3]
                && r@.skip(1)[3] == r@[4] && r@.skip(1)[4] == r@[5] && r@.skip(1)[5] == r@[6]);
        }
        r
    }
}

/// The numeric value of a hex digit character, or `None` where the
/// character is not a hex digit.
pub open spec fn spec_hex_digit(c: char) -> Option<u8> {
    if '0' <= c && c <= '9' {
        Some((c as u8 - '0' as u8) as u8)
    } else if 'a' <= c && c <= 'f' {
        Some((c as u8 - 'a' as u8 + 10) as u8)
    } else if 'A' <= c && c <= 'F' {
        Some((c as u8 - 'A' as u8 + 10) as u8)
    } else {
        None
    }
}

/// The byte encoded by two hex digit characters, or `None` where either
/// is not a hex digit.
pub open spec fn spec_hex_byte(hi: char, lo: char) -> Option<u8> {
    match (spec_hex_digit(hi), spec_hex_digit(lo)) {
        (Some(h), Some(l)) => Some((h * 16 + l) as u8),
        _ => None,
    }
}

/// The characters of `hex` with every leading `#` removed.
pub open spec fn spec_strip_hashes(hex: Seq<char>) -> Seq<char>
    decreases hex.len(),
{
    if hex.len() > 0 && hex[0] == '#' {
        spec_strip_hashes(hex.skip(1))
    } else {
        hex
    }
}

/// The red, green and blue values encoded by a hex color code, or `None`
/// where, after stripping leading `#` characters, the code is not exactly
/// six hex digits.
pub open spec fn spec_hex_to_rgb(hex: Seq<char>) -> Option<(u8, u8, u8)> {
    let s = spec_strip_hashes(hex);
    if s.len() != 6 {
        Option::None
    } else {
        match (spec_hex_byte(s[0], s[1]), spec_hex_byte(s[2], s[3]), spec_hex_byte(s[4], s[5])) {
            (Some(r), Some(g), Some(b)) => Option::Some((r, g, b)),
            _ => Option::None,
        }
    }
}

fn hex_digit(c: char) -> (r: Option<u8>)
    ensures
        r == spec_hex_digit(c),
        r matches Some(v) ==> v < 16,
{
    if '0' <= c && c <= '9' {
        Some(c as u8 - '0' as u8)
    } else if 'a' <= c && c <= 'f' {
        Some(c as u8 - 'a' as u8 + 10)
    } else if 'A' <= c && c <= 'F' {
        Some(c as u8 - 'A' as u8 + 10)
    } else {
        None
    }
}

fn hex_byte(hi: char, lo: char) -> (r: Option<u8>)
    ensures
        r == spec_hex_byte(hi, lo),
{
    match (hex_digit(hi), hex_digit(lo)) {
        (Some(h), Some(l)) => Some(h * 16 + l),
        _ => None,
    }
}

/// Converts a 6-digit hex color code such as `#F9FFFE` (any number of
/// leading `#` characters is ignored) into its `(red, green, blue)` triple.
///
/// Fails with [`Error::InvalidHexColor`] when, after the leading `#`
/// characters, the code is not exactly six hex digits.
pub fn hex_to_rgb(hex: &str) -> (r: Result<(u8, u8, u8), crate::Error>)
    ensures
        r matches Ok(rgb) ==> spec_hex_to_rgb(hex@) == Option::Some(rgb),
        r is Err <==> spec_hex_to_rgb(hex@) is None,
        r is Err ==> r == Result::<(u8, u8, u8), crate::Error>::Err(crate::Error::InvalidHexColor),
{
    let chars = crate::chars::str_to_chars(hex);
    let mut start: usize = 0;
    proof {
        assert(chars@.skip(0) =~= chars@);
    }
    while start < chars.len() && chars[start] == '#'
        invariant
            0 <= start <= chars@.len(),
            chars@ == hex@,
            forall|j: int| 0 <= j < start ==> chars@[j] == '#',
            spec_strip_hashes(hex@) == spec_strip_hashes(chars@.skip(start as int)),
        decreases chars@.len() - start,
    {
        proof {
            assert(chars@.skip(start as int).skip(1) =~= chars@.skip(start as int + 1));
        }
        start = start + 1;
    }
    proof {
        assert(spec_strip_hashes(chars@.skip(start as int)) =~= chars@.skip(start as int));
    }
    let n = chars.len();
    if n - start != 6 {
        return Err(crate::Error::InvalidHexColor);
    }
    assert(chars@.skip(start as int).len() == 6);
    let r = hex_byte(chars[start], chars[start + 1]);
    let g = hex_byte(chars[start + 2], chars[start + 3]);
    let b = hex_byte(chars[start + 4], chars[start + 5]);
    proof {
        let s = spec_strip_hashes(hex@);
        assert(s[0] == chars@[start as int]);
        assert(s[1] == chars@[start as int + 1]);
        assert(s[2] == chars@[start as int + 2]);
        assert(s[3] == chars@[start as int + 3]);
        assert(s[4] == chars@[start as int + 4]);
        assert(s[5] == chars@[start as int + 5]);
    }
    match (r, g, b) {
        (Some(r), Some(g), Some(b)) => Ok((r, g, b)),
        _ => Err(crate::Error::InvalidHexColor),
    }
}

/// Maps an optional color id to its color; ids outside 0..=15 and `None`
/// both map to `None`.
pub fn map_base_color(base_color: Option<u8>) -> (r: Option<Color>)
    ensures
        r matches Some(c) ==> base_color == Some(c.spec_id()),
        r is None <==> (base_color is None || (base_color matches Some(v) && v >= 16)),
{
    match base_color {
        Some(v) => Color::from_repr(v),
        None => None,
    }
}

} // verus!
