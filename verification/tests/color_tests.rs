use mcb::Color;
use mcb::Error;
use mcb::hex_to_rgb;
use mcb::map_base_color;

#[test]
fn all_colors_in_declaration_order() {
    let all = Color::all();
    assert_eq!(all.len(), 16);
    for (i, c) in all.iter().enumerate() {
        assert_eq!(c.id() as usize, i);
        assert_eq!(Color::from_repr(i as u8), Some(*c));
    }
    assert_eq!(all[0], Color::White);
    assert_eq!(all[15], Color::Black);
}

#[test]
fn from_repr_rejects_out_of_range() {
    assert_eq!(Color::from_repr(16), None);
    assert_eq!(Color::from_repr(255), None);
}

#[test]
fn hex_codes_decode_to_rgb_triples() {
    for c in Color::all() {
        assert_eq!(hex_to_rgb(c.hex_code()), Ok(c.rgb()));
    }
}

#[test]
fn white_hex_is_near_white() {
    assert_eq!(hex_to_rgb("#F9FFFE"), Ok((0xF9, 0xFF, 0xFE)));
    assert_eq!(Color::White.rgb(), (0xF9, 0xFF, 0xFE));
}

#[test]
fn hex_to_rgb_accepts_lower_case_and_extra_hashes() {
    assert_eq!(hex_to_rgb("1d1d21"), Ok((0x1D, 0x1D, 0x21)));
    assert_eq!(hex_to_rgb("##B02E26"), Ok((0xB0, 0x2E, 0x26)));
}

#[test]
fn hex_to_rgb_rejects_bad_input() {
    assert_eq!(hex_to_rgb("#F9FFF"), Err(Error::InvalidHexColor));
    assert_eq!(hex_to_rgb("#F9FFFEA"), Err(Error::InvalidHexColor));
    assert_eq!(hex_to_rgb(""), Err(Error::InvalidHexColor));
    assert_eq!(hex_to_rgb("#GGGGGG"), Err(Error::InvalidHexColor));
}

#[test]
fn map_base_color_resolves_ids() {
    assert_eq!(map_base_color(None), None);
    assert_eq!(map_base_color(Some(0)), Some(Color::White));
    assert_eq!(map_base_color(Some(14)), Some(Color::Red));
    assert_eq!(map_base_color(Some(16)), None);
}
