use mcb::Color;
use mcb::map_layers;
use mcb::parse_layer_entry;

#[test]
fn bracket_forms_from_the_query_grammar() {
    let e = parse_layer_entry("[,]");
    assert_eq!((e.id, e.color), (None, None));

    let e = parse_layer_entry("[]");
    assert_eq!((e.id, e.color), (None, None));

    let e = parse_layer_entry("[,5]");
    assert_eq!((e.id, e.color), (None, Some(5)));

    let e = parse_layer_entry("[9,]");
    assert_eq!((e.id, e.color), (Some(9), None));

    let e = parse_layer_entry("[1, 5]");
    assert_eq!((e.id, e.color), (Some(1), Some(5)));
}

#[test]
fn surrounding_whitespace_is_ignored() {
    let e = parse_layer_entry("  [2,3]  ");
    assert_eq!((e.id, e.color), (Some(2), Some(3)));
}

#[test]
fn missing_brackets_still_parse() {
    let e = parse_layer_entry("4,11");
    assert_eq!((e.id, e.color), (Some(4), Some(11)));
}

#[test]
fn unparseable_fields_resolve_to_no_override() {
    let e = parse_layer_entry("[abc,5]");
    assert_eq!((e.id, e.color), (None, Some(5)));

    let e = parse_layer_entry("[99999999999999999999999999,5]");
    assert_eq!((e.id, e.color), (None, Some(5)));

    let e = parse_layer_entry("[1,300]");
    assert_eq!((e.id, e.color), (Some(1), None));

    let e = parse_layer_entry("nonsense");
    assert_eq!((e.id, e.color), (None, None));
}

#[test]
fn plus_sign_parses_like_the_standard_library() {
    let e = parse_layer_entry("[+3,+4]");
    assert_eq!((e.id, e.color), (Some(3), Some(4)));
}

#[test]
fn map_layers_resolves_colors_and_positions() {
    let layers = vec![
        Some("[0,14]".to_string()),
        None,
        Some("[2,20]".to_string()),
        Some("[,3]".to_string()),
    ];
    let mapped = map_layers(layers);
    assert_eq!(mapped.len(), 4);
    assert_eq!(mapped[0], Some((Some(0), Some(Color::Red))));
    assert_eq!(mapped[1], None);
    // Color id 20 is out of the 16-color range and resolves to no override.
    assert_eq!(mapped[2], Some((Some(2), None)));
    assert_eq!(mapped[3], Some((None, Some(Color::LightBlue))));
}
