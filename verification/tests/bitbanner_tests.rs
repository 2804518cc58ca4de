use mcb::BannerId;
use mcb::SeededRng;
use mcb::generate_random_banner;

#[test]
fn new_id_is_blank() {
    let id = BannerId::new();
    assert_eq!(id.value(), 0);
    assert_eq!(id.get_base_color(), 0);
    for layer in 0..6 {
        assert_eq!(id.get_layer(layer), (0, 0));
    }
}

#[test]
fn base_color_round_trip() {
    let mut id = BannerId::new();
    id.set_base_color(13);
    assert_eq!(id.get_base_color(), 13);
    // The base color sits in the top four bits.
    assert_eq!(id.value(), 13u64 << 60);
    id.set_base_color(2);
    assert_eq!(id.get_base_color(), 2);
    assert_eq!(id.value(), 2u64 << 60);
}

#[test]
fn layer_round_trip() {
    let mut id = BannerId::new();
    id.set_layer(2, 37, 11);
    assert_eq!(id.get_layer(2), (37, 11));
    for layer in [0, 1, 3, 4, 5] {
        assert_eq!(id.get_layer(layer), (0, 0));
    }
    assert_eq!(id.get_base_color(), 0);
}

#[test]
fn layer_zero_sits_at_bit_fifty() {
    let mut id = BannerId::new();
    id.set_layer(0, 1, 0);
    // Pattern 1, color 0 pack as 0b0000010000, at bits 59..50.
    assert_eq!(id.value(), 16u64 << 50);
}

#[test]
fn setting_one_layer_preserves_the_others() {
    let mut id = BannerId::new();
    id.set_base_color(5);
    id.set_layer(0, 10, 1);
    id.set_layer(5, 63, 15);
    id.set_layer(3, 7, 7);
    assert_eq!(id.get_base_color(), 5);
    assert_eq!(id.get_layer(0), (10, 1));
    assert_eq!(id.get_layer(3), (7, 7));
    assert_eq!(id.get_layer(5), (63, 15));
    id.set_layer(3, 1, 2);
    assert_eq!(id.get_layer(0), (10, 1));
    assert_eq!(id.get_layer(3), (1, 2));
    assert_eq!(id.get_layer(5), (63, 15));
}

#[test]
fn random_banner_is_deterministic_and_in_range() {
    let mut rng1 = SeededRng::from_seed(31337);
    let mut rng2 = SeededRng::from_seed(31337);
    let a = generate_random_banner(&mut rng1, 13);
    let b = generate_random_banner(&mut rng2, 13);
    assert_eq!(a.value(), b.value());
    assert!(a.get_base_color() < 16);
    for layer in 0..6 {
        let (pattern, color) = a.get_layer(layer);
        assert!(pattern < 13 || pattern == 0);
        assert!(color < 16);
    }
}

#[test]
fn random_banner_with_empty_library_has_no_layers() {
    let mut rng = SeededRng::from_seed(9);
    let id = generate_random_banner(&mut rng, 0);
    for layer in 0..6 {
        assert_eq!(id.get_layer(layer), (0, 0));
    }
}
