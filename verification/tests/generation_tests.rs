use mcb::Color;
use mcb::Error;
use mcb::SeededRng;
use mcb::generate_pattern_list;
use mcb::generate_seed;
use mcb::get_amount_of_layers;
use mcb::get_possible_combinations;
use mcb::get_rng_from_seed;

#[test]
fn generation_is_deterministic() {
    let mut rng1 = SeededRng::from_seed(12345);
    let mut rng2 = SeededRng::from_seed(12345);
    let a = generate_pattern_list(&mut rng1, 3, vec![], None).unwrap();
    let b = generate_pattern_list(&mut rng2, 3, vec![], None).unwrap();
    assert_eq!(a, b);
}

#[test]
fn seed_zero_with_three_patterns_is_stable() {
    // The same seed must produce the same layer sequence across repeated
    // runs, and every drawn value must be in range.
    let mut rng1 = SeededRng::from_seed(0);
    let mut rng2 = SeededRng::from_seed(0);
    let a = generate_pattern_list(&mut rng1, 3, vec![], None).unwrap();
    let b = generate_pattern_list(&mut rng2, 3, vec![], None).unwrap();
    assert_eq!(a, b);
    assert!(a.len() <= 6);
    for (pid, _color) in &a {
        assert!(*pid < 3);
    }
    // The base color drawn after the layers is stable too.
    let c1 = rng1.random_below(16);
    let c2 = rng2.random_below(16);
    assert_eq!(c1, c2);
}

#[test]
fn override_one_layer_leaves_others_alone() {
    let seed = 777;
    let mut rng_plain = SeededRng::from_seed(seed);
    let plain = generate_pattern_list(&mut rng_plain, 5, vec![], None).unwrap();
    if plain.is_empty() {
        return;
    }
    let overrides: Vec<mcb::LayerOverride> = vec![Some((None, Some(Color::Red)))];
    let mut rng_forced = SeededRng::from_seed(seed);
    let forced = generate_pattern_list(&mut rng_forced, 5, overrides, None).unwrap();
    assert_eq!(forced.len(), plain.len());
    assert_eq!(forced[0].0, plain[0].0);
    assert_eq!(forced[0].1, Color::Red);
    for i in 1..plain.len() {
        assert_eq!(forced[i], plain[i]);
    }
}

#[test]
fn max_layers_yields_prefix() {
    let seed = 424242;
    let mut rng_full = SeededRng::from_seed(seed);
    let full = generate_pattern_list(&mut rng_full, 4, vec![], None).unwrap();
    for k in 0..=6 {
        let mut rng_k = SeededRng::from_seed(seed);
        let limited = generate_pattern_list(&mut rng_k, 4, vec![], Some(k)).unwrap();
        let want = k.min(full.len());
        assert_eq!(limited.len(), want);
        assert_eq!(&limited[..], &full[..want]);
    }
}

#[test]
fn too_many_overrides_is_rejected() {
    let overrides: Vec<mcb::LayerOverride> = vec![None, None, None, None, None, None, None];
    let mut rng = SeededRng::from_seed(1);
    assert_eq!(
        generate_pattern_list(&mut rng, 3, overrides, None),
        Err(Error::InvalidLayerOverride)
    );
}

#[test]
fn override_pattern_out_of_bounds_is_rejected() {
    // Find a seed that draws at least one layer, then force a pattern index
    // past the library length at position 0.
    for seed in 0..200u64 {
        let mut probe = SeededRng::from_seed(seed);
        let n = get_amount_of_layers(&mut probe, 3);
        if n >= 1 {
            let mut rng = SeededRng::from_seed(seed);
            let overrides: Vec<mcb::LayerOverride> = vec![Some((Some(3usize), None))];
            assert_eq!(
                generate_pattern_list(&mut rng, 3, overrides, None),
                Err(Error::InvalidLayerOverride)
            );
            return;
        }
    }
    panic!("no seed below 200 drew a layer");
}

#[test]
fn override_past_drawn_layers_is_rejected() {
    // Find a seed that draws fewer than six layers, then name a layer past
    // the drawn count.
    for seed in 0..200u64 {
        let mut probe = SeededRng::from_seed(seed);
        let n = get_amount_of_layers(&mut probe, 3);
        if n < 6 {
            let mut overrides: Vec<mcb::LayerOverride> = vec![None; n + 1];
            overrides[n] = Some((None, Some(Color::Blue)));
            let mut rng = SeededRng::from_seed(seed);
            assert_eq!(
                generate_pattern_list(&mut rng, 3, overrides, None),
                Err(Error::InvalidLayerOverride)
            );
            return;
        }
    }
    panic!("no seed below 200 drew fewer than six layers");
}

#[test]
fn generate_seed_stays_in_range() {
    for p in [0usize, 1, 3, 63] {
        let total = get_possible_combinations(p);
        for _ in 0..10 {
            assert!(generate_seed(p) < total);
        }
    }
}

#[test]
fn rng_from_seed_validates_range() {
    let total = get_possible_combinations(3);
    assert!(get_rng_from_seed(Some("0"), 3).is_ok());
    // The boundary value itself is accepted; only strictly greater fails.
    assert!(get_rng_from_seed(Some(&total.to_string()), 3).is_ok());
    assert_eq!(
        get_rng_from_seed(Some(&(total + 1).to_string()), 3).err(),
        Some(Error::InvalidSeed)
    );
}

#[test]
fn rng_from_seed_falls_back_on_bad_input() {
    // Absent or unparseable seeds draw a fresh one instead of failing.
    assert!(get_rng_from_seed(None, 3).is_ok());
    assert!(get_rng_from_seed(Some("not-a-number"), 3).is_ok());
    assert!(get_rng_from_seed(Some(""), 3).is_ok());
}

#[test]
fn parsed_seed_reproduces_from_seed_stream() {
    let mut a = get_rng_from_seed(Some("98765"), 3).unwrap();
    let mut b = SeededRng::from_seed(98765);
    for bound in [100u64, 7, 1000, 2] {
        assert_eq!(a.random_below(bound), b.random_below(bound));
    }
}

#[test]
fn random_below_is_bounded() {
    let mut rng = SeededRng::from_seed(5);
    assert_eq!(rng.random_below(1), 0);
    for bound in 2..50u64 {
        assert!(rng.random_below(bound) < bound);
    }
}

#[test]
fn different_seeds_give_different_streams() {
    let mut a = SeededRng::from_seed(1);
    let mut b = SeededRng::from_seed(2);
    let draws_a: Vec<u64> = (0..10).map(|_| a.random_below(1 << 32)).collect();
    let draws_b: Vec<u64> = (0..10).map(|_| b.random_below(1 << 32)).collect();
    assert_ne!(draws_a, draws_b);
}
