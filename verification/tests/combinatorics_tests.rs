use mcb::get_possible_combinations;

#[test]
fn total_combinations_for_one_pattern() {
    // 16 * (1 + 16 + 256 + 4096 + 65536 + 1048576 + 16777216)
    assert_eq!(get_possible_combinations(1), 286331152);
}

#[test]
fn total_combinations_for_zero_patterns() {
    // Only the zero-layer stratum remains: 16 base colors.
    assert_eq!(get_possible_combinations(0), 16);
}

#[test]
fn total_combinations_matches_direct_formula() {
    for p in [2usize, 3, 7, 63] {
        let r = (p as u64) * 16;
        let mut sum: u64 = 0;
        let mut power: u64 = 1;
        for _ in 0..=6 {
            sum += power;
            power = power.saturating_mul(r);
        }
        assert_eq!(get_possible_combinations(p), 16 * sum);
    }
}

#[test]
fn total_combinations_largest_library() {
    assert_eq!(get_possible_combinations(63), 16800191683018313488);
}
