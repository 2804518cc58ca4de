use vstd::prelude::*;
use vstd::arithmetic::mul::lemma_mul_upper_bound;

verus! {

/// `base` raised to `exp`.
pub open spec fn pow_nat(base: nat, exp: nat) -> nat
    decreases exp,
{
    if exp == 0 {
        1
    } else {
        base * pow_nat(base, (exp - 1) as nat)
    }
}

/// The number of distinct layer slot choices for one layer: any of the
/// `pattern_len` patterns combined with any of the 16 colors.
pub open spec fn layer_choices(pattern_len: nat) -> nat {
    16 * pattern_len
}

/// The number of distinct banner configurations with exactly `n` layers:
/// 16 base colors times `layer_choices` to the `n`.
pub open spec fn layer_weight(pattern_len: nat, n: nat) -> nat {
    16 * pow_nat(layer_choices(pattern_len), n)
}

/// The sum of `layer_weight` over all layer counts below `n`: the number of
/// configurations with fewer than `n` layers.
pub open spec fn cumulative_weight(pattern_len: nat, n: nat) -> nat
    decreases n,
{
    if n == 0 {
        0
    } else {
        cumulative_weight(pattern_len, (n - 1) as nat) + layer_weight(pattern_len, (n - 1) as nat)
    }
}

/// The number of configurations with exactly `n` layers, not counting the
/// base color choice: `layer_choices` to the `n`.
pub open spec fn stratum_count(pattern_len: nat, n: nat) -> nat {
    pow_nat(layer_choices(pattern_len), n)
}

/// The sum of `stratum_count` over all layer counts below `n`.
pub open spec fn cumulative_stratum(pattern_len: nat, n: nat) -> nat
    decreases n,
{
    if n == 0 {
        0
    } else {
        cumulative_stratum(pattern_len, (n - 1) as nat) + stratum_count(
            pattern_len,
            (n - 1) as nat,
        )
    }
}

/// The count of all valid banner configurations for a library of
/// `pattern_len` patterns: the sum over layer counts 0 through 6 of
/// 16 base colors times `(16 * pattern_len)` to the layer count.
pub open spec fn spec_total_combinations(pattern_len: nat) -> nat {
    cumulative_weight(pattern_len, 7)
}

/// The full combination count equals 16 times the sum, over layer counts 0
/// through 6, of `(16 * pattern_len)` to the layer count: the two sampling
/// paths (per-layer draws and direct packed draws) agree on the size of the
/// configuration space.
pub proof fn lemma_total_is_16_times_strata(pattern_len: nat)
    ensures
        spec_total_combinations(pattern_len) == 16 * cumulative_stratum(pattern_len, 7),
{
    lemma_weight_sum(pattern_len, 7);
}

proof fn lemma_weight_sum(pattern_len: nat, n: nat)
    ensures
        cumulative_weight(pattern_len, n) == 16 * cumulative_stratum(pattern_len, n),
    decreases n,
{
    if n > 0 {
        lemma_weight_sum(pattern_len, (n - 1) as nat);
    }
}

/// A power of a positive base is positive.
pub proof fn lemma_pow_pos(b: nat, e: nat)
    requires
        b >= 1,
    ensures
        pow_nat(b, e) >= 1,
    decreases e,
{
    if e > 0 {
        lemma_pow_pos(b, (e - 1) as nat);
        assert(b * pow_nat(b, (e - 1) as nat) >= 1 * pow_nat(b, (e - 1) as nat))
            by (nonlinear_arith)
            requires
                b >= 1,
        ;
    }
}

/// `pow_nat` is monotone in the base.
pub proof fn lemma_pow_nat_le(b1: nat, b2: nat, e: nat)
    requires
        b1 <= b2,
    ensures
        pow_nat(b1, e) <= pow_nat(b2, e),
    decreases e,
{
    if e > 0 {
        lemma_pow_nat_le(b1, b2, (e - 1) as nat);
        lemma_mul_upper_bound(b1 as int, b2 as int, pow_nat(b1, (e - 1) as nat) as int, pow_nat(
            b2,
            (e - 1) as nat,
        ) as int);
    }
}

/// An upper bound on every quantity the combination arithmetic computes,
/// for pattern counts up to 63: the full count fits comfortably in a `u64`.
pub proof fn lemma_total_combinations_bound(pattern_len: nat)
    requires
        pattern_len <= 63,
    ensures
        spec_total_combinations(pattern_len) <= 16800191683018313488,
        pow_nat(layer_choices(pattern_len), 6) <= 1048970301636870144,
{
    lemma_cumulative_le(pattern_len, 63, 7);
    lemma_pow_1008();
    lemma_cumulative_63();
    lemma_pow_nat_le(layer_choices(pattern_len), 1008, 6);
}

/// The concrete powers of 1008, the largest per-layer choice count that a
/// 63-pattern library can produce.
pub proof fn lemma_pow_1008()
    ensures
        pow_nat(1008, 0) == 1,
        pow_nat(1008, 1) == 1008,
        pow_nat(1008, 2) == 1016064,
        pow_nat(1008, 3) == 1024192512,
        pow_nat(1008, 4) == 1032386052096,
        pow_nat(1008, 5) == 1040645140512768,
        pow_nat(1008, 6) == 1048970301636870144,
{
    assert(pow_nat(1008, 0) == 1);
    assert(pow_nat(1008, 1) == 1008 * pow_nat(1008, 0));
    assert(pow_nat(1008, 2) == 1008 * pow_nat(1008, 1));
    assert(pow_nat(1008, 3) == 1008 * pow_nat(1008, 2));
    assert(pow_nat(1008, 4) == 1008 * pow_nat(1008, 3));
    assert(pow_nat(1008, 5) == 1008 * pow_nat(1008, 4));
    assert(pow_nat(1008, 6) == 1008 * pow_nat(1008, 5));
}

/// The concrete combination count of the largest admissible library.
proof fn lemma_cumulative_63()
    ensures
        cumulative_weight(63, 7) == 16800191683018313488,
{
    lemma_pow_1008();
    assert(layer_choices(63) == 1008);
    assert(cumulative_weight(63, 1) == cumulative_weight(63, 0) + layer_weight(63, 0));
    assert(cumulative_weight(63, 2) == cumulative_weight(63, 1) + layer_weight(63, 1));
    assert(cumulative_weight(63, 3) == cumulative_weight(63, 2) + layer_weight(63, 2));
    assert(cumulative_weight(63, 4) == cumulative_weight(63, 3) + layer_weight(63, 3));
    assert(cumulative_weight(63, 5) == cumulative_weight(63, 4) + layer_weight(63, 4));
    assert(cumulative_weight(63, 6) == cumulative_weight(63, 5) + layer_weight(63, 5));
    assert(cumulative_weight(63, 7) == cumulative_weight(63, 6) + layer_weight(63, 6));
}

proof fn lemma_cumulative_le(p1: nat, p2: nat, n: nat)
    requires
        p1 <= p2,
    ensures
        cumulative_weight(p1, n) <= cumulative_weight(p2, n),
    decreases n,
{
    if n > 0 {
        lemma_cumulative_le(p1, p2, (n - 1) as nat);
        lemma_pow_nat_le(layer_choices(p1), layer_choices(p2), (n - 1) as nat);
    }
}

/// Computes the count of all valid banner configurations for a library of
/// `pattern_len` patterns: `16 * sum over n in 0..=6 of (16 * pattern_len)^n`.
///
/// The bound of 63 patterns keeps every intermediate product inside `u64`.
pub fn get_possible_combinations(pattern_len: usize) -> (r: u64)
    requires
        pattern_len <= 63,
    ensures
        r == spec_total_combinations(pattern_len as nat),
        r >= 16,
{
    let c: u64 = 16;
    let p = pattern_len as u64;
    let r1 = p * c;
    let ghost rr: nat = layer_choices(pattern_len as nat);
    assert(r1 == rr && r1 <= 1008);
    assert(pow_nat(rr, 0) == 1);
    assert(pow_nat(rr, 1) == rr * pow_nat(rr, 0));
    assert(pow_nat(rr, 2) == rr * pow_nat(rr, 1));
    assert(pow_nat(rr, 3) == rr * pow_nat(rr, 2));
    assert(pow_nat(rr, 4) == rr * pow_nat(rr, 3));
    assert(pow_nat(rr, 5) == rr * pow_nat(rr, 4));
    assert(pow_nat(rr, 6) == rr * pow_nat(rr, 5));
    proof {
        lemma_pow_nat_le(rr, 1008, 6);
        lemma_pow_nat_le(rr, 1008, 5);
        lemma_pow_nat_le(rr, 1008, 4);
        lemma_pow_nat_le(rr, 1008, 3);
        lemma_pow_nat_le(rr, 1008, 2);
        lemma_pow_1008();
    }
    let r2 = r1 * r1;
    assert(r2 == pow_nat(rr, 2)) by {
        assert(r1 * r1 == rr * rr) by (nonlinear_arith)
            requires
                r1 == rr,
        ;
        assert(pow_nat(rr, 2) == rr * rr) by {
            assert(pow_nat(rr, 1) == rr);
        }
    }
    let r3 = r2 * r1;
    assert(r3 == pow_nat(rr, 3)) by {
        assert(r2 * r1 == pow_nat(rr, 2) * rr) by (nonlinear_arith)
            requires
                r1 == rr,
                r2 == pow_nat(rr, 2),
        ;
        assert(pow_nat(rr, 3) == rr * pow_nat(rr, 2));
    }
    let r4 = r3 * r1;
    assert(r4 == pow_nat(rr, 4)) by {
        assert(r3 * r1 == pow_nat(rr, 3) * rr) by (nonlinear_arith)
            requires
                r1 == rr,
                r3 == pow_nat(rr, 3),
        ;
    }
    let r5 = r4 * r1;
    assert(r5 == pow_nat(rr, 5)) by {
        assert(r4 * r1 == pow_nat(rr, 4) * rr) by (nonlinear_arith)
            requires
                r1 == rr,
                r4 == pow_nat(rr, 4),
        ;
    }
    let r6 = r5 * r1;
    assert(r6 == pow_nat(rr, 6)) by {
        assert(r5 * r1 == pow_nat(rr, 5) * rr) by (nonlinear_arith)
            requires
                r1 == rr,
                r5 == pow_nat(rr, 5),
        ;
    }
    let sum = r6 + r5 + r4 + r3 + r2 + r1 + 1;
    let total = c * sum;
    proof {
        lemma_sum_of_powers_is_total(pattern_len as nat);
    }
    total
}

proof fn lemma_sum_of_powers_is_total(p: nat)
    ensures
        spec_total_combinations(p) == 16 * (pow_nat(layer_choices(p), 6) + pow_nat(
            layer_choices(p),
            5,
        ) + pow_nat(layer_choices(p), 4) + pow_nat(layer_choices(p), 3) + pow_nat(
            layer_choices(p),
            2,
        ) + pow_nat(layer_choices(p), 1) + pow_nat(layer_choices(p), 0)),
{
    let r = layer_choices(p);
    assert(cumulative_weight(p, 7) == cumulative_weight(p, 6) + 16 * pow_nat(r, 6));
    assert(cumulative_weight(p, 6) == cumulative_weight(p, 5) + 16 * pow_nat(r, 5));
    assert(cumulative_weight(p, 5) == cumulative_weight(p, 4) + 16 * pow_nat(r, 4));
    assert(cumulative_weight(p, 4) == cumulative_weight(p, 3) + 16 * pow_nat(r, 3));
    assert(cumulative_weight(p, 3) == cumulative_weight(p, 2) + 16 * pow_nat(r, 2));
    assert(cumulative_weight(p, 2) == cumulative_weight(p, 1) + 16 * pow_nat(r, 1));
    assert(cumulative_weight(p, 1) == cumulative_weight(p, 0) + 16 * pow_nat(r, 0));
}

/// The layer count selected by a uniform draw `choice` from
/// `[0, total combinations)`: the smallest `n` with
/// `choice < cumulative_weight(n + 1)`, capped at 6.
pub open spec fn spec_layer_count_from(pattern_len: nat, choice: nat, n: nat) -> nat
    decreases 7 - n,
{
    if n >= 6 {
        6
    } else if choice < cumulative_weight(pattern_len, n + 1) {
        n
    } else {
        spec_layer_count_from(pattern_len, choice, n + 1)
    }
}

/// The layer count that the inverse-CDF search assigns to `choice`.
pub open spec fn spec_layer_count(pattern_len: nat, choice: nat) -> nat {
    spec_layer_count_from(pattern_len, choice, 0)
}

/// The selected layer count never exceeds 6, and a zero pattern count
/// admits only zero layers.
pub proof fn lemma_layer_count_range(pattern_len: nat, choice: nat)
    requires
        choice < spec_total_combinations(pattern_len),
    ensures
        spec_layer_count(pattern_len, choice) <= 6,
        pattern_len == 0 ==> spec_layer_count(pattern_len, choice) == 0,
{
    lemma_layer_count_from_range(pattern_len, choice, 0);
    if pattern_len == 0 {
        assert(pow_nat(0, 0) == 1);
        assert(cumulative_weight(0, 0) == 0);
        assert(layer_weight(0, 0) == 16);
        assert(cumulative_weight(0, 1) == 16);
        assert(spec_total_combinations(0) == 16) by {
            lemma_zero_patterns_total(7);
        }
    }
}

proof fn lemma_layer_count_from_range(pattern_len: nat, choice: nat, n: nat)
    requires
        n <= 6,
    ensures
        n <= spec_layer_count_from(pattern_len, choice, n) <= 6,
    decreases 7 - n,
{
    if n < 6 && !(choice < cumulative_weight(pattern_len, n + 1)) {
        lemma_layer_count_from_range(pattern_len, choice, n + 1);
    }
}

proof fn lemma_zero_patterns_total(n: nat)
    requires
        1 <= n,
    ensures
        cumulative_weight(0, n) == 16,
    decreases n,
{
    if n > 1 {
        lemma_zero_patterns_total((n - 1) as nat);
        assert(pow_nat(0, (n - 1) as nat) == 0);
    } else {
        assert(pow_nat(0, 0) == 1);
        assert(cumulative_weight(0, 0) == 0);
        assert(cumulative_weight(0, 1) == layer_weight(0, 0));
    }
}

/// Computes the per-layer-count weights `16 * (16 * pattern_len)^n` for
/// `n` in 0..=6, the unnormalized sampling distribution over layer counts.
pub fn layer_count_weights(pattern_len: usize) -> (r: Vec<u64>)
    requires
        pattern_len <= 63,
    ensures
        r@.len() == 7,
        forall|i: int| 0 <= i < 7 ==> r@[i] == layer_weight(pattern_len as nat, i as nat),
{
    let ghost rr: nat = layer_choices(pattern_len as nat);
    proof {
        lemma_total_combinations_bound(pattern_len as nat);
    }
    let base = (pattern_len as u64) * 16;
    let mut weights: Vec<u64> = Vec::new();
    let mut power: u64 = 1;
    let mut i: usize = 0;
    while i < 7
        invariant
            0 <= i <= 7,
            base == rr,
            pattern_len <= 63,
            rr == layer_choices(pattern_len as nat),
            rr <= 1008,
            weights@.len() == i,
            i < 7 ==> power == pow_nat(rr, i as nat),
            i == 7 ==> power == pow_nat(rr, 6),
            forall|j: int| 0 <= j < i ==> weights@[j] == layer_weight(pattern_len as nat, j as nat),
        decreases 7 - i,
    {
        proof {
            lemma_pow_nat_le(rr, 1008, i as nat);
            lemma_pow_nat_le(rr, 1008, 6);
            lemma_pow_1008();
            if i < 6 {
                lemma_pow_le_pow6(rr, i as nat);
            }
        }
        weights.push(16 * power);
        if i < 6 {
            proof {
                assert(power * base == pow_nat(rr, i as nat) * rr) by (nonlinear_arith)
                    requires
                        power == pow_nat(rr, i as nat),
                        base == rr,
                ;
                assert(pow_nat(rr, i as nat + 1) == rr * pow_nat(rr, i as nat));
                lemma_pow_nat_le(rr, 1008, i as nat + 1);
                lemma_pow_1008();
                lemma_pow_le_pow6(1008, i as nat + 1);
            }
            power = power * base;
        }
        i = i + 1;
    }
    weights
}

/// For exponents up to 6, a power never exceeds the sixth power, once the
/// base is at least 1.
pub proof fn lemma_pow_le_pow6(b: nat, e: nat)
    requires
        e <= 6,
    ensures
        b >= 1 ==> pow_nat(b, e) <= pow_nat(b, 6),
        b == 0 ==> pow_nat(b, e) <= 1,
    decreases 6 - e,
{
    if b >= 1 {
        if e < 6 {
            lemma_pow_le_pow6(b, e + 1);
            assert(pow_nat(b, e + 1) == b * pow_nat(b, e));
            assert(b * pow_nat(b, e) >= 1 * pow_nat(b, e)) by (nonlinear_arith)
                requires
                    b >= 1,
            ;
        }
    } else {
        if e > 0 {
            assert(pow_nat(0, e) == 0);
        }
    }
}


/// `cumulative_weight` grows with the layer count bound.
pub proof fn lemma_cumulative_weight_mono(pattern_len: nat, m: nat, n: nat)
    requires
        m <= n,
    ensures
        cumulative_weight(pattern_len, m) <= cumulative_weight(pattern_len, n),
    decreases n,
{
    if m < n {
        lemma_cumulative_weight_mono(pattern_len, m, (n - 1) as nat);
    }
}

/// `cumulative_stratum` grows with the layer count bound.
pub proof fn lemma_cumulative_stratum_mono(pattern_len: nat, m: nat, n: nat)
    requires
        m <= n,
    ensures
        cumulative_stratum(pattern_len, m) <= cumulative_stratum(pattern_len, n),
    decreases n,
{
    if m < n {
        lemma_cumulative_stratum_mono(pattern_len, m, (n - 1) as nat);
    }
}

/// A draw below the full combination count selects the unique layer count
/// whose weight stratum contains it.
pub proof fn lemma_layer_count_located(pattern_len: nat, choice: nat)
    requires
        choice < spec_total_combinations(pattern_len),
    ensures
        spec_layer_count(pattern_len, choice) <= 6,
        choice < cumulative_weight(pattern_len, spec_layer_count(pattern_len, choice) + 1),
        choice >= cumulative_weight(pattern_len, spec_layer_count(pattern_len, choice)),
{
    lemma_layer_count_located_from(pattern_len, choice, 0);
}

proof fn lemma_layer_count_located_from(pattern_len: nat, choice: nat, n: nat)
    requires
        n <= 6,
        choice < spec_total_combinations(pattern_len),
        choice >= cumulative_weight(pattern_len, n),
    ensures
        n <= spec_layer_count_from(pattern_len, choice, n) <= 6,
        choice < cumulative_weight(pattern_len, spec_layer_count_from(pattern_len, choice, n) + 1),
        choice >= cumulative_weight(pattern_len, spec_layer_count_from(pattern_len, choice, n)),
    decreases 7 - n,
{
    if n >= 6 {
        assert(cumulative_weight(pattern_len, 7) == spec_total_combinations(pattern_len));
    } else if choice < cumulative_weight(pattern_len, n + 1) {
    } else {
        lemma_layer_count_located_from(pattern_len, choice, n + 1);
    }
}

/// Maps a uniform draw `choice` from `[0, total combinations)` to a layer
/// count 0..=6 by the cumulative-weight search.
pub fn choose_layer_count(choice: u64, pattern_len: usize) -> (r: usize)
    requires
        pattern_len <= 63,
        choice < spec_total_combinations(pattern_len as nat),
    ensures
        r == spec_layer_count(pattern_len as nat, choice as nat),
        r <= 6,
{
    let ghost p: nat = pattern_len as nat;
    let weights = layer_count_weights(pattern_len);
    proof {
        lemma_total_combinations_bound(p);
    }
    let mut cumulative: u64 = 0;
    let mut i: usize = 0;
    loop
        invariant
            0 <= i <= 6,
            pattern_len <= 63,
            p == pattern_len as nat,
            choice < spec_total_combinations(p),
            weights@.len() == 7,
            forall|j: int| 0 <= j < 7 ==> weights@[j] == layer_weight(p, j as nat),
            cumulative == cumulative_weight(p, i as nat),
            choice >= cumulative,
            spec_layer_count(p, choice as nat) == spec_layer_count_from(p, choice as nat, i as nat),
        decreases 6 - i,
    {
        proof {
            lemma_cumulative_weight_mono(p, i as nat + 1, 7);
            lemma_total_combinations_bound(p);
        }
        if i == 6 {
            proof {
                lemma_layer_count_located_from(p, choice as nat, 6);
            }
            return 6;
        }
        let bound = cumulative + weights[i];
        assert(bound == cumulative_weight(p, i as nat + 1));
        if choice < bound {
            return i;
        }
        cumulative = bound;
        i = i + 1;
    }
}


/// Every stratum count for a library of at most 63 patterns stays below the
/// sixth power of 1008, and their sum stays well inside a `u64`.
pub proof fn lemma_stratum_bounds(pattern_len: nat)
    requires
        pattern_len <= 63,
    ensures
        cumulative_stratum(pattern_len, 7) <= 1050011980188644593,
        forall|i: nat| i <= 6 ==> #[trigger] stratum_count(pattern_len, i) <= 1048970301636870144,
{
    lemma_total_combinations_bound(pattern_len);
    lemma_weight_sum(pattern_len, 7);
    lemma_pow_1008();
    assert forall|i: nat| i <= 6 implies #[trigger] stratum_count(pattern_len, i)
        <= 1048970301636870144 by {
        lemma_pow_nat_le(layer_choices(pattern_len), 1008, i);
        lemma_pow_le_pow6(1008, i);
    }
}

/// The stratum (layer count) selected by a uniform draw `index` from
/// `[0, cumulative_stratum(7))`: the smallest `n` with
/// `index < cumulative_stratum(n + 1)`, capped at 6.
pub open spec fn spec_stratum_from(pattern_len: nat, index: nat, n: nat) -> nat
    decreases 7 - n,
{
    if n >= 6 {
        6
    } else if index < cumulative_stratum(pattern_len, n + 1) {
        n
    } else {
        spec_stratum_from(pattern_len, index, n + 1)
    }
}

/// The layer count that the direct packed sampler assigns to `index`.
pub open spec fn spec_stratum(pattern_len: nat, index: nat) -> nat {
    spec_stratum_from(pattern_len, index, 0)
}

/// A draw below the stratum total lands in the unique stratum that contains
/// it; with no patterns only the empty stratum exists.
pub proof fn lemma_stratum_located(pattern_len: nat, index: nat)
    requires
        index < cumulative_stratum(pattern_len, 7),
    ensures
        spec_stratum(pattern_len, index) <= 6,
        index < cumulative_stratum(pattern_len, spec_stratum(pattern_len, index) + 1),
        index >= cumulative_stratum(pattern_len, spec_stratum(pattern_len, index)),
        index - cumulative_stratum(pattern_len, spec_stratum(pattern_len, index)) < stratum_count(
            pattern_len,
            spec_stratum(pattern_len, index),
        ),
        pattern_len == 0 ==> spec_stratum(pattern_len, index) == 0,
{
    lemma_stratum_located_from(pattern_len, index, 0);
    if pattern_len == 0 {
        assert(pow_nat(0, 0) == 1);
        assert(cumulative_stratum(0, 0) == 0);
        assert(cumulative_stratum(0, 1) == 1);
    }
}

proof fn lemma_stratum_located_from(pattern_len: nat, index: nat, n: nat)
    requires
        n <= 6,
        index < cumulative_stratum(pattern_len, 7),
        index >= cumulative_stratum(pattern_len, n),
    ensures
        n <= spec_stratum_from(pattern_len, index, n) <= 6,
        index < cumulative_stratum(pattern_len, spec_stratum_from(pattern_len, index, n) + 1),
        index >= cumulative_stratum(pattern_len, spec_stratum_from(pattern_len, index, n)),
    decreases 7 - n,
{
    if n >= 6 {
    } else if index < cumulative_stratum(pattern_len, n + 1) {
    } else {
        lemma_stratum_located_from(pattern_len, index, n + 1);
    }
}

} // verus!
