use vstd::prelude::*;
use vstd::arithmetic::div_mod::lemma_div_denominator;
use vstd::arithmetic::div_mod::lemma_fundamental_div_mod;
use vstd::arithmetic::mul::lemma_mul_inequality;
use crate::combinatorics::cumulative_stratum;
use crate::combinatorics::lemma_pow_1008;
use crate::combinatorics::lemma_pow_le_pow6;
use crate::combinatorics::lemma_pow_nat_le;
use crate::combinatorics::lemma_stratum_bounds;
use crate::combinatorics::lemma_stratum_located;
use crate::combinatorics::layer_choices;
use crate::combinatorics::pow_nat;
use crate::combinatorics::spec_stratum;
use crate::combinatorics::spec_stratum_from;
use crate::combinatorics::stratum_count;
use crate::rng::SeededRng;
use crate::rng::chacha_draw;

verus! {

/// A banner design packed into one 64-bit integer.
///
/// Bits 63..60 hold the base color id. Below them sit six 10-bit layer
/// fields, most significant layer first: each field is a 6-bit pattern id
/// over a 4-bit color id. A layer whose 6-bit pattern field is all zero is
/// read as "no pattern at this slot", so pattern id 0 is reserved by this
/// packed form and not independently addressable through it.
pub struct BannerId(u64);

/// The bit position of layer `layer`'s 10-bit field.
pub open spec fn spec_layer_shift(layer: u64) -> u64 {
    if layer == 0 {
        50
    } else if layer == 1 {
        40
    } else if layer == 2 {
        30
    } else if layer == 3 {
        20
    } else if layer == 4 {
        10
    } else {
        0
    }
}

/// The base color id packed into `v`.
pub open spec fn spec_base_color(v: u64) -> u8 {
    ((v >> 60) & 0xF) as u8
}

/// The pattern id packed into `v` for layer `layer`.
pub open spec fn spec_layer_pattern(v: u64, layer: u64) -> u8 {
    (((v >> spec_layer_shift(layer)) >> 4) & 0x3F) as u8
}

/// The color id packed into `v` for layer `layer`.
pub open spec fn spec_layer_color(v: u64, layer: u64) -> u8 {
    ((v >> spec_layer_shift(layer)) & 0xF) as u8
}

/// The packed value after one layer write: the update that `set_layer`
/// performs on the 64-bit value.
pub open spec fn spec_set_layer(v: u64, layer: u64, pattern: u64, color: u64) -> u64 {
    (v & !(0x3FFu64 << spec_layer_shift(layer))) | (((pattern << 4) | color) << spec_layer_shift(
        layer,
    ))
}

proof fn lemma_blank_id(j: u64)
    by (bit_vector)
    requires
        j < 6,
    ensures
        ((0u64 >> 60) & 0xF) == 0,
        (((0u64 >> spec_layer_shift(j)) >> 4) & 0x3F) == 0,
        ((0u64 >> spec_layer_shift(j)) & 0xF) == 0,
{
}

/// Round trip of the packed base color: writing the base color field (the
/// update `set_base_color` performs on the packed value) makes the top four
/// bits decode back to exactly `num`, and leaves every layer field
/// untouched.
pub proof fn lemma_set_base(v0: u64, v1: u64, num: u64, j: u64)
    by (bit_vector)
    requires
        num < 16,
        j < 6,
        v1 == (v0 & !(0xFu64 << 60)) | (((num as u64) & 0xF) << 60),
    ensures
        ((v1 >> 60) & 0xF) == num,
        (((v1 >> spec_layer_shift(j)) >> 4) & 0x3F) == (((v0 >> spec_layer_shift(j)) >> 4) & 0x3F),
        ((v1 >> spec_layer_shift(j)) & 0xF) == ((v0 >> spec_layer_shift(j)) & 0xF),
{
}

/// Round trip of one packed layer: writing layer `layer`'s 10-bit field
/// (the update `set_layer` performs on the packed value) makes that field
/// decode back to exactly `pattern` and `color`, and leaves every other
/// layer and the base color untouched.
pub proof fn lemma_set_layer(v0: u64, v1: u64, layer: u64, pattern: u64, color: u64, j: u64)
    by (bit_vector)
    requires
        layer < 6,
        j < 6,
        pattern < 64,
        color < 16,
        v1 == (v0 & !(0x3FFu64 << spec_layer_shift(layer))) | (((pattern << 4) | color)
            << spec_layer_shift(layer)),
    ensures
        (((v1 >> spec_layer_shift(layer)) >> 4) & 0x3F) == pattern,
        ((v1 >> spec_layer_shift(layer)) & 0xF) == color,
        j != layer ==> (((v1 >> spec_layer_shift(j)) >> 4) & 0x3F) == (((v0 >> spec_layer_shift(
            j,
        )) >> 4) & 0x3F),
        j != layer ==> ((v1 >> spec_layer_shift(j)) & 0xF) == ((v0 >> spec_layer_shift(j)) & 0xF),
        ((v1 >> 60) & 0xF) == ((v0 >> 60) & 0xF),
{
}

impl BannerId {
    /// A blank identifier: base color 0 and every layer slot empty.
    pub fn new() -> (r: BannerId)
        ensures
            r.spec_value() == 0,
            spec_base_color(r.spec_value()) == 0,
            forall|j: u64| j < 6 ==> #[trigger] spec_layer_pattern(r.spec_value(), j) == 0,
            forall|j: u64| j < 6 ==> #[trigger] spec_layer_color(r.spec_value(), j) == 0,
    {
        proof {
            assert forall|j: u64| j < 6 implies #[trigger] spec_layer_pattern(0u64, j) == 0 by {
                lemma_blank_id(j);
            }
            assert forall|j: u64| j < 6 implies #[trigger] spec_layer_color(0u64, j) == 0 by {
                lemma_blank_id(j);
            }
            lemma_blank_id(0);
        }
        Self(0)
    }

    /// The raw packed 64-bit value.
    pub fn value(&self) -> (r: u64)
        ensures
            r == self.spec_value(),
    {
        self.0
    }

    /// The packed value as a spec-level view.
    pub closed spec fn spec_value(self) -> u64 {
        self.0
    }

    /// Writes the base color id into the top 4 bits, leaving every layer
    /// field unchanged.
    pub fn set_base_color(&mut self, num: u8)
        requires
            num < 16,
        ensures
            spec_base_color(final(self).spec_value()) == num,
            forall|j: u64|
                j < 6 ==> #[trigger] spec_layer_pattern(final(self).spec_value(), j)
                    == spec_layer_pattern(old(self).spec_value(), j),
            forall|j: u64|
                j < 6 ==> #[trigger] spec_layer_color(final(self).spec_value(), j)
                    == spec_layer_color(old(self).spec_value(), j),
    {
        let value = ((num as u64) & 0xF) << 60u64;
        let v0 = self.0;
        let v1 = (v0 & !(0xFu64 << 60u64)) | value;
        self.0 = v1;
        proof {
            assert forall|j: u64| j < 6 implies #[trigger] spec_layer_pattern(v1, j)
                == spec_layer_pattern(v0, j) by {
                lemma_set_base(v0, v1, num as u64, j);
            }
            assert forall|j: u64| j < 6 implies #[trigger] spec_layer_color(v1, j)
                == spec_layer_color(v0, j) by {
                lemma_set_base(v0, v1, num as u64, j);
            }
            lemma_set_base(v0, v1, num as u64, 0);
        }
    }

    /// Reads the base color id from the top 4 bits.
    pub fn get_base_color(&self) -> (r: u8)
        ensures
            r == spec_base_color(self.spec_value()),
            r < 16,
    {
        let v = self.0;
        proof {
            assert(((v >> 60u64) & 0xF) < 16) by (bit_vector);
        }
        ((v >> 60u64) & 0xF) as u8
    }

    /// Writes one 10-bit layer field: a 6-bit pattern id over a 4-bit color
    /// id. Every other layer and the base color are untouched.
    pub fn set_layer(&mut self, layer: u8, pattern: u8, color: u8)
        requires
            layer < 6,
            pattern < 64,
            color < 16,
        ensures
            final(self).spec_value() == spec_set_layer(
                old(self).spec_value(),
                layer as u64,
                pattern as u64,
                color as u64,
            ),
            spec_layer_pattern(final(self).spec_value(), layer as u64) == pattern,
            spec_layer_color(final(self).spec_value(), layer as u64) == color,
            spec_base_color(final(self).spec_value()) == spec_base_color(old(self).spec_value()),
            forall|j: u64|
                j < 6 && j != layer ==> #[trigger] spec_layer_pattern(final(self).spec_value(), j)
                    == spec_layer_pattern(old(self).spec_value(), j),
            forall|j: u64|
                j < 6 && j != layer ==> #[trigger] spec_layer_color(final(self).spec_value(), j)
                    == spec_layer_color(old(self).spec_value(), j),
    {
        let packed = ((pattern as u64) << 4u64) | (color as u64);
        let shift: u64 = 60 - 10 * ((layer as u64) + 1);
        assert(shift == spec_layer_shift(layer as u64));
        let v0 = self.0;
        let mask = !(0x3FFu64 << shift);
        let v1 = (v0 & mask) | (packed << shift);
        self.0 = v1;
        proof {
            assert forall|j: u64| j < 6 && j != layer implies #[trigger] spec_layer_pattern(v1, j)
                == spec_layer_pattern(v0, j) by {
                lemma_set_layer(v0, v1, layer as u64, pattern as u64, color as u64, j);
            }
            assert forall|j: u64| j < 6 && j != layer implies #[trigger] spec_layer_color(v1, j)
                == spec_layer_color(v0, j) by {
                lemma_set_layer(v0, v1, layer as u64, pattern as u64, color as u64, j);
            }
            lemma_set_layer(v0, v1, layer as u64, pattern as u64, color as u64, 0);
        }
    }

    /// Reads one 10-bit layer field back as `(pattern id, color id)`.
    pub fn get_layer(&self, layer: u8) -> (r: (u8, u8))
        requires
            layer < 6,
        ensures
            r.0 == spec_layer_pattern(self.spec_value(), layer as u64),
            r.1 == spec_layer_color(self.spec_value(), layer as u64),
            r.0 < 64,
            r.1 < 16,
    {
        let shift: u64 = 60 - 10 * ((layer as u64) + 1);
        assert(shift == spec_layer_shift(layer as u64));
        let bits = (self.0 >> shift) & 0x3FF;
        let v = self.0;
        proof {
            assert((((v >> shift) & 0x3FF) >> 4) & 0x3F == ((v >> shift) >> 4) & 0x3F
                && (((v >> shift) & 0x3FF) & 0xF) == ((v >> shift) & 0xF) && (((v >> shift) >> 4)
                & 0x3F) < 64 && ((v >> shift) & 0xF) < 16) by (bit_vector);
        }
        let pattern = ((bits >> 4u64) & 0x3F) as u8;
        let color = (bits & 0xF) as u8;
        (pattern, color)
    }
}

/// The `i`-th base-`rbase` digit of a within-stratum index: the value that
/// decides layer `i`'s pattern and color in the direct packed sampler.
pub open spec fn spec_banner_digit(offset: nat, rbase: nat, i: nat) -> nat {
    (offset / pow_nat(rbase, i)) % rbase
}

/// Draws one banner directly into the packed representation: a base color
/// draw, then one draw over the whole stratified configuration space, whose
/// within-stratum index is peeled into base-`16 * pattern_len` digits, one
/// per layer (pattern id times 16 plus color id). It uses the same
/// cumulative stratum weights as the per-layer generator.
#[verifier::rlimit(60)]
pub fn generate_random_banner(rng: &mut SeededRng, pattern_len: usize) -> (r: BannerId)
    requires
        pattern_len <= 63,
    ensures
        ({
            let seed = old(rng).seed();
            let h0 = old(rng).history();
            let p = pattern_len as nat;
            let strata = cumulative_stratum(p, 7) as u64;
            let index = chacha_draw(seed, h0.push(16u64), strata) as nat;
            let n = spec_stratum(p, index);
            let offset = (index - cumulative_stratum(p, n)) as nat;
            let rbase = layer_choices(p);
            &&& final(rng).seed() == seed
            &&& final(rng).history() == h0.push(16u64).push(strata)
            &&& spec_base_color(r.spec_value()) == chacha_draw(seed, h0, 16)
            &&& forall|j: u64|
                j < n ==> #[trigger] spec_layer_pattern(r.spec_value(), j) == spec_banner_digit(
                    offset,
                    rbase,
                    j as nat,
                ) / 16
            &&& forall|j: u64|
                j < n ==> #[trigger] spec_layer_color(r.spec_value(), j) == spec_banner_digit(
                    offset,
                    rbase,
                    j as nat,
                ) % 16
            &&& forall|j: u64| n <= j < 6 ==> #[trigger] spec_layer_pattern(r.spec_value(), j) == 0
            &&& forall|j: u64| n <= j < 6 ==> #[trigger] spec_layer_color(r.spec_value(), j) == 0
        }),
{
    let ghost seed = rng.seed();
    let ghost h0 = rng.history();
    let ghost p = pattern_len as nat;
    let mut banner = BannerId::new();
    let base_color = rng.random_below(16);
    banner.set_base_color(base_color as u8);

    let counts = compute_layer_counts(pattern_len);
    proof {
        lemma_prefix_sum_is_cumulative(counts@, p, 7);
        lemma_prefix_sum_is_cumulative(counts@, p, 6);
        lemma_stratum_bounds(p);
    }
    let cumulative = compute_cumulative_counts(&counts);
    let total_banners = cumulative[6] + counts[6];
    assert(total_banners == cumulative_stratum(p, 7));
    proof {
        assert(pow_nat(layer_choices(p), 0) == 1);
        assert(stratum_count(p, 0) == 1);
        assert(cumulative_stratum(p, 0) == 0);
        assert(cumulative_stratum(p, 1) == 1);
        crate::combinatorics::lemma_cumulative_stratum_mono(p, 1, 7);
    }
    let ghost strata = cumulative_stratum(p, 7) as u64;

    let mut index = rng.random_below(total_banners);
    let ghost index0 = index as nat;
    proof {
        lemma_stratum_located(p, index0);
    }
    let ghost n = spec_stratum(p, index0);

    let mut num_layers: usize = 0;
    let mut found = false;
    let mut i: usize = 0;
    while i < 7
        invariant
            0 <= i <= 7,
            pattern_len <= 63,
            p == pattern_len as nat,
            counts@.len() == 7,
            cumulative@.len() == 7,
            forall|k: int| 0 <= k < 7 ==> counts@[k] == stratum_count(p, k as nat),
            forall|k: int| 0 <= k < 7 ==> cumulative@[k] == spec_prefix_sum(counts@, k as nat),
            index0 < cumulative_stratum(p, 7),
            n == spec_stratum(p, index0),
            !found ==> i <= 6 && index == index0 && spec_stratum_from(p, index0, i as nat)
                == spec_stratum(p, index0) && index0 >= cumulative_stratum(p, i as nat),
            found ==> num_layers == n && index == index0 - cumulative_stratum(p, n),
        decreases 7 - i,
    {
        proof {
            lemma_prefix_sum_is_cumulative(counts@, p, i as nat);
            lemma_prefix_sum_is_cumulative(counts@, p, i as nat + 1);
            lemma_prefix_sum_is_cumulative(counts@, p, 7);
            lemma_stratum_bounds(p);
        }
        if !found {
            if index < cumulative[i] + counts[i] {
                num_layers = i;
                index = index - cumulative[i];
                found = true;
                proof {
                    if i < 6 {
                        assert(spec_stratum_from(p, index0, i as nat) == i as nat);
                    } else {
                        lemma_stratum_located(p, index0);
                    }
                }
            } else {
                proof {
                    assert(i < 6) by {
                        lemma_stratum_located(p, index0);
                        assert(index0 < cumulative_stratum(p, 7));
                    }
                }
            }
        }
        i = i + 1;
    }
    assert(found) by {
        lemma_stratum_located(p, index0);
    }

    let ghost offset = (index0 - cumulative_stratum(p, n)) as nat;
    let ghost rbase = layer_choices(p);
    proof {
        lemma_stratum_located(p, index0);
        assert(pow_nat(rbase, 0) == 1);
    }

    let rbase_exec = (pattern_len as u64) * 16;
    let mut li: usize = 0;
    while li < num_layers
        invariant
            0 <= li <= num_layers,
            num_layers == n,
            n <= 6,
            pattern_len <= 63,
            p == pattern_len as nat,
            rbase == layer_choices(p),
            rbase_exec == rbase,
            offset < stratum_count(p, n),
            n >= 1 ==> pattern_len >= 1,
            index == offset / pow_nat(rbase, li as nat),
            spec_base_color(banner.0) == chacha_draw(seed, h0, 16),
            forall|j: u64|
                j < li ==> #[trigger] spec_layer_pattern(banner.0, j) == spec_banner_digit(
                    offset,
                    rbase,
                    j as nat,
                ) / 16,
            forall|j: u64|
                j < li ==> #[trigger] spec_layer_color(banner.0, j) == spec_banner_digit(
                    offset,
                    rbase,
                    j as nat,
                ) % 16,
            forall|j: u64| li <= j < 6 ==> #[trigger] spec_layer_pattern(banner.0, j) == 0,
            forall|j: u64| li <= j < 6 ==> #[trigger] spec_layer_color(banner.0, j) == 0,
        decreases num_layers - li,
    {
        let digit = index % rbase_exec;
        let next = index / rbase_exec;
        proof {
            crate::combinatorics::lemma_pow_pos(rbase, li as nat);
            lemma_div_denominator(offset as int, pow_nat(rbase, li as nat) as int, rbase as int);
            assert(pow_nat(rbase, li as nat) * rbase == rbase * pow_nat(rbase, li as nat))
                by (nonlinear_arith);
            assert(pow_nat(rbase, li as nat + 1) == rbase * pow_nat(rbase, li as nat));
            assert(next == offset / pow_nat(rbase, li as nat + 1));
            assert(digit == spec_banner_digit(offset, rbase, li as nat));
        }
        let pattern_id = digit / 16;
        let color = digit % 16;
        proof {
            assert(digit < rbase);
            lemma_fundamental_div_mod(digit as int, 16);
            if pattern_id as nat >= p {
                lemma_mul_inequality(p as int, (pattern_id as nat) as int, 16);
                assert(false);
            }
        }
        banner.set_layer(li as u8, pattern_id as u8, color as u8);
        li = li + 1;
        index = next;
    }
    proof {
        assert(num_layers == n);
        lemma_stratum_bounds(p);
        let strata2 = cumulative_stratum(p, 7) as u64;
        assert(total_banners == strata2);
        let idx2 = chacha_draw(seed, h0.push(16u64), strata2) as nat;
        assert(idx2 == index0);
        let n2 = spec_stratum(p, idx2);
        assert(n2 == n);
        let offset2 = (idx2 - cumulative_stratum(p, n2)) as nat;
        assert(offset2 == offset);
        assert forall|j: u64| j < n2 implies #[trigger] spec_layer_pattern(banner.spec_value(), j)
            == spec_banner_digit(offset2, rbase, j as nat) / 16 by {}
        assert forall|j: u64| j < n2 implies #[trigger] spec_layer_color(banner.spec_value(), j)
            == spec_banner_digit(offset2, rbase, j as nat) % 16 by {}
        assert forall|j: u64| n2 <= j < 6 implies #[trigger] spec_layer_pattern(
            banner.spec_value(),
            j,
        ) == 0 by {}
        assert forall|j: u64| n2 <= j < 6 implies #[trigger] spec_layer_color(
            banner.spec_value(),
            j,
        ) == 0 by {}
    }
    banner
}


/// The packed value after a whole sequence of layer writes, applied in
/// order: each entry is one `(layer, pattern, color)` triple handed to
/// `set_layer`.
pub open spec fn spec_apply_layer_writes(v: u64, writes: Seq<(u64, u64, u64)>) -> u64
    decreases writes.len(),
{
    if writes.len() == 0 {
        v
    } else {
        spec_apply_layer_writes(
            spec_set_layer(v, writes[0].0, writes[0].1, writes[0].2),
            writes.skip(1),
        )
    }
}

/// The base color survives any sequence of layer writes: however many
/// in-range `set_layer` updates follow, the top four bits still decode to
/// the base color they held before, so a base color once written is read
/// back unchanged.
pub proof fn lemma_base_color_survives_layer_writes(v: u64, writes: Seq<(u64, u64, u64)>)
    requires
        forall|i: int|
            0 <= i < writes.len() ==> (#[trigger] writes[i]).0 < 6 && writes[i].1 < 64
                && writes[i].2 < 16,
    ensures
        spec_base_color(spec_apply_layer_writes(v, writes)) == spec_base_color(v),
    decreases writes.len(),
{
    if writes.len() > 0 {
        let w = writes[0];
        let v1 = spec_set_layer(v, w.0, w.1, w.2);
        lemma_set_layer(v, v1, w.0, w.1, w.2, 0);
        assert(forall|i: int|
            0 <= i < writes.skip(1).len() ==> (#[trigger] writes.skip(1)[i]).0 < 6 && writes.skip(
                1,
            )[i].1 < 64 && writes.skip(1)[i].2 < 16);
        lemma_base_color_survives_layer_writes(v1, writes.skip(1));
    }
}

/// The sum of the first `i` entries of a weight vector.
pub open spec fn spec_prefix_sum(s: Seq<u64>, i: nat) -> nat
    decreases i,
{
    if i == 0 {
        0
    } else {
        spec_prefix_sum(s, (i - 1) as nat) + s[i - 1] as nat
    }
}

/// When the entries are the per-stratum counts, the prefix sums are the
/// cumulative stratum counts.
proof fn lemma_prefix_sum_is_cumulative(s: Seq<u64>, pattern_len: nat, i: nat)
    requires
        s.len() == 7,
        i <= 7,
        forall|k: int| 0 <= k < 7 ==> s[k] == stratum_count(pattern_len, k as nat),
    ensures
        spec_prefix_sum(s, i) == cumulative_stratum(pattern_len, i),
    decreases i,
{
    if i > 0 {
        lemma_prefix_sum_is_cumulative(s, pattern_len, (i - 1) as nat);
    }
}

/// Computes the per-stratum configuration counts `(16 * pattern_len)^n` for
/// `n` in 0..=6: how many distinct layer stacks of each length exist, not
/// counting the base color.
fn compute_layer_counts(pattern_len: usize) -> (r: Vec<u64>)
    requires
        pattern_len <= 63,
    ensures
        r@.len() == 7,
        forall|i: int| 0 <= i < 7 ==> r@[i] == stratum_count(pattern_len as nat, i as nat),
{
    let ghost rr: nat = layer_choices(pattern_len as nat);
    let base = (pattern_len as u64) * 16;
    let mut counts: Vec<u64> = Vec::new();
    let mut power: u64 = 1;
    let mut i: usize = 0;
    while i < 7
        invariant
            0 <= i <= 7,
            base == rr,
            pattern_len <= 63,
            rr == layer_choices(pattern_len as nat),
            rr <= 1008,
            counts@.len() == i,
            i < 7 ==> power == pow_nat(rr, i as nat),
            forall|j: int| 0 <= j < i ==> counts@[j] == stratum_count(pattern_len as nat, j as nat),
        decreases 7 - i,
    {
        counts.push(power);
        if i < 6 {
            proof {
                lemma_pow_nat_le(rr, 1008, i as nat + 1);
                lemma_pow_1008();
                lemma_pow_le_pow6(1008, i as nat + 1);
                assert(power * base == pow_nat(rr, i as nat) * rr) by (nonlinear_arith)
                    requires
                        power == pow_nat(rr, i as nat),
                        base == rr,
                ;
                assert(pow_nat(rr, i as nat + 1) == rr * pow_nat(rr, i as nat));
            }
            power = power * base;
        }
        i = i + 1;
    }
    counts
}

/// Computes the running prefix sums of a weight vector: entry `i` is the
/// sum of all weights before position `i`.
fn compute_cumulative_counts(counts: &Vec<u64>) -> (r: Vec<u64>)
    requires
        counts@.len() == 7,
        spec_prefix_sum(counts@, 7) <= u64::MAX,
    ensures
        r@.len() == 7,
        forall|i: int| 0 <= i < 7 ==> r@[i] == spec_prefix_sum(counts@, i as nat),
{
    let mut cumulative: Vec<u64> = Vec::new();
    let mut sum: u64 = 0;
    let mut i: usize = 0;
    while i < 7
        invariant
            0 <= i <= 7,
            counts@.len() == 7,
            spec_prefix_sum(counts@, 7) <= u64::MAX,
            cumulative@.len() == i,
            sum == spec_prefix_sum(counts@, i as nat),
            forall|j: int| 0 <= j < i ==> cumulative@[j] == spec_prefix_sum(counts@, j as nat),
        decreases 7 - i,
    {
        cumulative.push(sum);
        proof {
            lemma_prefix_sum_mono(counts@, i as nat + 1, 7);
        }
        sum = sum + counts[i];
        i = i + 1;
    }
    cumulative
}

/// Prefix sums only grow as more entries are added.
proof fn lemma_prefix_sum_mono(s: Seq<u64>, m: nat, n: nat)
    requires
        m <= n,
    ensures
        spec_prefix_sum(s, m) <= spec_prefix_sum(s, n),
    decreases n,
{
    if m < n {
        lemma_prefix_sum_mono(s, m, (n - 1) as nat);
    }
}

} // verus!
