use vstd::prelude::*;
use vstd::pervasive::VecAdditionalExecFns;
use crate::color::Color;
use crate::combinatorics::lemma_layer_count_range;
use crate::combinatorics::lemma_total_combinations_bound;
use crate::combinatorics::choose_layer_count;
use crate::combinatorics::get_possible_combinations;
use crate::combinatorics::spec_layer_count;
use crate::combinatorics::spec_total_combinations;
use crate::error::Error;
use crate::parse::spec_parse_u64;
use crate::rng::SeededRng;
use crate::rng::chacha_draw;

verus! {

/// How many patterns can be overlaid on a banner in vanilla survival mode.
pub const VANILLA_MAX_PATTERN_SIZE: usize = 6;

/// One optional per-layer override: an optional forced pattern index and an
/// optional forced color. `None` at either position keeps the random draw.
pub type LayerOverride = Option<(Option<usize>, Option<Color>)>;

/// The bound list a stream has consumed after the layer-count draw and `i`
/// complete layer draws (one pattern bound and one color bound per layer),
/// starting from the history `h0`.
pub open spec fn hist_after_layers(h0: Seq<u64>, total: u64, pattern_len: u64, i: nat) -> Seq<u64>
    decreases i,
{
    if i == 0 {
        h0.push(total)
    } else {
        hist_after_layers(h0, total, pattern_len, (i - 1) as nat).push(pattern_len).push(16u64)
    }
}

/// The pattern index drawn for layer `i` by a stream with seed `seed` that
/// had history `h0` before the layer-count draw.
pub open spec fn spec_drawn_pattern(
    seed: u64,
    h0: Seq<u64>,
    pattern_len: u64,
    total: u64,
    i: nat,
) -> u64 {
    chacha_draw(seed, hist_after_layers(h0, total, pattern_len, i), pattern_len)
}

/// The color id drawn for layer `i`, taken right after that layer's pattern
/// draw.
pub open spec fn spec_drawn_color(
    seed: u64,
    h0: Seq<u64>,
    pattern_len: u64,
    total: u64,
    i: nat,
) -> u64 {
    chacha_draw(seed, hist_after_layers(h0, total, pattern_len, i).push(pattern_len), 16)
}

/// The layer count that the stream draws first: one uniform draw below the
/// full combination count, mapped through the cumulative-weight search.
pub open spec fn spec_drawn_layer_count(seed: u64, h0: Seq<u64>, pattern_len: nat) -> nat {
    spec_layer_count(
        pattern_len,
        chacha_draw(seed, h0, spec_total_combinations(pattern_len) as u64) as nat,
    )
}

/// The `n` random layers drawn, in draw order, before any override is
/// applied.
pub open spec fn spec_drawn_layers(
    seed: u64,
    h0: Seq<u64>,
    pattern_len: u64,
    total: u64,
    n: nat,
) -> Seq<(usize, Color)> {
    Seq::new(
        n,
        |i: int|
            (
                spec_drawn_pattern(seed, h0, pattern_len, total, i as nat) as usize,
                Color::spec_from_id(spec_drawn_color(seed, h0, pattern_len, total, i as nat) as u8),
            ),
    )
}

/// One drawn layer with an optional override applied on top: a forced field
/// replaces the drawn value, an unset field keeps it.
pub open spec fn spec_apply_override(drawn: (usize, Color), ov: LayerOverride) -> (usize, Color) {
    match ov {
        Option::None => drawn,
        Option::Some((pid, col)) => (
            match pid {
                Option::None => drawn.0,
                Option::Some(id) => id,
            },
            match col {
                Option::None => drawn.1,
                Option::Some(c) => c,
            },
        ),
    }
}

/// The override that applies at position `j`: entries past the end of the
/// override list leave the draw untouched.
pub open spec fn spec_override_at(overrides: Seq<LayerOverride>, j: int) -> LayerOverride {
    if 0 <= j < overrides.len() {
        overrides[j]
    } else {
        Option::None
    }
}

/// Whether one override entry at position `pos` is admissible against a
/// library of `pattern_len` patterns and a drawn layer count of `n`: a set
/// entry must name an existing layer, and a forced pattern index must be in
/// bounds.
pub open spec fn spec_override_entry_ok(
    ov: LayerOverride,
    pattern_len: nat,
    pos: int,
    n: nat,
) -> bool {
    match ov {
        Option::None => true,
        Option::Some((pid, col)) => pos < n && (match pid {
            Option::None => true,
            Option::Some(id) => (id as nat) < pattern_len,
        }),
    }
}

/// Whether a whole override list is admissible: at most six entries, each
/// entry admissible at its position.
pub open spec fn spec_overrides_valid(
    overrides: Seq<LayerOverride>,
    pattern_len: nat,
    n: nat,
) -> bool {
    overrides.len() <= 6 && (forall|i: int|
        0 <= i < overrides.len() ==> spec_override_entry_ok(overrides[i], pattern_len, i, n))
}

/// The drawn layers with the first `k` overrides applied.
pub open spec fn spec_overridden_prefix(
    drawn: Seq<(usize, Color)>,
    overrides: Seq<LayerOverride>,
    k: int,
) -> Seq<(usize, Color)> {
    Seq::new(
        drawn.len(),
        |j: int|
            if j < k {
                spec_apply_override(drawn[j], spec_override_at(overrides, j))
            } else {
                drawn[j]
            },
    )
}

/// The full pattern list that `generate_pattern_list` returns on success:
/// the drawn layers, overridden position by position, then truncated to
/// `max_layers` if that is shorter.
pub open spec fn spec_pattern_list(
    seed: u64,
    h0: Seq<u64>,
    pattern_len: nat,
    overrides: Seq<LayerOverride>,
    max_layers: Option<usize>,
) -> Seq<(usize, Color)> {
    let total = spec_total_combinations(pattern_len) as u64;
    let n = spec_drawn_layer_count(seed, h0, pattern_len);
    let drawn = spec_drawn_layers(seed, h0, pattern_len as u64, total, n);
    let overridden = spec_overridden_prefix(drawn, overrides, n as int);
    match max_layers {
        Option::None => overridden,
        Option::Some(k) => if k < n {
            overridden.take(k as int)
        } else {
            overridden
        },
    }
}

/// Draws the layer count for a banner: one uniform draw below the full
/// combination count, mapped to 0..=6 by the cumulative-weight search. This
/// consumes exactly one draw from the stream regardless of the outcome.
pub fn get_amount_of_layers(rng: &mut SeededRng, pattern_len: usize) -> (r: usize)
    requires
        pattern_len <= 63,
    ensures
        r == spec_drawn_layer_count(old(rng).seed(), old(rng).history(), pattern_len as nat),
        r <= 6,
        pattern_len == 0 ==> r == 0,
        final(rng).seed() == old(rng).seed(),
        final(rng).history() == old(rng).history().push(
            spec_total_combinations(pattern_len as nat) as u64,
        ),
{
    proof {
        lemma_total_combinations_bound(pattern_len as nat);
    }
    let total = get_possible_combinations(pattern_len);
    let choice = rng.random_below(total);
    let r = choose_layer_count(choice, pattern_len);
    proof {
        lemma_layer_count_range(pattern_len as nat, choice as nat);
    }
    r
}

/// Deterministically generates the layer list for one banner.
///
/// The stream first draws the layer count, then for each layer one pattern
/// index in `[0, pattern_len)` and one color id in `[0, 16)`, in a fixed
/// order. Overrides are applied only after every draw has been taken, so
/// forcing one layer's fields never shifts any other layer's draws. If
/// `max_layers` is given, the final list is truncated to that length; the
/// draws already taken are unaffected.
///
/// Fails with [`Error::InvalidLayerOverride`] exactly when more than six
/// override entries are given, an entry names a layer at or past the drawn
/// layer count, or an entry forces a pattern index at or past `pattern_len`.
pub fn generate_pattern_list(
    rng: &mut SeededRng,
    pattern_len: usize,
    layers: Vec<LayerOverride>,
    max_layers: Option<usize>,
) -> (r: Result<Vec<(usize, Color)>, Error>)
    requires
        pattern_len <= 63,
    ensures
        ({
            let seed = old(rng).seed();
            let h0 = old(rng).history();
            let p = pattern_len as nat;
            let total = spec_total_combinations(p) as u64;
            let n = spec_drawn_layer_count(seed, h0, p);
            &&& final(rng).seed() == seed
            &&& final(rng).history() == hist_after_layers(h0, total, pattern_len as u64, n)
            &&& (r matches Ok(list) ==> list@ == spec_pattern_list(
                seed,
                h0,
                p,
                layers@,
                max_layers,
            ))
            &&& (r matches Ok(list) ==> forall|i: int|
                0 <= i < list@.len() ==> (#[trigger] list@[i].0 as int) < pattern_len as int)
            &&& (r is Ok <==> spec_overrides_valid(layers@, p, n))
            &&& (r is Err ==> r == Result::<Vec<(usize, Color)>, Error>::Err(
                Error::InvalidLayerOverride,
            ))
        }),
{
    let ghost seed = rng.seed();
    let ghost h0 = rng.history();
    let ghost p = pattern_len as nat;
    let ghost total_s = spec_total_combinations(p) as u64;
    let n = get_amount_of_layers(rng, pattern_len);
    let ghost nn = n as nat;

    let mut patterns: Vec<(usize, Color)> = Vec::new();
    proof {
        assert(patterns@ =~= spec_drawn_layers(seed, h0, pattern_len as u64, total_s, 0));
    }
    let mut i: usize = 0;
    while i < n
        invariant
            0 <= i <= n,
            n <= 6,
            pattern_len <= 63,
            p == pattern_len as nat,
            nn == n as nat,
            nn == spec_drawn_layer_count(seed, h0, p),
            pattern_len == 0 ==> n == 0,
            total_s == spec_total_combinations(p) as u64,
            rng.seed() == seed,
            rng.history() == hist_after_layers(h0, total_s, pattern_len as u64, i as nat),
            patterns@ == spec_drawn_layers(seed, h0, pattern_len as u64, total_s, i as nat),
            forall|j: int| 0 <= j < i ==> (#[trigger] patterns@[j].0 as int) < pattern_len as int,
        decreases n - i,
    {
        let pattern = rng.random_below(pattern_len as u64) as usize;
        let color_id = rng.random_below(16);
        let color = match Color::from_repr(color_id as u8) {
            Some(c) => c,
            None => Color::White,
        };
        patterns.push((pattern, color));
        proof {
            assert(hist_after_layers(h0, total_s, pattern_len as u64, i as nat + 1)
                == hist_after_layers(h0, total_s, pattern_len as u64, i as nat).push(
                pattern_len as u64,
            ).push(16u64));
            assert(patterns@ =~= spec_drawn_layers(
                seed,
                h0,
                pattern_len as u64,
                total_s,
                i as nat + 1,
            ));
        }
        i = i + 1;
    }
    let ghost drawn = spec_drawn_layers(seed, h0, pattern_len as u64, total_s, nn);
    assert(patterns@ == drawn);

    if layers.len() > VANILLA_MAX_PATTERN_SIZE {
        return Err(Error::InvalidLayerOverride);
    }
    proof {
        assert(patterns@ =~= spec_overridden_prefix(drawn, layers@, 0));
    }

    let mut j: usize = 0;
    while j < layers.len()
        invariant
            0 <= j <= layers@.len(),
            layers@.len() <= 6,
            n <= 6,
            pattern_len <= 63,
            p == pattern_len as nat,
            nn == n as nat,
            seed == old(rng).seed(),
            h0 == old(rng).history(),
            total_s == spec_total_combinations(p) as u64,
            nn == spec_drawn_layer_count(seed, h0, p),
            rng.seed() == seed,
            rng.history() == hist_after_layers(h0, total_s, pattern_len as u64, nn),
            drawn == spec_drawn_layers(seed, h0, pattern_len as u64, total_s, nn),
            drawn.len() == nn,
            patterns@.len() == nn,
            patterns@ == spec_overridden_prefix(drawn, layers@, j as int),
            forall|k: int| 0 <= k < j ==> spec_override_entry_ok(layers@[k], p, k, nn),
            forall|k: int| 0 <= k < nn ==> (#[trigger] patterns@[k].0 as int) < pattern_len as int,
        decreases layers@.len() - j,
    {
        let entry = &layers[j];
        match entry {
            Some((pid, col)) => {
                if j >= patterns.len() {
                    proof {
                        assert(!spec_override_entry_ok(layers@[j as int], p, j as int, nn));
                    }
                    return Err(Error::InvalidLayerOverride);
                }
                let new_pattern: usize = match pid {
                    Some(id) => {
                        if *id >= pattern_len {
                            proof {
                                assert(!spec_override_entry_ok(layers@[j as int], p, j as int, nn));
                            }
                            return Err(Error::InvalidLayerOverride);
                        }
                        *id
                    },
                    None => patterns[j].0,
                };
                let new_color: Color = match col {
                    Some(c) => *c,
                    None => patterns[j].1,
                };
                patterns.set(j, (new_pattern, new_color));
            },
            None => {},
        }
        proof {
            assert(patterns@ =~= spec_overridden_prefix(drawn, layers@, j as int + 1));
        }
        j = j + 1;
    }
    proof {
        assert(patterns@ =~= spec_overridden_prefix(drawn, layers@, nn as int));
    }

    match max_layers {
        Some(k) => {
            if k < patterns.len() {
                patterns.truncate(k);
            }
        },
        None => {},
    }
    proof {
        assert forall|i: int| 0 <= i < patterns@.len() implies (#[trigger] patterns@[i].0 as int)
            < pattern_len as int by {}
    }
    Ok(patterns)
}


/// Determinism of generation: the pattern list is a function of the seed,
/// the stream position and the arguments alone, so two streams with the same
/// seed that have drawn the same bounds yield byte-identical lists.
pub proof fn lemma_generation_deterministic(
    rng1: SeededRng,
    rng2: SeededRng,
    pattern_len: nat,
    overrides: Seq<LayerOverride>,
    max_layers: Option<usize>,
)
    requires
        rng1.seed() == rng2.seed(),
        rng1.history() == rng2.history(),
    ensures
        spec_pattern_list(rng1.seed(), rng1.history(), pattern_len, overrides, max_layers)
            == spec_pattern_list(rng2.seed(), rng2.history(), pattern_len, overrides, max_layers),
{
}

/// Override isolation: two override lists of equal length that agree
/// everywhere except at position `j` produce pattern lists of equal length
/// that agree at every position other than `j`. Forcing one layer's fields
/// never disturbs any other layer.
pub proof fn lemma_override_isolation(
    seed: u64,
    h0: Seq<u64>,
    pattern_len: nat,
    ov1: Seq<LayerOverride>,
    ov2: Seq<LayerOverride>,
    max_layers: Option<usize>,
    j: int,
)
    requires
        ov1.len() == ov2.len(),
        forall|i: int| 0 <= i < ov1.len() && i != j ==> ov1[i] == ov2[i],
    ensures
        spec_pattern_list(seed, h0, pattern_len, ov1, max_layers).len() == spec_pattern_list(
            seed,
            h0,
            pattern_len,
            ov2,
            max_layers,
        ).len(),
        forall|i: int|
            0 <= i < spec_pattern_list(seed, h0, pattern_len, ov1, max_layers).len() && i != j
                ==> spec_pattern_list(seed, h0, pattern_len, ov1, max_layers)[i]
                == spec_pattern_list(seed, h0, pattern_len, ov2, max_layers)[i],
{
    let l1 = spec_pattern_list(seed, h0, pattern_len, ov1, max_layers);
    let l2 = spec_pattern_list(seed, h0, pattern_len, ov2, max_layers);
    let total = spec_total_combinations(pattern_len) as u64;
    let n = spec_drawn_layer_count(seed, h0, pattern_len);
    let drawn = spec_drawn_layers(seed, h0, pattern_len as u64, total, n);
    assert forall|i: int| 0 <= i < l1.len() && i != j implies l1[i] == l2[i] by {
        assert(spec_override_at(ov1, i) == spec_override_at(ov2, i));
    }
}

/// Prefix property of the layer cap: generating with `max_layers = k` yields
/// exactly the first `k` layers of the unconstrained run for the same seed
/// and stream position (or the whole run, where it has no more than `k`
/// layers).
pub proof fn lemma_max_layers_prefix(
    seed: u64,
    h0: Seq<u64>,
    pattern_len: nat,
    overrides: Seq<LayerOverride>,
    k: usize,
)
    ensures
        ({
            let full = spec_pattern_list(seed, h0, pattern_len, overrides, Option::None);
            let limited = spec_pattern_list(seed, h0, pattern_len, overrides, Option::Some(k));
            limited == if (k as int) < full.len() {
                full.take(k as int)
            } else {
                full
            }
        }),
{
}


/// Draws a fresh shareable seed, uniformly from the full combination space
/// for a library of `pattern_len` patterns, using operating-system entropy.
pub fn generate_seed(pattern_len: usize) -> (r: u64)
    requires
        pattern_len <= 63,
    ensures
        (r as nat) < spec_total_combinations(pattern_len as nat),
{
    let mut rng = SeededRng::from_os_entropy();
    let total = get_possible_combinations(pattern_len);
    rng.random_below(total)
}

/// Builds the deterministic stream for an optional caller-supplied seed
/// string.
///
/// An absent or unparseable seed draws a fresh one via [`generate_seed`]. A
/// parsed seed strictly greater than the full combination count fails with
/// [`Error::InvalidSeed`]; the boundary value itself is accepted, matching
/// the observed comparison.
pub fn get_rng_from_seed(seed: Option<&str>, pattern_len: usize) -> (r: Result<SeededRng, Error>)
    requires
        pattern_len <= 63,
    ensures
        ({
            let total = spec_total_combinations(pattern_len as nat);
            &&& (r is Err <==> (seed matches Some(s) && (spec_parse_u64(s@) matches Some(v) && (
            v as nat) > total)))
            &&& (r is Err ==> r == Result::<SeededRng, Error>::Err(Error::InvalidSeed))
            &&& (r matches Ok(rng) ==> rng.history() == Seq::<u64>::empty())
            &&& (r matches Ok(rng) ==> (seed matches Some(s) ==> (spec_parse_u64(s@) matches Some(
                v,
            ) ==> rng.seed() == v)))
            &&& (r matches Ok(rng) ==> ((seed is None || (seed matches Some(s) && spec_parse_u64(
                s@,
            ) is None)) ==> (rng.seed() as nat) < total))
        }),
{
    let parsed: Option<u64> = match seed {
        Some(s) => {
            let cs = crate::chars::str_to_chars(s);
            let n = cs.len();
            let p = crate::parse::parse_u64_range(&cs, 0, n);
            proof {
                assert(cs@.subrange(0, n as int) =~= s@);
            }
            p
        },
        None => None,
    };
    let value: u64 = match parsed {
        Some(v) => {
            let total = get_possible_combinations(pattern_len);
            if v > total {
                return Err(Error::InvalidSeed);
            }
            v
        },
        None => generate_seed(pattern_len),
    };
    Ok(SeededRng::from_seed(value))
}

} // verus!
