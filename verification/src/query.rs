use vstd::prelude::*;
use crate::chars::str_to_chars;
use crate::color::Color;
use crate::parse::is_space;
use crate::parse::is_space_char;
use crate::parse::parse_u8_range;
use crate::parse::parse_usize_range;
use crate::parse::spec_parse_u8;
use crate::parse::spec_parse_usize;

verus! {

/// One parsed layer override from the query string: an optional pattern
/// index and an optional color id, either side absent when blank or
/// unparseable.
pub struct LayerEntry {
    /// The forced pattern index, where one was given.
    pub id: Option<usize>,
    /// The forced color id, where one was given.
    pub color: Option<u8>,
}

/// The parsed query parameters of a banner request: an optional base color
/// id, the textual per-layer overrides, and an optional cap on the layer
/// count.
pub struct GetBannerQuery {
    /// The forced base color id, where one was given.
    pub base_color: Option<u8>,
    /// The textual layer overrides, one optional entry per layer position.
    pub layers: Vec<Option<String>>,
    /// The cap on the number of layers, where one was given.
    pub max_layers: Option<usize>,
}

/// `s` with leading whitespace removed.
pub open spec fn spec_trim_start(s: Seq<char>) -> Seq<char>
    decreases s.len(),
{
    if s.len() > 0 && is_space(s[0]) {
        spec_trim_start(s.skip(1))
    } else {
        s
    }
}

/// `s` with trailing whitespace removed.
pub open spec fn spec_trim_end(s: Seq<char>) -> Seq<char>
    decreases s.len(),
{
    if s.len() > 0 && is_space(s.last()) {
        spec_trim_end(s.drop_last())
    } else {
        s
    }
}

/// `s` with whitespace removed from both ends, as `str::trim` does.
pub open spec fn spec_trim(s: Seq<char>) -> Seq<char> {
    spec_trim_end(spec_trim_start(s))
}

/// `s` with every leading occurrence of `c` removed.
pub open spec fn spec_trim_start_char(s: Seq<char>, c: char) -> Seq<char>
    decreases s.len(),
{
    if s.len() > 0 && s[0] == c {
        spec_trim_start_char(s.skip(1), c)
    } else {
        s
    }
}

/// `s` with every trailing occurrence of `c` removed.
pub open spec fn spec_trim_end_char(s: Seq<char>, c: char) -> Seq<char>
    decreases s.len(),
{
    if s.len() > 0 && s.last() == c {
        spec_trim_end_char(s.drop_last(), c)
    } else {
        s
    }
}

/// The position of the first occurrence of `c` in `s`, if any.
pub open spec fn spec_find(s: Seq<char>, c: char) -> Option<nat>
    decreases s.len(),
{
    if s.len() == 0 {
        Option::None
    } else if s[0] == c {
        Option::Some(0)
    } else {
        match spec_find(s.skip(1), c) {
            Option::None => Option::None,
            Option::Some(i) => Option::Some(i + 1),
        }
    }
}

/// What `parse_layer_entry` yields for the character sequence `s`: the
/// bracketed `[id,color]` mini-grammar, parsed leniently. Without a comma
/// both sides are absent; around the comma each side is trimmed and parsed
/// as a decimal number, and a blank or unparseable side is absent rather
/// than an error.
pub open spec fn spec_parse_layer_entry(s: Seq<char>) -> (Option<usize>, Option<u8>) {
    let t = spec_trim_start_char(spec_trim_end_char(spec_trim(s), ']'), '[');
    match spec_find(t, ',') {
        Option::None => (Option::None, Option::None),
        Option::Some(i) => (
            spec_parse_usize(spec_trim(t.take(i as int))),
            spec_parse_u8(spec_trim(t.skip(i as int + 1))),
        ),
    }
}

/// Moves `lo` forward past the characters that `pred` accepts. The helpers
/// below instantiate it for whitespace and single characters.
fn skip_spaces_start(chars: &Vec<char>, lo: usize, hi: usize) -> (r: usize)
    requires
        lo <= hi <= chars@.len(),
    ensures
        lo <= r <= hi,
        chars@.subrange(r as int, hi as int) == spec_trim_start(
            chars@.subrange(lo as int, hi as int),
        ),
{
    let mut i = lo;
    proof {
        assert(chars@.subrange(lo as int, hi as int) =~= chars@.subrange(i as int, hi as int));
    }
    while i < hi && is_space_char(chars[i])
        invariant
            lo <= i <= hi <= chars@.len(),
            spec_trim_start(chars@.subrange(lo as int, hi as int)) == spec_trim_start(
                chars@.subrange(i as int, hi as int),
            ),
        decreases hi - i,
    {
        proof {
            assert(chars@.subrange(i as int, hi as int).skip(1) =~= chars@.subrange(
                i as int + 1,
                hi as int,
            ));
        }
        i = i + 1;
    }
    proof {
        assert(spec_trim_start(chars@.subrange(i as int, hi as int)) =~= chars@.subrange(
            i as int,
            hi as int,
        ));
    }
    i
}

fn skip_spaces_end(chars: &Vec<char>, lo: usize, hi: usize) -> (r: usize)
    requires
        lo <= hi <= chars@.len(),
    ensures
        lo <= r <= hi,
        chars@.subrange(lo as int, r as int) == spec_trim_end(
            chars@.subrange(lo as int, hi as int),
        ),
{
    let mut i = hi;
    proof {
        assert(chars@.subrange(lo as int, hi as int) =~= chars@.subrange(lo as int, i as int));
    }
    while i > lo && is_space_char(chars[i - 1])
        invariant
            lo <= i <= hi <= chars@.len(),
            spec_trim_end(chars@.subrange(lo as int, hi as int)) == spec_trim_end(
                chars@.subrange(lo as int, i as int),
            ),
        decreases i,
    {
        proof {
            assert(chars@.subrange(lo as int, i as int).drop_last() =~= chars@.subrange(
                lo as int,
                i as int - 1,
            ));
        }
        i = i - 1;
    }
    proof {
        assert(spec_trim_end(chars@.subrange(lo as int, i as int)) =~= chars@.subrange(
            lo as int,
            i as int,
        ));
    }
    i
}

fn skip_char_start(chars: &Vec<char>, lo: usize, hi: usize, c: char) -> (r: usize)
    requires
        lo <= hi <= chars@.len(),
    ensures
        lo <= r <= hi,
        chars@.subrange(r as int, hi as int) == spec_trim_start_char(
            chars@.subrange(lo as int, hi as int),
            c,
        ),
{
    let mut i = lo;
    proof {
        assert(chars@.subrange(lo as int, hi as int) =~= chars@.subrange(i as int, hi as int));
    }
    while i < hi && chars[i] == c
        invariant
            lo <= i <= hi <= chars@.len(),
            spec_trim_start_char(chars@.subrange(lo as int, hi as int), c) == spec_trim_start_char(
                chars@.subrange(i as int, hi as int),
                c,
            ),
        decreases hi - i,
    {
        proof {
            assert(chars@.subrange(i as int, hi as int).skip(1) =~= chars@.subrange(
                i as int + 1,
                hi as int,
            ));
        }
        i = i + 1;
    }
    proof {
        assert(spec_trim_start_char(chars@.subrange(i as int, hi as int), c) =~= chars@.subrange(
            i as int,
            hi as int,
        ));
    }
    i
}

fn skip_char_end(chars: &Vec<char>, lo: usize, hi: usize, c: char) -> (r: usize)
    requires
        lo <= hi <= chars@.len(),
    ensures
        lo <= r <= hi,
        chars@.subrange(lo as int, r as int) == spec_trim_end_char(
            chars@.subrange(lo as int, hi as int),
            c,
        ),
{
    let mut i = hi;
    proof {
        assert(chars@.subrange(lo as int, hi as int) =~= chars@.subrange(lo as int, i as int));
    }
    while i > lo && chars[i - 1] == c
        invariant
            lo <= i <= hi <= chars@.len(),
            spec_trim_end_char(chars@.subrange(lo as int, hi as int), c) == spec_trim_end_char(
                chars@.subrange(lo as int, i as int),
                c,
            ),
        decreases i,
    {
        proof {
            assert(chars@.subrange(lo as int, i as int).drop_last() =~= chars@.subrange(
                lo as int,
                i as int - 1,
            ));
        }
        i = i - 1;
    }
    proof {
        assert(spec_trim_end_char(chars@.subrange(lo as int, i as int), c) =~= chars@.subrange(
            lo as int,
            i as int,
        ));
    }
    i
}

fn find_char(chars: &Vec<char>, lo: usize, hi: usize, c: char) -> (r: Option<usize>)
    requires
        lo <= hi <= chars@.len(),
    ensures
        ({
            let s = chars@.subrange(lo as int, hi as int);
            match r {
                Option::Some(i) => lo <= i < hi && spec_find(s, c) == Option::Some(
                    (i - lo) as nat,
                ),
                Option::None => spec_find(s, c) is None,
            }
        }),
{
    let ghost s0 = chars@.subrange(lo as int, hi as int);
    let mut i = lo;
    proof {
        assert(s0 =~= chars@.subrange(i as int, hi as int));
    }
    while i < hi
        invariant
            lo <= i <= hi <= chars@.len(),
            s0 == chars@.subrange(lo as int, hi as int),
            ({
                let rest = chars@.subrange(i as int, hi as int);
                match spec_find(rest, c) {
                    Option::None => spec_find(s0, c) is None,
                    Option::Some(k) => spec_find(s0, c) == Option::Some((k + i - lo) as nat),
                }
            }),
        decreases hi - i,
    {
        if chars[i] == c {
            return Some(i);
        }
        proof {
            assert(chars@.subrange(i as int, hi as int).skip(1) =~= chars@.subrange(
                i as int + 1,
                hi as int,
            ));
        }
        i = i + 1;
    }
    proof {
        assert(chars@.subrange(i as int, hi as int) =~= Seq::<char>::empty());
    }
    None
}

/// Parses one textual layer override in the bracketed `[id,color]` form:
/// the pattern index before the comma and the color id after it, either of
/// which may be blank. Unparseable numeric fields resolve to "no override"
/// for that field, never an error; with no comma at all both fields are
/// absent.
pub fn parse_layer_entry(s: &str) -> (r: LayerEntry)
    ensures
        r.id == spec_parse_layer_entry(s@).0,
        r.color == spec_parse_layer_entry(s@).1,
{
    let chars = str_to_chars(s);
    let n = chars.len();
    proof {
        assert(chars@.subrange(0, n as int) =~= s@);
    }
    let lo0 = skip_spaces_start(&chars, 0, n);
    let hi0 = skip_spaces_end(&chars, lo0, n);
    let hi1 = skip_char_end(&chars, lo0, hi0, ']');
    let lo1 = skip_char_start(&chars, lo0, hi1, '[');
    let ghost t = spec_trim_start_char(spec_trim_end_char(spec_trim(s@), ']'), '[');
    proof {
        assert(chars@.subrange(lo0 as int, hi0 as int) == spec_trim(s@)) by {
            assert(spec_trim_end(spec_trim_start(chars@.subrange(0, n as int))) == spec_trim_end(
                chars@.subrange(lo0 as int, n as int),
            ));
        }
        assert(chars@.subrange(lo1 as int, hi1 as int) == t);
    }
    match find_char(&chars, lo1, hi1, ',') {
        None => LayerEntry { id: None, color: None },
        Some(comma) => {
            let ghost ci = (comma - lo1) as int;
            proof {
                assert(t.take(ci) =~= chars@.subrange(lo1 as int, comma as int));
                assert(t.skip(ci + 1) =~= chars@.subrange(comma as int + 1, hi1 as int));
            }
            let id_lo = skip_spaces_start(&chars, lo1, comma);
            let id_hi = skip_spaces_end(&chars, id_lo, comma);
            let col_lo = skip_spaces_start(&chars, comma + 1, hi1);
            let col_hi = skip_spaces_end(&chars, col_lo, hi1);
            proof {
                assert(chars@.subrange(id_lo as int, id_hi as int) == spec_trim(t.take(ci))) by {
                    assert(spec_trim_end(spec_trim_start(chars@.subrange(
                        lo1 as int,
                        comma as int,
                    ))) == spec_trim_end(chars@.subrange(id_lo as int, comma as int)));
                }
                assert(chars@.subrange(col_lo as int, col_hi as int) == spec_trim(
                    t.skip(ci + 1),
                )) by {
                    assert(spec_trim_end(spec_trim_start(chars@.subrange(
                        comma as int + 1,
                        hi1 as int,
                    ))) == spec_trim_end(chars@.subrange(col_lo as int, hi1 as int)));
                }
            }
            let id = parse_usize_range(&chars, id_lo, id_hi);
            let color = parse_u8_range(&chars, col_lo, col_hi);
            LayerEntry { id, color }
        },
    }
}

/// What one optional textual override maps to: the parsed entry, with its
/// color id resolved to a color where it names one of the 16, and dropped
/// where it does not.
pub open spec fn spec_map_layer(l: Option<Seq<char>>) -> crate::generation::LayerOverride {
    match l {
        Option::None => Option::None,
        Option::Some(s) => {
            let e = spec_parse_layer_entry(s);
            Option::Some(
                (
                    e.0,
                    match e.1 {
                        Option::Some(v) => if v < 16 {
                            Option::Some(Color::spec_from_id(v))
                        } else {
                            Option::None
                        },
                        Option::None => Option::None,
                    },
                ),
            )
        },
    }
}

/// Parses every textual layer override of a query into the generator's
/// override form, position by position: absent entries stay absent, color
/// ids outside the 16-color range resolve to "no override".
pub fn map_layers(layers: Vec<Option<String>>) -> (r: Vec<crate::generation::LayerOverride>)
    ensures
        r@.len() == layers@.len(),
        forall|i: int|
            0 <= i < layers@.len() ==> #[trigger] r@[i] == spec_map_layer(
                match layers@[i] {
                    Option::Some(l) => Option::Some(l@),
                    Option::None => Option::None,
                },
            ),
{
    let mut r: Vec<crate::generation::LayerOverride> = Vec::new();
    let n = layers.len();
    let mut i: usize = 0;
    while i < n
        invariant
            0 <= i <= n,
            n == layers@.len(),
            r@.len() == i,
            forall|j: int|
                0 <= j < i ==> #[trigger] r@[j] == spec_map_layer(
                    match layers@[j] {
                        Option::Some(l) => Option::Some(l@),
                        Option::None => Option::None,
                    },
                ),
        decreases n - i,
    {
        let unit: crate::generation::LayerOverride = match &layers[i] {
            Some(l) => {
                let entry = parse_layer_entry(l.as_str());
                let color = match entry.color {
                    Some(c) => Color::from_repr(c),
                    None => None,
                };
                Some((entry.id, color))
            },
            None => None,
        };
        r.push(unit);
        i = i + 1;
    }
    r
}

} // verus!
