use vstd::prelude::*;
use vstd::arithmetic::div_mod::lemma_fundamental_div_mod;
use vstd::arithmetic::mul::lemma_mul_inequality;

verus! {

/// Whether `c` is a decimal digit.
pub open spec fn is_digit(c: char) -> bool {
    '0' <= c && c <= '9'
}

/// The value of a decimal digit character.
pub open spec fn digit_val(c: char) -> nat {
    (c as int - '0' as int) as nat
}

/// Whether every character of `s` is a decimal digit.
pub open spec fn all_digits(s: Seq<char>) -> bool {
    forall|i: int| 0 <= i < s.len() ==> is_digit(#[trigger] s[i])
}

/// The number a digit string denotes in base 10.
pub open spec fn spec_digits_val(s: Seq<char>) -> nat
    decreases s.len(),
{
    if s.len() == 0 {
        0
    } else {
        spec_digits_val(s.drop_last()) * 10 + digit_val(s.last())
    }
}

/// What `str::parse::<u64>` accepts: an optional leading `+`, then one or
/// more decimal digits whose value fits in a `u64`. Anything else is `None`.
pub open spec fn spec_parse_u64(s: Seq<char>) -> Option<u64> {
    let t = if s.len() > 0 && s[0] == '+' {
        s.skip(1)
    } else {
        s
    };
    if t.len() == 0 || !all_digits(t) {
        Option::None
    } else if spec_digits_val(t) > u64::MAX {
        Option::None
    } else {
        Option::Some(spec_digits_val(t) as u64)
    }
}

/// What `str::parse::<usize>` accepts: like `spec_parse_u64`, bounded by
/// `usize::MAX`.
pub open spec fn spec_parse_usize(s: Seq<char>) -> Option<usize> {
    match spec_parse_u64(s) {
        Option::Some(v) => if v <= usize::MAX {
            Option::Some(v as usize)
        } else {
            Option::None
        },
        Option::None => Option::None,
    }
}

/// What `str::parse::<u8>` accepts: like `spec_parse_u64`, bounded by 255.
pub open spec fn spec_parse_u8(s: Seq<char>) -> Option<u8> {
    match spec_parse_u64(s) {
        Option::Some(v) => if v <= 255 {
            Option::Some(v as u8)
        } else {
            Option::None
        },
        Option::None => Option::None,
    }
}

/// A digit string's value only grows as more digits follow: any prefix
/// denotes no more than the whole.
proof fn lemma_digits_prefix_le(s: Seq<char>, m: int)
    requires
        0 <= m <= s.len(),
    ensures
        spec_digits_val(s.take(m)) <= spec_digits_val(s),
    decreases s.len(),
{
    if m < s.len() {
        assert(s.take(s.len() as int) =~= s);
        lemma_digits_prefix_le(s.drop_last(), m);
        assert(s.drop_last().take(m) =~= s.take(m));
    } else {
        assert(s.take(m) =~= s);
    }
}

/// Parses the characters `chars[lo..hi]` as `str::parse::<u64>` would:
/// an optional `+`, then decimal digits, rejecting overflow.
pub fn parse_u64_range(chars: &Vec<char>, lo: usize, hi: usize) -> (r: Option<u64>)
    requires
        lo <= hi <= chars@.len(),
    ensures
        r == spec_parse_u64(chars@.subrange(lo as int, hi as int)),
{
    let ghost s = chars@.subrange(lo as int, hi as int);
    let mut start = lo;
    if start < hi && chars[start] == '+' {
        start = start + 1;
        proof {
            assert(s.skip(1) =~= chars@.subrange(start as int, hi as int));
        }
    }
    let ghost t = chars@.subrange(start as int, hi as int);
    assert(spec_parse_u64(s) == (if t.len() == 0 || !all_digits(t) {
        Option::<u64>::None
    } else if spec_digits_val(t) > u64::MAX {
        Option::<u64>::None
    } else {
        Option::<u64>::Some(spec_digits_val(t) as u64)
    }));
    if start == hi {
        return None;
    }
    let mut val: u64 = 0;
    let mut i = start;
    while i < hi
        invariant
            start <= i <= hi <= chars@.len(),
            start < hi,
            t == chars@.subrange(start as int, hi as int),
            all_digits(t.take(i - start)),
            val == spec_digits_val(t.take(i - start)),
            spec_parse_u64(s) == (if t.len() == 0 || !all_digits(t) {
                Option::<u64>::None
            } else if spec_digits_val(t) > u64::MAX {
                Option::<u64>::None
            } else {
                Option::<u64>::Some(spec_digits_val(t) as u64)
            }),
            s == chars@.subrange(lo as int, hi as int),
        decreases hi - i,
    {
        let c = chars[i];
        if !('0' <= c && c <= '9') {
            assert(!is_digit(t[i - start]));
            return None;
        }
        let d = (c as u8 - 48) as u64;
        assert(d == digit_val(t[i - start]));
        if val > (u64::MAX - d) / 10 {
            proof {
                lemma_fundamental_div_mod((u64::MAX - d) as int, 10);
                lemma_mul_inequality(((u64::MAX - d) / 10 + 1) as int, val as int, 10);
                assert(val * 10 + d > u64::MAX);
                assert(t.take(i - start + 1) =~= t.take(i - start).push(t[i - start]));
                assert(t.take(i - start + 1).drop_last() =~= t.take(i - start));
                assert(spec_digits_val(t.take(i - start + 1)) == val * 10 + d);
                if all_digits(t) {
                    lemma_digits_prefix_le(t, i - start + 1);
                    assert(spec_digits_val(t) > u64::MAX);
                } else {
                    assert(!all_digits(t));
                }
            }
            return None;
        }
        proof {
            lemma_fundamental_div_mod((u64::MAX - d) as int, 10);
            lemma_mul_inequality(val as int, ((u64::MAX - d) / 10) as int, 10);
            assert(val * 10 <= u64::MAX - d);
            assert(t.take(i - start + 1) =~= t.take(i - start).push(t[i - start]));
            assert(t.take(i - start + 1).drop_last() =~= t.take(i - start));
        }
        val = val * 10 + d;
        i = i + 1;
    }
    proof {
        assert(t.take(hi - start) =~= t);
    }
    Some(val)
}

/// Parses `chars[lo..hi]` as `str::parse::<usize>` would.
pub fn parse_usize_range(chars: &Vec<char>, lo: usize, hi: usize) -> (r: Option<usize>)
    requires
        lo <= hi <= chars@.len(),
    ensures
        r == spec_parse_usize(chars@.subrange(lo as int, hi as int)),
{
    match parse_u64_range(chars, lo, hi) {
        Some(v) => {
            if v <= usize::MAX as u64 {
                Some(v as usize)
            } else {
                None
            }
        },
        None => None,
    }
}

/// Parses `chars[lo..hi]` as `str::parse::<u8>` would.
pub fn parse_u8_range(chars: &Vec<char>, lo: usize, hi: usize) -> (r: Option<u8>)
    requires
        lo <= hi <= chars@.len(),
    ensures
        r == spec_parse_u8(chars@.subrange(lo as int, hi as int)),
{
    match parse_u64_range(chars, lo, hi) {
        Some(v) => {
            if v <= 255 {
                Some(v as u8)
            } else {
                None
            }
        },
        None => None,
    }
}

/// Whether `c` has the Unicode `White_Space` property, the set that
/// `char::is_whitespace` recognizes.
pub open spec fn is_space(c: char) -> bool {
    c == ' ' || c == '\t' || c == '\n' || c == '\r' || c == '\u{0B}' || c == '\u{0C}' || c
        == '\u{85}' || c == '\u{A0}' || c == '\u{1680}' || ('\u{2000}' <= c && c <= '\u{200A}') || c
        == '\u{2028}' || c == '\u{2029}' || c == '\u{202F}' || c == '\u{205F}' || c == '\u{3000}'
}

/// Tests `is_space` executably.
pub fn is_space_char(c: char) -> (r: bool)
    ensures
        r == is_space(c),
{
    c == ' ' || c == '\t' || c == '\n' || c == '\r' || c == '\u{0B}' || c == '\u{0C}' || c
        == '\u{85}' || c == '\u{A0}' || c == '\u{1680}' || ('\u{2000}' <= c && c <= '\u{200A}') || c
        == '\u{2028}' || c == '\u{2029}' || c == '\u{202F}' || c == '\u{205F}' || c == '\u{3000}'
}

} // verus!
