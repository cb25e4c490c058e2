//! Parsing of unsigned integers from ASCII digits, in the form that the
//! standard library's `from_str_radix` accepts: an optional `+`, then one or
//! more digits of the radix, of a value that fits the target type.
use vstd::prelude::*;

verus! {

/// Value of an ASCII digit (`0-9`, `a-f`, `A-F`), or -1 for any other byte.
pub open spec fn spec_digit_value(b: u8) -> int {
    if 0x30 <= b <= 0x39 {
        b - 0x30
    } else if 0x61 <= b <= 0x66 {
        b - 0x61 + 10
    } else if 0x41 <= b <= 0x46 {
        b - 0x41 + 10
    } else {
        -1
    }
}

/// Whether `b` is a digit of the given radix.
pub open spec fn is_radix_digit(b: u8, radix: nat) -> bool {
    0 <= spec_digit_value(b) < radix
}

pub open spec fn all_radix_digits(s: Seq<u8>, radix: nat) -> bool {
    forall|i: int| 0 <= i < s.len() ==> is_radix_digit(#[trigger] s[i], radix)
}

/// Positional value of a digit string, most significant digit first.
pub open spec fn radix_value(s: Seq<u8>, radix: nat) -> nat
    decreases s.len(),
{
    if s.len() == 0 {
        0
    } else {
        radix_value(s.drop_last(), radix) * radix + spec_digit_value(s.last()) as nat
    }
}

/// The digits that follow an optional leading `+`.
pub open spec fn strip_plus(s: Seq<u8>) -> Seq<u8> {
    if s.len() > 0 && s[0] == 0x2b {
        s.drop_first()
    } else {
        s
    }
}

/// What `from_str_radix` returns for the bytes `s`, for an unsigned type whose
/// largest value is `max`.
pub open spec fn spec_parse_radix(s: Seq<u8>, radix: nat, max: nat) -> Option<nat> {
    let d = strip_plus(s);
    if d.len() > 0 && all_radix_digits(d, radix) && radix_value(d, radix) <= max {
        Some(radix_value(d, radix))
    } else {
        None
    }
}

/// A prefix of a digit string never has a larger value than the whole string.
pub proof fn lemma_prefix_value_le(s: Seq<u8>, radix: nat, k: int)
    requires
        radix >= 1,
        all_radix_digits(s, radix),
        0 <= k <= s.len(),
    ensures
        radix_value(s.take(k), radix) <= radix_value(s, radix),
    decreases s.len(),
{
    if k < s.len() {
        let p = s.drop_last();
        assert(p.take(k) =~= s.take(k));
        assert(all_radix_digits(p, radix));
        lemma_prefix_value_le(p, radix, k);
        let v = radix_value(p, radix);
        assert(v * radix >= v) by (nonlinear_arith)
            requires
                radix >= 1,
        ;
        assert(is_radix_digit(s[s.len() - 1], radix));
    } else {
        assert(s.take(k) =~= s);
    }
}

/// Value of one ASCII digit byte, 255 for a byte that is no digit.
pub fn digit_value(b: u8) -> (r: u8)
    ensures
        spec_digit_value(b) >= 0 ==> r as int == spec_digit_value(b),
        spec_digit_value(b) < 0 ==> r == 255,
{
    if 0x30 <= b && b <= 0x39 {
        b - 0x30
    } else if 0x61 <= b && b <= 0x66 {
        b - 0x61 + 10
    } else if 0x41 <= b && b <= 0x46 {
        b - 0x41 + 10
    } else {
        255
    }
}

/// Parses `s[start..end]` as `from_str_radix` does for an unsigned type whose
/// largest value is `max`.
pub fn parse_radix(s: &[u8], start: usize, end: usize, radix: u8, max: u64) -> (r: Option<u64>)
    requires
        start <= end <= s@.len(),
        2 <= radix <= 16,
    ensures
        match spec_parse_radix(s@.subrange(start as int, end as int), radix as nat, max as nat) {
            Some(v) => r == Some(v as u64),
            None => r is None,
        },
{
    let ghost whole = s@.subrange(start as int, end as int);
    let mut first = start;
    if first < end && s[first] == 0x2b {
        first = first + 1;
    }
    let ghost d = s@.subrange(first as int, end as int);
    assert(d =~= strip_plus(whole));
    if first == end {
        return None;
    }
    let mut acc: u128 = 0;
    let mut i = first;
    while i < end
        invariant
            start <= first <= i <= end <= s@.len(),
            2 <= radix <= 16,
            d == s@.subrange(first as int, end as int),
            d == strip_plus(whole),
            whole == s@.subrange(start as int, end as int),
            acc as nat == radix_value(s@.subrange(first as int, i as int), radix as nat),
            acc <= max,
            all_radix_digits(s@.subrange(first as int, i as int), radix as nat),
        decreases end - i,
    {
        let v = digit_value(s[i]);
        if v >= radix {
            assert(!is_radix_digit(d[i - first], radix as nat));
            return None;
        }
        let ghost pre = s@.subrange(first as int, i as int);
        let ghost next = s@.subrange(first as int, i + 1);
        assert(next.drop_last() =~= pre);
        assert(all_radix_digits(next, radix as nat));
        assert(acc * (radix as u128) + (v as u128) <= 0xffff_ffff_ffff_ffff * 16 + 16) by (nonlinear_arith)
            requires
                acc <= 0xffff_ffff_ffff_ffff,
                radix <= 16,
                v < 16,
        ;
        acc = acc * (radix as u128) + (v as u128);
        if acc > max as u128 {
            proof {
                if all_radix_digits(d, radix as nat) {
                    assert(d.take(i + 1 - first) =~= next);
                    lemma_prefix_value_le(d, radix as nat, i + 1 - first);
                }
            }
            return None;
        }
        i = i + 1;
    }
    assert(s@.subrange(first as int, i as int) =~= d);
    Some(acc as u64)
}

} // verus!
