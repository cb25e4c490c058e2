//! Decimal text of unsigned integers (what `to_string` writes for them), and
//! the fact that such text parses back to the same number.
use crate::hexkeymap::{lemma_ascii_utf8, utf8};
use crate::numparse::{all_radix_digits, is_radix_digit, radix_value, spec_digit_value, spec_parse_radix, strip_plus};
use crate::text::{hex_digit, push_char, spec_hex_lower};
use vstd::prelude::*;
use vstd::string::StringExecFns;

verus! {

/// Decimal digits of `n`, most significant first, with no leading zeros.
pub open spec fn spec_decimal(n: nat) -> Seq<char>
    decreases n,
{
    if n < 10 {
        seq![spec_hex_lower(n as int)]
    } else {
        spec_decimal(n / 10).push(spec_hex_lower((n % 10) as int))
    }
}

/// The ASCII bytes of `spec_decimal(n)`.
pub open spec fn spec_decimal_bytes(n: nat) -> Seq<u8>
    decreases n,
{
    if n < 10 {
        seq![(n + 0x30) as u8]
    } else {
        spec_decimal_bytes(n / 10).push(((n % 10) + 0x30) as u8)
    }
}

/// Appends the decimal digits of `v` to `s`.
pub fn push_decimal(s: &mut String, v: u64)
    ensures
        final(s)@ == old(s)@ + spec_decimal(v as nat),
    decreases v,
{
    if v >= 10 {
        push_decimal(s, v / 10);
    }
    let d = (v % 10) as u8;
    let c = hex_digit(d, false);
    push_char(s, c);
    proof {
        if v >= 10 {
            assert(spec_decimal(v as nat) == spec_decimal((v / 10) as nat).push(c));
        } else {
            assert(spec_decimal(v as nat) == seq![c]);
        }
    }
    assert(final(s)@ =~= old(s)@ + spec_decimal(v as nat));
}

/// The decimal text of `v`, as `v.to_string()` writes it.
pub fn decimal_string(v: u64) -> (r: String)
    ensures
        r@ == spec_decimal(v as nat),
{
    let mut s = String::from_str("");
    proof {
        reveal_strlit("");
    }
    push_decimal(&mut s, v);
    assert(s@ =~= spec_decimal(v as nat));
    s
}

/// The decimal text of `n` is ASCII: each character is the byte of
/// `spec_decimal_bytes(n)` at its place, all of them decimal digits whose value is `n`.
pub(crate) proof fn lemma_decimal_chars(n: nat)
    ensures
        spec_decimal(n).len() == spec_decimal_bytes(n).len(),
        spec_decimal(n).len() > 0,
        forall|i: int|
            0 <= i < spec_decimal(n).len() ==> (#[trigger] spec_decimal(n)[i] as u32) < 0x80
                && spec_decimal(n)[i] as u32 as u8 == spec_decimal_bytes(n)[i],
        all_radix_digits(spec_decimal_bytes(n), 10),
        spec_decimal_bytes(n)[0] != 0x2b,
        radix_value(spec_decimal_bytes(n), 10) == n,
    decreases n,
{
    if n >= 10 {
        let p = n / 10;
        lemma_decimal_chars(p);
        let b = spec_decimal_bytes(n);
        assert(b.drop_last() =~= spec_decimal_bytes(p));
        assert(spec_digit_value(b.last()) == n % 10);
        assert forall|i: int| 0 <= i < b.len() implies is_radix_digit(#[trigger] b[i], 10) by {
            if i < b.len() - 1 {
                assert(b[i] == spec_decimal_bytes(p)[i]);
            }
        }
        assert(all_radix_digits(b, 10));
        assert(radix_value(b, 10) == radix_value(b.drop_last(), 10) * 10 + spec_digit_value(b.last()) as nat);
        assert(radix_value(b.drop_last(), 10) == p);
        assert(n == p * 10 + n % 10);
    } else {
        let b = spec_decimal_bytes(n);
        assert(b.drop_last() =~= Seq::<u8>::empty());
        assert(radix_value(b.drop_last(), 10) == 0);
    }
}

/// Decimal text written for a number parses back to that number, for any
/// integer type whose largest value is at least the number.
pub proof fn lemma_decimal_parses_back(n: nat, max: nat)
    requires
        n <= max,
    ensures
        spec_parse_radix(utf8(spec_decimal(n)), 10, max) == Some(n),
{
    lemma_decimal_chars(n);
    let t = spec_decimal(n);
    lemma_ascii_utf8(t);
    assert(utf8(t) =~= spec_decimal_bytes(n));
    assert(strip_plus(spec_decimal_bytes(n)) == spec_decimal_bytes(n));
}

} // verus!
