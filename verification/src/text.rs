//! Small text utilities over `char` sequences: copying a `str` into a vector,
//! substring search, and lower/upper-case hexadecimal digits.
use vstd::prelude::*;
use vstd::string::StrSliceExecFns;

verus! {

/// Appends one character to a `String` (`String::push`).
/// Claims what the standard library documents: the character is added at the end.
#[verifier::external_body]
pub(crate) fn push_char(s: &mut String, c: char)
    ensures
        final(s)@ == old(s)@.push(c),
{
    s.push(c)
}

/// The characters of `s`, in order.
pub fn chars_of(s: &str) -> (v: Vec<char>)
    ensures
        v@ == s@,
{
    let n = s.unicode_len();
    let mut v: Vec<char> = Vec::new();
    let mut i: usize = 0;
    while i < n
        invariant
            n == s@.len(),
            i <= n,
            v@ == s@.subrange(0, i as int),
        decreases n - i,
    {
        let c = s.get_char(i);
        v.push(c);
        i = i + 1;
        assert(v@ =~= s@.subrange(0, i as int));
    }
    assert(v@ =~= s@);
    v
}

/// `needle` occurs in `hay` starting at position `i`.
pub open spec fn occurs_at(hay: Seq<char>, needle: Seq<char>, i: int) -> bool {
    0 <= i && i + needle.len() <= hay.len() && hay.subrange(i, i + needle.len()) == needle
}

/// `needle` occurs somewhere in `hay` (as `str::contains` with a `&str` pattern).
pub open spec fn spec_contains(hay: Seq<char>, needle: Seq<char>) -> bool {
    exists|i: int| occurs_at(hay, needle, i)
}

/// Whether `needle` occurs at position `i` of `hay`.
fn matches_at(hay: &Vec<char>, needle: &Vec<char>, i: usize) -> (r: bool)
    requires
        i + needle@.len() <= hay@.len(),
    ensures
        r == occurs_at(hay@, needle@, i as int),
{
    let hl = hay.len();
    let mut k: usize = 0;
    while k < needle.len()
        invariant
            hl == hay@.len(),
            i + needle@.len() <= hay@.len(),
            k <= needle@.len(),
            forall|x: int| 0 <= x < k ==> hay@[i + x] == needle@[x],
        decreases needle@.len() - k,
    {
        if hay[i + k] != needle[k] {
            assert(hay@.subrange(i as int, i + needle@.len())[k as int] != needle@[k as int]);
            return false;
        }
        k = k + 1;
    }
    assert(hay@.subrange(i as int, i + needle@.len()) =~= needle@);
    true
}

/// Whether `needle` occurs anywhere in `hay`.
pub fn contains_chars(hay: &Vec<char>, needle: &Vec<char>) -> (r: bool)
    ensures
        r == spec_contains(hay@, needle@),
{
    if needle.len() > hay.len() {
        return false;
    }
    let last = hay.len() - needle.len();
    let mut i: usize = 0;
    while i < last
        invariant
            i <= last,
            last + needle@.len() == hay@.len(),
            forall|x: int| 0 <= x < i ==> !occurs_at(hay@, needle@, x),
        decreases last - i,
    {
        if matches_at(hay, needle, i) {
            return true;
        }
        i = i + 1;
    }
    if matches_at(hay, needle, last) {
        return true;
    }
    assert forall|x: int| !occurs_at(hay@, needle@, x) by {
        if 0 <= x && x + needle@.len() <= hay@.len() {
            assert(x <= last);
        }
    }
    false
}

/// Lower-case hexadecimal digit for `0 <= n < 16`.
pub open spec fn spec_hex_lower(n: int) -> char {
    if n < 10 {
        (n + 0x30) as char
    } else {
        (n - 10 + 0x61) as char
    }
}

/// Upper-case hexadecimal digit for `0 <= n < 16`.
pub open spec fn spec_hex_upper(n: int) -> char {
    if n < 10 {
        (n + 0x30) as char
    } else {
        (n - 10 + 0x41) as char
    }
}

/// Two lower-case hex digits of a byte, most significant first.
pub open spec fn spec_byte_hex_lower(b: u8) -> Seq<char> {
    seq![spec_hex_lower(b as int / 16), spec_hex_lower(b as int % 16)]
}

/// Two upper-case hex digits of a byte, most significant first.
pub open spec fn spec_byte_hex_upper(b: u8) -> Seq<char> {
    seq![spec_hex_upper(b as int / 16), spec_hex_upper(b as int % 16)]
}

/// Concatenated lower-case hex of all bytes (as `{:02x}` per byte).
pub open spec fn spec_bytes_hex_lower(bs: Seq<u8>) -> Seq<char>
    decreases bs.len(),
{
    if bs.len() == 0 {
        Seq::empty()
    } else {
        spec_bytes_hex_lower(bs.drop_last()) + spec_byte_hex_lower(bs.last())
    }
}

/// Concatenated upper-case hex of all bytes (as `{:02X}` per byte).
pub open spec fn spec_bytes_hex_upper(bs: Seq<u8>) -> Seq<char>
    decreases bs.len(),
{
    if bs.len() == 0 {
        Seq::empty()
    } else {
        spec_bytes_hex_upper(bs.drop_last()) + spec_byte_hex_upper(bs.last())
    }
}

pub fn hex_digit(n: u8, upper: bool) -> (c: char)
    requires
        n < 16,
    ensures
        upper ==> c == spec_hex_upper(n as int),
        !upper ==> c == spec_hex_lower(n as int),
{
    if n < 10 {
        (n + 0x30) as char
    } else if upper {
        (n - 10 + 0x41) as char
    } else {
        (n - 10 + 0x61) as char
    }
}

/// Appends the two hex digits of `b` (as `{:02x}` or `{:02X}`).
pub fn push_byte_hex(s: &mut String, b: u8, upper: bool)
    ensures
        upper ==> final(s)@ == old(s)@ + spec_byte_hex_upper(b),
        !upper ==> final(s)@ == old(s)@ + spec_byte_hex_lower(b),
{
    let hi = hex_digit(b / 16, upper);
    let lo = hex_digit(b % 16, upper);
    push_char(s, hi);
    push_char(s, lo);
    assert(s@ =~= old(s)@ + seq![hi, lo]);
}

/// Appends the hex digits of every byte of `bs`.
pub fn push_bytes_hex(s: &mut String, bs: &[u8], upper: bool)
    ensures
        upper ==> final(s)@ == old(s)@ + spec_bytes_hex_upper(bs@),
        !upper ==> final(s)@ == old(s)@ + spec_bytes_hex_lower(bs@),
{
    let mut i: usize = 0;
    while i < bs.len()
        invariant
            i <= bs@.len(),
            upper ==> s@ == old(s)@ + spec_bytes_hex_upper(bs@.subrange(0, i as int)),
            !upper ==> s@ == old(s)@ + spec_bytes_hex_lower(bs@.subrange(0, i as int)),
        decreases bs@.len() - i,
    {
        push_byte_hex(s, bs[i], upper);
        proof {
            let p = bs@.subrange(0, i + 1);
            assert(p.drop_last() =~= bs@.subrange(0, i as int));
            assert(p.last() == bs@[i as int]);
        }
        i = i + 1;
        proof {
            if upper {
                assert(s@ =~= old(s)@ + spec_bytes_hex_upper(bs@.subrange(0, i as int)));
            } else {
                assert(s@ =~= old(s)@ + spec_bytes_hex_lower(bs@.subrange(0, i as int)));
            }
        }
    }
    assert(bs@.subrange(0, i as int) =~= bs@);
}

} // verus!
