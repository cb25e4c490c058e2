//! Hex text forms used in the configuration files: map keys of `N` bytes
//! written as `"0x"` followed by `2N` lower-case hex digits, and `u64`
//! values written as `"0x"` followed by their hex digits.
use crate::numparse::{parse_radix, spec_parse_radix, radix_value, spec_digit_value, strip_plus, all_radix_digits};
use crate::decimal::{push_decimal, spec_decimal};
use crate::text::{push_char, push_bytes_hex, spec_bytes_hex_lower, spec_hex_lower, spec_byte_hex_lower};
use vstd::prelude::*;
use vstd::string::StringExecFns;

verus! {

/// A `u64` written in hex, as `"0x{:x}"`.
#[derive(Clone, Copy, Debug, PartialEq, Eq, Hash, Structural)]
pub struct HexValue(pub u64);

/// A map from `N`-byte keys to values; each key occurs at most once.
pub struct HexKeyMapN<T, const N: usize>(pub Vec<([u8; N], T)>);

/// Why a map key could not be read.
#[derive(Debug, Clone, PartialEq, Eq)]
pub enum HexKeyError {
    /// The key does not start with `0x`.
    MissingPrefix,
    /// The key does not have `2N` bytes after `0x`; `got` is the number it has.
    WrongLength { expected: usize, got: usize },
    /// The two bytes of pair `index` (after `0x`) are not a hex byte.
    InvalidHexByte { index: usize },
}

/// The UTF-8 bytes of a text.
pub open spec fn utf8(s: Seq<char>) -> Seq<u8> {
    vstd::utf8::encode_utf8(s)
}

pub open spec fn has_0x(b: Seq<u8>) -> bool {
    b.len() >= 2 && b[0] == 0x30 && b[1] == 0x78
}

/// What `u8::from_str_radix(pair, 16)` gives for pair `i` of the digits `d`.
pub open spec fn spec_pair(d: Seq<u8>, i: int) -> Option<nat> {
    spec_parse_radix(d.subrange(2 * i, 2 * i + 2), 16, 255)
}

/// Pair `i` is the first pair of `d` that is no hex byte.
pub open spec fn first_bad_pair(d: Seq<u8>, n: nat, i: int) -> bool {
    &&& 0 <= i < n
    &&& spec_pair(d, i) is None
    &&& forall|j: int| 0 <= j < i ==> #[trigger] spec_pair(d, j) is Some
}

/// Reading the key slices the text after `0x` two bytes at a time; a slice
/// that ends inside a multi-byte character panics. That happens at the
/// first pair that is no hex byte when the byte after it continues a
/// character.
pub open spec fn spec_hex_key_panics(b: Seq<u8>, n: nat) -> bool {
    let d = b.skip(2);
    &&& has_0x(b)
    &&& d.len() == 2 * n
    &&& exists|i: int|
        first_bad_pair(d, n, i) && 2 * i + 2 < d.len() && vstd::utf8::is_continuation_byte(
            #[trigger] d[2 * i + 2],
        )
}

/// The result of reading a key from its UTF-8 bytes `b`.
pub open spec fn spec_decode_hex_key(b: Seq<u8>, n: nat) -> Result<Seq<u8>, HexKeyError> {
    let d = b.skip(2);
    if !has_0x(b) {
        Err(HexKeyError::MissingPrefix)
    } else if d.len() != 2 * n {
        Err(HexKeyError::WrongLength { expected: (2 * n) as usize, got: d.len() as usize })
    } else if exists|i: int| first_bad_pair(d, n, i) {
        Err(HexKeyError::InvalidHexByte { index: (choose|i: int| first_bad_pair(d, n, i)) as usize })
    } else {
        Ok(Seq::new(n, |i: int| spec_pair(d, i)->0 as u8))
    }
}

/// The text of a key: `"0x"` then two lower-case hex digits per byte.
pub open spec fn spec_encode_hex_key(key: Seq<u8>) -> Seq<char> {
    "0x"@ + spec_bytes_hex_lower(key)
}

/// Writes a key as `"0x"` followed by two lower-case hex digits per byte,
/// e.g. `"0x001122aabbcc"`.
pub fn encode_hex_key<const N: usize>(key: &[u8; N]) -> (r: String)
    ensures
        r@ == spec_encode_hex_key(key@),
{
    let mut s = String::from_str("0x");
    push_bytes_hex(&mut s, key.as_slice(), false);
    s
}

proof fn lemma_pair_prefix_ok(d: Seq<u8>, n: nat, i: int)
    requires
        0 <= i <= n,
        forall|j: int| 0 <= j < i ==> #[trigger] spec_pair(d, j) is Some,
        !(exists|k: int| first_bad_pair(d, n, k)),
    ensures
        forall|j: int| 0 <= j < n ==> #[trigger] spec_pair(d, j) is Some,
    decreases n - i,
{
    if i < n {
        if spec_pair(d, i) is None {
            assert(first_bad_pair(d, n, i));
        }
        assert forall|j: int| 0 <= j < i + 1 implies #[trigger] spec_pair(d, j) is Some by {
            if j == i {
            }
        }
        lemma_pair_prefix_ok(d, n, i + 1);
    }
}

/// Whether reading the key `key` would slice through a multi-byte character
/// (see `spec_hex_key_panics`).
pub fn hex_key_split_panics<const N: usize>(key: &str) -> (r: bool)
    requires
        2 * N <= usize::MAX,
    ensures
        r == spec_hex_key_panics(utf8(key@), N as nat),
{
    let b = key.as_bytes();
    if !(b.len() >= 2 && b[0] == 0x30 && b[1] == 0x78) {
        return false;
    }
    let ghost d = b@.skip(2);
    let rest = b.len() - 2;
    if rest % 2 != 0 || rest / 2 != N {
        return false;
    }
    let mut i: usize = 0;
    while i < N
        invariant
            i <= N,
            b@.len() == 2 + 2 * N,
            b.len() == 2 + 2 * N,
            2 * N <= usize::MAX,
            d == b@.skip(2),
            b@ == utf8(key@),
            has_0x(b@),
            forall|j: int| 0 <= j < i ==> #[trigger] spec_pair(d, j) is Some,
        decreases N - i,
    {
        let p = parse_radix(b, 2 + 2 * i, 2 + 2 * i + 2, 16, 255);
        assert(b@.subrange(2 + 2 * i, 2 + 2 * i + 2) =~= d.subrange(2 * i, 2 * i + 2));
        if p.is_none() {
            assert(first_bad_pair(d, N as nat, i as int));
            let r = 2 * i + 2 < 2 * N && (0x80 <= b[2 + 2 * i + 2] && b[2 + 2 * i + 2] <= 0xBF);
            proof {
                assert forall|k: int| #[trigger] first_bad_pair(d, N as nat, k) implies k == i by {
                    if k < i {
                        assert(spec_pair(d, k) is Some);
                    } else if k > i {
                        assert(spec_pair(d, i as int) is Some);
                    }
                }
                if 2 * i + 2 < 2 * N {
                    assert(d[2 * i + 2] == b@[2 + 2 * i + 2]);
                }
            }
            return r;
        }
        i = i + 1;
    }
    false
}

/// Reads an `N`-byte key written as `"0x"` followed by `2N` hex digits
/// (each pair read as `u8::from_str_radix(pair, 16)` reads it).
pub fn decode_hex_key<const N: usize>(key: &str) -> (r: Result<[u8; N], HexKeyError>)
    requires
        2 * N <= usize::MAX,
        !spec_hex_key_panics(utf8(key@), N as nat),
    ensures
        match spec_decode_hex_key(utf8(key@), N as nat) {
            Ok(k) => r matches Ok(a) && a@ == k,
            Err(e) => r == Err::<[u8; N], HexKeyError>(e),
        },
{
    let b = key.as_bytes();
    if !(b.len() >= 2 && b[0] == 0x30 && b[1] == 0x78) {
        return Err(HexKeyError::MissingPrefix);
    }
    let ghost d = b@.skip(2);
    let rest = b.len() - 2;
    if rest % 2 != 0 || rest / 2 != N {
        return Err(HexKeyError::WrongLength { expected: 2 * N, got: rest });
    }
    let mut arr: [u8; N] = vstd::array::array_fill_for_copy_types::<u8, N>(0u8);
    let mut i: usize = 0;
    while i < N
        invariant
            i <= N,
            arr@.len() == N,
            b@.len() == 2 + 2 * N,
            b.len() == 2 + 2 * N,
            2 * N <= usize::MAX,
            d == b@.skip(2),
            b@ == utf8(key@),
            has_0x(b@),
            forall|j: int| 0 <= j < i ==> #[trigger] spec_pair(d, j) is Some,
            forall|j: int| 0 <= j < i ==> arr@[j] == spec_pair(d, j)->0 as u8,
        decreases N - i,
    {
        let p = parse_radix(b, 2 + 2 * i, 2 + 2 * i + 2, 16, 255);
        assert(b@.subrange(2 + 2 * i, 2 + 2 * i + 2) =~= d.subrange(2 * i, 2 * i + 2));
        match p {
            Some(v) => {
                arr[i] = v as u8;
            },
            None => {
                proof {
                    assert(first_bad_pair(d, N as nat, i as int));
                    let c = choose|c: int| #[trigger] first_bad_pair(d, N as nat, c);
                    if c < i {
                        assert(spec_pair(d, c) is Some);
                    } else if c > i {
                        assert(spec_pair(d, i as int) is Some);
                    }
                }
                return Err(HexKeyError::InvalidHexByte { index: i });
            },
        }
        i = i + 1;
    }
    proof {
        if exists|k: int| #[trigger] first_bad_pair(d, N as nat, k) {
            let k = choose|k: int| #[trigger] first_bad_pair(d, N as nat, k);
            assert(spec_pair(d, k) is Some);
        }
        assert(arr@ =~= Seq::new(N as nat, |i: int| spec_pair(d, i)->0 as u8));
    }
    Ok(arr)
}

/// The UTF-8 bytes of ASCII text are its characters' codes.
pub proof fn lemma_ascii_utf8(s: Seq<char>)
    requires
        forall|i: int| 0 <= i < s.len() ==> (#[trigger] s[i] as u32) < 0x80,
    ensures
        utf8(s) =~= Seq::new(s.len(), |i: int| s[i] as u32 as u8),
    decreases s.len(),
{
    if s.len() > 0 {
        let rest = s.drop_first();
        lemma_ascii_utf8(rest);
        vstd::utf8::char_is_scalar(s[0]);
        let v = s[0] as u32;
        assert(v < 0x80 ==> (v & 0x7F) as u8 == v as u8) by (bit_vector);
        assert(vstd::utf8::encode_scalar(v) =~= seq![v as u8]);
        assert(utf8(s) == vstd::utf8::encode_scalar(v) + utf8(rest));
        assert forall|i: int| 0 <= i < s.len() implies #[trigger] utf8(s)[i] == s[i] as u32 as u8 by {
            if i > 0 {
                assert(utf8(s)[i] == utf8(rest)[i - 1]);
                assert(rest[i - 1] == s[i]);
            }
        }
    }
}

proof fn lemma_hex_lower_ascii(n: int)
    requires
        0 <= n < 16,
    ensures
        (spec_hex_lower(n) as u32) < 0x80,
        spec_digit_value(spec_hex_lower(n) as u32 as u8) == n,
        spec_hex_lower(n) as u32 as u8 != 0x2b,
{
}

proof fn lemma_bytes_hex_len(k: Seq<u8>)
    ensures
        spec_bytes_hex_lower(k).len() == 2 * k.len(),
        forall|i: int|
            0 <= i < k.len() ==> spec_bytes_hex_lower(k).subrange(2 * i, 2 * i + 2) == spec_byte_hex_lower(
                #[trigger] k[i],
            ),
    decreases k.len(),
{
    if k.len() > 0 {
        let p = k.drop_last();
        lemma_bytes_hex_len(p);
        let h = spec_bytes_hex_lower(k);
        assert forall|i: int|
            0 <= i < k.len() implies h.subrange(2 * i, 2 * i + 2) == spec_byte_hex_lower(
            #[trigger] k[i],
        ) by {
            if i < p.len() {
                assert(h.subrange(2 * i, 2 * i + 2) =~= spec_bytes_hex_lower(p).subrange(2 * i, 2 * i + 2));
                assert(p[i] == k[i]);
            } else {
                assert(h.subrange(2 * i, 2 * i + 2) =~= spec_byte_hex_lower(k.last()));
            }
        }
    }
}

/// A key written by `encode_hex_key` reads back as the same key.
pub proof fn lemma_hex_key_round_trip(key: Seq<u8>)
    ensures
        !spec_hex_key_panics(utf8(spec_encode_hex_key(key)), key.len()),
        spec_decode_hex_key(utf8(spec_encode_hex_key(key)), key.len()) == Ok::<Seq<u8>, HexKeyError>(key),
{
    let t = spec_encode_hex_key(key);
    let h = spec_bytes_hex_lower(key);
    lemma_bytes_hex_len(key);
    assert forall|i: int| 0 <= i < h.len() implies (#[trigger] h[i] as u32) < 0x80 by {
        let j = i / 2;
        assert(h.subrange(2 * j, 2 * j + 2) == spec_byte_hex_lower(key[j]));
        lemma_hex_lower_ascii(key[j] as int / 16);
        lemma_hex_lower_ascii(key[j] as int % 16);
        if i % 2 == 0 {
            assert(h[i] == h.subrange(2 * j, 2 * j + 2)[0]);
        } else {
            assert(h[i] == h.subrange(2 * j, 2 * j + 2)[1]);
        }
    }
    reveal_strlit("0x");
    assert forall|i: int| 0 <= i < t.len() implies (#[trigger] t[i] as u32) < 0x80 by {
        if i >= 2 {
            assert(t[i] == h[i - 2]);
        }
    }
    lemma_ascii_utf8(t);
    let b = utf8(t);
    let d = b.skip(2);
    assert(has_0x(b));
    assert(d.len() == 2 * key.len());
    assert forall|i: int| 0 <= i < key.len() implies #[trigger] spec_pair(d, i) == Some(key[i] as nat) by {
        let pair = d.subrange(2 * i, 2 * i + 2);
        let hi = key[i] as int / 16;
        let lo = key[i] as int % 16;
        lemma_hex_lower_ascii(hi);
        lemma_hex_lower_ascii(lo);
        assert(h.subrange(2 * i, 2 * i + 2) == spec_byte_hex_lower(key[i]));
        assert(pair[0] == spec_hex_lower(hi) as u32 as u8);
        assert(pair[1] == spec_hex_lower(lo) as u32 as u8);
        assert(strip_plus(pair) == pair);
        assert(all_radix_digits(pair, 16));
        reveal_with_fuel(radix_value, 3);
        assert(pair.drop_last().drop_last() =~= Seq::<u8>::empty());
        assert(radix_value(pair, 16) == hi * 16 + lo);
    }
    assert(!exists|i: int| first_bad_pair(d, key.len(), i));
    assert(Seq::new(key.len(), |i: int| spec_pair(d, i)->0 as u8) =~= key);
}

/// The hex digits of `v` as `{:x}` writes them: lower case, no leading zeros,
/// `"0"` for zero.
pub open spec fn spec_hex_digits(v: nat) -> Seq<char>
    decreases v,
{
    if v < 16 {
        seq![spec_hex_lower(v as int)]
    } else {
        spec_hex_digits(v / 16).push(spec_hex_lower((v % 16) as int))
    }
}

/// The text of a `HexValue`: `"0x"` then the hex digits of the value.
pub open spec fn spec_format_hex_value(v: u64) -> Seq<char> {
    "0x"@ + spec_hex_digits(v as nat)
}

/// What reading a `HexValue` from the UTF-8 bytes `b` gives: `"0x"`, then
/// what `u64::from_str_radix(rest, 16)` accepts.
pub open spec fn spec_parse_hex_value(b: Seq<u8>) -> Option<u64> {
    if has_0x(b) {
        match spec_parse_radix(b.skip(2), 16, 0xffff_ffff_ffff_ffff) {
            Some(v) => Some(v as u64),
            None => None,
        }
    } else {
        None
    }
}

fn push_hex_digits(s: &mut String, v: u64)
    ensures
        final(s)@ == old(s)@ + spec_hex_digits(v as nat),
    decreases v,
{
    if v >= 16 {
        push_hex_digits(s, v / 16);
    }
    let c = crate::text::hex_digit((v % 16) as u8, false);
    crate::text::push_char(s, c);
    proof {
        if v >= 16 {
            assert(s@ =~= old(s)@ + spec_hex_digits(v as nat));
        } else {
            assert(s@ =~= old(s)@ + spec_hex_digits(v as nat));
        }
    }
}

impl HexValue {
    /// Writes the value as `"0x{:x}"`, e.g. `"0xc0decafe"`.
    pub fn format(&self) -> (r: String)
        ensures
            r@ == spec_format_hex_value(self.0),
    {
        let mut s = String::from_str("0x");
        push_hex_digits(&mut s, self.0);
        s
    }

    /// Reads a value written as `"0x"` followed by hex digits (as
    /// `u64::from_str_radix(rest, 16)` reads them); `None` when the text is not
    /// of that form.
    pub fn parse(v: &str) -> (r: Option<HexValue>)
        ensures
            match spec_parse_hex_value(utf8(v@)) {
                Some(x) => r == Some(HexValue(x)),
                None => r is None,
            },
    {
        let b = v.as_bytes();
        if !(b.len() >= 2 && b[0] == 0x30 && b[1] == 0x78) {
            return None;
        }
        let p = parse_radix(b, 2, b.len(), 16, 0xffff_ffff_ffff_ffff);
        assert(b@.subrange(2, b@.len() as int) =~= b@.skip(2));
        match p {
            Some(x) => Some(HexValue(x)),
            None => None,
        }
    }
}

/// The UTF-8 bytes of the hex digits of `v`, and their value.
proof fn lemma_hex_digits_bytes(v: nat)
    ensures
        forall|i: int| 0 <= i < spec_hex_digits(v).len() ==> (#[trigger] spec_hex_digits(v)[i] as u32) < 0x80,
        forall|i: int|
            0 <= i < spec_hex_digits(v).len() ==> crate::numparse::is_radix_digit(
                #[trigger] spec_hex_digits(v)[i] as u32 as u8,
                16,
            ),
        radix_value(Seq::new(spec_hex_digits(v).len(), |i: int| spec_hex_digits(v)[i] as u32 as u8), 16) == v,
        spec_hex_digits(v).len() > 0,
        spec_hex_digits(v)[0] as u32 as u8 != 0x2b,
    decreases v,
{
    let ds = spec_hex_digits(v);
    let bs = Seq::new(ds.len(), |i: int| ds[i] as u32 as u8);
    if v < 16 {
        lemma_hex_lower_ascii(v as int);
        reveal_with_fuel(radix_value, 2);
        assert(bs.drop_last() =~= Seq::<u8>::empty());
    } else {
        lemma_hex_digits_bytes(v / 16);
        lemma_hex_lower_ascii((v % 16) as int);
        let ps = spec_hex_digits(v / 16);
        let pb = Seq::new(ps.len(), |i: int| ps[i] as u32 as u8);
        assert(bs.drop_last() =~= pb);
        assert(ds[ds.len() - 1] == spec_hex_lower((v % 16) as int));
        assert(ds[0] == ps[0]);
    }
}

/// A value written by `HexValue::format` reads back as the same value.
pub proof fn lemma_hex_value_round_trip(v: u64)
    ensures
        spec_parse_hex_value(utf8(spec_format_hex_value(v))) == Some(v),
{
    let t = spec_format_hex_value(v);
    let ds = spec_hex_digits(v as nat);
    lemma_hex_digits_bytes(v as nat);
    reveal_strlit("0x");
    assert forall|i: int| 0 <= i < t.len() implies (#[trigger] t[i] as u32) < 0x80 by {
        if i >= 2 {
            assert(t[i] == ds[i - 2]);
        }
    }
    lemma_ascii_utf8(t);
    let b = utf8(t);
    let d = b.skip(2);
    assert(d =~= Seq::new(ds.len(), |i: int| ds[i] as u32 as u8));
    assert(strip_plus(d) == d);
    assert(all_radix_digits(d, 16));
}

/// The map that a list of entries denotes: later entries win.
pub open spec fn entries_map<T, const N: usize>(s: Seq<([u8; N], T)>) -> Map<Seq<u8>, T>
    decreases s.len(),
{
    if s.len() == 0 {
        Map::empty()
    } else {
        entries_map(s.drop_last()).insert(s.last().0@, s.last().1)
    }
}

/// No key occurs twice.
pub open spec fn distinct_keys<T, const N: usize>(s: Seq<([u8; N], T)>) -> bool {
    forall|i: int, j: int| 0 <= i < j < s.len() ==> s[i].0@ != s[j].0@
}

proof fn lemma_entries_map_dom<T, const N: usize>(s: Seq<([u8; N], T)>, k: Seq<u8>)
    ensures
        entries_map(s).dom().contains(k) <==> exists|i: int| 0 <= i < s.len() && s[i].0@ == k,
    decreases s.len(),
{
    if s.len() > 0 {
        lemma_entries_map_dom(s.drop_last(), k);
        if exists|i: int| 0 <= i < s.len() && s[i].0@ == k {
            let i = choose|i: int| 0 <= i < s.len() && s[i].0@ == k;
            if i < s.len() - 1 {
                assert(s.drop_last()[i].0@ == k);
            }
        }
        if exists|i: int| 0 <= i < s.drop_last().len() && s.drop_last()[i].0@ == k {
            let i = choose|i: int| 0 <= i < s.drop_last().len() && s.drop_last()[i].0@ == k;
            assert(s[i].0@ == k);
        }
    }
}

proof fn lemma_entries_map_update<T, const N: usize>(s: Seq<([u8; N], T)>, i: int, key: [u8; N], v: T)
    requires
        distinct_keys(s),
        0 <= i < s.len(),
        s[i].0@ == key@,
    ensures
        entries_map(s.update(i, (key, v))) == entries_map(s).insert(key@, v),
    decreases s.len(),
{
    let u = s.update(i, (key, v));
    if i == s.len() - 1 {
        assert(u.drop_last() =~= s.drop_last());
        assert(entries_map(u) =~= entries_map(s).insert(key@, v));
    } else {
        let p = s.drop_last();
        assert(u.drop_last() =~= p.update(i, (key, v)));
        lemma_entries_map_update(p, i, key, v);
        assert(s.last().0@ != key@);
        assert(entries_map(u) =~= entries_map(s).insert(key@, v));
    }
}

proof fn lemma_entries_map_remove<T, const N: usize>(s: Seq<([u8; N], T)>, i: int)
    requires
        distinct_keys(s),
        0 <= i < s.len(),
    ensures
        distinct_keys(s.remove(i)),
        entries_map(s.remove(i)) == entries_map(s).remove(s[i].0@),
    decreases s.len(),
{
    let k = s[i].0@;
    let r = s.remove(i);
    assert forall|a: int, b: int| 0 <= a < b < r.len() implies r[a].0@ != r[b].0@ by {
        let a2 = if a < i { a } else { a + 1 };
        let b2 = if b < i { b } else { b + 1 };
        assert(r[a] == s[a2]);
        assert(r[b] == s[b2]);
    }
    if i == s.len() - 1 {
        assert(r =~= s.drop_last());
        lemma_entries_map_dom(s.drop_last(), k);
        assert(entries_map(r) =~= entries_map(s).remove(k));
    } else {
        let p = s.drop_last();
        assert(r.drop_last() =~= p.remove(i));
        assert(r.last() == s.last());
        lemma_entries_map_remove(p, i);
        assert(s.last().0@ != k);
        assert(entries_map(r) =~= entries_map(s).remove(k));
    }
}

impl<T, const N: usize> Default for HexKeyMapN<T, N> {
    /// The empty map.
    fn default() -> (r: Self)
        ensures
            r.wf(),
            r.spec_map() == Map::<Seq<u8>, T>::empty(),
    {
        HexKeyMapN(Vec::new())
    }
}

impl<T, const N: usize> HexKeyMapN<T, N> {
    /// Keys are distinct.
    pub open spec fn wf(&self) -> bool {
        distinct_keys(self.0@)
    }

    /// The map from key bytes to values.
    pub open spec fn spec_map(&self) -> Map<Seq<u8>, T> {
        entries_map(self.0@)
    }

    pub fn new() -> (r: Self)
        ensures
            r.wf(),
            r.spec_map() == Map::<Seq<u8>, T>::empty(),
    {
        HexKeyMapN(Vec::new())
    }

    pub fn len(&self) -> (r: usize)
        requires
            self.wf(),
        ensures
            r == self.spec_map().dom().len(),
    {
        proof {
            lemma_distinct_entries_len(self.0@);
        }
        self.0.len()
    }

    /// Position of `key`, if present.
    fn position(&self, key: &[u8; N]) -> (r: Option<usize>)
        ensures
            r matches Some(i) ==> i < self.0@.len() && self.0@[i as int].0@ == key@,
            r is None ==> forall|i: int| 0 <= i < self.0@.len() ==> self.0@[i].0@ != key@,
    {
        let mut i: usize = 0;
        while i < self.0.len()
            invariant
                i <= self.0@.len(),
                forall|j: int| 0 <= j < i ==> self.0@[j].0@ != key@,
            decreases self.0@.len() - i,
        {
            if keys_equal(&self.0[i].0, key) {
                return Some(i);
            }
            i = i + 1;
        }
        None
    }

    /// Inserts or replaces the value of `key`.
    pub fn insert(&mut self, key: [u8; N], value: T)
        requires
            old(self).wf(),
        ensures
            final(self).wf(),
            final(self).spec_map() == old(self).spec_map().insert(key@, value),
    {
        match self.position(&key) {
            Some(i) => {
                proof {
                    lemma_entries_map_update(self.0@, i as int, key, value);
                }
                self.0[i] = (key, value);
                proof {
                    assert(self.0@ == old(self).0@.update(i as int, (key, value)));
                }
            },
            None => {
                self.0.push((key, value));
                proof {
                    assert(self.0@.drop_last() =~= old(self).0@);
                }
            },
        }
    }

    /// The value of `key`, if present.
    pub fn get(&self, key: &[u8; N]) -> (r: Option<&T>)
        requires
            self.wf(),
        ensures
            r is Some <==> self.spec_map().dom().contains(key@),
            r matches Some(v) ==> *v == self.spec_map()[key@],
    {
        proof {
            lemma_entries_map_dom(self.0@, key@);
        }
        match self.position(key) {
            Some(i) => {
                proof {
                    lemma_entries_map_value(self.0@, i as int);
                }
                Some(&self.0[i].1)
            },
            None => None,
        }
    }

    /// Removes `key`, giving back its value if it was present.
    pub fn remove(&mut self, key: &[u8; N]) -> (r: Option<T>)
        requires
            old(self).wf(),
        ensures
            final(self).wf(),
            final(self).spec_map() == old(self).spec_map().remove(key@),
            r is Some <==> old(self).spec_map().dom().contains(key@),
            r matches Some(v) ==> v == old(self).spec_map()[key@],
    {
        proof {
            lemma_entries_map_dom(self.0@, key@);
        }
        match self.position(key) {
            Some(i) => {
                proof {
                    lemma_entries_map_remove(self.0@, i as int);
                    lemma_entries_map_value(self.0@, i as int);
                }
                let (_, v) = self.0.remove(i);
                Some(v)
            },
            None => {
                assert(old(self).spec_map().remove(key@) =~= old(self).spec_map());
                None
            },
        }
    }

    /// The keys, each once, in the order of the entries.
    pub fn keys(&self) -> (r: Vec<[u8; N]>)
        requires
            self.wf(),
        ensures
            forall|k: Seq<u8>| self.spec_map().dom().contains(k) <==> exists|i: int| 0 <= i < r@.len() && r@[i]@ == k,
            forall|i: int, j: int| 0 <= i < j < r@.len() ==> r@[i]@ != r@[j]@,
    {
        let mut r: Vec<[u8; N]> = Vec::new();
        let mut i: usize = 0;
        while i < self.0.len()
            invariant
                i <= self.0@.len(),
                r@.len() == i,
                forall|j: int| 0 <= j < i ==> r@[j] == self.0@[j].0,
            decreases self.0@.len() - i,
        {
            r.push(self.0[i].0);
            i = i + 1;
        }
        proof {
            assert forall|k: Seq<u8>| self.spec_map().dom().contains(k) <==> exists|i: int| 0 <= i < r@.len() && r@[i]@ == k by {
                lemma_entries_map_dom(self.0@, k);
                if exists|i: int| 0 <= i < r@.len() && r@[i]@ == k {
                    let i = choose|i: int| 0 <= i < r@.len() && r@[i]@ == k;
                    assert(self.0@[i].0@ == k);
                }
                if exists|i: int| 0 <= i < self.0@.len() && self.0@[i].0@ == k {
                    let i = choose|i: int| 0 <= i < self.0@.len() && self.0@[i].0@ == k;
                    assert(r@[i]@ == k);
                }
            }
            assert forall|i: int, j: int| 0 <= i < j < r@.len() implies r@[i]@ != r@[j]@ by {
                assert(r@[i] == self.0@[i].0);
                assert(r@[j] == self.0@[j].0);
            }
        }
        r
    }

    /// The key texts written for the entries, in entry order (as the map is
    /// serialized: `"0x"` and two lower-case hex digits per byte).
    pub fn encoded_keys(&self) -> (r: Vec<String>)
        ensures
            r@.len() == self.0@.len(),
            forall|i: int| 0 <= i < r@.len() ==> #[trigger] r@[i]@ == spec_encode_hex_key(self.0@[i].0@),
    {
        let mut r: Vec<String> = Vec::new();
        let mut i: usize = 0;
        while i < self.0.len()
            invariant
                i <= self.0@.len(),
                r@.len() == i,
                forall|j: int| 0 <= j < i ==> #[trigger] r@[j]@ == spec_encode_hex_key(self.0@[j].0@),
            decreases self.0@.len() - i,
        {
            r.push(encode_hex_key(&self.0[i].0));
            i = i + 1;
        }
        r
    }

    /// Builds the map from `(key text, value)` entries read in order, as
    /// deserialization does: each key text is read with `decode_hex_key`, a
    /// later entry replaces an earlier one with the same key, and the first
    /// key that cannot be read is the error.
    pub fn from_entries(entries: Vec<(String, T)>) -> (r: Result<Self, HexKeyError>)
        requires
            2 * N <= usize::MAX,
            no_key_panics::<T, N>(entries@),
        ensures
            match spec_entries::<T, N>(entries@) {
                Ok(m) => r matches Ok(x) && x.wf() && x.spec_map() == m,
                Err(e) => r matches Err(x) && x == e,
            },
    {
        let ghost all = entries@;
        let total = entries.len();
        let mut rest = entries;
        let mut out: Self = Self::new();
        let mut k: usize = 0;
        while rest.len() > 0
            invariant
                2 * N <= usize::MAX,
                no_key_panics::<T, N>(all),
                k <= all.len(),
                total == all.len(),
                all == entries@,
                rest@ == all.skip(k as int),
                out.wf(),
                spec_entries::<T, N>(all.take(k as int)) == Ok::<Map<Seq<u8>, T>, HexKeyError>(out.spec_map()),
            decreases rest@.len(),
        {
            let (text, value) = rest.remove(0);
            proof {
                assert(all[k as int] == (text, value));
                assert(all.take(k + 1).drop_last() =~= all.take(k as int));
                assert(all.take(k + 1).last() == all[k as int]);
            }
            match decode_hex_key::<N>(text.as_str()) {
                Ok(key) => {
                    out.insert(key, value);
                },
                Err(e) => {
                    proof {
                        assert(spec_entries::<T, N>(all.take(k + 1)) == Err::<Map<Seq<u8>, T>, HexKeyError>(e));
                        lemma_entries_error_persists::<T, N>(all, k as int + 1);
                    }
                    return Err(e);
                },
            }
            k = k + 1;
            proof {
                assert(rest@ =~= all.skip(k as int));
            }
        }
        proof {
            assert(all.take(k as int) =~= all);
        }
        Ok(out)
    }
}

/// Whether two keys are equal.
fn keys_equal<const N: usize>(a: &[u8; N], b: &[u8; N]) -> (r: bool)
    ensures
        r == (a@ == b@),
{
    let mut i: usize = 0;
    while i < N
        invariant
            i <= N,
            a@.len() == N,
            b@.len() == N,
            forall|j: int| 0 <= j < i ==> a@[j] == b@[j],
        decreases N - i,
    {
        if a[i] != b[i] {
            return false;
        }
        i = i + 1;
    }
    assert(a@ =~= b@);
    true
}

proof fn lemma_entries_map_value<T, const N: usize>(s: Seq<([u8; N], T)>, i: int)
    requires
        distinct_keys(s),
        0 <= i < s.len(),
    ensures
        entries_map(s).dom().contains(s[i].0@),
        entries_map(s)[s[i].0@] == s[i].1,
    decreases s.len(),
{
    if i < s.len() - 1 {
        lemma_entries_map_value(s.drop_last(), i);
        assert(s.last().0@ != s[i].0@);
    }
}

proof fn lemma_distinct_entries_len<T, const N: usize>(s: Seq<([u8; N], T)>)
    requires
        distinct_keys(s),
    ensures
        entries_map(s).dom().finite(),
        entries_map(s).dom().len() == s.len(),
    decreases s.len(),
{
    if s.len() > 0 {
        let p = s.drop_last();
        lemma_distinct_entries_len(p);
        lemma_entries_map_dom(p, s.last().0@);
        assert(!entries_map(p).dom().contains(s.last().0@));
    }
}

/// What reading a list of `(key text, value)` entries gives: the map of the
/// decoded keys (later entries win), or the first key error.
pub open spec fn spec_entries<T, const N: usize>(e: Seq<(String, T)>) -> Result<Map<Seq<u8>, T>, HexKeyError>
    decreases e.len(),
{
    if e.len() == 0 {
        Ok(Map::empty())
    } else {
        match spec_entries::<T, N>(e.drop_last()) {
            Err(x) => Err(x),
            Ok(m) => match spec_decode_hex_key(utf8(e.last().0@), N as nat) {
                Err(x) => Err(x),
                Ok(k) => Ok(m.insert(k, e.last().1)),
            },
        }
    }
}

/// No key that is read (every key before the first error) slices through a
/// multi-byte character.
pub open spec fn no_key_panics<T, const N: usize>(e: Seq<(String, T)>) -> bool {
    forall|k: int|
        0 <= k < e.len() && #[trigger] spec_entries::<T, N>(e.take(k)) is Ok ==> !spec_hex_key_panics(
            utf8(e[k].0@),
            N as nat,
        )
}

proof fn lemma_entries_error_persists<T, const N: usize>(e: Seq<(String, T)>, k: int)
    requires
        0 <= k <= e.len(),
        spec_entries::<T, N>(e.take(k)) is Err,
    ensures
        spec_entries::<T, N>(e) == spec_entries::<T, N>(e.take(k)),
    decreases e.len() - k,
{
    if k < e.len() {
        assert(e.take(k + 1).drop_last() =~= e.take(k));
        lemma_entries_error_persists::<T, N>(e, k + 1);
    } else {
        assert(e.take(k) =~= e);
    }
}

/// Writing a map's entries with their encoded keys and reading them back
/// gives the same map: no key read panics and every key reads back as
/// itself.
pub proof fn lemma_entries_round_trip<T, const N: usize>(s: Seq<([u8; N], T)>, e: Seq<(String, T)>)
    requires
        e.len() == s.len(),
        forall|i: int|
            0 <= i < s.len() ==> #[trigger] e[i].0@ == spec_encode_hex_key(s[i].0@) && e[i].1 == s[i].1,
    ensures
        spec_entries::<T, N>(e) == Ok::<Map<Seq<u8>, T>, HexKeyError>(entries_map(s)),
        no_key_panics::<T, N>(e),
    decreases s.len(),
{
    if s.len() > 0 {
        let n = s.len() - 1;
        lemma_entries_round_trip::<T, N>(s.drop_last(), e.drop_last());
        lemma_hex_key_round_trip(s[n].0@);
        assert(e.last().0@ == spec_encode_hex_key(s.last().0@));
        assert(s.last().0@.len() == N);
        assert(spec_entries::<T, N>(e) == Ok::<Map<Seq<u8>, T>, HexKeyError>(entries_map(s)));
        assert forall|k: int| 0 <= k < e.len() && #[trigger] spec_entries::<T, N>(e.take(k)) is Ok implies !spec_hex_key_panics(
            utf8(e[k].0@),
            N as nat,
        ) by {
            lemma_hex_key_round_trip(s[k].0@);
            assert(e[k].0@ == spec_encode_hex_key(s[k].0@));
        }
    }
}


/// The characters of a key that hold bytes `2 + 2i` and `3 + 2i` of its
/// UTF-8 text (the pair read as hex byte `i`): two ASCII characters, or one
/// two-byte character.
pub open spec fn spec_pair_text(key: Seq<char>, i: int) -> Seq<char> {
    if (key[2 + 2 * i] as u32) < 0x80 {
        key.subrange(2 + 2 * i, 4 + 2 * i)
    } else {
        key.subrange(2 + 2 * i, 3 + 2 * i)
    }
}

/// The text the configuration loader reports for a key error of a map with
/// `n`-byte keys.
pub open spec fn spec_key_error_text(key: Seq<char>, e: HexKeyError, n: nat) -> Seq<char> {
    match e {
        HexKeyError::MissingPrefix => "Missing 0x prefix: "@ + key,
        HexKeyError::WrongLength { expected, got } => "Expected "@ + spec_decimal(expected as nat)
            + " hex digits ("@ + spec_decimal(n) + " bytes), got "@ + spec_decimal(got as nat) + ": "@
            + key,
        HexKeyError::InvalidHexByte { index } => "Invalid hex byte: "@ + spec_pair_text(key, index as int),
    }
}

/// A two-byte text that parses as a hex byte is ASCII.
proof fn lemma_pair_ascii(x: Seq<u8>)
    requires
        x.len() == 2,
        spec_parse_radix(x, 16, 255) is Some,
    ensures
        x[0] < 0x80,
        x[1] < 0x80,
{
    let d = strip_plus(x);
    assert(all_radix_digits(d, 16));
    if x[0] == 0x2b {
        assert(d[0] == x[1]);
        assert(spec_digit_value(d[0]) >= 0);
    } else {
        assert(d[0] == x[0] && d[1] == x[1]);
        assert(spec_digit_value(d[0]) >= 0);
        assert(spec_digit_value(d[1]) >= 0);
    }
}

/// The first byte of a character's UTF-8 encoding is ASCII only for an
/// ASCII character; every other byte of a longer encoding continues it.
proof fn lemma_encode_scalar_shape(c: char)
    ensures
        (c as u32) < 0x80 ==> vstd::utf8::encode_scalar(c as u32) == seq![c as u32 as u8],
        (c as u32) >= 0x80 ==> vstd::utf8::encode_scalar(c as u32)[0] >= 0xC0,
        (c as u32) >= 0x80 ==> vstd::utf8::encode_scalar(c as u32).len() >= 2,
        (c as u32) >= 0x80 ==> vstd::utf8::is_continuation_byte(vstd::utf8::encode_scalar(c as u32)[1]),
        (c as u32) >= 0x800 ==> vstd::utf8::encode_scalar(c as u32).len() >= 3,
        (c as u32) >= 0x800 ==> vstd::utf8::is_continuation_byte(vstd::utf8::encode_scalar(c as u32)[2]),
        0x80 <= (c as u32) < 0x800 ==> vstd::utf8::encode_scalar(c as u32).len() == 2,
{
    vstd::utf8::char_is_scalar(c);
    let v = c as u32;
    assert(v < 0x80 ==> (v & 0x7F) as u8 == v as u8) by (bit_vector);
    assert(forall|y: u8| #[trigger] (0xC0u8 | y) >= 0xC0) by (bit_vector);
    assert(forall|y: u8| #[trigger] (0xE0u8 | y) >= 0xC0) by (bit_vector);
    assert(forall|y: u8| #[trigger] (0xF0u8 | y) >= 0xC0) by (bit_vector);
    assert(forall|y: u32| 0x80u8 <= #[trigger] (0x80u8 | (y & 0x3F) as u8) <= 0xBFu8) by (bit_vector);
    assert(forall|y: u32| 0x80u8 <= #[trigger] (0x80u8 | ((y >> 6) & 0x3F) as u8) <= 0xBFu8) by (bit_vector);
    assert(forall|y: u32| 0x80u8 <= #[trigger] (0x80u8 | ((y >> 12) & 0x3F) as u8) <= 0xBFu8) by (bit_vector);
}

/// When the first `m` bytes of a text's UTF-8 form are ASCII, so are its
/// first `m` characters, and the bytes from `m` on encode the characters
/// from `m` on.
proof fn lemma_ascii_byte_prefix(s: Seq<char>, m: int)
    requires
        0 <= m <= utf8(s).len(),
        forall|j: int| 0 <= j < m ==> #[trigger] utf8(s)[j] < 0x80,
    ensures
        m <= s.len(),
        forall|j: int| 0 <= j < m ==> (#[trigger] s[j] as u32) < 0x80,
        utf8(s).skip(m) == utf8(s.skip(m)),
    decreases m,
{
    if m == 0 {
        assert(s.skip(0) =~= s);
        assert(utf8(s).skip(0) =~= utf8(s));
    } else {
        assert(s.len() > 0);
        let rest = s.drop_first();
        lemma_encode_scalar_shape(s[0]);
        assert(utf8(s) == vstd::utf8::encode_scalar(s[0] as u32) + utf8(rest));
        assert(utf8(s)[0] < 0x80);
        assert((s[0] as u32) < 0x80);
        assert(utf8(rest) =~= utf8(s).skip(1));
        assert forall|j: int| 0 <= j < m - 1 implies #[trigger] utf8(rest)[j] < 0x80 by {
            assert(utf8(rest)[j] == utf8(s)[j + 1]);
        }
        lemma_ascii_byte_prefix(rest, m - 1);
        assert forall|j: int| 0 <= j < m implies (#[trigger] s[j] as u32) < 0x80 by {
            if j > 0 {
                assert(s[j] == rest[j - 1]);
            }
        }
        assert(rest.skip(m - 1) =~= s.skip(m));
        assert(utf8(rest).skip(m - 1) =~= utf8(s).skip(m));
    }
}

/// For the pair that a key is refused at, the characters `spec_pair_text`
/// names are exactly the pair's two bytes of the key's UTF-8 text (the
/// slice the loader quotes).
pub proof fn lemma_pair_text_bytes(key: Seq<char>, n: nat, i: int)
    requires
        spec_decode_hex_key(utf8(key), n) == Err::<Seq<u8>, HexKeyError>(
            HexKeyError::InvalidHexByte { index: i as usize },
        ),
        !spec_hex_key_panics(utf8(key), n),
        0 <= i < usize::MAX,
        n <= usize::MAX,
    ensures
        2 + 2 * i < key.len(),
        (key[2 + 2 * i] as u32) < 0x80 ==> 3 + 2 * i < key.len(),
        utf8(spec_pair_text(key, i)) == utf8(key).subrange(2 + 2 * i, 4 + 2 * i),
{
    let b = utf8(key);
    let d = b.skip(2);
    assert(has_0x(b));
    assert(d.len() == 2 * n);
    assert(exists|k: int| first_bad_pair(d, n, k));
    let k = choose|k: int| first_bad_pair(d, n, k);
    assert(0 <= k < n);
    assert(k as usize == k);
    assert(i as usize == i);
    assert(k == i);
    let m = 2 + 2 * i;
    assert forall|j: int| 0 <= j < m implies #[trigger] b[j] < 0x80 by {
        if j >= 2 {
            let q = (j - 2) / 2;
            assert(0 <= q < i);
            assert(spec_pair(d, q) is Some);
            lemma_pair_ascii(d.subrange(2 * q, 2 * q + 2));
            assert(d.subrange(2 * q, 2 * q + 2)[j - 2 - 2 * q] == b[j]);
        }
    }
    lemma_ascii_byte_prefix(key, m);
    let t = key.skip(m);
    assert(utf8(t) == b.skip(m));
    assert(b.skip(m).len() >= 2);
    assert(t.len() > 0);
    let t1 = t.drop_first();
    lemma_encode_scalar_shape(t[0]);
    assert(utf8(t) == vstd::utf8::encode_scalar(t[0] as u32) + utf8(t1));
    assert(t[0] == key[m]);
    if (t[0] as u32) < 0x80 {
        assert(vstd::utf8::encode_scalar(t[0] as u32) == seq![t[0] as u32 as u8]);
        assert((seq![t[0] as u32 as u8] + utf8(t1)).skip(1) =~= utf8(t1));
        assert(b.skip(m).skip(1) =~= b.skip(m + 1));
        assert(utf8(t1) == b.skip(m + 1));
        assert(t1.len() > 0);
        lemma_encode_scalar_shape(t1[0]);
        let t2 = t1.drop_first();
        assert(utf8(t1) == vstd::utf8::encode_scalar(t1[0] as u32) + utf8(t2));
        if (t1[0] as u32) >= 0x80 {
            assert(utf8(t1)[1] == vstd::utf8::encode_scalar(t1[0] as u32)[1]);
            assert(b.skip(m + 1)[1] == b[m + 2]);
            assert(d[2 * i + 2] == b[m + 2]);
            assert(first_bad_pair(d, n, i) && 2 * i + 2 < d.len() && vstd::utf8::is_continuation_byte(d[2 * i + 2]));
            assert(false);
        }
        assert(t1[0] == key[m + 1]);
        let pt = key.subrange(m, m + 2);
        assert(pt =~= seq![key[m], key[m + 1]]);
        assert(pt.drop_first() =~= seq![key[m + 1]]);
        assert(pt.drop_first().drop_first() =~= Seq::<char>::empty());
        assert(pt[0] == key[m] && pt[1] == key[m + 1]);
        lemma_ascii_utf8(pt);
        assert(utf8(pt) =~= seq![key[m] as u32 as u8, key[m + 1] as u32 as u8]);
        assert(utf8(t)[0] == t[0] as u32 as u8);
        assert(b.skip(m)[0] == b[m]);
        assert(b[m] == key[m] as u32 as u8);
        assert(vstd::utf8::encode_scalar(t1[0] as u32) == seq![t1[0] as u32 as u8]);
        assert(utf8(t1)[0] == t1[0] as u32 as u8);
        assert(b.skip(m + 1)[0] == b[m + 1]);
        assert(b[m + 1] == key[m + 1] as u32 as u8);
    } else {
        if (t[0] as u32) >= 0x800 {
            assert(utf8(t)[2] == vstd::utf8::encode_scalar(t[0] as u32)[2]);
            assert(b.skip(m)[2] == b[m + 2]);
            assert(d[2 * i + 2] == b[m + 2]);
            assert(first_bad_pair(d, n, i) && 2 * i + 2 < d.len() && vstd::utf8::is_continuation_byte(d[2 * i + 2]));
            assert(false);
        }
        let pt = key.subrange(m, m + 1);
        assert(pt =~= seq![key[m]]);
        assert(pt.drop_first() =~= Seq::<char>::empty());
        assert(pt[0] == key[m]);
        assert(utf8(pt) == vstd::utf8::encode_scalar(pt[0] as u32) + utf8(pt.drop_first()));
        assert(utf8(Seq::<char>::empty()) =~= Seq::<u8>::empty());
        assert(utf8(pt) =~= vstd::utf8::encode_scalar(key[m] as u32));
        assert forall|j: int| 0 <= j < 2 implies #[trigger] utf8(pt)[j] == b[m + j] by {
            assert(utf8(t)[j] == vstd::utf8::encode_scalar(t[0] as u32)[j]);
            assert(b.skip(m)[j] == b[m + j]);
        }
    }
    assert(utf8(spec_pair_text(key, i)) =~= b.subrange(m, m + 2));
}

impl HexKeyError {
    /// The text reported for this error on `key`, a key of a map with
    /// `N`-byte keys.
    pub fn message<const N: usize>(&self, key: &str) -> (r: String)
        requires
            2 * N <= usize::MAX,
            self is InvalidHexByte ==> spec_decode_hex_key(utf8(key@), N as nat) == Err::<Seq<u8>, HexKeyError>(
                *self,
            ),
            !spec_hex_key_panics(utf8(key@), N as nat),
        ensures
            r@ == spec_key_error_text(key@, *self, N as nat),
    {
        match self {
            HexKeyError::MissingPrefix => {
                let mut s = String::from_str("Missing 0x prefix: ");
                s.append(key);
                s
            },
            HexKeyError::WrongLength { expected, got } => {
                let mut s = String::from_str("Expected ");
                push_decimal(&mut s, *expected as u64);
                s.append(" hex digits (");
                push_decimal(&mut s, N as u64);
                s.append(" bytes), got ");
                push_decimal(&mut s, *got as u64);
                s.append(": ");
                s.append(key);
                s
            },
            HexKeyError::InvalidHexByte { index } => {
                proof {
                    lemma_pair_text_bytes(key@, N as nat, *index as int);
                }
                let at = 2 + 2 * *index;
                let mut s = String::from_str("Invalid hex byte: ");
                let c = key.get_char(at);
                push_char(&mut s, c);
                if (c as u32) < 0x80 {
                    let c2 = key.get_char(at + 1);
                    push_char(&mut s, c2);
                    assert(key@.subrange(at as int, at + 2) =~= seq![c, c2]);
                } else {
                    assert(key@.subrange(at as int, at + 1) =~= seq![c]);
                }
                s
            },
        }
    }
}

} // verus!
