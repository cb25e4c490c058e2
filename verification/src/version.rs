//! `[major, minor, patch]` firmware versions: ordering, compatibility and
//! parsing of `"major.minor.patch"` strings.
use crate::numparse::{parse_radix, spec_parse_radix};
use vstd::prelude::*;

verus! {

/// Lexicographic "strictly greater" on `[major, minor, patch]` triples.
pub open spec fn spec_version_gt(a: [u16; 3], b: [u16; 3]) -> bool {
    ||| a[0] > b[0]
    ||| (a[0] == b[0] && a[1] > b[1])
    ||| (a[0] == b[0] && a[1] == b[1] && a[2] > b[2])
}

/// Compatibility of a device version with a manifest version: for 0.x.y the
/// minor numbers must match, otherwise the major numbers must match.
pub open spec fn spec_versions_compatible(device: [u16; 3], manifest: [u16; 3]) -> bool {
    if device[0] == 0 && manifest[0] == 0 {
        device[1] == manifest[1]
    } else {
        device[0] == manifest[0]
    }
}

/// Checks if two versions are compatible.
/// For 0.x.y versions the minor number must match, for 1+.x.y versions the
/// major number must match.
pub fn versions_compatible(device: [u16; 3], manifest: [u16; 3]) -> (r: bool)
    ensures
        r == spec_versions_compatible(device, manifest),
{
    if device[0] == 0 && manifest[0] == 0 {
        device[1] == manifest[1]
    } else {
        device[0] == manifest[0]
    }
}

/// Checks whether the manifest version is newer than the device version.
pub fn version_newer(device: [u16; 3], manifest: [u16; 3]) -> (r: bool)
    ensures
        r == spec_version_gt(manifest, device),
{
    if manifest[0] != device[0] {
        return manifest[0] > device[0];
    }
    if manifest[1] != device[1] {
        return manifest[1] > device[1];
    }
    manifest[2] > device[2]
}

/// Whether `version` is at least `required` (lexicographic order).
pub fn semver_at_least(version: [u16; 3], required: [u16; 3]) -> (r: bool)
    ensures
        r == !spec_version_gt(required, version),
{
    version[0] > required[0] || (version[0] == required[0] && version[1] > required[1]) || (
    version[0] == required[0] && version[1] == required[1] && version[2] >= required[2])
}

/// "Newer than" is a strict total order on versions: irreflexive, asymmetric,
/// transitive, and any two different versions are ordered one way or the other.
pub proof fn lemma_version_newer_strict_total_order(a: [u16; 3], b: [u16; 3], c: [u16; 3])
    ensures
        !spec_version_gt(a, a),
        spec_version_gt(a, b) ==> !spec_version_gt(b, a),
        spec_version_gt(a, b) && spec_version_gt(b, c) ==> spec_version_gt(a, c),
        a =~= b || spec_version_gt(a, b) || spec_version_gt(b, a),
{
}

/// A version is "at least" a required version exactly when the required one is
/// not newer than it.
pub proof fn lemma_at_least_is_not_newer(version: [u16; 3], required: [u16; 3])
    ensures
        (version[0] > required[0] || (version[0] == required[0] && version[1] > required[1]) || (
        version[0] == required[0] && version[1] == required[1] && version[2] >= required[2]))
            <==> !spec_version_gt(required, version),
{
}

/// Compatibility is an equivalence relation: reflexive, symmetric and transitive.
pub proof fn lemma_versions_compatible_equivalence(a: [u16; 3], b: [u16; 3], c: [u16; 3])
    ensures
        spec_versions_compatible(a, a),
        spec_versions_compatible(a, b) ==> spec_versions_compatible(b, a),
        spec_versions_compatible(a, b) && spec_versions_compatible(b, c)
            ==> spec_versions_compatible(a, c),
{
}

/// Compatible versions share their major number; two 1.x or later versions
/// of the same major are compatible whatever their minor and patch; two 0.x
/// versions are compatible exactly when their minor numbers agree; and the
/// patch number never matters.
pub proof fn lemma_compatibility_by_major(a: [u16; 3], b: [u16; 3], p: u16, q: u16)
    ensures
        spec_versions_compatible(a, b) ==> a[0] == b[0],
        a[0] == b[0] && a[0] != 0 ==> spec_versions_compatible(a, b),
        a[0] == 0 && b[0] == 0 ==> (spec_versions_compatible(a, b) <==> a[1] == b[1]),
        spec_versions_compatible(a, b) == spec_versions_compatible([a[0], a[1], p], [b[0], b[1], q]),
{
}

/// A version is newer than another exactly when it is larger at the first
/// place where they differ.
pub proof fn lemma_newer_at_first_difference(a: [u16; 3], b: [u16; 3])
    ensures
        a[0] != b[0] ==> (spec_version_gt(a, b) <==> a[0] > b[0]),
        a[0] == b[0] && a[1] != b[1] ==> (spec_version_gt(a, b) <==> a[1] > b[1]),
        a[0] == b[0] && a[1] == b[1] ==> (spec_version_gt(a, b) <==> a[2] > b[2]),
{
}

/// The byte of `'.'`.
pub open spec fn dot() -> u8 {
    0x2e
}

/// `i` and `j` are the positions of the only two dots in `s`.
pub open spec fn two_dots_at(s: Seq<u8>, i: int, j: int) -> bool {
    &&& 0 <= i < j < s.len()
    &&& s[i] == dot()
    &&& s[j] == dot()
    &&& forall|k: int| 0 <= k < s.len() && k != i && k != j ==> s[k] != dot()
}

/// What splitting `s` at `'.'` and parsing each of exactly three parts as a
/// `u16` yields; `None` unless there are exactly three parts that all parse.
pub open spec fn spec_version_parts(s: Seq<u8>) -> Option<[u16; 3]> {
    if exists|i: int, j: int| two_dots_at(s, i, j) {
        let (i, j) = choose|i: int, j: int| two_dots_at(s, i, j);
        let a = spec_parse_radix(s.subrange(0, i), 10, 0xffff);
        let b = spec_parse_radix(s.subrange(i + 1, j), 10, 0xffff);
        let c = spec_parse_radix(s.subrange(j + 1, s.len() as int), 10, 0xffff);
        if a is Some && b is Some && c is Some {
            Some([a->0 as u16, b->0 as u16, c->0 as u16])
        } else {
            None
        }
    } else {
        None
    }
}

/// Parses `"major.minor.patch"` given as UTF-8 bytes.
pub fn parse_version_bytes(s: &[u8]) -> (r: Option<[u16; 3]>)
    ensures
        r == spec_version_parts(s@),
{
    let mut dots: Vec<usize> = Vec::new();
    let mut k: usize = 0;
    while k < s.len()
        invariant
            k <= s@.len(),
            forall|x: int| 0 <= x < dots@.len() ==> #[trigger] dots@[x] < k,
            forall|x: int, y: int| 0 <= x < y < dots@.len() ==> dots@[x] < dots@[y],
            forall|x: int| 0 <= x < dots@.len() ==> s@[#[trigger] dots@[x] as int] == dot(),
            forall|p: int| 0 <= p < k && s@[p] == dot() ==> dots@.contains(p as usize),
        decreases s@.len() - k,
    {
        let ghost old = dots@;
        if s[k] == 0x2e {
            dots.push(k);
        }
        proof {
            assert forall|p: int| 0 <= p < k + 1 && s@[p] == dot() implies dots@.contains(
                p as usize,
            ) by {
                if p == k {
                    assert(dots@[dots@.len() - 1] == k);
                } else {
                    assert(old.contains(p as usize));
                    let x = choose|x: int| 0 <= x < old.len() && old[x] == p as usize;
                    assert(dots@[x] == p as usize);
                }
            }
        }
        k = k + 1;
    }
    if dots.len() != 2 {
        proof {
            if exists|i: int, j: int| two_dots_at(s@, i, j) {
                let (i, j) = choose|i: int, j: int| two_dots_at(s@, i, j);
                assert(dots@.contains(i as usize));
                assert(dots@.contains(j as usize));
                let xi = choose|x: int| 0 <= x < dots@.len() && dots@[x] == i as usize;
                let xj = choose|x: int| 0 <= x < dots@.len() && dots@[x] == j as usize;
                assert(xi != xj);
                if dots@.len() > 2 {
                    assert(s@[dots@[0] as int] == dot());
                    assert(s@[dots@[1] as int] == dot());
                    assert(s@[dots@[2] as int] == dot());
                }
            }
        }
        return None;
    }
    let i = dots[0];
    let j = dots[1];
    proof {
        assert(two_dots_at(s@, i as int, j as int));
        let (i2, j2) = choose|i2: int, j2: int| two_dots_at(s@, i2, j2);
        assert(i2 == i as int && j2 == j as int) by {
            if i2 != i as int {
                assert(s@[i2] == dot());
                if i2 != j as int {
                } else {
                    assert(s@[j2] == dot());
                }
            }
            if j2 != j as int {
                assert(s@[j2] == dot());
            }
        }
    }
    let a = parse_radix(s, 0, i, 10, 0xffff);
    let b = parse_radix(s, i + 1, j, 10, 0xffff);
    let c = parse_radix(s, j + 1, s.len(), 10, 0xffff);
    match (a, b, c) {
        (Some(a), Some(b), Some(c)) => Some([a as u16, b as u16, c as u16]),
        _ => None,
    }
}

} // verus!
