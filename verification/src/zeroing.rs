//! Decisions of the zeroing view: which tracking sample a zero is taken
//! from (compensating the shot delay), the shot delay field and its
//! buttons, which armed devices a key press zeroes, and the labels of the
//! zeroing buttons.
use crate::hexkeymap::utf8;
use crate::numparse::{all_radix_digits, parse_radix, radix_value, spec_parse_radix};
use vstd::prelude::*;
use vstd::string::StringExecFns;

verus! {

/// Largest shot delay the view accepts, in milliseconds.
pub const SHOT_DELAY_MAX_MS: u16 = 1023;

/// Timestamp (in microseconds, wrapping) whose closest tracking sample a
/// zero uses: the moment `shot_delay_ms` before the reference, the latest
/// sample's time when the reference is unknown (`u32::MAX`, as accessories
/// report), and `u32::MAX` when there is no sample either.
pub open spec fn spec_lookup_from(reference: u32, shot_delay_ms: u16, latest: Option<u32>) -> u32 {
    let delay_us = (shot_delay_ms * 1000) as u32;
    if reference == u32::MAX {
        match latest {
            Some(t) => t.wrapping_sub(delay_us),
            None => u32::MAX,
        }
    } else {
        reference.wrapping_sub(delay_us)
    }
}

/// Lookup time for a zero triggered by an impact with timestamp
/// `impact_timestamp`; `latest_timestamp` is that of the device's newest
/// tracking sample.
pub fn shot_lookup_timestamp(impact_timestamp: u32, shot_delay_ms: u16, latest_timestamp: Option<u32>) -> (r: u32)
    ensures
        r == spec_lookup_from(impact_timestamp, shot_delay_ms, latest_timestamp),
{
    let delay_us = shot_delay_ms as u32 * 1000;
    if impact_timestamp == u32::MAX {
        match latest_timestamp {
            Some(t) => t.wrapping_sub(delay_us),
            None => u32::MAX,
        }
    } else {
        impact_timestamp.wrapping_sub(delay_us)
    }
}

/// Lookup time for a zero triggered from the keyboard: counted back from
/// the device's newest tracking sample.
pub fn key_lookup_timestamp(shot_delay_ms: u16, latest_timestamp: Option<u32>) -> (r: u32)
    ensures
        r == spec_lookup_from(u32::MAX, shot_delay_ms, latest_timestamp),
{
    shot_lookup_timestamp(u32::MAX, shot_delay_ms, latest_timestamp)
}

/// What `str::parse::<i32>()` gives for the bytes `s`.
pub open spec fn spec_parse_i32(s: Seq<u8>) -> Option<int> {
    if s.len() > 0 && s[0] == 0x2d {
        let d = s.drop_first();
        if d.len() > 0 && all_radix_digits(d, 10) && radix_value(d, 10) <= 2147483648 {
            Some(-(radix_value(d, 10) as int))
        } else {
            None
        }
    } else {
        match spec_parse_radix(s, 10, 2147483647) {
            Some(v) => Some(v as int),
            None => None,
        }
    }
}

/// The shot delay after the field's text changed to `t`: a number is
/// clamped to 0..=1023, other text leaves the delay as it was.
pub open spec fn spec_shot_delay_from_input(t: Seq<char>, current: u16) -> u16 {
    match spec_parse_i32(utf8(t)) {
        Some(v) => if v < 0 {
            0
        } else if v <= SHOT_DELAY_MAX_MS {
            v as u16
        } else {
            SHOT_DELAY_MAX_MS
        },
        None => current,
    }
}

pub fn shot_delay_from_input(text: &str, current: u16) -> (r: u16)
    ensures
        r == spec_shot_delay_from_input(text@, current),
{
    let b = text.as_bytes();
    let n = b.len();
    assert(b@.subrange(0, n as int) =~= b@);
    if n > 0 && b[0] == 0x2d {
        assert(b@.subrange(1, n as int) =~= b@.drop_first());
        if n > 1 && b[1] == 0x2b {
            assert(!crate::numparse::is_radix_digit(b@.drop_first()[0], 10));
            return current;
        }
        match parse_radix(b, 1, n, 10, 2147483648) {
            Some(_) => 0,
            None => current,
        }
    } else {
        match parse_radix(b, 0, n, 10, 2147483647) {
            Some(v) => if v <= SHOT_DELAY_MAX_MS as u64 {
                v as u16
            } else {
                SHOT_DELAY_MAX_MS
            },
            None => current,
        }
    }
}

/// Whatever is typed, the shot delay stays within 0..=1023 when it was.
pub proof fn lemma_shot_delay_input_in_range(t: Seq<char>, current: u16)
    requires
        current <= SHOT_DELAY_MAX_MS,
    ensures
        spec_shot_delay_from_input(t, current) <= SHOT_DELAY_MAX_MS,
{
}

/// The + button: one more millisecond, up to the maximum.
pub fn increment_shot_delay(v: u16) -> (r: u16)
    ensures
        r == (if v < SHOT_DELAY_MAX_MS { v + 1 } else { v as int }),
{
    if v < SHOT_DELAY_MAX_MS {
        v + 1
    } else {
        v
    }
}

/// The - button: one less millisecond, down to zero.
pub fn decrement_shot_delay(v: u16) -> (r: u16)
    ensures
        r == (if v > 0 { v - 1 } else { 0 }),
{
    if v > 0 {
        v - 1
    } else {
        v
    }
}

/// Slots armed to zero on the Z key, in order.
pub open spec fn armed_slots(armed: Seq<bool>) -> Seq<usize>
    decreases armed.len(),
{
    if armed.len() == 0 {
        Seq::empty()
    } else if armed.last() {
        armed_slots(armed.drop_last()).push((armed.len() - 1) as usize)
    } else {
        armed_slots(armed.drop_last())
    }
}

/// Counting forward again by the shot delay from the lookup time gives back
/// the reference (or, for an unknown reference, the latest sample's time),
/// in the wrapping microsecond clock; with neither, the lookup time is the
/// unknown time itself.
pub proof fn lemma_lookup_counts_back(reference: u32, shot_delay_ms: u16, latest: Option<u32>)
    ensures
        reference != u32::MAX ==> (spec_lookup_from(reference, shot_delay_ms, latest) + shot_delay_ms * 1000)
            % 0x1_0000_0000 == reference,
        reference == u32::MAX && latest is Some ==> (spec_lookup_from(reference, shot_delay_ms, latest)
            + shot_delay_ms * 1000) % 0x1_0000_0000 == latest->0,
        reference == u32::MAX && latest is None ==> spec_lookup_from(reference, shot_delay_ms, latest) == u32::MAX,
{
    let d = shot_delay_ms * 1000;
    assert(0 <= d < 0x1_0000_0000) by (nonlinear_arith)
        requires
            d == shot_delay_ms * 1000,
            shot_delay_ms <= 0xffff,
    ;
    assert((shot_delay_ms * 1000) as u32 == d);
}

/// The slots zeroed on the Z key are exactly the armed ones, each once, in
/// increasing order.
pub proof fn lemma_armed_slots_are_the_armed(armed: Seq<bool>)
    requires
        armed.len() <= usize::MAX,
    ensures
        forall|k: int| 0 <= k < armed_slots(armed).len() ==> {
            let s = #[trigger] armed_slots(armed)[k];
            &&& s < armed.len()
            &&& armed[s as int]
        },
        forall|i: int| 0 <= i < armed.len() && armed[i] ==> armed_slots(armed).contains(i as usize),
        forall|k: int, l: int|
            0 <= k < l < armed_slots(armed).len() ==> armed_slots(armed)[k] < armed_slots(armed)[l],
    decreases armed.len(),
{
    if armed.len() > 0 {
        let p = armed.drop_last();
        lemma_armed_slots_are_the_armed(p);
        let a = armed_slots(armed);
        let b = armed_slots(p);
        let last = (armed.len() - 1) as usize;
        assert(last as int == armed.len() - 1);
        if armed.last() {
            assert(a == b.push(last));
        } else {
            assert(a == b);
        }
        assert forall|k: int| 0 <= k < a.len() implies {
            let s = #[trigger] a[k];
            &&& s < armed.len()
            &&& armed[s as int]
        } by {
            if k < b.len() {
                assert(a[k] == b[k]);
                assert(armed[b[k] as int] == p[b[k] as int]);
            }
        }
        assert forall|k: int, l: int| 0 <= k < l < a.len() implies a[k] < a[l] by {
            if l < b.len() {
                assert(a[k] == b[k] && a[l] == b[l]);
            } else {
                assert(a[k] == b[k]);
            }
        }
        assert forall|i: int| 0 <= i < armed.len() && armed[i] implies a.contains(i as usize) by {
            if i < armed.len() - 1 {
                assert(p[i] == armed[i]);
                assert(b.contains(i as usize));
                let k = choose|k: int| 0 <= k < b.len() && b[k] == i as usize;
                assert(a[k] == b[k]);
            } else {
                assert(a[a.len() - 1] == (armed.len() - 1) as usize);
            }
        }
    }
}

/// A key press in the view: `z` zeroes every armed slot and disarms it,
/// `Escape` disarms them; other keys do nothing. Gives the slots to zero and
/// whether each slot stays armed.
pub fn key_press(key: &str, armed: &Vec<bool>) -> (r: (Vec<usize>, Vec<bool>))
    ensures
        r.1@.len() == armed@.len(),
        (key@ == "z"@ || key@ == "Escape"@) ==> forall|i: int| 0 <= i < armed@.len() ==> !#[trigger] r.1@[i],
        !(key@ == "z"@ || key@ == "Escape"@) ==> r.1@ == armed@,
        key@ == "z"@ ==> r.0@ == armed_slots(armed@),
        key@ != "z"@ ==> r.0@.len() == 0,
{
    let k = String::from_str(key);
    let z = String::from_str("z");
    let esc = String::from_str("Escape");
    let is_z = k == z;
    let is_esc = k == esc;
    if !is_z && !is_esc {
        return (Vec::new(), armed.clone());
    }
    let mut zero: Vec<usize> = Vec::new();
    let mut next: Vec<bool> = Vec::new();
    let mut i: usize = 0;
    while i < armed.len()
        invariant
            i <= armed@.len(),
            next@.len() == i,
            forall|j: int| 0 <= j < i ==> !#[trigger] next@[j],
            is_z ==> zero@ == armed_slots(armed@.take(i as int)),
            !is_z ==> zero@.len() == 0,
        decreases armed@.len() - i,
    {
        proof {
            assert(armed@.take(i + 1).drop_last() =~= armed@.take(i as int));
            assert(armed@.take(i + 1).last() == armed@[i as int]);
        }
        if armed[i] && is_z {
            zero.push(i);
        }
        next.push(false);
        i = i + 1;
    }
    assert(armed@.take(armed@.len() as int) =~= armed@);
    (zero, next)
}

/// Class and label of the Z-key button.
pub fn zero_on_key_button(zeroing_on_key: bool) -> (r: (&'static str, &'static str))
    ensures
        zeroing_on_key ==> r.0@ == "btn-secondary-danger"@ && r.1@ == "Cancel [Z]"@,
        !zeroing_on_key ==> r.0@ == "btn-secondary"@ && r.1@ == "Zero on [Z]"@,
{
    if zeroing_on_key {
        ("btn-secondary-danger", "Cancel [Z]")
    } else {
        ("btn-secondary", "Zero on [Z]")
    }
}

/// Class and label of the save button for the last save's outcome (none
/// yet, saved, or the error message).
pub fn save_zero_button(status: &Option<Result<(), String>>) -> (r: (&'static str, String))
    ensures
        match status {
            None => r.0@ == "btn-secondary"@ && r.1@ == "Save Zero"@,
            Some(Ok(())) => r.0@ == "btn-secondary-success"@ && r.1@ == "Saved"@,
            Some(Err(e)) => r.0@ == "btn-secondary-danger"@ && r.1@ == "Error: "@ + e@,
        },
{
    match status {
        None => ("btn-secondary", String::from_str("Save Zero")),
        Some(Ok(())) => ("btn-secondary-success", String::from_str("Saved")),
        Some(Err(e)) => {
            let mut s = String::from_str("Error: ");
            s.append(e.as_str());
            ("btn-secondary-danger", s)
        },
    }
}

} // verus!
