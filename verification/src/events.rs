//! Device events that carry no floating-point data, and vendor packets: the
//! fixed 98-byte payload buffer they travel in.
use vstd::prelude::*;

verus! {

/// Size of a vendor packet payload buffer.
pub const VENDOR_DATA_LEN: usize = 98;

/// An impact reported by a device.
#[derive(Clone, Copy, Debug, PartialEq, Eq, Structural)]
pub struct ImpactEvent {
    pub timestamp: u32,
}

/// The payload buffer of a vendor packet: `data` zero-padded to 98 bytes.
pub open spec fn spec_vendor_buffer(data: Seq<u8>) -> Seq<u8> {
    Seq::new(98, |i: int| if i < data.len() { data[i] } else { 0u8 })
}

/// Copies a vendor payload into a zero-padded 98-byte buffer.
pub fn vendor_buffer(data: &[u8]) -> (r: [u8; 98])
    requires
        data@.len() <= 98,
    ensures
        r@ == spec_vendor_buffer(data@),
{
    let mut arr = [0u8; 98];
    let mut i: usize = 0;
    while i < data.len()
        invariant
            i <= data@.len() <= 98,
            arr@.len() == 98,
            forall|j: int| 0 <= j < i ==> arr@[j] == data@[j],
            forall|j: int| i <= j < 98 ==> arr@[j] == 0,
        decreases data@.len() - i,
    {
        arr[i] = data[i];
        i = i + 1;
    }
    assert(arr@ =~= spec_vendor_buffer(data@));
    arr
}

/// How many bytes of a vendor write are sent: at most 98.
pub fn clipped_vendor_len(len: usize) -> (r: usize)
    ensures
        r == (if len < 98 { len } else { 98 }),
{
    if len < 98 {
        len
    } else {
        98
    }
}

/// The bytes of a vendor write that are sent: the first 98 at most.
pub fn clip_vendor_data(data: &Vec<u8>) -> (r: Vec<u8>)
    ensures
        r@ == data@.take(if data@.len() < 98 { data@.len() as int } else { 98 }),
{
    let n = clipped_vendor_len(data.len());
    let mut out: Vec<u8> = Vec::new();
    let mut i: usize = 0;
    while i < n
        invariant
            i <= n <= data@.len(),
            n == (if data@.len() < 98 { data@.len() } else { 98 }),
            out@ == data@.take(i as int),
        decreases n - i,
    {
        out.push(data[i]);
        i = i + 1;
        assert(out@ =~= data@.take(i as int));
    }
    out
}

/// Step assumed between accelerometer reports when the elapsed time is
/// unknown, in microseconds.
pub const DEFAULT_IMU_STEP_US: u64 = 10_000;

/// Microseconds since the previous accelerometer report (device timestamps
/// wrap around), 0 for the first report.
pub fn accel_elapsed_us(prev_timestamp: Option<u32>, timestamp: u32) -> (r: u64)
    ensures
        r == (match prev_timestamp {
            Some(p) => timestamp.wrapping_sub(p) as u64,
            None => 0u64,
        }),
{
    match prev_timestamp {
        Some(p) => timestamp.wrapping_sub(p) as u64,
        None => 0,
    }
}

/// Time step fed to the motion filters: the elapsed time, or the default
/// step when it is unknown (0).
pub fn imu_step_us(elapsed_us: u64) -> (r: u64)
    ensures
        r == (if elapsed_us == 0 { DEFAULT_IMU_STEP_US } else { elapsed_us }),
{
    if elapsed_us == 0 {
        DEFAULT_IMU_STEP_US
    } else {
        elapsed_us
    }
}

/// Adding the elapsed time to the previous report's timestamp gives the new
/// one on the device's wrapping 32-bit clock, and the elapsed time is below
/// one clock period; the first report has no elapsed time.
pub proof fn lemma_elapsed_counts_forward(prev: u32, timestamp: u32)
    ensures
        (prev + timestamp.wrapping_sub(prev)) % 0x1_0000_0000 == timestamp,
        timestamp.wrapping_sub(prev) < 0x1_0000_0000,
        timestamp >= prev ==> timestamp.wrapping_sub(prev) == timestamp - prev,
{
}

} // verus!
