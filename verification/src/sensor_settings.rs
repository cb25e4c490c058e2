//! Settings of the tracking sensors behind a device: which sensor a device
//! has, how multi-byte values are laid out in its one-byte registers, the
//! PAJ7025 gain table, and the text fields of the settings panel with the
//! registers read to fill them and written to apply them.
use crate::decimal::{decimal_string, lemma_decimal_parses_back, spec_decimal};
use crate::device::{DeviceCapabilities, EVENTS};
use crate::hexkeymap::utf8;
use crate::numparse::{parse_radix, spec_parse_radix};
use vstd::prelude::*;
use vstd::string::StringExecFns;

verus! {

/// Product id of the ATS VM, which has PAJ7025 sensors.
pub const PID_ATS_VM: u16 = 0x520F;

/// Product id of the ATS Lite, which has PAJ7025 sensors.
pub const PID_ATS_LITE: u16 = 0x5210;

/// Product id of the ATS Pro, which has a PAG7665 sensor.
pub const PID_ATS_PRO: u16 = 0x5211;

/// Number of entries of the PAJ7025 gain table.
pub const GAIN_TABLE_LEN: usize = 49;

/// The sensor family whose settings panel a device shows.
#[derive(Clone, Copy, Debug, PartialEq, Eq, Structural)]
pub enum SensorKind {
    Paj,
    Pag,
}

/// One register of a sensor: its bank and its address in the bank.
#[derive(Clone, Copy, Debug, PartialEq, Eq, Structural)]
pub struct RegisterAddr {
    pub bank: u8,
    pub address: u8,
}

/// One register write: bank, address and the byte written.
#[derive(Clone, Copy, Debug, PartialEq, Eq, Structural)]
pub struct RegisterWrite {
    pub bank: u8,
    pub address: u8,
    pub value: u8,
}

pub open spec fn reg(bank: u8, address: u8) -> RegisterAddr {
    RegisterAddr { bank, address }
}

pub open spec fn wr(bank: u8, address: u8, value: u8) -> RegisterWrite {
    RegisterWrite { bank, address, value }
}

/// Settings panel shown for a device: PAJ devices (VM, Lite), PAG devices
/// (Pro), and none for other products or without the event streams, which
/// register access needs.
pub open spec fn spec_sensor_panel(product_id: u16, caps: DeviceCapabilities) -> Option<SensorKind> {
    if product_id != PID_ATS_VM && product_id != PID_ATS_LITE && product_id != PID_ATS_PRO {
        None
    } else if !caps.spec_contains(EVENTS) {
        None
    } else if product_id == PID_ATS_PRO {
        Some(SensorKind::Pag)
    } else {
        Some(SensorKind::Paj)
    }
}

pub fn sensor_panel(product_id: u16, capabilities: &DeviceCapabilities) -> (r: Option<SensorKind>)
    ensures
        r == spec_sensor_panel(product_id, *capabilities),
{
    let is_paj = product_id == PID_ATS_VM || product_id == PID_ATS_LITE;
    let is_pag = product_id == PID_ATS_PRO;
    if !is_paj && !is_pag {
        return None;
    }
    if !capabilities.contains(EVENTS) {
        return None;
    }
    if is_paj {
        Some(SensorKind::Paj)
    } else {
        Some(SensorKind::Pag)
    }
}

// --- Multi-byte register values (little-endian) ---

/// A 16-bit value from its low and high register bytes.
pub fn u16_from_le_bytes(lo: u8, hi: u8) -> (r: u16)
    ensures
        r == lo + 256 * hi,
{
    lo as u16 + (hi as u16) * 256
}

/// The low and high bytes of a 16-bit value.
pub fn u16_to_le_bytes(v: u16) -> (r: [u8; 2])
    ensures
        r[0] == v % 256,
        r[1] == v / 256,
{
    [(v % 256) as u8, (v / 256) as u8]
}

/// A 24-bit value from three register bytes, least significant first.
pub fn u32_from_3_bytes(b0: u8, b1: u8, b2: u8) -> (r: u32)
    ensures
        r == b0 + 256 * b1 + 65536 * b2,
{
    b0 as u32 + (b1 as u32) * 256 + (b2 as u32) * 65536
}

/// The three low bytes of a 32-bit value, least significant first (the
/// fourth byte is not written).
pub fn u32_to_3_bytes(v: u32) -> (r: [u8; 3])
    ensures
        r[0] == v % 256,
        r[1] == (v / 256) % 256,
        r[2] == (v / 65536) % 256,
{
    [(v % 256) as u8, ((v / 256) % 256) as u8, ((v / 65536) % 256) as u8]
}

/// Splitting a 16-bit value into bytes and joining them gives it back.
pub proof fn lemma_u16_bytes_round_trip(v: u16)
    ensures
        (v % 256) + 256 * (v / 256) == v,
{
}

/// Splitting a 32-bit value into three bytes and joining them keeps its low
/// 24 bits, so every value below 2^24 comes back unchanged.
pub proof fn lemma_u32_3_bytes_round_trip(v: u32)
    ensures
        (v % 256) + 256 * ((v / 256) % 256) + 65536 * ((v / 65536) % 256) == v % 16777216,
        v < 16777216 ==> (v % 256) + 256 * ((v / 256) % 256) + 65536 * ((v / 65536) % 256) == v,
{
    assert((v % 256) + 256 * ((v / 256) % 256) + 65536 * ((v / 65536) % 256) == v % 16777216)
        by (nonlinear_arith);
}

// --- PAJ7025 gain table ---

/// Register pair of one gain step: `b_global` (0x0C/0x0B) and `b_ggh` (0x0C/0x0C).
#[derive(Clone, Copy, Debug, PartialEq, Eq, Structural)]
pub struct GainEntry {
    pub b_global: u8,
    pub b_ggh: u8,
}

/// Entry `i` of the gain table: sixteen steps of 1/16 at each of the
/// multipliers 1x (`b_ggh` 0), 2x (`b_ggh` 2) and 4x (`b_ggh` 3), and a last
/// step of 8x.
pub open spec fn spec_gain_entry(i: int) -> GainEntry {
    if i < 16 {
        GainEntry { b_global: i as u8, b_ggh: 0 }
    } else if i < 32 {
        GainEntry { b_global: (i - 16) as u8, b_ggh: 2 }
    } else {
        GainEntry { b_global: (i - 32) as u8, b_ggh: 3 }
    }
}

pub fn gain_entry(index: usize) -> (e: GainEntry)
    requires
        index < GAIN_TABLE_LEN,
    ensures
        e == spec_gain_entry(index as int),
{
    if index < 16 {
        GainEntry { b_global: index as u8, b_ggh: 0 }
    } else if index < 32 {
        GainEntry { b_global: (index - 16) as u8, b_ggh: 2 }
    } else {
        GainEntry { b_global: (index - 32) as u8, b_ggh: 3 }
    }
}

/// The whole gain table, in order.
pub fn gain_table() -> (v: Vec<GainEntry>)
    ensures
        v.len() == GAIN_TABLE_LEN,
        forall|i: int| 0 <= i < GAIN_TABLE_LEN ==> v[i] == spec_gain_entry(i),
{
    let mut v: Vec<GainEntry> = Vec::new();
    let mut i: usize = 0;
    while i < GAIN_TABLE_LEN
        invariant
            i <= GAIN_TABLE_LEN,
            v.len() == i,
            forall|j: int| 0 <= j < i ==> v[j] == spec_gain_entry(j),
        decreases GAIN_TABLE_LEN - i,
    {
        v.push(gain_entry(i));
        i = i + 1;
    }
    v
}

/// Table index of the gain held in the two registers: `b_ggh` counts
/// blocks of sixteen from 1 (0 reads as the first block).
pub open spec fn spec_gain_index_from_reg(b_global: u8, b_ggh: u8) -> int {
    (if b_ggh > 0 { b_ggh - 1 } else { 0 }) * 16 + b_global
}

pub fn gain_index_from_reg(b_global: u8, b_ggh: u8) -> (r: usize)
    ensures
        r == spec_gain_index_from_reg(b_global, b_ggh),
{
    let mut g = b_ggh;
    if g > 0 {
        g = g - 1;
    }
    (g as usize) * 16 + (b_global as usize)
}

/// Each entry of the table reads back as its own index.
pub proof fn lemma_gain_table_reads_back(i: int)
    requires
        0 <= i < GAIN_TABLE_LEN,
    ensures
        spec_gain_index_from_reg(spec_gain_entry(i).b_global, spec_gain_entry(i).b_ggh) == i,
{
}

/// The last table index at or below `index`, as applying a setting clamps it.
pub open spec fn spec_clamp_gain_index(index: int) -> int {
    if index < GAIN_TABLE_LEN - 1 {
        index
    } else {
        GAIN_TABLE_LEN - 1
    }
}

pub fn clamp_gain_index(index: usize) -> (r: usize)
    ensures
        r == spec_clamp_gain_index(index as int),
        r < GAIN_TABLE_LEN,
{
    if index < GAIN_TABLE_LEN - 1 {
        index
    } else {
        GAIN_TABLE_LEN - 1
    }
}

/// Multiplier selected by `b_ggh` in the table: 1x, 2x (2) or 4x (3).
pub open spec fn spec_ggh_multiplier(b_ggh: u8) -> nat {
    if b_ggh == 0 {
        1
    } else if b_ggh == 2 {
        2
    } else {
        4
    }
}

/// Gain of a table entry in ten-thousandths: multiplier times (16 + b_global) / 16.
pub open spec fn spec_gain_ten_thousandths(e: GainEntry) -> nat {
    spec_ggh_multiplier(e.b_ggh) * (16 + e.b_global as nat) * 625
}

pub open spec fn digit_char(d: nat) -> char {
    (d + 0x30) as char
}

/// The gain written with four decimals, as the panel lists it ("1.0625").
pub open spec fn spec_gain_label(e: GainEntry) -> Seq<char> {
    let x = spec_gain_ten_thousandths(e);
    let f = x % 10000;
    spec_decimal(x / 10000) + seq![
        '.',
        digit_char(f / 1000),
        digit_char((f / 100) % 10),
        digit_char((f / 10) % 10),
        digit_char(f % 10),
    ]
}

/// Label of a gain step.
pub fn gain_label(e: GainEntry) -> (r: String)
    requires
        e.b_global <= 16,
    ensures
        r@ == spec_gain_label(e),
{
    let m: u32 = if e.b_ggh == 0 {
        1
    } else if e.b_ggh == 2 {
        2
    } else {
        4
    };
    let x: u32 = m * (16 + e.b_global as u32) * 625;
    let f: u32 = x % 10000;
    let mut s = decimal_string((x / 10000) as u64);
    crate::text::push_char(&mut s, '.');
    crate::text::push_char(&mut s, ((f / 1000) as u8 + 0x30) as char);
    crate::text::push_char(&mut s, (((f / 100) % 10) as u8 + 0x30) as char);
    crate::text::push_char(&mut s, (((f / 10) % 10) as u8 + 0x30) as char);
    crate::text::push_char(&mut s, ((f % 10) as u8 + 0x30) as char);
    assert(s@ =~= spec_gain_label(e));
    s
}

// --- Text fields of the panel ---

/// What `parse::<T>()` gives for the text `t`, for an unsigned `T` whose
/// largest value is `max`, or `default` where it fails (`unwrap_or`).
pub open spec fn spec_parse_or(t: Seq<char>, max: nat, default: nat) -> nat {
    match spec_parse_radix(utf8(t), 10, max) {
        Some(v) => v,
        None => default,
    }
}

/// Parses a text field as a decimal number of at most `max`, or gives `default`.
pub fn parse_or(t: &String, max: u64, default: u64) -> (r: u64)
    requires
        default <= max,
    ensures
        r == spec_parse_or(t@, max as nat, default as nat),
{
    let bytes = t.as_str().as_bytes();
    assert(bytes@.subrange(0, bytes@.len() as int) =~= bytes@);
    match parse_radix(bytes, 0, bytes.len(), 10, max) {
        Some(v) => v,
        None => default,
    }
}

/// Text written for a number parses back to it.
pub proof fn lemma_parse_or_decimal(n: nat, max: nat, default: nat)
    requires
        n <= max,
    ensures
        spec_parse_or(spec_decimal(n), max, default) == n,
{
    lemma_decimal_parses_back(n, max);
}

// --- PAJ7025 settings ---

/// Register values behind the PAJ7025 settings of one sensor port.
#[derive(Clone, Copy, Debug, PartialEq, Eq, Structural)]
pub struct PajValues {
    pub brightness_threshold: u8,
    pub noise_threshold: u8,
    pub area_threshold_min: u8,
    pub area_threshold_max: u16,
    pub max_object_cnt: u8,
    pub operation_mode: u8,
    pub exposure_time: u16,
    pub frame_period: u32,
    pub frame_subtraction: u8,
    pub gain_index: usize,
    pub resolution_x: u16,
    pub resolution_y: u16,
}

/// The PAJ7025 settings panel of one sensor port: one text field per setting.
#[derive(Clone, Debug)]
pub struct PajState {
    pub brightness_threshold: String,
    pub noise_threshold: String,
    pub area_threshold_min: String,
    pub area_threshold_max: String,
    pub max_object_cnt: String,
    pub operation_mode: String,
    pub exposure_time: String,
    pub frame_period: String,
    pub frame_subtraction: String,
    pub gain_index: String,
    pub resolution_x: String,
    pub resolution_y: String,
}

/// Each field of `s` is the decimal text of the same field of `v`.
pub open spec fn paj_state_shows(s: PajState, v: PajValues) -> bool {
    &&& s.brightness_threshold@ == spec_decimal(v.brightness_threshold as nat)
    &&& s.noise_threshold@ == spec_decimal(v.noise_threshold as nat)
    &&& s.area_threshold_min@ == spec_decimal(v.area_threshold_min as nat)
    &&& s.area_threshold_max@ == spec_decimal(v.area_threshold_max as nat)
    &&& s.max_object_cnt@ == spec_decimal(v.max_object_cnt as nat)
    &&& s.operation_mode@ == spec_decimal(v.operation_mode as nat)
    &&& s.exposure_time@ == spec_decimal(v.exposure_time as nat)
    &&& s.frame_period@ == spec_decimal(v.frame_period as nat)
    &&& s.frame_subtraction@ == spec_decimal(v.frame_subtraction as nat)
    &&& s.gain_index@ == spec_decimal(v.gain_index as nat)
    &&& s.resolution_x@ == spec_decimal(v.resolution_x as nat)
    &&& s.resolution_y@ == spec_decimal(v.resolution_y as nat)
}

impl Default for PajState {
    /// Empty fields, but for operation mode, frame subtraction and gain at 0.
    fn default() -> (r: Self)
        ensures
            r.brightness_threshold@ == Seq::<char>::empty(),
            r.noise_threshold@ == Seq::<char>::empty(),
            r.area_threshold_min@ == Seq::<char>::empty(),
            r.area_threshold_max@ == Seq::<char>::empty(),
            r.max_object_cnt@ == Seq::<char>::empty(),
            r.operation_mode@ == seq!['0'],
            r.exposure_time@ == Seq::<char>::empty(),
            r.frame_period@ == Seq::<char>::empty(),
            r.frame_subtraction@ == seq!['0'],
            r.gain_index@ == seq!['0'],
            r.resolution_x@ == Seq::<char>::empty(),
            r.resolution_y@ == Seq::<char>::empty(),
    {
        proof {
            reveal_strlit("");
            reveal_strlit("0");
        }
        PajState {
            brightness_threshold: String::from_str(""),
            noise_threshold: String::from_str(""),
            area_threshold_min: String::from_str(""),
            area_threshold_max: String::from_str(""),
            max_object_cnt: String::from_str(""),
            operation_mode: String::from_str("0"),
            exposure_time: String::from_str(""),
            frame_period: String::from_str(""),
            frame_subtraction: String::from_str("0"),
            gain_index: String::from_str("0"),
            resolution_x: String::from_str(""),
            resolution_y: String::from_str(""),
        }
    }
}

/// Registers read to fill the panel of one port, in the order they are read.
pub open spec fn spec_paj_read_plan() -> Seq<RegisterAddr> {
    seq![
        reg(0x0C, 0x47),
        reg(0x00, 0x0F),
        reg(0x0C, 0x46),
        reg(0x00, 0x0B),
        reg(0x00, 0x0C),
        reg(0x00, 0x19),
        reg(0x00, 0x12),
        reg(0x01, 0x0E),
        reg(0x01, 0x0F),
        reg(0x0C, 0x07),
        reg(0x0C, 0x08),
        reg(0x0C, 0x09),
        reg(0x00, 0x28),
        reg(0x01, 0x05),
        reg(0x01, 0x06),
        reg(0x0C, 0x60),
        reg(0x0C, 0x61),
        reg(0x0C, 0x62),
        reg(0x0C, 0x63),
    ]
}

pub fn paj_read_plan() -> (v: Vec<RegisterAddr>)
    ensures
        v@ == spec_paj_read_plan(),
{
    let v = vec![
        RegisterAddr { bank: 0x0C, address: 0x47 },
        RegisterAddr { bank: 0x00, address: 0x0F },
        RegisterAddr { bank: 0x0C, address: 0x46 },
        RegisterAddr { bank: 0x00, address: 0x0B },
        RegisterAddr { bank: 0x00, address: 0x0C },
        RegisterAddr { bank: 0x00, address: 0x19 },
        RegisterAddr { bank: 0x00, address: 0x12 },
        RegisterAddr { bank: 0x01, address: 0x0E },
        RegisterAddr { bank: 0x01, address: 0x0F },
        RegisterAddr { bank: 0x0C, address: 0x07 },
        RegisterAddr { bank: 0x0C, address: 0x08 },
        RegisterAddr { bank: 0x0C, address: 0x09 },
        RegisterAddr { bank: 0x00, address: 0x28 },
        RegisterAddr { bank: 0x01, address: 0x05 },
        RegisterAddr { bank: 0x01, address: 0x06 },
        RegisterAddr { bank: 0x0C, address: 0x60 },
        RegisterAddr { bank: 0x0C, address: 0x61 },
        RegisterAddr { bank: 0x0C, address: 0x62 },
        RegisterAddr { bank: 0x0C, address: 0x63 },
    ];
    assert(v@ =~= spec_paj_read_plan());
    v
}

/// Settings held by the bytes read along `spec_paj_read_plan`.
pub open spec fn spec_paj_values_from_reads(r: Seq<u8>) -> PajValues {
    PajValues {
        brightness_threshold: r[0],
        noise_threshold: r[1],
        area_threshold_min: r[2],
        area_threshold_max: (r[3] + 256 * r[4]) as u16,
        max_object_cnt: r[5],
        operation_mode: r[6],
        exposure_time: (r[7] + 256 * r[8]) as u16,
        frame_period: (r[9] + 256 * r[10] + 65536 * r[11]) as u32,
        frame_subtraction: r[12],
        gain_index: spec_gain_index_from_reg(r[13], r[14]) as usize,
        resolution_x: (r[15] + 256 * r[16]) as u16,
        resolution_y: (r[17] + 256 * r[18]) as u16,
    }
}

pub fn paj_values_from_reads(reads: &[u8]) -> (v: PajValues)
    requires
        reads.len() == spec_paj_read_plan().len(),
    ensures
        v == spec_paj_values_from_reads(reads@),
{
    PajValues {
        brightness_threshold: reads[0],
        noise_threshold: reads[1],
        area_threshold_min: reads[2],
        area_threshold_max: u16_from_le_bytes(reads[3], reads[4]),
        max_object_cnt: reads[5],
        operation_mode: reads[6],
        exposure_time: u16_from_le_bytes(reads[7], reads[8]),
        frame_period: u32_from_3_bytes(reads[9], reads[10], reads[11]),
        frame_subtraction: reads[12],
        gain_index: gain_index_from_reg(reads[13], reads[14]),
        resolution_x: u16_from_le_bytes(reads[15], reads[16]),
        resolution_y: u16_from_le_bytes(reads[17], reads[18]),
    }
}

/// The panel's text for the given settings (each as `to_string` writes it).
pub fn paj_state_from_values(v: &PajValues) -> (s: PajState)
    ensures
        paj_state_shows(s, *v),
{
    PajState {
        brightness_threshold: decimal_string(v.brightness_threshold as u64),
        noise_threshold: decimal_string(v.noise_threshold as u64),
        area_threshold_min: decimal_string(v.area_threshold_min as u64),
        area_threshold_max: decimal_string(v.area_threshold_max as u64),
        max_object_cnt: decimal_string(v.max_object_cnt as u64),
        operation_mode: decimal_string(v.operation_mode as u64),
        exposure_time: decimal_string(v.exposure_time as u64),
        frame_period: decimal_string(v.frame_period as u64),
        frame_subtraction: decimal_string(v.frame_subtraction as u64),
        gain_index: decimal_string(v.gain_index as u64),
        resolution_x: decimal_string(v.resolution_x as u64),
        resolution_y: decimal_string(v.resolution_y as u64),
    }
}

/// The panel of one port filled from the bytes read along `paj_read_plan`.
pub fn paj_state_from_reads(reads: &[u8]) -> (s: PajState)
    requires
        reads.len() == spec_paj_read_plan().len(),
    ensures
        paj_state_shows(s, spec_paj_values_from_reads(reads@)),
{
    let v = paj_values_from_reads(reads);
    paj_state_from_values(&v)
}

/// Settings the panel's text stands for; a field that does not parse as its
/// register's type takes its fallback.
pub open spec fn spec_paj_values_from_state(s: PajState) -> PajValues {
    PajValues {
        brightness_threshold: spec_parse_or(s.brightness_threshold@, 255, 0) as u8,
        noise_threshold: spec_parse_or(s.noise_threshold@, 255, 0) as u8,
        area_threshold_min: spec_parse_or(s.area_threshold_min@, 255, 0) as u8,
        area_threshold_max: spec_parse_or(s.area_threshold_max@, 65535, 0) as u16,
        max_object_cnt: spec_parse_or(s.max_object_cnt@, 255, 16) as u8,
        operation_mode: spec_parse_or(s.operation_mode@, 255, 0) as u8,
        exposure_time: spec_parse_or(s.exposure_time@, 65535, 0) as u16,
        frame_period: spec_parse_or(s.frame_period@, 0xFFFF_FFFF, 49780) as u32,
        frame_subtraction: spec_parse_or(s.frame_subtraction@, 255, 0) as u8,
        gain_index: spec_parse_or(s.gain_index@, usize::MAX as nat, 0) as usize,
        resolution_x: spec_parse_or(s.resolution_x@, 65535, 4095) as u16,
        resolution_y: spec_parse_or(s.resolution_y@, 65535, 4095) as u16,
    }
}

pub fn paj_values_from_state(s: &PajState) -> (v: PajValues)
    ensures
        v == spec_paj_values_from_state(*s),
{
    PajValues {
        brightness_threshold: parse_or(&s.brightness_threshold, 255, 0) as u8,
        noise_threshold: parse_or(&s.noise_threshold, 255, 0) as u8,
        area_threshold_min: parse_or(&s.area_threshold_min, 255, 0) as u8,
        area_threshold_max: parse_or(&s.area_threshold_max, 65535, 0) as u16,
        max_object_cnt: parse_or(&s.max_object_cnt, 255, 16) as u8,
        operation_mode: parse_or(&s.operation_mode, 255, 0) as u8,
        exposure_time: parse_or(&s.exposure_time, 65535, 0) as u16,
        frame_period: parse_or(&s.frame_period, 0xFFFF_FFFF, 49780) as u32,
        frame_subtraction: parse_or(&s.frame_subtraction, 255, 0) as u8,
        gain_index: parse_or(&s.gain_index, usize::MAX as u64, 0) as usize,
        resolution_x: parse_or(&s.resolution_x, 65535, 4095) as u16,
        resolution_y: parse_or(&s.resolution_y, 65535, 4095) as u16,
    }
}

/// Register writes that apply the settings to one port, in order; the last
/// two latch the new values (bank 1 and bank 0 sync).
pub open spec fn spec_paj_write_plan(v: PajValues) -> Seq<RegisterWrite> {
    let gain = spec_gain_entry(spec_clamp_gain_index(v.gain_index as int));
    seq![
        wr(0x0C, 0x47, v.brightness_threshold),
        wr(0x00, 0x0F, v.noise_threshold),
        wr(0x0C, 0x46, v.area_threshold_min),
        wr(0x00, 0x0B, (v.area_threshold_max % 256) as u8),
        wr(0x00, 0x0C, (v.area_threshold_max / 256) as u8),
        wr(0x00, 0x19, v.max_object_cnt),
        wr(0x00, 0x12, v.operation_mode),
        wr(0x0C, 0x0F, (v.exposure_time % 256) as u8),
        wr(0x0C, 0x10, (v.exposure_time / 256) as u8),
        wr(0x0C, 0x07, (v.frame_period % 256) as u8),
        wr(0x0C, 0x08, ((v.frame_period / 256) % 256) as u8),
        wr(0x0C, 0x09, ((v.frame_period / 65536) % 256) as u8),
        wr(0x00, 0x28, v.frame_subtraction),
        wr(0x0C, 0x0B, gain.b_global),
        wr(0x0C, 0x0C, gain.b_ggh),
        wr(0x0C, 0x60, (v.resolution_x % 256) as u8),
        wr(0x0C, 0x61, (v.resolution_x / 256) as u8),
        wr(0x0C, 0x62, (v.resolution_y % 256) as u8),
        wr(0x0C, 0x63, (v.resolution_y / 256) as u8),
        wr(0x01, 0x01, 1),
        wr(0x00, 0x01, 1),
    ]
}

pub fn paj_write_plan(v: &PajValues) -> (w: Vec<RegisterWrite>)
    ensures
        w@ == spec_paj_write_plan(*v),
{
    let gain = gain_entry(clamp_gain_index(v.gain_index));
    let amax = u16_to_le_bytes(v.area_threshold_max);
    let expo = u16_to_le_bytes(v.exposure_time);
    let fp = u32_to_3_bytes(v.frame_period);
    let rx = u16_to_le_bytes(v.resolution_x);
    let ry = u16_to_le_bytes(v.resolution_y);
    let w = vec![
        RegisterWrite { bank: 0x0C, address: 0x47, value: v.brightness_threshold },
        RegisterWrite { bank: 0x00, address: 0x0F, value: v.noise_threshold },
        RegisterWrite { bank: 0x0C, address: 0x46, value: v.area_threshold_min },
        RegisterWrite { bank: 0x00, address: 0x0B, value: amax[0] },
        RegisterWrite { bank: 0x00, address: 0x0C, value: amax[1] },
        RegisterWrite { bank: 0x00, address: 0x19, value: v.max_object_cnt },
        RegisterWrite { bank: 0x00, address: 0x12, value: v.operation_mode },
        RegisterWrite { bank: 0x0C, address: 0x0F, value: expo[0] },
        RegisterWrite { bank: 0x0C, address: 0x10, value: expo[1] },
        RegisterWrite { bank: 0x0C, address: 0x07, value: fp[0] },
        RegisterWrite { bank: 0x0C, address: 0x08, value: fp[1] },
        RegisterWrite { bank: 0x0C, address: 0x09, value: fp[2] },
        RegisterWrite { bank: 0x00, address: 0x28, value: v.frame_subtraction },
        RegisterWrite { bank: 0x0C, address: 0x0B, value: gain.b_global },
        RegisterWrite { bank: 0x0C, address: 0x0C, value: gain.b_ggh },
        RegisterWrite { bank: 0x0C, address: 0x60, value: rx[0] },
        RegisterWrite { bank: 0x0C, address: 0x61, value: rx[1] },
        RegisterWrite { bank: 0x0C, address: 0x62, value: ry[0] },
        RegisterWrite { bank: 0x0C, address: 0x63, value: ry[1] },
        RegisterWrite { bank: 0x01, address: 0x01, value: 1 },
        RegisterWrite { bank: 0x00, address: 0x01, value: 1 },
    ];
    assert(w@ =~= spec_paj_write_plan(*v));
    w
}

/// Register writes that apply the panel of one port.
pub fn paj_apply_plan(s: &PajState) -> (w: Vec<RegisterWrite>)
    ensures
        w@ == spec_paj_write_plan(spec_paj_values_from_state(*s)),
{
    let v = paj_values_from_state(s);
    paj_write_plan(&v)
}

/// Factory settings of port `port` (0 is the near-field sensor, which has
/// its own area, exposure and gain).
pub open spec fn spec_paj_default_values(port: u8) -> PajValues {
    let nf = port == 0;
    PajValues {
        brightness_threshold: 110,
        noise_threshold: 15,
        area_threshold_min: if nf { 10 } else { 5 },
        area_threshold_max: 9605,
        max_object_cnt: 16,
        operation_mode: 0,
        exposure_time: if nf { 8192 } else { 11365 },
        frame_period: 49780,
        frame_subtraction: 0,
        gain_index: (if nf { spec_gain_index_from_reg(16, 0) } else { spec_gain_index_from_reg(8, 3) }) as usize,
        resolution_x: 4095,
        resolution_y: 4095,
    }
}

pub fn paj_load_defaults(port: u8) -> (s: PajState)
    ensures
        paj_state_shows(s, spec_paj_default_values(port)),
{
    let nf = port == 0;
    let v = PajValues {
        brightness_threshold: 110,
        noise_threshold: 15,
        area_threshold_min: if nf { 10 } else { 5 },
        area_threshold_max: 9605,
        max_object_cnt: 16,
        operation_mode: 0,
        exposure_time: if nf { 8192 } else { 11365 },
        frame_period: 49780,
        frame_subtraction: 0,
        gain_index: if nf { gain_index_from_reg(16, 0) } else { gain_index_from_reg(8, 3) },
        resolution_x: 4095,
        resolution_y: 4095,
    };
    paj_state_from_values(&v)
}

/// The panel's text for some settings stands for exactly those settings:
/// applying a freshly loaded (or defaulted) panel writes the values it showed.
pub proof fn lemma_paj_state_round_trip(s: PajState, v: PajValues)
    requires
        paj_state_shows(s, v),
    ensures
        spec_paj_values_from_state(s) == v,
{
    lemma_parse_or_decimal(v.brightness_threshold as nat, 255, 0);
    lemma_parse_or_decimal(v.noise_threshold as nat, 255, 0);
    lemma_parse_or_decimal(v.area_threshold_min as nat, 255, 0);
    lemma_parse_or_decimal(v.area_threshold_max as nat, 65535, 0);
    lemma_parse_or_decimal(v.max_object_cnt as nat, 255, 16);
    lemma_parse_or_decimal(v.operation_mode as nat, 255, 0);
    lemma_parse_or_decimal(v.exposure_time as nat, 65535, 0);
    lemma_parse_or_decimal(v.frame_period as nat, 0xFFFF_FFFF, 49780);
    lemma_parse_or_decimal(v.frame_subtraction as nat, 255, 0);
    lemma_parse_or_decimal(v.gain_index as nat, usize::MAX as nat, 0);
    lemma_parse_or_decimal(v.resolution_x as nat, 65535, 4095);
    lemma_parse_or_decimal(v.resolution_y as nat, 65535, 4095);
}

// --- PAG7665 settings (always on port 0) ---

/// Register values behind the PAG7665 settings.
#[derive(Clone, Copy, Debug, PartialEq, Eq, Structural)]
pub struct PagValues {
    pub fps: u8,
    pub exposure_us: u16,
    pub gain: u8,
    pub light_threshold: u8,
    pub area_lower: u16,
    pub area_upper: u16,
}

/// The PAG7665 settings panel: one text field per setting.
#[derive(Clone, Debug)]
pub struct PagState {
    pub fps: String,
    pub exposure_us: String,
    pub gain: String,
    pub light_threshold: String,
    pub area_lower: String,
    pub area_upper: String,
}

/// Each field of `s` is the decimal text of the same field of `v`.
pub open spec fn pag_state_shows(s: PagState, v: PagValues) -> bool {
    &&& s.fps@ == spec_decimal(v.fps as nat)
    &&& s.exposure_us@ == spec_decimal(v.exposure_us as nat)
    &&& s.gain@ == spec_decimal(v.gain as nat)
    &&& s.light_threshold@ == spec_decimal(v.light_threshold as nat)
    &&& s.area_lower@ == spec_decimal(v.area_lower as nat)
    &&& s.area_upper@ == spec_decimal(v.area_upper as nat)
}

impl Default for PagState {
    /// All fields empty.
    fn default() -> (r: Self)
        ensures
            r.fps@ == Seq::<char>::empty(),
            r.exposure_us@ == Seq::<char>::empty(),
            r.gain@ == Seq::<char>::empty(),
            r.light_threshold@ == Seq::<char>::empty(),
            r.area_lower@ == Seq::<char>::empty(),
            r.area_upper@ == Seq::<char>::empty(),
    {
        proof {
            reveal_strlit("");
        }
        PagState {
            fps: String::from_str(""),
            exposure_us: String::from_str(""),
            gain: String::from_str(""),
            light_threshold: String::from_str(""),
            area_lower: String::from_str(""),
            area_upper: String::from_str(""),
        }
    }
}

/// Exposure register: exposure in units of 100 us in bits 0-6 (the quotient
/// truncated to a byte), LED always on in bit 7.
pub open spec fn spec_pag_exposure_reg(exposure_us: u16, led_always_on: bool) -> u8 {
    ((exposure_us / 100) as u8) | (if led_always_on { 0x80u8 } else { 0u8 })
}

pub fn pag_exposure_reg(exposure_us: u16, led_always_on: bool) -> (r: u8)
    ensures
        r == spec_pag_exposure_reg(exposure_us, led_always_on),
{
    let led: u8 = if led_always_on { 0x80 } else { 0 };
    ((exposure_us / 100) as u8) | led
}

/// Exposure in microseconds held by the exposure register (bit 7 ignored).
pub open spec fn spec_pag_exposure_us(raw: u8) -> u16 {
    ((raw & 0x7F) as u16 * 100) as u16
}

pub fn pag_exposure_us(raw: u8) -> (r: u16)
    ensures
        r == spec_pag_exposure_us(raw),
{
    let m = raw & 0x7F;
    assert(raw & 0x7F <= 127) by (bit_vector);
    (m as u16) * 100
}

/// Reading the exposure and writing it back with the LED always on keeps
/// bits 0-6 and sets bit 7.
pub proof fn lemma_pag_exposure_round_trip(raw: u8)
    ensures
        spec_pag_exposure_reg(spec_pag_exposure_us(raw), true) == raw | 0x80,
{
    let m = raw & 0x7F;
    assert(m <= 127) by (bit_vector)
        requires
            m == raw & 0x7F,
    ;
    assert(spec_pag_exposure_us(raw) == m as u16 * 100);
    assert((m as u16 * 100) / 100 == m as u16);
    assert((m as u8) | 0x80u8 == raw | 0x80) by (bit_vector)
        requires
            m == raw & 0x7F,
    ;
}

/// Registers read to fill the panel (bank 0), in the order they are read.
pub open spec fn spec_pag_read_plan() -> Seq<RegisterAddr> {
    seq![
        reg(0x00, 0x13),
        reg(0x00, 0x67),
        reg(0x00, 0x68),
        reg(0x00, 0x6D),
        reg(0x00, 0x6E),
        reg(0x00, 0x6F),
        reg(0x00, 0x70),
        reg(0x00, 0x71),
    ]
}

pub fn pag_read_plan() -> (v: Vec<RegisterAddr>)
    ensures
        v@ == spec_pag_read_plan(),
{
    let v = vec![
        RegisterAddr { bank: 0x00, address: 0x13 },
        RegisterAddr { bank: 0x00, address: 0x67 },
        RegisterAddr { bank: 0x00, address: 0x68 },
        RegisterAddr { bank: 0x00, address: 0x6D },
        RegisterAddr { bank: 0x00, address: 0x6E },
        RegisterAddr { bank: 0x00, address: 0x6F },
        RegisterAddr { bank: 0x00, address: 0x70 },
        RegisterAddr { bank: 0x00, address: 0x71 },
    ];
    assert(v@ =~= spec_pag_read_plan());
    v
}

/// Settings held by the bytes read along `spec_pag_read_plan`.
pub open spec fn spec_pag_values_from_reads(r: Seq<u8>) -> PagValues {
    PagValues {
        fps: r[0],
        exposure_us: spec_pag_exposure_us(r[1]),
        gain: r[2],
        light_threshold: r[3],
        area_lower: (r[4] + 256 * r[5]) as u16,
        area_upper: (r[6] + 256 * r[7]) as u16,
    }
}

pub fn pag_values_from_reads(reads: &[u8]) -> (v: PagValues)
    requires
        reads.len() == spec_pag_read_plan().len(),
    ensures
        v == spec_pag_values_from_reads(reads@),
{
    PagValues {
        fps: reads[0],
        exposure_us: pag_exposure_us(reads[1]),
        gain: reads[2],
        light_threshold: reads[3],
        area_lower: u16_from_le_bytes(reads[4], reads[5]),
        area_upper: u16_from_le_bytes(reads[6], reads[7]),
    }
}

/// The panel's text for the given settings.
pub fn pag_state_from_values(v: &PagValues) -> (s: PagState)
    ensures
        pag_state_shows(s, *v),
{
    PagState {
        fps: decimal_string(v.fps as u64),
        exposure_us: decimal_string(v.exposure_us as u64),
        gain: decimal_string(v.gain as u64),
        light_threshold: decimal_string(v.light_threshold as u64),
        area_lower: decimal_string(v.area_lower as u64),
        area_upper: decimal_string(v.area_upper as u64),
    }
}

/// The panel filled from the bytes read along `pag_read_plan`.
pub fn pag_state_from_reads(reads: &[u8]) -> (s: PagState)
    requires
        reads.len() == spec_pag_read_plan().len(),
    ensures
        pag_state_shows(s, spec_pag_values_from_reads(reads@)),
{
    let v = pag_values_from_reads(reads);
    pag_state_from_values(&v)
}

/// Settings the panel's text stands for, with each field's fallback.
pub open spec fn spec_pag_values_from_state(s: PagState) -> PagValues {
    PagValues {
        fps: spec_parse_or(s.fps@, 255, 180) as u8,
        exposure_us: spec_parse_or(s.exposure_us@, 65535, 2000) as u16,
        gain: spec_parse_or(s.gain@, 255, 2) as u8,
        light_threshold: spec_parse_or(s.light_threshold@, 255, 120) as u8,
        area_lower: spec_parse_or(s.area_lower@, 65535, 10) as u16,
        area_upper: spec_parse_or(s.area_upper@, 65535, 65535) as u16,
    }
}

pub fn pag_values_from_state(s: &PagState) -> (v: PagValues)
    ensures
        v == spec_pag_values_from_state(*s),
{
    PagValues {
        fps: parse_or(&s.fps, 255, 180) as u8,
        exposure_us: parse_or(&s.exposure_us, 65535, 2000) as u16,
        gain: parse_or(&s.gain, 255, 2) as u8,
        light_threshold: parse_or(&s.light_threshold, 255, 120) as u8,
        area_lower: parse_or(&s.area_lower, 65535, 10) as u16,
        area_upper: parse_or(&s.area_upper, 65535, 65535) as u16,
    }
}

/// Register writes (bank 0) that apply the settings, in order, with the LED
/// always on.
pub open spec fn spec_pag_write_plan(v: PagValues) -> Seq<RegisterWrite> {
    seq![
        wr(0x00, 0x13, v.fps),
        wr(0x00, 0x67, spec_pag_exposure_reg(v.exposure_us, true)),
        wr(0x00, 0x68, v.gain),
        wr(0x00, 0x6D, v.light_threshold),
        wr(0x00, 0x6E, (v.area_lower % 256) as u8),
        wr(0x00, 0x6F, (v.area_lower / 256) as u8),
        wr(0x00, 0x70, (v.area_upper % 256) as u8),
        wr(0x00, 0x71, (v.area_upper / 256) as u8),
    ]
}

pub fn pag_write_plan(v: &PagValues) -> (w: Vec<RegisterWrite>)
    ensures
        w@ == spec_pag_write_plan(*v),
{
    let expo = pag_exposure_reg(v.exposure_us, true);
    let lower = u16_to_le_bytes(v.area_lower);
    let upper = u16_to_le_bytes(v.area_upper);
    let w = vec![
        RegisterWrite { bank: 0x00, address: 0x13, value: v.fps },
        RegisterWrite { bank: 0x00, address: 0x67, value: expo },
        RegisterWrite { bank: 0x00, address: 0x68, value: v.gain },
        RegisterWrite { bank: 0x00, address: 0x6D, value: v.light_threshold },
        RegisterWrite { bank: 0x00, address: 0x6E, value: lower[0] },
        RegisterWrite { bank: 0x00, address: 0x6F, value: lower[1] },
        RegisterWrite { bank: 0x00, address: 0x70, value: upper[0] },
        RegisterWrite { bank: 0x00, address: 0x71, value: upper[1] },
    ];
    assert(w@ =~= spec_pag_write_plan(*v));
    w
}

/// Register writes that apply the panel.
pub fn pag_apply_plan(s: &PagState) -> (w: Vec<RegisterWrite>)
    ensures
        w@ == spec_pag_write_plan(spec_pag_values_from_state(*s)),
{
    let v = pag_values_from_state(s);
    pag_write_plan(&v)
}

/// Factory settings of the PAG7665.
pub open spec fn spec_pag_default_values() -> PagValues {
    PagValues { fps: 180, exposure_us: 2000, gain: 2, light_threshold: 120, area_lower: 10, area_upper: 65535 }
}

pub fn pag_load_defaults() -> (s: PagState)
    ensures
        pag_state_shows(s, spec_pag_default_values()),
{
    let v = PagValues { fps: 180, exposure_us: 2000, gain: 2, light_threshold: 120, area_lower: 10, area_upper: 65535 };
    pag_state_from_values(&v)
}

/// The PAG panel's text for some settings stands for exactly those settings.
pub proof fn lemma_pag_state_round_trip(s: PagState, v: PagValues)
    requires
        pag_state_shows(s, v),
    ensures
        spec_pag_values_from_state(s) == v,
{
    lemma_parse_or_decimal(v.fps as nat, 255, 180);
    lemma_parse_or_decimal(v.exposure_us as nat, 65535, 2000);
    lemma_parse_or_decimal(v.gain as nat, 255, 2);
    lemma_parse_or_decimal(v.light_threshold as nat, 255, 120);
    lemma_parse_or_decimal(v.area_lower as nat, 65535, 10);
    lemma_parse_or_decimal(v.area_upper as nat, 65535, 65535);
}

/// Applying the PAJ panel right after loading it from a port writes back
/// the bytes that were read, setting for setting (exposure goes to the
/// bank-C exposure registers); the gain pair is written back unchanged
/// whenever it was a step of the table.
pub proof fn lemma_paj_reload_writes_back(r: Seq<u8>, s: PajState)
    requires
        r.len() == spec_paj_read_plan().len(),
        paj_state_shows(s, spec_paj_values_from_reads(r)),
    ensures
        ({
            let w = spec_paj_write_plan(spec_paj_values_from_state(s));
            &&& w.len() == 21
            &&& w[0].value == r[0] && w[1].value == r[1] && w[2].value == r[2]
            &&& w[3].value == r[3] && w[4].value == r[4]
            &&& w[5].value == r[5] && w[6].value == r[6]
            &&& w[7].value == r[7] && w[8].value == r[8]
            &&& w[9].value == r[9] && w[10].value == r[10] && w[11].value == r[11]
            &&& w[12].value == r[12]
            &&& w[15].value == r[15] && w[16].value == r[16]
            &&& w[17].value == r[17] && w[18].value == r[18]
            &&& (exists|i: int| 0 <= i < GAIN_TABLE_LEN && spec_gain_entry(i) == (GainEntry { b_global: r[13], b_ggh: r[14] }))
                ==> w[13].value == r[13] && w[14].value == r[14]
        }),
{
    let v = spec_paj_values_from_reads(r);
    lemma_paj_state_round_trip(s, v);
    assert((r[3] + 256 * r[4]) as u16 % 256 == r[3] && (r[3] + 256 * r[4]) as u16 / 256 == r[4]);
    assert((r[7] + 256 * r[8]) as u16 % 256 == r[7] && (r[7] + 256 * r[8]) as u16 / 256 == r[8]);
    assert((r[15] + 256 * r[16]) as u16 % 256 == r[15] && (r[15] + 256 * r[16]) as u16 / 256 == r[16]);
    assert((r[17] + 256 * r[18]) as u16 % 256 == r[17] && (r[17] + 256 * r[18]) as u16 / 256 == r[18]);
    let fp = (r[9] + 256 * r[10] + 65536 * r[11]) as u32;
    assert(fp % 256 == r[9] && (fp / 256) % 256 == r[10] && (fp / 65536) % 256 == r[11]) by (nonlinear_arith)
        requires
            fp == r[9] + 256 * r[10] + 65536 * r[11],
            r[9] < 256,
            r[10] < 256,
            r[11] < 256,
    ;
    if exists|i: int| 0 <= i < GAIN_TABLE_LEN && spec_gain_entry(i) == (GainEntry { b_global: r[13], b_ggh: r[14] }) {
        let i = choose|i: int| 0 <= i < GAIN_TABLE_LEN && spec_gain_entry(i) == (GainEntry { b_global: r[13], b_ggh: r[14] });
        lemma_gain_table_reads_back(i);
    }
}

/// Applying the PAG panel right after loading it writes back the bytes that
/// were read, the exposure register with its LED bit set.
pub proof fn lemma_pag_reload_writes_back(r: Seq<u8>, s: PagState)
    requires
        r.len() == spec_pag_read_plan().len(),
        pag_state_shows(s, spec_pag_values_from_reads(r)),
    ensures
        ({
            let w = spec_pag_write_plan(spec_pag_values_from_state(s));
            &&& w.len() == 8
            &&& w[0].value == r[0]
            &&& w[1].value == r[1] | 0x80
            &&& w[2].value == r[2] && w[3].value == r[3]
            &&& w[4].value == r[4] && w[5].value == r[5]
            &&& w[6].value == r[6] && w[7].value == r[7]
        }),
{
    let v = spec_pag_values_from_reads(r);
    lemma_pag_state_round_trip(s, v);
    lemma_pag_exposure_round_trip(r[1]);
    assert((r[4] + 256 * r[5]) as u16 % 256 == r[4] && (r[4] + 256 * r[5]) as u16 / 256 == r[5]);
    assert((r[6] + 256 * r[7]) as u16 % 256 == r[6] && (r[6] + 256 * r[7]) as u16 / 256 == r[7]);
}

// --- General settings of the panel ---

/// What `parse::<T>()` gives for the text `t`, for an unsigned `T` whose
/// largest value is `max`.
pub open spec fn spec_parse_field(t: Seq<char>, max: nat) -> Option<nat> {
    spec_parse_radix(utf8(t), 10, max)
}

/// Parses a text field as a decimal number of at most `max`.
pub fn parse_field(t: &String, max: u64) -> (r: Option<u64>)
    ensures
        match spec_parse_field(t@, max as nat) {
            Some(v) => r == Some(v as u64),
            None => r is None,
        },
{
    let bytes = t.as_str().as_bytes();
    assert(bytes@.subrange(0, bytes@.len() as int) =~= bytes@);
    parse_radix(bytes, 0, bytes.len(), 10, max)
}

/// Device configuration writes (index, value) for the general fields: the
/// impact threshold (index 0) and the suppression time (index 1), each only
/// when its text is a byte value.
pub fn general_config_writes(impact_threshold: &String, suppress_ms: &String) -> (r: Vec<(u8, u8)>)
    ensures
        r@ == (match spec_parse_field(impact_threshold@, 255) {
            Some(v) => seq![(0u8, v as u8)],
            None => Seq::empty(),
        }) + (match spec_parse_field(suppress_ms@, 255) {
            Some(v) => seq![(1u8, v as u8)],
            None => Seq::empty(),
        }),
{
    let mut r: Vec<(u8, u8)> = Vec::new();
    if let Some(v) = parse_field(impact_threshold, 255) {
        r.push((0, v as u8));
    }
    if let Some(v) = parse_field(suppress_ms, 255) {
        r.push((1, v as u8));
    }
    assert(r@ =~= (match spec_parse_field(impact_threshold@, 255) {
        Some(v) => seq![(0u8, v as u8)],
        None => Seq::<(u8, u8)>::empty(),
    }) + (match spec_parse_field(suppress_ms@, 255) {
        Some(v) => seq![(1u8, v as u8)],
        None => Seq::<(u8, u8)>::empty(),
    }));
    r
}

/// The shot delay to apply from its field, when the text is a 16-bit value.
pub fn shot_delay_to_apply(text: &String) -> (r: Option<u16>)
    ensures
        match spec_parse_field(text@, 65535) {
            Some(v) => r == Some(v as u16),
            None => r is None,
        },
{
    match parse_field(text, 65535) {
        Some(v) => Some(v as u16),
        None => None,
    }
}


/// Write `w` sets register `a`.
pub open spec fn writes_to(w: RegisterWrite, a: RegisterAddr) -> bool {
    w.bank == a.bank && w.address == a.address
}

/// Position `k` of the PAJ read plan is written back by position `k` of the
/// write plan: every read register but the exposure pair (read from bank 1,
/// written to bank C 0x0F/0x10) and the gain pair (read from bank 1, written
/// to bank C 0x0B/0x0C).
pub open spec fn paj_read_back_slot(k: int) -> bool {
    0 <= k < 19 && k != 7 && k != 8 && k != 13 && k != 14
}

/// Applying PAJ settings and then reading the panel back gives the same
/// settings: each register the panel is read from is written by exactly one
/// write of the plan, the one at the same position; the bytes so written
/// read back as the settings that were applied (the frame period whenever it
/// fits the three bytes written); the exposure bytes hold the exposure time,
/// low byte first; and the gain pair is the one the table gives for the
/// (clamped) gain step, which reads back as that step.
pub proof fn lemma_paj_write_then_read(v: PajValues)
    ensures
        ({
            let w = spec_paj_write_plan(v);
            let rp = spec_paj_read_plan();
            let back = spec_paj_values_from_reads(Seq::new(19, |k: int| w[k].value));
            &&& forall|k: int| #[trigger] paj_read_back_slot(k) ==> writes_to(w[k], rp[k]) && forall|j: int|
                0 <= j < w.len() && j != k ==> !writes_to(w[j], rp[k])
            &&& back.brightness_threshold == v.brightness_threshold
            &&& back.noise_threshold == v.noise_threshold
            &&& back.area_threshold_min == v.area_threshold_min
            &&& back.area_threshold_max == v.area_threshold_max
            &&& back.max_object_cnt == v.max_object_cnt
            &&& back.operation_mode == v.operation_mode
            &&& back.frame_subtraction == v.frame_subtraction
            &&& back.resolution_x == v.resolution_x
            &&& back.resolution_y == v.resolution_y
            &&& v.frame_period < 16777216 ==> back.frame_period == v.frame_period
            &&& w[7].value + 256 * w[8].value == v.exposure_time
            &&& spec_gain_index_from_reg(w[13].value, w[14].value) == spec_clamp_gain_index(v.gain_index as int)
        }),
{
    let w = spec_paj_write_plan(v);
    let rp = spec_paj_read_plan();
    lemma_u16_bytes_round_trip(v.area_threshold_max);
    lemma_u16_bytes_round_trip(v.exposure_time);
    lemma_u16_bytes_round_trip(v.resolution_x);
    lemma_u16_bytes_round_trip(v.resolution_y);
    lemma_u32_3_bytes_round_trip(v.frame_period);
    let g = spec_clamp_gain_index(v.gain_index as int);
    assert(0 <= g < GAIN_TABLE_LEN);
    lemma_gain_table_reads_back(g);
    assert forall|k: int| #[trigger] paj_read_back_slot(k) implies writes_to(w[k], rp[k]) && forall|j: int|
        0 <= j < w.len() && j != k ==> !writes_to(w[j], rp[k]) by {
        assert(0 <= k < 19);
    }
}

/// Applying PAG settings and then reading the panel back gives the same
/// settings: each register the panel is read from is written by exactly one
/// write of the plan, the one at the same position, and the bytes written
/// read back as the settings applied (the exposure to 100 µs steps, whenever
/// it is below 12 800 µs).
pub proof fn lemma_pag_write_then_read(v: PagValues)
    ensures
        ({
            let w = spec_pag_write_plan(v);
            let rp = spec_pag_read_plan();
            let back = spec_pag_values_from_reads(Seq::new(8, |k: int| w[k].value));
            &&& w.len() == rp.len()
            &&& forall|k: int| 0 <= k < 8 ==> writes_to(#[trigger] w[k], rp[k]) && forall|j: int|
                0 <= j < w.len() && j != k ==> !writes_to(w[j], rp[k])
            &&& back.fps == v.fps
            &&& back.gain == v.gain
            &&& back.light_threshold == v.light_threshold
            &&& back.area_lower == v.area_lower
            &&& back.area_upper == v.area_upper
            &&& v.exposure_us < 12800 ==> back.exposure_us == v.exposure_us / 100 * 100
        }),
{
    let w = spec_pag_write_plan(v);
    lemma_u16_bytes_round_trip(v.area_lower);
    lemma_u16_bytes_round_trip(v.area_upper);
    if v.exposure_us < 12800 {
        let m = (v.exposure_us / 100) as u8;
        assert(m < 128);
        assert((m | 0x80u8) & 0x7F == m) by (bit_vector)
            requires
                m < 128,
        ;
        assert(w[1].value == m | 0x80u8);
    }
}

} // verus!
