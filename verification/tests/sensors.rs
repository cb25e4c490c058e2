use odyssey_hub::device::{DeviceCapabilities, CONTROL, EVENTS};
use odyssey_hub::sensor_settings::{
    clamp_gain_index, gain_entry, gain_index_from_reg, gain_label, gain_table, pag_apply_plan, pag_exposure_reg,
    pag_exposure_us, pag_load_defaults, pag_read_plan, pag_state_from_reads, pag_values_from_state, paj_apply_plan,
    paj_load_defaults, paj_read_plan, paj_state_from_reads, paj_values_from_state, paj_write_plan, parse_or,
    sensor_panel, u16_from_le_bytes, u16_to_le_bytes, u32_from_3_bytes, u32_to_3_bytes, GainEntry, PagState,
    PajState, PajValues, RegisterAddr, RegisterWrite, SensorKind, GAIN_TABLE_LEN,
};

const LABELS: [&str; 49] = [
    "1.0000", "1.0625", "1.1250", "1.1875", "1.2500", "1.3125", "1.3750", "1.4375", "1.5000", "1.5625", "1.6250",
    "1.6875", "1.7500", "1.8125", "1.8750", "1.9375", "2.0000", "2.1250", "2.2500", "2.3750", "2.5000", "2.6250",
    "2.7500", "2.8750", "3.0000", "3.1250", "3.2500", "3.3750", "3.5000", "3.6250", "3.7500", "3.8750", "4.0000",
    "4.2500", "4.5000", "4.7500", "5.0000", "5.2500", "5.5000", "5.7500", "6.0000", "6.2500", "6.5000", "6.7500",
    "7.0000", "7.2500", "7.5000", "7.7500", "8.0000",
];

#[test]
fn sensor_panel_by_product_and_capabilities() {
    let events = DeviceCapabilities::new(EVENTS | CONTROL);
    let control = DeviceCapabilities::new(CONTROL);
    assert_eq!(sensor_panel(0x520F, &events), Some(SensorKind::Paj));
    assert_eq!(sensor_panel(0x5210, &events), Some(SensorKind::Paj));
    assert_eq!(sensor_panel(0x5211, &events), Some(SensorKind::Pag));
    assert_eq!(sensor_panel(0x5211, &control), None);
    assert_eq!(sensor_panel(0x5212, &events), None);
}

#[test]
fn register_byte_layout() {
    assert_eq!(u16_from_le_bytes(0x85, 0x25), 0x2585);
    assert_eq!(u16_to_le_bytes(0x2585), [0x85, 0x25]);
    assert_eq!(u32_from_3_bytes(0x74, 0xC2, 0x00), 49780);
    assert_eq!(u32_to_3_bytes(49780), [0x74, 0xC2, 0x00]);
    assert_eq!(u32_to_3_bytes(0x0102_0304), [0x04, 0x03, 0x02]);
    let [a, b, c] = u32_to_3_bytes(0x00ab_cdef);
    assert_eq!(u32_from_3_bytes(a, b, c), 0x00ab_cdef);
}

#[test]
fn gain_table_entries_and_labels() {
    let t = gain_table();
    assert_eq!(t.len(), GAIN_TABLE_LEN);
    assert_eq!(t[0], GainEntry { b_global: 0, b_ggh: 0 });
    assert_eq!(t[15], GainEntry { b_global: 15, b_ggh: 0 });
    assert_eq!(t[16], GainEntry { b_global: 0, b_ggh: 2 });
    assert_eq!(t[48], GainEntry { b_global: 16, b_ggh: 3 });
    for (i, e) in t.iter().enumerate() {
        assert_eq!(gain_label(*e), LABELS[i]);
        assert_eq!(gain_index_from_reg(e.b_global, e.b_ggh), i);
        assert_eq!(gain_entry(i), *e);
    }
}

#[test]
fn gain_index_reading_and_clamp() {
    assert_eq!(gain_index_from_reg(16, 0), 16);
    assert_eq!(gain_index_from_reg(8, 3), 40);
    assert_eq!(gain_index_from_reg(5, 1), 5);
    assert_eq!(gain_index_from_reg(255, 255), 254 * 16 + 255);
    assert_eq!(clamp_gain_index(7), 7);
    assert_eq!(clamp_gain_index(48), 48);
    assert_eq!(clamp_gain_index(100), 48);
}

#[test]
fn text_fields_parse_like_str_parse() {
    assert_eq!(parse_or(&"42".to_string(), 255, 7), 42);
    assert_eq!(parse_or(&"+42".to_string(), 255, 7), 42);
    assert_eq!(parse_or(&"".to_string(), 255, 7), 7);
    assert_eq!(parse_or(&"300".to_string(), 255, 7), 7);
    assert_eq!(parse_or(&"-1".to_string(), 255, 7), 7);
    assert_eq!(parse_or(&" 1".to_string(), 255, 7), 7);
    assert_eq!(parse_or(&"4294967295".to_string(), 0xFFFF_FFFF, 7), 4294967295);
}

#[test]
fn paj_default_panels() {
    let nf = paj_load_defaults(0);
    assert_eq!(nf.brightness_threshold, "110");
    assert_eq!(nf.noise_threshold, "15");
    assert_eq!(nf.area_threshold_min, "10");
    assert_eq!(nf.area_threshold_max, "9605");
    assert_eq!(nf.max_object_cnt, "16");
    assert_eq!(nf.operation_mode, "0");
    assert_eq!(nf.exposure_time, "8192");
    assert_eq!(nf.frame_period, "49780");
    assert_eq!(nf.frame_subtraction, "0");
    assert_eq!(nf.gain_index, "16");
    assert_eq!(nf.resolution_x, "4095");
    assert_eq!(nf.resolution_y, "4095");
    let wf = paj_load_defaults(1);
    assert_eq!(wf.area_threshold_min, "5");
    assert_eq!(wf.exposure_time, "11365");
    assert_eq!(wf.gain_index, "40");
    let empty = PajState::default();
    assert_eq!(empty.brightness_threshold, "");
    assert_eq!(empty.operation_mode, "0");
    assert_eq!(empty.gain_index, "0");
}

#[test]
fn paj_empty_panel_applies_fallbacks() {
    let v = paj_values_from_state(&PajState::default());
    assert_eq!(
        v,
        PajValues {
            brightness_threshold: 0,
            noise_threshold: 0,
            area_threshold_min: 0,
            area_threshold_max: 0,
            max_object_cnt: 16,
            operation_mode: 0,
            exposure_time: 0,
            frame_period: 49780,
            frame_subtraction: 0,
            gain_index: 0,
            resolution_x: 4095,
            resolution_y: 4095,
        }
    );
}

#[test]
fn paj_read_and_write_plans() {
    let reads = paj_read_plan();
    assert_eq!(reads.len(), 19);
    assert_eq!(reads[0], RegisterAddr { bank: 0x0C, address: 0x47 });
    assert_eq!(reads[13], RegisterAddr { bank: 0x01, address: 0x05 });
    let nf = paj_load_defaults(0);
    let w = paj_apply_plan(&nf);
    assert_eq!(w.len(), 21);
    assert_eq!(w[0], RegisterWrite { bank: 0x0C, address: 0x47, value: 110 });
    assert_eq!(w[3], RegisterWrite { bank: 0x00, address: 0x0B, value: 0x85 });
    assert_eq!(w[4], RegisterWrite { bank: 0x00, address: 0x0C, value: 0x25 });
    assert_eq!(w[7], RegisterWrite { bank: 0x0C, address: 0x0F, value: 0x00 });
    assert_eq!(w[8], RegisterWrite { bank: 0x0C, address: 0x10, value: 0x20 });
    assert_eq!(w[9], RegisterWrite { bank: 0x0C, address: 0x07, value: 0x74 });
    assert_eq!(w[10], RegisterWrite { bank: 0x0C, address: 0x08, value: 0xC2 });
    assert_eq!(w[11], RegisterWrite { bank: 0x0C, address: 0x09, value: 0x00 });
    assert_eq!(w[13], RegisterWrite { bank: 0x0C, address: 0x0B, value: 0 });
    assert_eq!(w[14], RegisterWrite { bank: 0x0C, address: 0x0C, value: 2 });
    assert_eq!(w[19], RegisterWrite { bank: 0x01, address: 0x01, value: 1 });
    assert_eq!(w[20], RegisterWrite { bank: 0x00, address: 0x01, value: 1 });
    let mut big = nf.clone();
    big.gain_index = "1000".to_string();
    let w = paj_apply_plan(&big);
    assert_eq!(w[13].value, 16);
    assert_eq!(w[14].value, 3);
}

#[test]
fn paj_reload_writes_back_what_was_read() {
    let reads: Vec<u8> = vec![1, 2, 3, 4, 5, 6, 7, 8, 9, 10, 11, 12, 13, 9, 2, 14, 15, 16, 17];
    let s = paj_state_from_reads(&reads);
    assert_eq!(s.area_threshold_max, (4u32 + 256 * 5).to_string());
    assert_eq!(s.frame_period, (10u32 + 256 * 11 + 65536 * 12).to_string());
    assert_eq!(s.gain_index, "25");
    let w = paj_apply_plan(&s);
    let values: Vec<u8> = w.iter().map(|x| x.value).collect();
    assert_eq!(values, vec![1, 2, 3, 4, 5, 6, 7, 8, 9, 10, 11, 12, 13, 9, 2, 14, 15, 16, 17, 1, 1]);
    let v = paj_values_from_state(&s);
    assert_eq!(paj_write_plan(&v), w);
}

#[test]
fn pag_exposure_register() {
    assert_eq!(pag_exposure_reg(2000, true), 0x94);
    assert_eq!(pag_exposure_reg(2000, false), 20);
    assert_eq!(pag_exposure_reg(65535, false), (655u16 as u8));
    assert_eq!(pag_exposure_us(0x94), 2000);
    assert_eq!(pag_exposure_us(0x7F), 12700);
}

#[test]
fn pag_panel_defaults_and_reload() {
    let d = pag_load_defaults();
    assert_eq!(d.fps, "180");
    assert_eq!(d.exposure_us, "2000");
    assert_eq!(d.gain, "2");
    assert_eq!(d.light_threshold, "120");
    assert_eq!(d.area_lower, "10");
    assert_eq!(d.area_upper, "65535");
    let v = pag_values_from_state(&PagState::default());
    assert_eq!((v.fps, v.exposure_us, v.gain, v.light_threshold, v.area_lower, v.area_upper), (180, 2000, 2, 120, 10, 65535));
    assert_eq!(pag_read_plan().len(), 8);
    let reads: Vec<u8> = vec![90, 0x15, 3, 100, 0x34, 0x12, 0xff, 0x00];
    let s = pag_state_from_reads(&reads);
    assert_eq!(s.exposure_us, "2100");
    assert_eq!(s.area_lower, "4660");
    let w = pag_apply_plan(&s);
    let values: Vec<u8> = w.iter().map(|x| x.value).collect();
    assert_eq!(values, vec![90, 0x95, 3, 100, 0x34, 0x12, 0xff, 0x00]);
    assert!(w.iter().all(|x| x.bank == 0));
}

#[test]
fn general_settings_writes() {
    let w = odyssey_hub::sensor_settings::general_config_writes(&"40".to_string(), &"12".to_string());
    assert_eq!(w, vec![(0, 40), (1, 12)]);
    let w = odyssey_hub::sensor_settings::general_config_writes(&"400".to_string(), &"12".to_string());
    assert_eq!(w, vec![(1, 12)]);
    let w = odyssey_hub::sensor_settings::general_config_writes(&"".to_string(), &"x".to_string());
    assert!(w.is_empty());
    assert_eq!(odyssey_hub::sensor_settings::shot_delay_to_apply(&"65535".to_string()), Some(65535));
    assert_eq!(odyssey_hub::sensor_settings::shot_delay_to_apply(&"65536".to_string()), None);
    assert_eq!(odyssey_hub::sensor_settings::parse_field(&"+7".to_string(), 9), Some(7));
}
