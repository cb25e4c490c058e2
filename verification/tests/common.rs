use odyssey_hub::accessory::{
    assignment_from_wire, assignment_to_wire, key_from_u64, key_to_u64, AccessoryFeature, AccessoryInfo,
    AccessoryType,
};
use odyssey_hub::config::{ConfigFileType, ConfigLoadResult, ConfigRead};
use odyssey_hub::hexkeymap::{decode_hex_key, encode_hex_key, hex_key_split_panics, HexKeyError, HexKeyMapN, HexValue};
use odyssey_hub::tracking_history::{abs_diff, TrackingHistory};
use odyssey_hub::update_channel::UpdateChannel;

#[test]
fn hex_key_encoding() {
    assert_eq!(encode_hex_key(&[0x00, 0x11, 0x22, 0xaa, 0xbb, 0xcc]), "0x001122aabbcc");
    assert_eq!(decode_hex_key::<6>("0x001122aabbcc"), Ok([0x00, 0x11, 0x22, 0xaa, 0xbb, 0xcc]));
    assert_eq!(decode_hex_key::<2>("0xABcd"), Ok([0xab, 0xcd]));
}

#[test]
fn hex_key_round_trip() {
    let key = [0xde, 0xad, 0xbe, 0xef, 0x01, 0x90];
    assert_eq!(decode_hex_key::<6>(&encode_hex_key(&key)), Ok(key));
}

#[test]
fn hex_key_errors() {
    assert_eq!(decode_hex_key::<2>("abcd"), Err(HexKeyError::MissingPrefix));
    assert_eq!(decode_hex_key::<2>("0xabc"), Err(HexKeyError::WrongLength { expected: 4, got: 3 }));
    assert_eq!(decode_hex_key::<2>("0xabg0"), Err(HexKeyError::InvalidHexByte { index: 1 }));
    // each pair is read as `u8::from_str_radix` reads it, which takes a leading '+'
    assert_eq!(decode_hex_key::<2>("0xab+c"), Ok([0xab, 0x0c]));
    assert_eq!(decode_hex_key::<2>("0xzz00"), Err(HexKeyError::InvalidHexByte { index: 0 }));
    assert!(!hex_key_split_panics::<2>("0xabcd"));
    // "é" is two bytes: the second pair would slice through it
    assert!(hex_key_split_panics::<2>("0xa\u{e9}b"));
}

#[test]
fn hex_value_text() {
    assert_eq!(HexValue(0xc0decafe).format(), "0xc0decafe");
    assert_eq!(HexValue(0).format(), "0x0");
    assert_eq!(HexValue::parse("0xC0DECAFE"), Some(HexValue(0xc0decafe)));
    assert_eq!(HexValue::parse("c0decafe"), None);
    assert_eq!(HexValue::parse("0x"), None);
    assert_eq!(HexValue::parse("0x10000000000000000"), None);
    assert_eq!(HexValue::parse(&HexValue(u64::MAX).format()), Some(HexValue(u64::MAX)));
}

#[test]
fn hex_key_map_operations() {
    let mut m: HexKeyMapN<u32, 2> = HexKeyMapN::new();
    m.insert([1, 2], 10);
    m.insert([3, 4], 20);
    m.insert([1, 2], 11);
    assert_eq!(m.len(), 2);
    assert_eq!(m.get(&[1, 2]), Some(&11));
    assert_eq!(m.remove(&[1, 2]), Some(11));
    assert_eq!(m.remove(&[1, 2]), None);
    assert_eq!(m.get(&[1, 2]), None);
    assert_eq!(m.keys(), vec![[3, 4]]);
}

#[test]
fn hex_key_map_from_entries() {
    let m = HexKeyMapN::<u32, 2>::from_entries(vec![
        ("0x0102".to_string(), 1),
        ("0x0304".to_string(), 2),
        ("0x0102".to_string(), 3),
    ])
    .ok()
    .unwrap();
    assert_eq!(m.len(), 2);
    assert_eq!(m.get(&[1, 2]), Some(&3));
    let e = HexKeyMapN::<u32, 2>::from_entries(vec![("0x0102".to_string(), 1), ("0102".to_string(), 2)]);
    assert!(matches!(e, Err(HexKeyError::MissingPrefix)));
}

#[test]
fn config_load_results() {
    let r: ConfigLoadResult<u32> = ConfigLoadResult::from_read(ConfigRead::Parsed(7));
    assert!(!r.is_corrupted());
    assert_eq!(r.corruption_info(), None);
    assert_eq!(r.into_value(), 7);
    let r: ConfigLoadResult<u32> = ConfigLoadResult::from_read(ConfigRead::ParseFailed {
        path: "a.json".to_string(),
        error: "bad".to_string(),
    });
    assert!(r.is_corrupted());
    assert_eq!(r.corruption_info(), Some(("a.json".to_string(), "bad".to_string())));
    assert_eq!(r.into_value(), 0);
    let r: ConfigLoadResult<u32> = ConfigLoadResult::from_read(ConfigRead::NotFound);
    assert!(!r.is_corrupted());
    assert_eq!(r.into_value(), 0);
    let r: ConfigLoadResult<u32> = ConfigLoadResult::from_read(ConfigRead::ReadFailed {
        path: "b".to_string(),
        error: "io".to_string(),
    });
    assert!(r.is_corrupted());
    assert!(matches!(
        ConfigLoadResult::<u32>::from_read(ConfigRead::NoConfigDir),
        ConfigLoadResult::NotFoundUsingDefault
    ));
    assert!(matches!(
        ConfigLoadResult::<u32>::from_read(ConfigRead::ExistsCheckFailed),
        ConfigLoadResult::NotFoundUsingDefault
    ));
    assert_ne!(ConfigFileType::AccessoryMap, ConfigFileType::DeviceOffsets);
}

#[test]
fn tracking_history_keeps_latest() {
    let mut h: TrackingHistory<u8> = TrackingHistory::new(2);
    assert_eq!(h.get_closest(5), None);
    h.push(10, b'a');
    assert_eq!(h.get_closest(1000), Some(b'a'));
    h.push(20, b'b');
    h.push(30, b'c');
    assert_eq!(h.get_closest(12), Some(b'b'));
    assert_eq!(h.get_closest(10), Some(b'b'));
    assert_eq!(h.get_closest(29), Some(b'c'));
    // a tie goes to the earlier slot of the buffer, here the newest event
    assert_eq!(h.get_closest(25), Some(b'c'));
}

#[test]
fn hex_key_error_messages() {
    let m = |k: &str| decode_hex_key::<2>(k).unwrap_err().message::<2>(k);
    assert_eq!(m("abcd"), "Missing 0x prefix: abcd");
    assert_eq!(m("0xabc"), "Expected 4 hex digits (2 bytes), got 3: 0xabc");
    assert_eq!(m("0xabg0"), "Invalid hex byte: g0");
    assert_eq!(m("0x\u{e9}00"), "Invalid hex byte: \u{e9}");
}

#[test]
fn tracking_history_never_returns_evicted() {
    let mut h: TrackingHistory<u8> = TrackingHistory::new(2);
    assert_eq!(h.get_closest(0), None);
    h.push(0, 1);
    h.push(50, 2);
    h.push(60, 3);
    // the event at 0 was evicted: the nearest kept one is at 50
    assert_eq!(h.get_closest(0), Some(2));
}

#[test]
fn tracking_history_exact_and_far() {
    let mut h: TrackingHistory<u8> = TrackingHistory::new(4);
    h.push(0, 1);
    // nothing is closer than u32::MAX away from 0: not found
    assert_eq!(h.get_closest(u32::MAX), None);
    h.push(100, 2);
    assert_eq!(h.get_closest(100), Some(2));
    assert_eq!(abs_diff(3, 10), 7);
    assert_eq!(abs_diff(10, 3), 7);
}

#[test]
fn update_channel_names() {
    assert_eq!(UpdateChannel::default(), UpdateChannel::Stable);
    assert_eq!(UpdateChannel::all(), [UpdateChannel::Stable, UpdateChannel::Beta, UpdateChannel::Nightly]);
    for c in UpdateChannel::all() {
        assert_eq!(UpdateChannel::parse(c.as_str()), Some(c));
    }
    assert_eq!(UpdateChannel::parse("Stable"), None);
    assert_eq!(UpdateChannel::Beta.label(), "Beta");
    assert_eq!(UpdateChannel::Nightly.velopack_channel(), "win-x64-nightly");
    assert!(!UpdateChannel::Stable.includes_prereleases());
    assert!(UpdateChannel::Beta.includes_prereleases());
}

#[test]
fn accessory_keys_and_assignment() {
    let k = [1, 2, 3, 4, 5, 6];
    assert_eq!(key_to_u64(k), 0x0000_0605_0403_0201);
    assert_eq!(key_from_u64(0x0000_0605_0403_0201), k);
    assert_eq!(key_from_u64(0xffff_0605_0403_0201), k);
    assert_eq!(assignment_to_wire(None), 0);
    assert_eq!(assignment_to_wire(Some(42)), 42);
    assert_eq!(assignment_from_wire(0), None);
    assert_eq!(assignment_from_wire(42), Some(42));
    let info = AccessoryInfo::with_defaults("mag".to_string(), AccessoryType::DryFireMag);
    assert_eq!(info.features, vec![AccessoryFeature::Impact]);
    assert_eq!(info.assignment, None);
    assert_eq!(info.name, "mag");
}

#[test]
fn hex_key_map_written_then_read_back() {
    let mut m: HexKeyMapN<u16, 6> = HexKeyMapN::new();
    m.insert([0, 1, 2, 3, 4, 5], 40);
    m.insert([0xff, 0xee, 0xdd, 0xcc, 0xbb, 0xaa], 7);
    let keys = m.encoded_keys();
    assert_eq!(keys, vec!["0x000102030405".to_string(), "0xffeeddccbbaa".to_string()]);
    let entries: Vec<(String, u16)> = keys.into_iter().zip(m.0.iter().map(|e| e.1)).collect();
    let back = HexKeyMapN::<u16, 6>::from_entries(entries).ok().unwrap();
    assert_eq!(back.len(), 2);
    assert_eq!(back.get(&[0, 1, 2, 3, 4, 5]), Some(&40));
    assert_eq!(back.get(&[0xff, 0xee, 0xdd, 0xcc, 0xbb, 0xaa]), Some(&7));
}
