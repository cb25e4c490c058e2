use odyssey_hub::digest::{check_firmware_sha256, compare_digest, sha256_hex, DigestMismatch};
use odyssey_hub::firmware::{
    build_download_url, device_info_from_pid, device_map, device_type_from_vid_pid, find_any_known_device,
    find_compatible_firmware, find_device_vid_pid_by_uuid, DeviceManifest, FileEntry, FirmwareEntry,
    FirmwareManifest, UsbDeviceListing,
};
use odyssey_hub::version::{semver_at_least, version_newer, versions_compatible};

#[test]
fn test_version_compatibility() {
    // 0.x.y: minor must match
    assert!(versions_compatible([0, 1, 0], [0, 1, 5]));
    assert!(!versions_compatible([0, 1, 0], [0, 2, 0]));

    // 1+.x.y: major must match
    assert!(versions_compatible([1, 0, 0], [1, 5, 0]));
    assert!(!versions_compatible([1, 0, 0], [2, 0, 0]));
}

#[test]
fn test_version_newer() {
    assert!(version_newer([0, 1, 0], [0, 1, 1]));
    assert!(version_newer([0, 1, 0], [0, 2, 0]));
    assert!(version_newer([0, 1, 0], [1, 0, 0]));
    assert!(!version_newer([0, 1, 1], [0, 1, 0]));
    assert!(!version_newer([0, 1, 0], [0, 1, 0]));
}

#[test]
fn test_build_download_url() {
    assert_eq!(
        build_download_url("atslite", "0.1.1", "app-a"),
        "https://github.com/odysseyarm/donger/releases/download/atslite-v0.1.1/app-a.bin"
    );
}

fn entry(version: &str) -> FirmwareEntry {
    FirmwareEntry {
        version: version.to_string(),
        files: vec![(
            "app-a".to_string(),
            FileEntry { sha256: "00".to_string(), size: 1 },
        )],
        released: "2024-01-01".to_string(),
    }
}

fn manifest() -> FirmwareManifest {
    FirmwareManifest {
        version: 1,
        devices: vec![
            (
                "atslite1".to_string(),
                DeviceManifest { firmwares: vec![entry("1.0.0"), entry("0.2.0"), entry("0.1.3"), entry("0.1.2")] },
            ),
            ("dongle".to_string(), DeviceManifest { firmwares: vec![entry("bad"), entry("0.3.1")] }),
        ],
    }
}

#[test]
fn compatible_firmware_is_first_newer_in_same_line() {
    let m = manifest();
    let fw = find_compatible_firmware(&m, "atslite1", [0, 1, 2]).unwrap();
    assert_eq!(fw.version, "0.1.3");
    let fw = find_compatible_firmware(&m, "atslite1", [0, 2, 0]);
    assert!(fw.is_none());
    let fw = find_compatible_firmware(&m, "atslite1", [1, 0, 0]);
    assert!(fw.is_none());
}

#[test]
fn compatible_firmware_skips_unparsable_versions() {
    let m = manifest();
    let fw = find_compatible_firmware(&m, "dongle", [0, 3, 0]).unwrap();
    assert_eq!(fw.version, "0.3.1");
}

#[test]
fn compatible_firmware_unknown_device_type() {
    let m = manifest();
    assert!(find_compatible_firmware(&m, "nothing", [0, 1, 0]).is_none());
}

#[test]
fn firmware_entry_version_parts() {
    assert_eq!(entry("1.22.333").version_parts(), Some([1, 22, 333]));
    assert_eq!(entry("1.2").version_parts(), None);
    assert_eq!(entry("1.2.x").version_parts(), None);
    assert_eq!(entry("1.2.70000").version_parts(), None);
}

#[test]
fn written_version_parses_back() {
    for v in [[0u16, 0, 0], [1, 22, 333], [65535, 10, 7]] {
        let text = format!("{}.{}.{}", v[0], v[1], v[2]);
        assert_eq!(entry(&text).version_parts(), Some(v));
    }
}

#[test]
fn device_table_lookups() {
    assert_eq!(device_map().len(), 3);
    assert_eq!(device_type_from_vid_pid(0x1915, 0x5211), Some("atslite1"));
    assert_eq!(device_type_from_vid_pid(0x1915, 0x5210), Some("legacy-atslite1"));
    assert_eq!(device_type_from_vid_pid(0x1234, 0x5211), None);
    assert_eq!(device_info_from_pid(0x5212), Some((0x1915, 0x5212, "dongle")));
    assert_eq!(device_info_from_pid(0x5213), None);
}

#[test]
fn any_known_device_follows_table_order() {
    let present = vec![(0x1915, 0x5212), (0x1915, 0x5211), (0x0001, 0x0002)];
    assert_eq!(find_any_known_device(&present), Some((0x1915, 0x5211, "atslite1")));
    assert_eq!(find_any_known_device(&vec![(0x0001, 0x0002)]), None);
}

#[test]
fn usb_device_found_by_serial_ignoring_case_and_separators() {
    let uuid = [0xaa, 0xbb, 0xcc, 0x01, 0x02, 0x0f];
    let devices = vec![
        UsbDeviceListing { vendor_id: 0x1915, product_id: 0x5211, serial_number: None },
        UsbDeviceListing { vendor_id: 0x1234, product_id: 0x5211, serial_number: Some("AABBCC01020F".to_string()) },
        UsbDeviceListing { vendor_id: 0x1915, product_id: 0x5210, serial_number: Some("aa:bb:cc:01:02:0f".to_string()) },
        UsbDeviceListing { vendor_id: 0x1915, product_id: 0x5211, serial_number: Some("AABBCC01020F".to_string()) },
    ];
    assert_eq!(find_device_vid_pid_by_uuid(&uuid, &devices), Some((0x1915, 0x5210)));
    let other = [0, 0, 0, 0, 0, 1];
    assert_eq!(find_device_vid_pid_by_uuid(&other, &devices), None);
}

#[test]
fn semver_at_least_orders_versions() {
    assert!(semver_at_least([0, 4, 0], [0, 4, 0]));
    assert!(semver_at_least([1, 0, 0], [0, 9, 9]));
    assert!(!semver_at_least([0, 3, 9], [0, 4, 0]));
}

#[test]
fn sha256_of_abc() {
    assert_eq!(
        sha256_hex(b"abc"),
        "ba7816bf8f01cfea414140de5dae2223b00361a396177a9cb410ff61f20015ad"
    );
}

#[test]
fn firmware_digest_check() {
    let good = "ba7816bf8f01cfea414140de5dae2223b00361a396177a9cb410ff61f20015ad";
    assert_eq!(check_firmware_sha256(b"abc", good), Ok(()));
    let bad = "BA7816BF8F01CFEA414140DE5DAE2223B00361A396177A9CB410FF61F20015AD";
    assert_eq!(
        check_firmware_sha256(b"abc", bad),
        Err(DigestMismatch { expected: bad.to_string(), got: good.to_string() })
    );
}

#[test]
fn digest_comparison_is_exact() {
    assert_eq!(compare_digest("ab".to_string(), "ab"), Ok(()));
    assert_eq!(
        compare_digest("ab".to_string(), "AB"),
        Err(DigestMismatch { expected: "AB".to_string(), got: "ab".to_string() })
    );
}
