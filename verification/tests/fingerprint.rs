use cydevice::fingerprint::{device_fingerprint_v2, hex_lower, nibble_to_hex, sanitize_fingerprint_value};
use cydevice::report::{
    Antivirus, DiskEncryption, Firewall, HardwareRootOfTrust, OsUpdates, PostureReport,
    RemoteAccess, ScreenLock,
};

fn base_report() -> PostureReport {
    PostureReport {
        schema: 1,
        collected_at_unix_nanos: 0,
        agent_version: "test".into(),
        device_fingerprint_v2: String::new(),
        host_uid: "host-1".into(),
        hostname: "laptop-1".into(),
        platform: "linux".into(),
        os_name: "Linux".into(),
        os_version: "1".into(),
        kernel: "1".into(),
        arch: "x86_64".into(),
        uptime_secs: 1,
        current_user: "tester".into(),
        disk_encryption: DiskEncryption::default(),
        screen_lock: ScreenLock::default(),
        firewall: Firewall::default(),
        antivirus: Antivirus::default(),
        os_updates: OsUpdates::default(),
        remote_access: RemoteAccess::default(),
        hardware_root_of_trust: HardwareRootOfTrust::default(),
        findings: Vec::new(),
    }
}

#[test]
fn fingerprint_is_stable_and_hex_encoded() {
    let mut report = base_report();
    report.hardware_root_of_trust.kind = "tpm2".into();
    report.hardware_root_of_trust.vendor = Some("IFX".into());
    report.disk_encryption.mechanism = "LUKS".into();

    let a = device_fingerprint_v2(&report);
    let b = device_fingerprint_v2(&report);

    assert_eq!(a, b);
    assert_eq!(a.len(), 64);
    assert!(a
        .chars()
        .all(|c| c.is_ascii_hexdigit() && !c.is_ascii_uppercase()));
}

#[test]
fn fingerprint_matches_sha256_of_canonical_listing() {
    let mut report = base_report();
    report.hardware_root_of_trust.kind = "tpm2".into();
    report.hardware_root_of_trust.vendor = Some("IFX".into());
    report.disk_encryption.mechanism = "LUKS".into();
    assert_eq!(
        device_fingerprint_v2(&report),
        "34bff55b58120d4afaa7e29a5148ab15644cb4ca33d5942b23c836223c2d1cad"
    );
}

#[test]
fn fingerprint_ignores_cosmetics_and_unrelated_fields() {
    let mut a = base_report();
    a.disk_encryption.mechanism = "LUKS".into();
    a.hardware_root_of_trust.kind = "tpm2".into();
    a.hardware_root_of_trust.vendor = Some("IFX".into());
    let mut b = a.clone();
    b.disk_encryption.mechanism = "  luks\n".into();
    b.hardware_root_of_trust.vendor = Some("ifx".into());
    b.hostname = "renamed".into();
    b.firewall.assessed = true;
    assert_eq!(device_fingerprint_v2(&a), device_fingerprint_v2(&b));

    let mut c = a.clone();
    c.hardware_root_of_trust.present = true;
    assert_ne!(device_fingerprint_v2(&a), device_fingerprint_v2(&c));
}

#[test]
fn empty_kind_and_missing_vendor_read_as_unknown() {
    let a = base_report();
    let mut b = base_report();
    b.hardware_root_of_trust.kind = "unknown".into();
    b.hardware_root_of_trust.vendor = Some("Unknown".into());
    assert_eq!(device_fingerprint_v2(&a), device_fingerprint_v2(&b));
}

#[test]
fn sanitizes_values() {
    assert_eq!(sanitize_fingerprint_value("  Apple M2\r\nPro \t"), "apple m2  pro");
    assert_eq!(sanitize_fingerprint_value("ÄBC"), "Äbc");
    assert_eq!(sanitize_fingerprint_value("\n"), "");
    let once = sanitize_fingerprint_value(" Dell\rInc. ");
    assert_eq!(sanitize_fingerprint_value(&once), once);
}

#[test]
fn hex_is_lower_case_two_digits_per_byte() {
    assert_eq!(hex_lower(&[0x00, 0x0f, 0xa5, 0xff]), "000fa5ff");
    assert_eq!(hex_lower(&[]), "");
    assert_eq!(nibble_to_hex(9), '9');
    assert_eq!(nibble_to_hex(10), 'a');
    assert_eq!(nibble_to_hex(15), 'f');
}
