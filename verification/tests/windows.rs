use cydevice::posture::windows::{
    antivirus_from_security_center, disk_from_bitlocker, hardware_root_of_trust_from_tpm,
    parse_bitlocker_status, parse_ps_bool, parse_tpm_status, remote_access_from_services,
    screen_lock_from_registry, updates_from_windows_update,
};
use cydevice::report::{Antivirus, DiskEncryption, HardwareRootOfTrust, OsUpdates, RemoteAccess, ScreenLock};

#[test]
fn parses_bitlocker_enabled_output() {
    assert_eq!(
        parse_bitlocker_status("1|FullyEncrypted|XtsAes256"),
        Some((true, "BitLocker (XtsAes256)".into()))
    );
}

#[test]
fn parses_bitlocker_disabled_output() {
    assert_eq!(
        parse_bitlocker_status("0|FullyDecrypted|"),
        Some((false, "BitLocker".into()))
    );
}

#[test]
fn ignores_empty_bitlocker_output() {
    assert_eq!(parse_bitlocker_status(" "), None);
}

#[test]
fn parses_tpm_present_output() {
    assert_eq!(
        parse_tpm_status("True|True|IFX"),
        Some((true, true, Some("IFX".into())))
    );
}

#[test]
fn parses_tpm_absent_output() {
    assert_eq!(parse_tpm_status("False|False|"), Some((false, false, None)));
}

#[test]
fn bitlocker_in_progress_and_short_output() {
    assert_eq!(
        parse_bitlocker_status("0 | EncryptionInProgress | Aes128 \r\n"),
        Some((true, "BitLocker (Aes128)".into()))
    );
    assert_eq!(parse_bitlocker_status("On"), Some((true, "BitLocker".into())));
    assert_eq!(parse_bitlocker_status("off|x"), Some((false, "BitLocker".into())));
}

#[test]
fn tpm_status_edge_cases() {
    assert_eq!(parse_ps_bool("TRUE"), Some(true));
    assert_eq!(parse_ps_bool(" true"), None);
    assert_eq!(parse_tpm_status("maybe|True|X"), None);
    assert_eq!(parse_tpm_status("true"), Some((true, false, None)));
    assert_eq!(parse_tpm_status("  "), None);
}

#[test]
fn windows_queries_fill_the_report() {
    let mut d = DiskEncryption::default();
    disk_from_bitlocker(&mut d, Some("1|FullyEncrypted|XtsAes256\r\n"));
    assert!(d.assessed && d.enabled);
    assert_eq!(d.mechanism, "BitLocker (XtsAes256)");

    let mut s = ScreenLock::default();
    screen_lock_from_registry(&mut s, Some("1\r\n"), Some("600\r\n"));
    assert!(s.assessed && s.enabled && s.idle_timeout_assessed);
    assert_eq!(s.idle_timeout_secs, Some(600));

    let mut a = Antivirus::default();
    antivirus_from_security_center(&mut a, Some("Windows Defender\r\n"), Some("True\r\n"));
    assert!(a.assessed && a.running);
    assert_eq!(a.product, "Windows Defender");
    assert_eq!(a.realtime_protection, Some(true));

    let mut u = OsUpdates::default();
    updates_from_windows_update(&mut u, Some("3\r\n"), Some("1"));
    assert!(u.assessed);
    assert_eq!(u.pending_updates, 3);
    assert_eq!(u.auto_update_enabled, Some(false));

    let mut u = OsUpdates::default();
    updates_from_windows_update(&mut u, None, None);
    assert!(!u.assessed);
    assert_eq!(u.pending_updates, -1);

    let mut ra = RemoteAccess::default();
    remote_access_from_services(&mut ra, Some("Stopped"), Some("Running\r\n"));
    assert!(ra.assessed && ra.ssh_enabled && !ra.remote_desktop_enabled);

    let mut h = HardwareRootOfTrust::default();
    hardware_root_of_trust_from_tpm(&mut h, Some("True|False|NTC\r\n"));
    assert!(h.assessed && h.present && !h.enabled);
    assert_eq!(h.kind, "tpm2");
    assert_eq!(h.vendor.as_deref(), Some("NTC"));
}
