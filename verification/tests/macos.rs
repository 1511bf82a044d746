use cydevice::posture::macos::{
    antivirus_from_detection, antivirus_from_launch_daemons, antivirus_from_xprotect,
    disk_from_fdesetup, firewall_from_socketfilterfw, mac_hardware_root_of_trust,
    remote_access_from_macos, screen_lock_from_defaults, t2_bridge_from_profiler,
    updates_from_softwareupdate,
};
use cydevice::posture::ProbeOutput;
use cydevice::report::{Antivirus, DiskEncryption, Firewall, HardwareRootOfTrust, OsUpdates, RemoteAccess, ScreenLock};

fn probe(success: bool, stdout: &str, stderr: &str) -> ProbeOutput {
    ProbeOutput {
        success,
        code: Some(if success { 0 } else { 1 }),
        stdout: stdout.to_string(),
        stderr: stderr.to_string(),
    }
}

#[test]
fn filevault_and_escrow() {
    let mut d = DiskEncryption::default();
    disk_from_fdesetup(
        &mut d,
        Some(&probe(true, "FileVault is On.\n", "")),
        Some(&probe(true, "PersonalRecoveryKey = present", "")),
    );
    assert!(d.assessed && d.enabled);
    assert_eq!(d.mechanism, "FileVault");
    assert_eq!(d.recovery_key_escrowed, Some(true));

    let mut d = DiskEncryption::default();
    disk_from_fdesetup(&mut d, Some(&probe(true, "FileVault is Off.\n", "")), None);
    assert!(d.assessed && !d.enabled);
    assert_eq!(d.recovery_key_escrowed, None);
}

#[test]
fn screensaver_defaults() {
    let mut s = ScreenLock::default();
    screen_lock_from_defaults(&mut s, Some("1\n"), Some("300\n"), 5);
    assert!(s.assessed && s.enabled && s.idle_timeout_assessed);
    assert_eq!(s.idle_timeout_secs, Some(305));

    let mut s = ScreenLock::default();
    screen_lock_from_defaults(&mut s, Some("1\n"), Some("0\n"), 0);
    assert!(s.assessed && !s.enabled && !s.idle_timeout_assessed);

    let mut s = ScreenLock::default();
    screen_lock_from_defaults(&mut s, None, Some("4294967295"), 10);
    assert!(s.assessed && !s.enabled);
    assert_eq!(s.idle_timeout_secs, Some(u32::MAX));
}

#[test]
fn firewall_and_remote_access() {
    let mut f = Firewall::default();
    firewall_from_socketfilterfw(&mut f, Some(&probe(true, "Firewall is enabled. (State = 1)", "")));
    assert!(f.assessed && f.enabled);
    assert_eq!(f.mechanism, "macOS Application Firewall");

    let mut ra = RemoteAccess::default();
    remote_access_from_macos(&mut ra, Some(&probe(true, "Remote Login: On\n", "")), Some(&probe(false, "", "")));
    assert!(ra.assessed && ra.ssh_enabled && !ra.remote_desktop_enabled);

    let mut ra = RemoteAccess::default();
    remote_access_from_macos(&mut ra, Some(&probe(true, "Remote Login: Off\n", "")), Some(&probe(true, "{}", "")));
    assert!(!ra.ssh_enabled && ra.remote_desktop_enabled);
}

#[test]
fn antivirus_detection() {
    assert_eq!(
        antivirus_from_launch_daemons(Some(&probe(true, "com.crowdstrike.falcond.plist\ncom.eset.x.plist\n", ""))),
        Some((true, "CrowdStrike Falcon".to_string(), Some(true)))
    );
    assert_eq!(
        antivirus_from_launch_daemons(Some(&probe(true, "com.ESET.remoteadministrator.agent.plist", ""))),
        Some((true, "ESET".to_string(), Some(true)))
    );
    assert_eq!(antivirus_from_launch_daemons(Some(&probe(true, "com.apple.foo.plist", ""))), None);
    assert_eq!(antivirus_from_xprotect(true, false), (false, "XProtect".to_string(), Some(false)));
    assert_eq!(antivirus_from_xprotect(false, true), (false, String::new(), Some(false)));
    let mut a = Antivirus::default();
    antivirus_from_detection(&mut a, antivirus_from_xprotect(true, true));
    assert!(a.assessed && a.running);
    assert_eq!(a.product, "XProtect");
}

#[test]
fn softwareupdate_counts_labels() {
    let mut u = OsUpdates::default();
    let out = probe(
        true,
        "Software Update found the following new or updated software:\n* Label: macOS 14.5\n\tTitle: macOS, Version: 14.5\n* Label: Safari\n",
        "Finding available software\n",
    );
    updates_from_softwareupdate(&mut u, Some(&out), Some("1\n"));
    assert!(u.assessed);
    assert_eq!(u.pending_updates, 2);
    assert_eq!(u.auto_update_enabled, Some(true));

    let mut u = OsUpdates::default();
    updates_from_softwareupdate(&mut u, None, Some(""));
    assert!(!u.assessed);
    assert_eq!(u.pending_updates, -1);
    assert_eq!(u.auto_update_enabled, None);

    let mut u = OsUpdates::default();
    updates_from_softwareupdate(&mut u, None, Some("0\n"));
    assert!(u.assessed);
    assert_eq!(u.pending_updates, -1);
    assert_eq!(u.auto_update_enabled, Some(false));
}

#[test]
fn secure_enclave() {
    assert!(t2_bridge_from_profiler(Some(&probe(true, "Model Name: Apple T2 Security Chip", ""))));
    assert!(!t2_bridge_from_profiler(Some(&probe(false, "Apple T2", ""))));
    let mut h = HardwareRootOfTrust::default();
    mac_hardware_root_of_trust(&mut h, false, true);
    assert!(h.assessed && h.present && h.enabled && !h.attested);
    assert_eq!(h.kind, "secure_enclave");
    assert_eq!(h.vendor.as_deref(), Some("Apple"));
}
