use cydevice::findings::{derive_findings, rule_findings_of};
use cydevice::posture::finalize_report;
use cydevice::report::{
    Antivirus, DiskEncryption, Finding, Firewall, HardwareRootOfTrust, OsUpdates, PostureReport,
    RemoteAccess, ScreenLock,
};

fn base_report() -> PostureReport {
    PostureReport {
        schema: 1,
        collected_at_unix_nanos: 0,
        agent_version: "test".into(),
        device_fingerprint_v2: String::new(),
        host_uid: "host-1".into(),
        hostname: "laptop-1".into(),
        platform: "linux".into(),
        os_name: "Linux".into(),
        os_version: "1".into(),
        kernel: "1".into(),
        arch: "x86_64".into(),
        uptime_secs: 1,
        current_user: "tester".into(),
        disk_encryption: DiskEncryption::default(),
        screen_lock: ScreenLock::default(),
        firewall: Firewall::default(),
        antivirus: Antivirus::default(),
        os_updates: OsUpdates::default(),
        remote_access: RemoteAccess::default(),
        hardware_root_of_trust: HardwareRootOfTrust::default(),
        findings: Vec::new(),
    }
}

fn ids(r: &PostureReport) -> Vec<&str> {
    r.findings.iter().map(|f| f.id.as_str()).collect()
}

#[test]
fn unknown_controls_do_not_emit_failure_findings() {
    let mut report = base_report();
    derive_findings(&mut report);
    assert!(report.findings.is_empty());
}

#[test]
fn assessed_controls_still_emit_findings() {
    let mut report = base_report();
    report.firewall.assessed = true;
    report.antivirus.assessed = true;
    report.os_updates.assessed = true;
    report.os_updates.pending_updates = 2;
    derive_findings(&mut report);

    let ids: Vec<_> = report.findings.iter().map(|f| f.id.as_str()).collect();
    assert!(ids.contains(&"device.firewall.disabled"));
    assert!(ids.contains(&"device.antivirus.not_running"));
    assert!(ids.contains(&"device.os_updates.pending"));
}

#[test]
fn every_rule_fires_in_order_with_exact_text() {
    let mut r = base_report();
    r.platform = "macos".into();
    r.disk_encryption.assessed = true;
    r.disk_encryption.recovery_key_escrowed = Some(false);
    r.screen_lock.assessed = true;
    r.screen_lock.enabled = true;
    r.screen_lock.idle_timeout_assessed = true;
    r.screen_lock.idle_timeout_secs = Some(1200);
    r.firewall.assessed = true;
    r.antivirus.assessed = true;
    r.os_updates.assessed = true;
    r.os_updates.pending_updates = 7;
    r.os_updates.auto_update_enabled = Some(false);
    r.remote_access.assessed = true;
    r.remote_access.ssh_enabled = true;
    r.remote_access.remote_desktop_enabled = true;
    derive_findings(&mut r);
    assert_eq!(
        ids(&r),
        vec![
            "device.disk_encryption.disabled",
            "device.disk_encryption.recovery_key_not_escrowed",
            "device.screen_lock.timeout_too_long",
            "device.firewall.disabled",
            "device.antivirus.not_running",
            "device.os_updates.pending",
            "device.os_updates.auto_disabled",
            "device.remote_access.enabled",
        ]
    );
    let f = &r.findings;
    assert_eq!(f[0].severity, "critical");
    assert_eq!(f[0].title, "Disk not encrypted: laptop-1");
    assert_eq!(
        f[0].recommendation,
        "Enable FileVault: System Settings → Privacy & Security → FileVault → Turn On."
    );
    assert_eq!(f[2].title, "Screen lock timeout > 15min: laptop-1");
    assert_eq!(f[2].description, "Idle timeout is 1200s — SOC 2 CC6.6 expects ≤15min.");
    assert_eq!(f[3].recommendation, "Enable: System Settings → Network → Firewall → Turn On.");
    assert_eq!(f[5].severity, "high");
    assert_eq!(f[5].title, "7 pending OS updates on laptop-1");
    assert_eq!(f[7].title, "Remote Desktop / ARD enabled: laptop-1");
    assert_eq!(
        f[7].description,
        "Remote access service 'Remote Desktop / ARD' is enabled or running. This increases attack surface, especially on portable devices."
    );
}

#[test]
fn screen_lock_disabled_wins_over_long_timeout() {
    let mut r = base_report();
    r.platform = "plan9".into();
    r.screen_lock.assessed = true;
    r.screen_lock.enabled = false;
    r.screen_lock.idle_timeout_assessed = true;
    r.screen_lock.idle_timeout_secs = Some(5000);
    r.firewall.assessed = true;
    let found = rule_findings_of(&r);
    let ids: Vec<&str> = found.iter().map(|f| f.id.as_str()).collect();
    assert_eq!(ids, vec!["device.screen_lock.disabled", "device.firewall.disabled"]);
    assert_eq!(found[1].recommendation, "Enable the host firewall.");
}

#[test]
fn timeout_at_limit_and_few_updates() {
    let mut r = base_report();
    r.screen_lock.assessed = true;
    r.screen_lock.enabled = true;
    r.screen_lock.idle_timeout_assessed = true;
    r.screen_lock.idle_timeout_secs = Some(900);
    r.os_updates.assessed = true;
    r.os_updates.pending_updates = 5;
    r.remote_access.assessed = true;
    r.remote_access.ssh_enabled = true;
    let found = rule_findings_of(&r);
    assert_eq!(found.len(), 2);
    assert_eq!(found[0].id, "device.os_updates.pending");
    assert_eq!(found[0].severity, "medium");
    assert_eq!(found[1].title, "SSH enabled: laptop-1");
}

#[test]
fn escrow_and_auto_update_need_no_assessment() {
    let mut r = base_report();
    r.disk_encryption.recovery_key_escrowed = Some(false);
    r.os_updates.auto_update_enabled = Some(false);
    r.findings.push(Finding::new("x", "info", "t", "d", "r"));
    derive_findings(&mut r);
    assert_eq!(
        ids(&r),
        vec![
            "x",
            "device.disk_encryption.recovery_key_not_escrowed",
            "device.os_updates.auto_disabled",
        ]
    );
}

#[test]
fn finalize_sets_fingerprint_then_findings() {
    let mut r = base_report();
    r.firewall.assessed = true;
    finalize_report(&mut r);
    assert_eq!(
        r.device_fingerprint_v2,
        "a617e0b9b906667b8bfa0616bbc118fa26f7671743ec5341620cda359be97427"
    );
    assert_eq!(ids(&r), vec!["device.firewall.disabled"]);
}
