use cydevice::posture::linux::{
    disk_from_blkid, disk_from_crypttab, firewall_from_service, firewall_from_ufw,
    kde_lock_from_reads, linux_hardware_root_of_trust, parse_duration_secs, parse_kde_bool,
    parse_kde_timeout_secs, parse_sway_screen_lock, parse_sway_timeout_secs,
    screen_lock_from_gsettings, tpm_enabled_from_getcap, tpm_vendor_from_reads, updates_from_apt, updates_from_dnf,
    updates_from_pacman,
};
use cydevice::posture::ProbeOutput;
use cydevice::report::{DiskEncryption, Firewall, HardwareRootOfTrust, OsUpdates, ScreenLock};

fn probe(success: bool, code: Option<i32>, stdout: &str) -> ProbeOutput {
    ProbeOutput {
        success,
        code,
        stdout: stdout.to_string(),
        stderr: String::new(),
    }
}

#[test]
fn parses_kde_values() {
    assert!(parse_kde_bool("true"));
    assert!(parse_kde_bool("1"));
    assert!(!parse_kde_bool("false"));
    assert_eq!(parse_kde_timeout_secs("300"), Some(300));
}

#[test]
fn parses_sway_lock_timeout() {
    let cfg = r#"
            timeout 300 'swaylock -f -c 000000'
            timeout 600 'swaymsg "output * dpms off"'
        "#;
    assert_eq!(parse_sway_screen_lock(cfg), Some((true, Some(300))));
}

#[test]
fn parses_duration_suffixes() {
    assert_eq!(parse_duration_secs("600"), Some(600));
    assert_eq!(parse_duration_secs("10m"), Some(600));
    assert_eq!(parse_duration_secs("1h"), Some(3600));
    assert_eq!(parse_duration_secs(""), None);
}

#[test]
fn kde_bool_accepts_yes_on_in_any_case() {
    assert!(parse_kde_bool("  YES \n"));
    assert!(parse_kde_bool("On"));
    assert!(!parse_kde_bool("enabled"));
    assert!(!parse_kde_bool(""));
    assert_eq!(parse_kde_timeout_secs(" 15\n"), Some(15));
    assert_eq!(parse_kde_timeout_secs("-1"), None);
}

#[test]
fn duration_edge_cases() {
    assert_eq!(parse_duration_secs(" 45 "), Some(45));
    assert_eq!(parse_duration_secs("+45"), Some(45));
    assert_eq!(parse_duration_secs("5 m"), Some(300));
    assert_eq!(parse_duration_secs("2h"), Some(7200));
    assert_eq!(parse_duration_secs("4294967295"), Some(u32::MAX));
    assert_eq!(parse_duration_secs("4294967296"), None);
    assert_eq!(parse_duration_secs("2000000h"), Some(u32::MAX));
    assert_eq!(parse_duration_secs("10s"), None);
    assert_eq!(parse_duration_secs("m"), None);
}

#[test]
fn sway_timeout_needs_swaylock_and_timeout_keyword() {
    assert_eq!(parse_sway_timeout_secs("timeout 120 'SwayLock -f'"), Some(120));
    assert_eq!(parse_sway_timeout_secs("timeout 120 'swaymsg dpms off'"), None);
    assert_eq!(parse_sway_timeout_secs("exec swaylock"), None);
    assert_eq!(parse_sway_timeout_secs("timeout"), None);
    assert_eq!(parse_sway_timeout_secs("timeout 5m swaylock"), Some(300));
}

#[test]
fn sway_config_takes_shortest_lock_and_skips_comments() {
    let cfg = "# timeout 10 swaylock\r\ntimeout 900 swaylock\r\n\r\ntimeout 10m swaylock -f\n";
    assert_eq!(parse_sway_screen_lock(cfg), Some((true, Some(600))));
    assert_eq!(parse_sway_screen_lock("# only a comment\n"), None);
    assert_eq!(parse_sway_screen_lock(""), None);
}

#[test]
fn blkid_listing_marks_luks() {
    let mut d = DiskEncryption::default();
    let more = disk_from_blkid(&mut d, Some(&probe(true, Some(0), "/dev/sda2: TYPE=\"crypto_LUKS\"\n")));
    assert!(d.assessed && d.enabled);
    assert_eq!(d.mechanism, "LUKS");
    assert!(!more);

    let mut d = DiskEncryption::default();
    let more = disk_from_blkid(&mut d, Some(&probe(false, Some(2), "")));
    assert!(d.assessed && !d.enabled);
    assert!(more);

    let mut d = DiskEncryption::default();
    assert!(disk_from_blkid(&mut d, None));
    assert!(!d.assessed);
}

#[test]
fn crypttab_entries_mark_luks() {
    let mut d = DiskEncryption::default();
    disk_from_crypttab(&mut d, Some("# comment\n\ncryptroot UUID=1234 none luks\n"));
    assert!(d.assessed && d.enabled);
    assert_eq!(d.mechanism, "LUKS (via crypttab)");

    let mut d = DiskEncryption::default();
    disk_from_crypttab(&mut d, Some("# nothing here\n   \n"));
    assert!(d.assessed && !d.enabled);
}

#[test]
fn gsettings_lock_and_idle_delay() {
    let mut s = ScreenLock::default();
    let fallback = screen_lock_from_gsettings(
        &mut s,
        Some(&probe(true, Some(0), "true\n")),
        Some(&probe(true, Some(0), "uint32 600\n")),
    );
    assert!(!fallback);
    assert!(s.assessed && s.enabled);
    assert!(s.idle_timeout_assessed);
    assert_eq!(s.idle_timeout_secs, Some(600));

    let mut s = ScreenLock::default();
    let fallback = screen_lock_from_gsettings(
        &mut s,
        Some(&probe(false, Some(1), "")),
        Some(&probe(true, Some(0), "uint32 0\n")),
    );
    assert!(fallback);
    assert!(!s.assessed);
    assert!(s.idle_timeout_assessed);
    assert_eq!(s.idle_timeout_secs, None);
}

#[test]
fn kde_reads_combine() {
    assert_eq!(
        kde_lock_from_reads(Some(&probe(true, Some(0), "true\n")), Some(&probe(true, Some(0), "10\n"))),
        Some((true, Some(10)))
    );
    assert_eq!(
        kde_lock_from_reads(None, Some(&probe(true, Some(0), "5\n"))),
        Some((false, Some(5)))
    );
    assert_eq!(kde_lock_from_reads(Some(&probe(false, Some(1), "true")), None), None);
}

#[test]
fn ufw_then_services() {
    let mut f = Firewall::default();
    assert!(!firewall_from_ufw(&mut f, Some(&probe(true, Some(0), "Status: active\n"))));
    assert!(f.assessed && f.enabled);
    assert_eq!(f.mechanism, "ufw");

    let mut f = Firewall::default();
    assert!(firewall_from_ufw(&mut f, Some(&probe(true, Some(0), "Status: inactive\n"))));
    assert!(f.assessed && !f.enabled);
    assert!(!firewall_from_service(&mut f, Some(&probe(true, Some(0), "active\n")), "firewalld"));
    assert!(f.enabled);
    assert_eq!(f.mechanism, "firewalld");
}

#[test]
fn package_manager_counts() {
    let mut u = OsUpdates::default();
    updates_from_apt(&mut u, &probe(true, Some(0), "Listing...\nbash/stable 5.2\n\ncurl/stable 8.0\n"));
    assert!(u.assessed);
    assert_eq!(u.pending_updates, 2);

    let mut u = OsUpdates::default();
    updates_from_dnf(&mut u, &probe(false, Some(100), "\nkernel.x86_64 6.1 updates\nvim.x86_64 9 updates\n"));
    assert!(u.assessed);
    assert_eq!(u.pending_updates, 2);

    let mut u = OsUpdates::default();
    updates_from_dnf(&mut u, &probe(false, Some(1), "error"));
    assert!(!u.assessed);
    assert_eq!(u.pending_updates, -1);

    let mut u = OsUpdates::default();
    updates_from_apt(&mut u, &probe(false, Some(100), "Listing...\nbash/stable 5.2\n"));
    assert!(!u.assessed);
    assert_eq!(u.pending_updates, -1);

    let mut u = OsUpdates::default();
    updates_from_pacman(&mut u, &probe(false, None, "bash 5.1 -> 5.2\n"));
    assert!(!u.assessed);
    assert_eq!(u.pending_updates, -1);

    let mut u = OsUpdates::default();
    updates_from_pacman(&mut u, &probe(false, Some(1), ""));
    assert!(u.assessed);
    assert_eq!(u.pending_updates, 0);
}

#[test]
fn tpm_root_of_trust() {
    assert_eq!(
        tpm_enabled_from_getcap(Some(&probe(true, Some(0), "TPM2_PT_FAMILY_INDICATOR:\n"))),
        Some(true)
    );
    assert_eq!(tpm_enabled_from_getcap(Some(&probe(true, Some(0), "nothing"))), Some(false));
    assert_eq!(tpm_enabled_from_getcap(Some(&probe(false, Some(1), "tpm2"))), None);

    let mut h = HardwareRootOfTrust::default();
    linux_hardware_root_of_trust(&mut h, true, Some("IFX".to_string()), Some(false));
    assert!(h.assessed && h.present && !h.enabled && !h.attested);
    assert_eq!(h.kind, "tpm2");
    assert_eq!(h.vendor.as_deref(), Some("IFX"));

    let mut h = HardwareRootOfTrust::default();
    linux_hardware_root_of_trust(&mut h, false, None, None);
    assert!(h.assessed && !h.present && !h.enabled);
    assert_eq!(h.kind, "none");
}

#[test]
fn unknown_update_count_is_minus_one() {
    let u = OsUpdates::default();
    assert!(!u.assessed);
    assert_eq!(u.pending_updates, -1);

    // An unassessed count left at some other value reads as unknown after a
    // step that does not assess it.
    let mut u = OsUpdates::default();
    u.pending_updates = 4;
    updates_from_dnf(&mut u, &probe(false, Some(2), ""));
    assert_eq!(u.pending_updates, -1);
}

#[test]
fn reads_tpm_vendor_from_sysfs_like_layout() {
    // `manufacturer_name` and `description` missing, `manufacturer` holds "IFX".
    let reads = vec![None, Some("IFX".to_string()), None];
    assert_eq!(tpm_vendor_from_reads(&reads), Some("IFX".into()));
}

#[test]
fn tpm_vendor_skips_blank_reads_and_trims() {
    let reads = vec![Some("  \n".to_string()), Some(" Infineon \n".to_string()), Some("x".to_string())];
    assert_eq!(tpm_vendor_from_reads(&reads), Some("Infineon".into()));
    assert_eq!(tpm_vendor_from_reads(&vec![None, Some(String::new()), None]), None);
    assert_eq!(tpm_vendor_from_reads(&Vec::new()), None);
}
