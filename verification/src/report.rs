//! Posture report — the data model of what the agent observed on a host.
//!
//! Each control carries an `assessed` flag: `false` means the platform
//! readers could not tell, and such a control never yields a failure
//! finding. Timestamps are held as nanoseconds since the Unix epoch.

use vstd::prelude::*;

verus! {

/// What one finding says, as character sequences.
pub struct FindingSpec {
    pub id: Seq<char>,
    pub severity: Seq<char>,
    pub title: Seq<char>,
    pub description: Seq<char>,
    pub recommendation: Seq<char>,
}

#[derive(Debug, Clone)]
pub struct DiskEncryption {
    pub assessed: bool,
    pub enabled: bool,
    /// "FileVault" | "BitLocker" | "LUKS" | "none"
    pub mechanism: String,
    /// `None` = unknown.
    pub recovery_key_escrowed: Option<bool>,
}

#[derive(Debug, Clone)]
pub struct ScreenLock {
    pub assessed: bool,
    pub enabled: bool,
    pub idle_timeout_assessed: bool,
    pub idle_timeout_secs: Option<u32>,
}

#[derive(Debug, Clone)]
pub struct Firewall {
    pub assessed: bool,
    pub enabled: bool,
    /// "pf" | "Windows Defender Firewall" | "ufw" | "firewalld"
    pub mechanism: String,
}

#[derive(Debug, Clone)]
pub struct Antivirus {
    pub assessed: bool,
    pub running: bool,
    /// "Defender" | "XProtect" | "ClamAV" | "" if none
    pub product: String,
    pub realtime_protection: Option<bool>,
}

#[derive(Debug, Clone)]
pub struct OsUpdates {
    pub assessed: bool,
    /// Count of available updates reported by the platform's update tool
    /// (macOS `softwareupdate -l`, Linux package manager, Windows Update).
    /// -1 means unknown.
    pub pending_updates: i32,
    /// Last check, in nanoseconds since the Unix epoch.
    pub last_check_unix_nanos: Option<i64>,
    pub auto_update_enabled: Option<bool>,
}

#[derive(Debug, Clone)]
pub struct RemoteAccess {
    pub assessed: bool,
    /// macOS Remote Login / Linux sshd / Win OpenSSH
    pub ssh_enabled: bool,
    /// macOS ARD / Win RDP / Linux VNC
    pub remote_desktop_enabled: bool,
}

#[derive(Debug, Clone)]
pub struct HardwareRootOfTrust {
    pub assessed: bool,
    pub present: bool,
    /// "tpm2" | "secure_enclave" | "none" | "" when not read
    pub kind: String,
    pub enabled: bool,
    pub attested: bool,
    pub vendor: Option<String>,
}

#[derive(Debug, Clone)]
pub struct Finding {
    /// Stable rule id, e.g. "device.disk_encryption.disabled".
    pub id: String,
    /// "critical" | "high" | "medium" | "low" | "info"
    pub severity: String,
    pub title: String,
    pub description: String,
    pub recommendation: String,
}

#[derive(Debug, Clone)]
pub struct PostureReport {
    /// Bumped on breaking field changes.
    pub schema: u32,
    /// Collection time, in nanoseconds since the Unix epoch.
    pub collected_at_unix_nanos: i64,
    pub agent_version: String,
    /// Stable hash over identity and hardware-trust fields.
    pub device_fingerprint_v2: String,
    /// Stable identifier for this host. macOS = hardware UUID, Linux =
    /// /etc/machine-id, Windows = MachineGuid; the hostname otherwise.
    pub host_uid: String,
    pub hostname: String,
    /// "macos" | "linux" | "windows"
    pub platform: String,
    pub os_name: String,
    pub os_version: String,
    pub kernel: String,
    pub arch: String,
    pub uptime_secs: u64,
    pub current_user: String,
    pub disk_encryption: DiskEncryption,
    pub screen_lock: ScreenLock,
    pub firewall: Firewall,
    pub antivirus: Antivirus,
    pub os_updates: OsUpdates,
    pub remote_access: RemoteAccess,
    pub hardware_root_of_trust: HardwareRootOfTrust,
    pub findings: Vec<Finding>,
}

impl View for Finding {
    type V = FindingSpec;

    open spec fn view(&self) -> FindingSpec {
        FindingSpec {
            id: self.id@,
            severity: self.severity@,
            title: self.title@,
            description: self.description@,
            recommendation: self.recommendation@,
        }
    }
}

/// The findings of a report, as specifications.
pub open spec fn finding_views(v: Seq<Finding>) -> Seq<FindingSpec> {
    v.map_values(|f: Finding| f@)
}

/// The update count that stands for "unknown".
pub const UNKNOWN_COUNT: i32 = -1;

impl DiskEncryption {
    /// Encryption is reported on only for an assessed control.
    pub open spec fn consistent(&self) -> bool {
        self.enabled ==> self.assessed
    }
}

impl ScreenLock {
    /// The lock is reported on only when assessed, and an idle timeout only
    /// when the timeout was assessed.
    pub open spec fn consistent(&self) -> bool {
        &&& self.enabled ==> self.assessed
        &&& self.idle_timeout_secs is Some ==> self.idle_timeout_assessed
    }
}

impl Firewall {
    /// The firewall is reported on only for an assessed control.
    pub open spec fn consistent(&self) -> bool {
        self.enabled ==> self.assessed
    }
}

impl Antivirus {
    /// An antivirus is reported running only for an assessed control.
    pub open spec fn consistent(&self) -> bool {
        self.running ==> self.assessed
    }
}

impl OsUpdates {
    /// An update count that was not assessed is the unknown count.
    pub open spec fn consistent(&self) -> bool {
        !self.assessed ==> self.pending_updates == UNKNOWN_COUNT
    }
}

impl RemoteAccess {
    /// Remote access is reported on only for an assessed control.
    pub open spec fn consistent(&self) -> bool {
        (self.ssh_enabled || self.remote_desktop_enabled) ==> self.assessed
    }
}

impl HardwareRootOfTrust {
    /// A root of trust is reported present only for an assessed control.
    pub open spec fn consistent(&self) -> bool {
        self.present ==> self.assessed
    }
}

/// Every control of `r` reports a positive state (enabled, running, present,
/// a known update count) only where it was assessed.
pub open spec fn controls_consistent(r: PostureReport) -> bool {
    &&& r.disk_encryption.consistent()
    &&& r.screen_lock.consistent()
    &&& r.firewall.consistent()
    &&& r.antivirus.consistent()
    &&& r.os_updates.consistent()
    &&& r.remote_access.consistent()
    &&& r.hardware_root_of_trust.consistent()
}

/// The update count of `u` as reported: unknown unless assessed.
pub open spec fn settled_count(u: OsUpdates) -> i32 {
    if u.assessed {
        u.pending_updates
    } else {
        UNKNOWN_COUNT
    }
}

/// An update count that was left unassessed reads as unknown; an assessed
/// one is kept.
pub fn settle_unknown_count(u: &mut OsUpdates)
    ensures
        final(u).assessed == old(u).assessed,
        final(u).pending_updates == settled_count(*old(u)),
        final(u).last_check_unix_nanos == old(u).last_check_unix_nanos,
        final(u).auto_update_enabled == old(u).auto_update_enabled,
        final(u).consistent(),
{
    if !u.assessed {
        u.pending_updates = UNKNOWN_COUNT;
    }
}

impl Finding {
    pub fn new(id: &str, severity: &str, title: &str, description: &str, recommendation: &str) -> (f:
        Self)
        ensures
            f@ == (FindingSpec {
                id: id@,
                severity: severity@,
                title: title@,
                description: description@,
                recommendation: recommendation@,
            }),
    {
        Finding {
            id: id.to_owned(),
            severity: severity.to_owned(),
            title: title.to_owned(),
            description: description.to_owned(),
            recommendation: recommendation.to_owned(),
        }
    }
}

impl Default for DiskEncryption {
    fn default() -> (d: Self)
        ensures
            !d.assessed,
            !d.enabled,
            d.mechanism@ == Seq::<char>::empty(),
            d.recovery_key_escrowed is None,
    {
        DiskEncryption {
            assessed: false,
            enabled: false,
            mechanism: String::new(),
            recovery_key_escrowed: None,
        }
    }
}

impl Default for ScreenLock {
    fn default() -> (s: Self)
        ensures
            !s.assessed,
            !s.enabled,
            !s.idle_timeout_assessed,
            s.idle_timeout_secs is None,
    {
        ScreenLock {
            assessed: false,
            enabled: false,
            idle_timeout_assessed: false,
            idle_timeout_secs: None,
        }
    }
}

impl Default for Firewall {
    fn default() -> (f: Self)
        ensures
            !f.assessed,
            !f.enabled,
            f.mechanism@ == Seq::<char>::empty(),
    {
        Firewall { assessed: false, enabled: false, mechanism: String::new() }
    }
}

impl Default for Antivirus {
    fn default() -> (a: Self)
        ensures
            !a.assessed,
            !a.running,
            a.product@ == Seq::<char>::empty(),
            a.realtime_protection is None,
    {
        Antivirus {
            assessed: false,
            running: false,
            product: String::new(),
            realtime_protection: None,
        }
    }
}

impl Default for OsUpdates {
    fn default() -> (u: Self)
        ensures
            !u.assessed,
            u.pending_updates == UNKNOWN_COUNT,
            u.last_check_unix_nanos is None,
            u.auto_update_enabled is None,
    {
        OsUpdates {
            assessed: false,
            pending_updates: UNKNOWN_COUNT,
            last_check_unix_nanos: None,
            auto_update_enabled: None,
        }
    }
}

impl Default for RemoteAccess {
    fn default() -> (r: Self)
        ensures
            !r.assessed,
            !r.ssh_enabled,
            !r.remote_desktop_enabled,
    {
        RemoteAccess { assessed: false, ssh_enabled: false, remote_desktop_enabled: false }
    }
}

impl Default for HardwareRootOfTrust {
    fn default() -> (h: Self)
        ensures
            !h.assessed,
            !h.present,
            h.kind@ == Seq::<char>::empty(),
            !h.enabled,
            !h.attested,
            h.vendor is None,
    {
        HardwareRootOfTrust {
            assessed: false,
            present: false,
            kind: String::new(),
            enabled: false,
            attested: false,
            vendor: None,
        }
    }
}

} // verus!
