//! The built-in rules that turn a populated report into findings. Every
//! rule has a stable id so the backend can dedupe and keep a per-rule
//! history, and no rule fires for a control that was not assessed.

use crate::report::{finding_views, Finding, FindingSpec, PostureReport};
use crate::text::{chars_of, decimal, decimal_string, eq_str};
use vstd::prelude::*;
use vstd::string::StringExecFns;

verus! {

broadcast use vstd::string::group_string_axioms;

/// Screen-lock idle timeouts above this many seconds are reported.
pub const MAX_IDLE_TIMEOUT_SECS: u32 = 900;

/// Pending-update counts above this are reported as high severity.
pub const MANY_PENDING_UPDATES: i32 = 5;

/// Platform-specific advice for turning on full-disk encryption.
pub open spec fn disk_advice(platform: Seq<char>) -> Seq<char> {
    if platform == "macos"@ {
        "Enable FileVault: System Settings → Privacy & Security → FileVault → Turn On."@
    } else if platform == "linux"@ {
        "Re-image with LUKS-on-LVM, or migrate /home to an encrypted volume."@
    } else if platform == "windows"@ {
        "Enable BitLocker: Control Panel → BitLocker Drive Encryption → Turn On."@
    } else {
        "Enable full-disk encryption."@
    }
}

/// Platform-specific advice for turning on the host firewall.
pub open spec fn firewall_advice(platform: Seq<char>) -> Seq<char> {
    if platform == "macos"@ {
        "Enable: System Settings → Network → Firewall → Turn On."@
    } else if platform == "linux"@ {
        "Enable ufw / firewalld with default-deny on inbound."@
    } else if platform == "windows"@ {
        "Enable Windows Defender Firewall (all profiles)."@
    } else {
        "Enable the host firewall."@
    }
}

/// The remote-access service named in the remote-access finding.
pub open spec fn remote_service(r: PostureReport) -> Seq<char> {
    if r.remote_access.remote_desktop_enabled {
        "Remote Desktop / ARD"@
    } else {
        "SSH"@
    }
}

pub open spec fn idle_secs(r: PostureReport) -> u32 {
    match r.screen_lock.idle_timeout_secs {
        Some(s) => s,
        None => 0,
    }
}

pub open spec fn disk_rule(r: PostureReport) -> Seq<FindingSpec> {
    if r.disk_encryption.assessed && !r.disk_encryption.enabled {
        seq![FindingSpec {
            id: "device.disk_encryption.disabled"@,
            severity: "critical"@,
            title: "Disk not encrypted: "@ + r.hostname@,
            description: "Full-disk encryption is not active. Theft or seizure of the device exposes all on-disk data."@,
            recommendation: disk_advice(r.platform@),
        }]
    } else {
        seq![]
    }
}

pub open spec fn escrow_rule(r: PostureReport) -> Seq<FindingSpec> {
    if r.disk_encryption.recovery_key_escrowed == Some(false) {
        seq![FindingSpec {
            id: "device.disk_encryption.recovery_key_not_escrowed"@,
            severity: "high"@,
            title: "Recovery key not escrowed: "@ + r.hostname@,
            description: "Encryption is on but the recovery key isn't escrowed centrally. A lost passphrase = data loss."@,
            recommendation: "Configure recovery-key escrow with your IdP / Cybrium device profile."@,
        }]
    } else {
        seq![]
    }
}

pub open spec fn screen_lock_rule(r: PostureReport) -> Seq<FindingSpec> {
    if r.screen_lock.assessed && !r.screen_lock.enabled {
        seq![FindingSpec {
            id: "device.screen_lock.disabled"@,
            severity: "high"@,
            title: "Screen lock disabled: "@ + r.hostname@,
            description: "The device does not lock when idle. Anyone with physical proximity can access it."@,
            recommendation: "Set an idle screen-lock of 5–10 minutes with a password requirement."@,
        }]
    } else if r.screen_lock.assessed && r.screen_lock.idle_timeout_assessed && idle_secs(r)
        > MAX_IDLE_TIMEOUT_SECS {
        seq![FindingSpec {
            id: "device.screen_lock.timeout_too_long"@,
            severity: "medium"@,
            title: "Screen lock timeout > 15min: "@ + r.hostname@,
            description: "Idle timeout is "@ + decimal(idle_secs(r) as nat)
                + "s — SOC 2 CC6.6 expects ≤15min."@,
            recommendation: "Reduce the idle timeout to 600 seconds (10 minutes) or less."@,
        }]
    } else {
        seq![]
    }
}

pub open spec fn firewall_rule(r: PostureReport) -> Seq<FindingSpec> {
    if r.firewall.assessed && !r.firewall.enabled {
        seq![FindingSpec {
            id: "device.firewall.disabled"@,
            severity: "high"@,
            title: "Host firewall disabled: "@ + r.hostname@,
            description: "Inbound network filtering is not active."@,
            recommendation: firewall_advice(r.platform@),
        }]
    } else {
        seq![]
    }
}

pub open spec fn antivirus_rule(r: PostureReport) -> Seq<FindingSpec> {
    if r.antivirus.assessed && !r.antivirus.running {
        seq![FindingSpec {
            id: "device.antivirus.not_running"@,
            severity: "medium"@,
            title: "No real-time AV detected: "@ + r.hostname@,
            description: "Endpoint protection (XProtect / Defender / equivalent) is not reporting active."@,
            recommendation: "Confirm endpoint protection is running and real-time scanning is enabled."@,
        }]
    } else {
        seq![]
    }
}

pub open spec fn pending_updates_rule(r: PostureReport) -> Seq<FindingSpec> {
    if r.os_updates.assessed && r.os_updates.pending_updates > 0 {
        seq![FindingSpec {
            id: "device.os_updates.pending"@,
            severity: if r.os_updates.pending_updates > MANY_PENDING_UPDATES {
                "high"@
            } else {
                "medium"@
            },
            title: decimal(r.os_updates.pending_updates as nat) + " pending OS updates on "@
                + r.hostname@,
            description: "Operating-system patches are available but not installed."@,
            recommendation: "Run software updates and reboot if required."@,
        }]
    } else {
        seq![]
    }
}

pub open spec fn auto_update_rule(r: PostureReport) -> Seq<FindingSpec> {
    if r.os_updates.auto_update_enabled == Some(false) {
        seq![FindingSpec {
            id: "device.os_updates.auto_disabled"@,
            severity: "medium"@,
            title: "Automatic OS updates disabled: "@ + r.hostname@,
            description: "Patch lag widens the exploitation window."@,
            recommendation: "Enable automatic OS updates."@,
        }]
    } else {
        seq![]
    }
}

pub open spec fn remote_access_rule(r: PostureReport) -> Seq<FindingSpec> {
    if r.remote_access.assessed && (r.remote_access.ssh_enabled
        || r.remote_access.remote_desktop_enabled) {
        seq![FindingSpec {
            id: "device.remote_access.enabled"@,
            severity: "medium"@,
            title: remote_service(r) + " enabled: "@ + r.hostname@,
            description: "Remote access service '"@ + remote_service(r)
                + "' is enabled or running. This increases attack surface, especially on portable devices."@,
            recommendation: "Disable unless explicitly required; gate behind WireGuard / Tailscale if needed."@,
        }]
    } else {
        seq![]
    }
}

/// The findings that the rules derive from `r`, in rule order.
pub open spec fn rule_findings(r: PostureReport) -> Seq<FindingSpec> {
    disk_rule(r) + escrow_rule(r) + screen_lock_rule(r) + firewall_rule(r) + antivirus_rule(r)
        + pending_updates_rule(r) + auto_update_rule(r) + remote_access_rule(r)
}

/// `a` and `b` agree on everything but their findings.
pub open spec fn same_but_findings(a: PostureReport, b: PostureReport) -> bool {
    &&& a.schema == b.schema
    &&& a.collected_at_unix_nanos == b.collected_at_unix_nanos
    &&& a.agent_version == b.agent_version
    &&& a.device_fingerprint_v2 == b.device_fingerprint_v2
    &&& a.host_uid == b.host_uid
    &&& a.hostname == b.hostname
    &&& a.platform == b.platform
    &&& a.os_name == b.os_name
    &&& a.os_version == b.os_version
    &&& a.kernel == b.kernel
    &&& a.arch == b.arch
    &&& a.uptime_secs == b.uptime_secs
    &&& a.current_user == b.current_user
    &&& a.disk_encryption == b.disk_encryption
    &&& a.screen_lock == b.screen_lock
    &&& a.firewall == b.firewall
    &&& a.antivirus == b.antivirus
    &&& a.os_updates == b.os_updates
    &&& a.remote_access == b.remote_access
    &&& a.hardware_root_of_trust == b.hardware_root_of_trust
}

fn disk_advice_text(platform: &[char]) -> (s: &'static str)
    ensures
        s@ == disk_advice(platform@),
{
    if eq_str(platform, "macos") {
        "Enable FileVault: System Settings → Privacy & Security → FileVault → Turn On."
    } else if eq_str(platform, "linux") {
        "Re-image with LUKS-on-LVM, or migrate /home to an encrypted volume."
    } else if eq_str(platform, "windows") {
        "Enable BitLocker: Control Panel → BitLocker Drive Encryption → Turn On."
    } else {
        "Enable full-disk encryption."
    }
}

fn firewall_advice_text(platform: &[char]) -> (s: &'static str)
    ensures
        s@ == firewall_advice(platform@),
{
    if eq_str(platform, "macos") {
        "Enable: System Settings → Network → Firewall → Turn On."
    } else if eq_str(platform, "linux") {
        "Enable ufw / firewalld with default-deny on inbound."
    } else if eq_str(platform, "windows") {
        "Enable Windows Defender Firewall (all profiles)."
    } else {
        "Enable the host firewall."
    }
}

/// `prefix` followed by `host`.
fn titled(prefix: &str, host: &str) -> (s: String)
    ensures
        s@ == prefix@ + host@,
{
    prefix.to_owned().concat(host)
}

fn disk_finding(r: &PostureReport) -> (out: Vec<Finding>)
    ensures
        finding_views(out@) == disk_rule(*r),
{
    let mut out: Vec<Finding> = Vec::new();
    if r.disk_encryption.assessed && !r.disk_encryption.enabled {
        let platform = chars_of(r.platform.as_str());
        out.push(
            Finding {
                id: "device.disk_encryption.disabled".to_owned(),
                severity: "critical".to_owned(),
                title: titled("Disk not encrypted: ", r.hostname.as_str()),
                description: "Full-disk encryption is not active. Theft or seizure of the device exposes all on-disk data.".to_owned(),
                recommendation: disk_advice_text(platform.as_slice()).to_owned(),
            },
        );
    }
    assert(finding_views(out@) =~= disk_rule(*r));
    out
}

fn escrow_finding(r: &PostureReport) -> (out: Vec<Finding>)
    ensures
        finding_views(out@) == escrow_rule(*r),
{
    let mut out: Vec<Finding> = Vec::new();
    if r.disk_encryption.recovery_key_escrowed == Some(false) {
        out.push(
            Finding {
                id: "device.disk_encryption.recovery_key_not_escrowed".to_owned(),
                severity: "high".to_owned(),
                title: titled("Recovery key not escrowed: ", r.hostname.as_str()),
                description: "Encryption is on but the recovery key isn't escrowed centrally. A lost passphrase = data loss.".to_owned(),
                recommendation: "Configure recovery-key escrow with your IdP / Cybrium device profile.".to_owned(),
            },
        );
    }
    assert(finding_views(out@) =~= escrow_rule(*r));
    out
}

fn screen_lock_finding(r: &PostureReport) -> (out: Vec<Finding>)
    ensures
        finding_views(out@) == screen_lock_rule(*r),
{
    let mut out: Vec<Finding> = Vec::new();
    if r.screen_lock.assessed && !r.screen_lock.enabled {
        out.push(
            Finding {
                id: "device.screen_lock.disabled".to_owned(),
                severity: "high".to_owned(),
                title: titled("Screen lock disabled: ", r.hostname.as_str()),
                description: "The device does not lock when idle. Anyone with physical proximity can access it.".to_owned(),
                recommendation: "Set an idle screen-lock of 5–10 minutes with a password requirement.".to_owned(),
            },
        );
    } else {
        let secs: u32 = match r.screen_lock.idle_timeout_secs {
            Some(s) => s,
            None => 0,
        };
        if r.screen_lock.assessed && r.screen_lock.idle_timeout_assessed && secs
            > MAX_IDLE_TIMEOUT_SECS {
            let description = "Idle timeout is ".to_owned().concat(
                decimal_string(secs).as_str(),
            ).concat("s — SOC 2 CC6.6 expects ≤15min.");
            out.push(
                Finding {
                    id: "device.screen_lock.timeout_too_long".to_owned(),
                    severity: "medium".to_owned(),
                    title: titled("Screen lock timeout > 15min: ", r.hostname.as_str()),
                    description,
                    recommendation: "Reduce the idle timeout to 600 seconds (10 minutes) or less.".to_owned(),
                },
            );
        }
    }
    assert(finding_views(out@) =~= screen_lock_rule(*r));
    out
}

fn firewall_finding(r: &PostureReport) -> (out: Vec<Finding>)
    ensures
        finding_views(out@) == firewall_rule(*r),
{
    let mut out: Vec<Finding> = Vec::new();
    if r.firewall.assessed && !r.firewall.enabled {
        let platform = chars_of(r.platform.as_str());
        out.push(
            Finding {
                id: "device.firewall.disabled".to_owned(),
                severity: "high".to_owned(),
                title: titled("Host firewall disabled: ", r.hostname.as_str()),
                description: "Inbound network filtering is not active.".to_owned(),
                recommendation: firewall_advice_text(platform.as_slice()).to_owned(),
            },
        );
    }
    assert(finding_views(out@) =~= firewall_rule(*r));
    out
}

fn antivirus_finding(r: &PostureReport) -> (out: Vec<Finding>)
    ensures
        finding_views(out@) == antivirus_rule(*r),
{
    let mut out: Vec<Finding> = Vec::new();
    if r.antivirus.assessed && !r.antivirus.running {
        out.push(
            Finding {
                id: "device.antivirus.not_running".to_owned(),
                severity: "medium".to_owned(),
                title: titled("No real-time AV detected: ", r.hostname.as_str()),
                description: "Endpoint protection (XProtect / Defender / equivalent) is not reporting active.".to_owned(),
                recommendation: "Confirm endpoint protection is running and real-time scanning is enabled.".to_owned(),
            },
        );
    }
    assert(finding_views(out@) =~= antivirus_rule(*r));
    out
}

fn pending_updates_finding(r: &PostureReport) -> (out: Vec<Finding>)
    ensures
        finding_views(out@) == pending_updates_rule(*r),
{
    let mut out: Vec<Finding> = Vec::new();
    if r.os_updates.assessed && r.os_updates.pending_updates > 0 {
        let n = r.os_updates.pending_updates;
        let severity = if n > MANY_PENDING_UPDATES {
            "high"
        } else {
            "medium"
        };
        let title = decimal_string(n as u32).concat(" pending OS updates on ").concat(
            r.hostname.as_str(),
        );
        out.push(
            Finding {
                id: "device.os_updates.pending".to_owned(),
                severity: severity.to_owned(),
                title,
                description: "Operating-system patches are available but not installed.".to_owned(),
                recommendation: "Run software updates and reboot if required.".to_owned(),
            },
        );
    }
    assert(finding_views(out@) =~= pending_updates_rule(*r));
    out
}

fn auto_update_finding(r: &PostureReport) -> (out: Vec<Finding>)
    ensures
        finding_views(out@) == auto_update_rule(*r),
{
    let mut out: Vec<Finding> = Vec::new();
    if r.os_updates.auto_update_enabled == Some(false) {
        out.push(
            Finding {
                id: "device.os_updates.auto_disabled".to_owned(),
                severity: "medium".to_owned(),
                title: titled("Automatic OS updates disabled: ", r.hostname.as_str()),
                description: "Patch lag widens the exploitation window.".to_owned(),
                recommendation: "Enable automatic OS updates.".to_owned(),
            },
        );
    }
    assert(finding_views(out@) =~= auto_update_rule(*r));
    out
}

fn remote_access_finding(r: &PostureReport) -> (out: Vec<Finding>)
    ensures
        finding_views(out@) == remote_access_rule(*r),
{
    let mut out: Vec<Finding> = Vec::new();
    if r.remote_access.assessed && (r.remote_access.ssh_enabled
        || r.remote_access.remote_desktop_enabled) {
        let svc = if r.remote_access.remote_desktop_enabled {
            "Remote Desktop / ARD"
        } else {
            "SSH"
        };
        let title = svc.to_owned().concat(" enabled: ").concat(r.hostname.as_str());
        let description = "Remote access service '".to_owned().concat(svc).concat(
            "' is enabled or running. This increases attack surface, especially on portable devices.",
        );
        out.push(
            Finding {
                id: "device.remote_access.enabled".to_owned(),
                severity: "medium".to_owned(),
                title,
                description,
                recommendation: "Disable unless explicitly required; gate behind WireGuard / Tailscale if needed.".to_owned(),
            },
        );
    }
    assert(finding_views(out@) =~= remote_access_rule(*r));
    out
}

/// Moves the findings of `more` to the end of `acc`.
fn append_findings(acc: &mut Vec<Finding>, more: Vec<Finding>)
    ensures
        finding_views(final(acc)@) == finding_views(old(acc)@) + finding_views(more@),
{
    let mut more = more;
    let ghost a = acc@;
    let ghost m = more@;
    acc.append(&mut more);
    assert(finding_views(acc@) =~= finding_views(a) + finding_views(m));
}

/// The findings that the rules derive from `r`, in rule order.
pub fn rule_findings_of(r: &PostureReport) -> (out: Vec<Finding>)
    ensures
        finding_views(out@) == rule_findings(*r),
{
    let mut out = disk_finding(r);
    append_findings(&mut out, escrow_finding(r));
    append_findings(&mut out, screen_lock_finding(r));
    append_findings(&mut out, firewall_finding(r));
    append_findings(&mut out, antivirus_finding(r));
    append_findings(&mut out, pending_updates_finding(r));
    append_findings(&mut out, auto_update_finding(r));
    append_findings(&mut out, remote_access_finding(r));
    out
}

/// Appends to `r.findings` the findings that the rules derive from `r`.
pub fn derive_findings(r: &mut PostureReport)
    ensures
        finding_views(final(r).findings@) == finding_views(old(r).findings@) + rule_findings(
            *old(r),
        ),
        same_but_findings(*final(r), *old(r)),
{
    let new_findings = rule_findings_of(r);
    append_findings(&mut r.findings, new_findings);
}

} // verus!

verus! {

/// A report in which no control was assessed, and in which neither a
/// missing recovery-key escrow nor disabled automatic updates was observed,
/// yields no findings: unknown is never reported as failing.
pub proof fn lemma_unassessed_report_has_no_findings(r: PostureReport)
    requires
        !r.disk_encryption.assessed,
        r.disk_encryption.recovery_key_escrowed != Some(false),
        !r.screen_lock.assessed,
        !r.firewall.assessed,
        !r.antivirus.assessed,
        !r.os_updates.assessed,
        r.os_updates.auto_update_enabled != Some(false),
        !r.remote_access.assessed,
    ensures
        rule_findings(r) == Seq::<FindingSpec>::empty(),
{
    assert(rule_findings(r) =~= Seq::<FindingSpec>::empty());
}

/// Every title in `s` ends with `host`.
pub open spec fn titles_end_with(s: Seq<FindingSpec>, host: Seq<char>) -> bool {
    forall|i: int|
        0 <= i < s.len() ==> {
            let t = #[trigger] s[i].title;
            t.len() >= host.len() && t.skip(t.len() - host.len()) == host
        }
}

proof fn lemma_titles_concat(a: Seq<FindingSpec>, b: Seq<FindingSpec>, host: Seq<char>)
    requires
        titles_end_with(a, host),
        titles_end_with(b, host),
    ensures
        titles_end_with(a + b, host),
{
    assert forall|i: int| 0 <= i < (a + b).len() implies {
        let t = #[trigger] (a + b)[i].title;
        t.len() >= host.len() && t.skip(t.len() - host.len()) == host
    } by {
        if i < a.len() {
            assert((a + b)[i] == a[i]);
        } else {
            assert((a + b)[i] == b[i - a.len()]);
        }
    }
}

proof fn lemma_ends_with(p: Seq<char>, h: Seq<char>)
    ensures
        (p + h).len() >= h.len() && (p + h).skip((p + h).len() - h.len()) == h,
{
    assert((p + h).skip((p + h).len() - h.len()) =~= h);
}

/// Every derived finding names the host at the end of its title.
pub proof fn lemma_finding_titles_name_the_host(r: PostureReport)
    ensures
        titles_end_with(rule_findings(r), r.hostname@),
{
    let h = r.hostname@;
    lemma_ends_with("Disk not encrypted: "@, h);
    lemma_ends_with("Recovery key not escrowed: "@, h);
    lemma_ends_with("Screen lock disabled: "@, h);
    lemma_ends_with("Screen lock timeout > 15min: "@, h);
    lemma_ends_with("Host firewall disabled: "@, h);
    lemma_ends_with("No real-time AV detected: "@, h);
    lemma_ends_with(decimal(r.os_updates.pending_updates as nat) + " pending OS updates on "@, h);
    lemma_ends_with("Automatic OS updates disabled: "@, h);
    lemma_ends_with(remote_service(r) + " enabled: "@, h);
    assert(titles_end_with(disk_rule(r), h));
    assert(titles_end_with(escrow_rule(r), h));
    assert(titles_end_with(screen_lock_rule(r), h));
    assert(titles_end_with(firewall_rule(r), h));
    assert(titles_end_with(antivirus_rule(r), h));
    assert(decimal(r.os_updates.pending_updates as nat) + " pending OS updates on "@ + h == (
    decimal(r.os_updates.pending_updates as nat) + " pending OS updates on "@) + h);
    assert(titles_end_with(pending_updates_rule(r), h));
    assert(titles_end_with(auto_update_rule(r), h));
    assert(remote_service(r) + " enabled: "@ + h == (remote_service(r) + " enabled: "@) + h);
    assert(titles_end_with(remote_access_rule(r), h));
    lemma_titles_concat(disk_rule(r), escrow_rule(r), h);
    let s2 = disk_rule(r) + escrow_rule(r);
    lemma_titles_concat(s2, screen_lock_rule(r), h);
    let s3 = s2 + screen_lock_rule(r);
    lemma_titles_concat(s3, firewall_rule(r), h);
    let s4 = s3 + firewall_rule(r);
    lemma_titles_concat(s4, antivirus_rule(r), h);
    let s5 = s4 + antivirus_rule(r);
    lemma_titles_concat(s5, pending_updates_rule(r), h);
    let s6 = s5 + pending_updates_rule(r);
    lemma_titles_concat(s6, auto_update_rule(r), h);
    let s7 = s6 + auto_update_rule(r);
    lemma_titles_concat(s7, remote_access_rule(r), h);
}

/// Position of a rule id in rule order, read off the id's length and its
/// first character after `device.`.
pub open spec fn id_rank(id: Seq<char>) -> int {
    let code = id.len() * 256 + (if id.len() > 7 {
        id[7] as int
    } else {
        0
    });
    if code == 31 * 256 + 'd' as int {
        0
    } else if code == 48 * 256 + 'd' as int {
        1
    } else if code == 27 * 256 + 's' as int {
        2
    } else if code == 35 * 256 + 's' as int {
        3
    } else if code == 24 * 256 + 'f' as int {
        4
    } else if code == 28 * 256 + 'a' as int {
        5
    } else if code == 25 * 256 + 'o' as int {
        6
    } else if code == 31 * 256 + 'o' as int {
        7
    } else if code == 28 * 256 + 'r' as int {
        8
    } else {
        9
    }
}

pub open spec fn ranked(s: Seq<FindingSpec>, lo: int, hi: int) -> bool {
    &&& forall|i: int, j: int|
        0 <= i < j < s.len() ==> id_rank(#[trigger] s[i].id) < id_rank(#[trigger] s[j].id)
    &&& forall|i: int| 0 <= i < s.len() ==> lo <= #[trigger] id_rank(s[i].id) < hi
}

proof fn lemma_ranked_concat(a: Seq<FindingSpec>, b: Seq<FindingSpec>, lo: int, mid: int, hi: int)
    requires
        lo <= mid <= hi,
        ranked(a, lo, mid),
        ranked(b, mid, hi),
    ensures
        ranked(a + b, lo, hi),
{
    let c = a + b;
    assert forall|i: int, j: int| 0 <= i < j < c.len() implies id_rank(#[trigger] c[i].id)
        < id_rank(#[trigger] c[j].id) by {
        if j < a.len() {
            assert(c[i] == a[i] && c[j] == a[j]);
        } else if i >= a.len() {
            assert(c[i] == b[i - a.len()] && c[j] == b[j - a.len()]);
        } else {
            assert(c[i] == a[i] && c[j] == b[j - a.len()]);
        }
    }
    assert forall|i: int| 0 <= i < c.len() implies lo <= #[trigger] id_rank(c[i].id) < hi by {
        if i < a.len() {
            assert(c[i] == a[i]);
        } else {
            assert(c[i] == b[i - a.len()]);
        }
    }
}

/// Each rule's findings carry that rule's rank.
proof fn lemma_rule_ranks(r: PostureReport)
    ensures
        ranked(disk_rule(r), 0, 1),
        ranked(escrow_rule(r), 1, 2),
        ranked(screen_lock_rule(r), 2, 4),
        ranked(firewall_rule(r), 4, 5),
        ranked(antivirus_rule(r), 5, 6),
        ranked(pending_updates_rule(r), 6, 7),
        ranked(auto_update_rule(r), 7, 8),
        ranked(remote_access_rule(r), 8, 9),
{
    reveal_strlit("device.disk_encryption.disabled");
    reveal_strlit("device.disk_encryption.recovery_key_not_escrowed");
    reveal_strlit("device.screen_lock.disabled");
    reveal_strlit("device.screen_lock.timeout_too_long");
    reveal_strlit("device.firewall.disabled");
    reveal_strlit("device.antivirus.not_running");
    reveal_strlit("device.os_updates.pending");
    reveal_strlit("device.os_updates.auto_disabled");
    reveal_strlit("device.remote_access.enabled");
}

/// The rules never emit the same id twice, so the backend can dedupe a
/// report's findings by id.
#[verifier::spinoff_prover]
pub proof fn lemma_finding_ids_are_distinct(r: PostureReport)
    ensures
        forall|i: int, j: int|
            0 <= i < j < rule_findings(r).len() ==> #[trigger] rule_findings(r)[i].id
                != #[trigger] rule_findings(r)[j].id,
{
    lemma_rule_ranks(r);
    lemma_ranked_concat(disk_rule(r), escrow_rule(r), 0, 1, 2);
    let s2 = disk_rule(r) + escrow_rule(r);
    lemma_ranked_concat(s2, screen_lock_rule(r), 0, 2, 4);
    let s3 = s2 + screen_lock_rule(r);
    lemma_ranked_concat(s3, firewall_rule(r), 0, 4, 5);
    let s4 = s3 + firewall_rule(r);
    lemma_ranked_concat(s4, antivirus_rule(r), 0, 5, 6);
    let s5 = s4 + antivirus_rule(r);
    lemma_ranked_concat(s5, pending_updates_rule(r), 0, 6, 7);
    let s6 = s5 + pending_updates_rule(r);
    lemma_ranked_concat(s6, auto_update_rule(r), 0, 7, 8);
    let s7 = s6 + auto_update_rule(r);
    lemma_ranked_concat(s7, remote_access_rule(r), 0, 8, 9);
    let rf = rule_findings(r);
    assert(rf == s7 + remote_access_rule(r));
    assert forall|i: int, j: int| 0 <= i < j < rf.len() implies #[trigger] rf[i].id
        != #[trigger] rf[j].id by {
        assert(id_rank(rf[i].id) < id_rank(rf[j].id));
    }
}

/// `s` holds exactly one finding with the id of `f`, and that finding is
/// `f`.
pub open spec fn reports_once(s: Seq<FindingSpec>, f: FindingSpec) -> bool {
    exists|i: int|
        0 <= i < s.len() && #[trigger] s[i] == f && forall|j: int|
            0 <= j < s.len() && (#[trigger] s[j]).id == f.id ==> j == i
}

/// No finding of `s` has `id`.
pub open spec fn never_reports(s: Seq<FindingSpec>, id: Seq<char>) -> bool {
    forall|j: int| 0 <= j < s.len() ==> (#[trigger] s[j]).id != id
}

/// One rule's findings `mid`, between the findings of earlier and later
/// rules: an id of its rank is reported once if `mid` has it, never if not.
proof fn lemma_segment(
    pre: Seq<FindingSpec>,
    mid: Seq<FindingSpec>,
    post: Seq<FindingSpec>,
    lo: int,
    hi: int,
    id: Seq<char>,
)
    requires
        0 <= lo <= id_rank(id) < hi <= 9,
        ranked(pre, 0, lo),
        ranked(mid, lo, hi),
        ranked(post, hi, 9),
    ensures
        (forall|j: int| 0 <= j < mid.len() ==> (#[trigger] mid[j]).id != id) ==> never_reports(
            pre + mid + post,
            id,
        ),
        forall|i: int|
            0 <= i < mid.len() && (#[trigger] mid[i]).id == id ==> reports_once(
                pre + mid + post,
                mid[i],
            ),
{
    lemma_ranked_concat(pre, mid, 0, lo, hi);
    lemma_ranked_concat(pre + mid, post, 0, hi, 9);
    let s = pre + mid + post;
    assert forall|j: int| 0 <= j < s.len() && !(pre.len() <= j < pre.len() + mid.len()) implies (
    #[trigger] s[j]).id != id by {
        if j < pre.len() {
            assert(s[j] == pre[j]);
        } else {
            assert(s[j] == post[j - pre.len() - mid.len()]);
        }
    }
    if forall|j: int| 0 <= j < mid.len() ==> (#[trigger] mid[j]).id != id {
        assert forall|j: int| 0 <= j < s.len() implies (#[trigger] s[j]).id != id by {
            if pre.len() <= j < pre.len() + mid.len() {
                assert(s[j] == mid[j - pre.len()]);
            }
        }
    }
    assert forall|i: int| 0 <= i < mid.len() && (#[trigger] mid[i]).id == id implies reports_once(
        s,
        mid[i],
    ) by {
        let k = pre.len() + i;
        assert(s[k] == mid[i]);
        assert forall|j: int| 0 <= j < s.len() && (#[trigger] s[j]).id == id implies j == k by {
            if j != k {
                if j < k {
                    assert(id_rank(s[j].id) < id_rank(s[k].id));
                } else {
                    assert(id_rank(s[k].id) < id_rank(s[j].id));
                }
            }
        }
    }
}

/// The concatenation of eight ranked parts, split around part 0.
proof fn lemma_split_at_0(a: Seq<FindingSpec>, b: Seq<FindingSpec>, c: Seq<FindingSpec>, d: Seq<FindingSpec>, e: Seq<FindingSpec>, f: Seq<FindingSpec>, g: Seq<FindingSpec>, h: Seq<FindingSpec>)
    requires
        ranked(a, 0, 1),
        ranked(b, 1, 2),
        ranked(c, 2, 4),
        ranked(d, 4, 5),
        ranked(e, 5, 6),
        ranked(f, 6, 7),
        ranked(g, 7, 8),
        ranked(h, 8, 9),
    ensures
        ranked(Seq::<FindingSpec>::empty(), 0, 0),
        ranked(b + (c + (d + (e + (f + (g + (h)))))), 1, 9),
        a + b + c + d + e + f + g + h == Seq::<FindingSpec>::empty() + a + (b + (c + (d + (e + (f + (g + (h))))))),
{
    assert(ranked(Seq::<FindingSpec>::empty(), 0, 0)) by {
        assert(ranked(Seq::<FindingSpec>::empty(), 0, 0));
    }
    assert(ranked(b + (c + (d + (e + (f + (g + (h)))))), 1, 9)) by {
        lemma_ranked_concat(g, h, 7, 8, 9);
        lemma_ranked_concat(f, g + (h), 6, 7, 9);
        lemma_ranked_concat(e, f + (g + (h)), 5, 6, 9);
        lemma_ranked_concat(d, e + (f + (g + (h))), 4, 5, 9);
        lemma_ranked_concat(c, d + (e + (f + (g + (h)))), 2, 4, 9);
        lemma_ranked_concat(b, c + (d + (e + (f + (g + (h))))), 1, 2, 9);
    }
    assert(a + b + c + d + e + f + g + h =~= Seq::<FindingSpec>::empty() + a + (b + (c + (d + (e + (f + (g + (h))))))));
}

/// The concatenation of eight ranked parts, split around part 1.
proof fn lemma_split_at_1(a: Seq<FindingSpec>, b: Seq<FindingSpec>, c: Seq<FindingSpec>, d: Seq<FindingSpec>, e: Seq<FindingSpec>, f: Seq<FindingSpec>, g: Seq<FindingSpec>, h: Seq<FindingSpec>)
    requires
        ranked(a, 0, 1),
        ranked(b, 1, 2),
        ranked(c, 2, 4),
        ranked(d, 4, 5),
        ranked(e, 5, 6),
        ranked(f, 6, 7),
        ranked(g, 7, 8),
        ranked(h, 8, 9),
    ensures
        ranked(a, 0, 1),
        ranked(c + (d + (e + (f + (g + (h))))), 2, 9),
        a + b + c + d + e + f + g + h == a + b + (c + (d + (e + (f + (g + (h)))))),
{
    assert(ranked(a, 0, 1)) by {
    }
    assert(ranked(c + (d + (e + (f + (g + (h))))), 2, 9)) by {
        lemma_ranked_concat(g, h, 7, 8, 9);
        lemma_ranked_concat(f, g + (h), 6, 7, 9);
        lemma_ranked_concat(e, f + (g + (h)), 5, 6, 9);
        lemma_ranked_concat(d, e + (f + (g + (h))), 4, 5, 9);
        lemma_ranked_concat(c, d + (e + (f + (g + (h)))), 2, 4, 9);
    }
    assert(a + b + c + d + e + f + g + h =~= a + b + (c + (d + (e + (f + (g + (h)))))));
}

/// The concatenation of eight ranked parts, split around part 2.
proof fn lemma_split_at_2(a: Seq<FindingSpec>, b: Seq<FindingSpec>, c: Seq<FindingSpec>, d: Seq<FindingSpec>, e: Seq<FindingSpec>, f: Seq<FindingSpec>, g: Seq<FindingSpec>, h: Seq<FindingSpec>)
    requires
        ranked(a, 0, 1),
        ranked(b, 1, 2),
        ranked(c, 2, 4),
        ranked(d, 4, 5),
        ranked(e, 5, 6),
        ranked(f, 6, 7),
        ranked(g, 7, 8),
        ranked(h, 8, 9),
    ensures
        ranked(a + b, 0, 2),
        ranked(d + (e + (f + (g + (h)))), 4, 9),
        a + b + c + d + e + f + g + h == a + b + c + (d + (e + (f + (g + (h))))),
{
    assert(ranked(a + b, 0, 2)) by {
        lemma_ranked_concat(a, b, 0, 1, 2);
    }
    assert(ranked(d + (e + (f + (g + (h)))), 4, 9)) by {
        lemma_ranked_concat(g, h, 7, 8, 9);
        lemma_ranked_concat(f, g + (h), 6, 7, 9);
        lemma_ranked_concat(e, f + (g + (h)), 5, 6, 9);
        lemma_ranked_concat(d, e + (f + (g + (h))), 4, 5, 9);
    }
    assert(a + b + c + d + e + f + g + h =~= a + b + c + (d + (e + (f + (g + (h))))));
}

/// The concatenation of eight ranked parts, split around part 3.
proof fn lemma_split_at_3(a: Seq<FindingSpec>, b: Seq<FindingSpec>, c: Seq<FindingSpec>, d: Seq<FindingSpec>, e: Seq<FindingSpec>, f: Seq<FindingSpec>, g: Seq<FindingSpec>, h: Seq<FindingSpec>)
    requires
        ranked(a, 0, 1),
        ranked(b, 1, 2),
        ranked(c, 2, 4),
        ranked(d, 4, 5),
        ranked(e, 5, 6),
        ranked(f, 6, 7),
        ranked(g, 7, 8),
        ranked(h, 8, 9),
    ensures
        ranked(a + b + c, 0, 4),
        ranked(e + (f + (g + (h))), 5, 9),
        a + b + c + d + e + f + g + h == a + b + c + d + (e + (f + (g + (h)))),
{
    assert(ranked(a + b + c, 0, 4)) by {
        lemma_ranked_concat(a, b, 0, 1, 2);
        lemma_ranked_concat(a + b, c, 0, 2, 4);
    }
    assert(ranked(e + (f + (g + (h))), 5, 9)) by {
        lemma_ranked_concat(g, h, 7, 8, 9);
        lemma_ranked_concat(f, g + (h), 6, 7, 9);
        lemma_ranked_concat(e, f + (g + (h)), 5, 6, 9);
    }
    assert(a + b + c + d + e + f + g + h =~= a + b + c + d + (e + (f + (g + (h)))));
}

/// The concatenation of eight ranked parts, split around part 4.
proof fn lemma_split_at_4(a: Seq<FindingSpec>, b: Seq<FindingSpec>, c: Seq<FindingSpec>, d: Seq<FindingSpec>, e: Seq<FindingSpec>, f: Seq<FindingSpec>, g: Seq<FindingSpec>, h: Seq<FindingSpec>)
    requires
        ranked(a, 0, 1),
        ranked(b, 1, 2),
        ranked(c, 2, 4),
        ranked(d, 4, 5),
        ranked(e, 5, 6),
        ranked(f, 6, 7),
        ranked(g, 7, 8),
        ranked(h, 8, 9),
    ensures
        ranked(a + b + c + d, 0, 5),
        ranked(f + (g + (h)), 6, 9),
        a + b + c + d + e + f + g + h == a + b + c + d + e + (f + (g + (h))),
{
    assert(ranked(a + b + c + d, 0, 5)) by {
        lemma_ranked_concat(a, b, 0, 1, 2);
        lemma_ranked_concat(a + b, c, 0, 2, 4);
        lemma_ranked_concat(a + b + c, d, 0, 4, 5);
    }
    assert(ranked(f + (g + (h)), 6, 9)) by {
        lemma_ranked_concat(g, h, 7, 8, 9);
        lemma_ranked_concat(f, g + (h), 6, 7, 9);
    }
    assert(a + b + c + d + e + f + g + h =~= a + b + c + d + e + (f + (g + (h))));
}

/// The concatenation of eight ranked parts, split around part 5.
proof fn lemma_split_at_5(a: Seq<FindingSpec>, b: Seq<FindingSpec>, c: Seq<FindingSpec>, d: Seq<FindingSpec>, e: Seq<FindingSpec>, f: Seq<FindingSpec>, g: Seq<FindingSpec>, h: Seq<FindingSpec>)
    requires
        ranked(a, 0, 1),
        ranked(b, 1, 2),
        ranked(c, 2, 4),
        ranked(d, 4, 5),
        ranked(e, 5, 6),
        ranked(f, 6, 7),
        ranked(g, 7, 8),
        ranked(h, 8, 9),
    ensures
        ranked(a + b + c + d + e, 0, 6),
        ranked(g + (h), 7, 9),
        a + b + c + d + e + f + g + h == a + b + c + d + e + f + (g + (h)),
{
    assert(ranked(a + b + c + d + e, 0, 6)) by {
        lemma_ranked_concat(a, b, 0, 1, 2);
        lemma_ranked_concat(a + b, c, 0, 2, 4);
        lemma_ranked_concat(a + b + c, d, 0, 4, 5);
        lemma_ranked_concat(a + b + c + d, e, 0, 5, 6);
    }
    assert(ranked(g + (h), 7, 9)) by {
        lemma_ranked_concat(g, h, 7, 8, 9);
    }
    assert(a + b + c + d + e + f + g + h =~= a + b + c + d + e + f + (g + (h)));
}

/// The concatenation of eight ranked parts, split around part 6.
proof fn lemma_split_at_6(a: Seq<FindingSpec>, b: Seq<FindingSpec>, c: Seq<FindingSpec>, d: Seq<FindingSpec>, e: Seq<FindingSpec>, f: Seq<FindingSpec>, g: Seq<FindingSpec>, h: Seq<FindingSpec>)
    requires
        ranked(a, 0, 1),
        ranked(b, 1, 2),
        ranked(c, 2, 4),
        ranked(d, 4, 5),
        ranked(e, 5, 6),
        ranked(f, 6, 7),
        ranked(g, 7, 8),
        ranked(h, 8, 9),
    ensures
        ranked(a + b + c + d + e + f, 0, 7),
        ranked(h, 8, 9),
        a + b + c + d + e + f + g + h == a + b + c + d + e + f + g + (h),
{
    assert(ranked(a + b + c + d + e + f, 0, 7)) by {
        lemma_ranked_concat(a, b, 0, 1, 2);
        lemma_ranked_concat(a + b, c, 0, 2, 4);
        lemma_ranked_concat(a + b + c, d, 0, 4, 5);
        lemma_ranked_concat(a + b + c + d, e, 0, 5, 6);
        lemma_ranked_concat(a + b + c + d + e, f, 0, 6, 7);
    }
    assert(ranked(h, 8, 9)) by {
    }
    assert(a + b + c + d + e + f + g + h =~= a + b + c + d + e + f + g + (h));
}

/// The concatenation of eight ranked parts, split around part 7.
proof fn lemma_split_at_7(a: Seq<FindingSpec>, b: Seq<FindingSpec>, c: Seq<FindingSpec>, d: Seq<FindingSpec>, e: Seq<FindingSpec>, f: Seq<FindingSpec>, g: Seq<FindingSpec>, h: Seq<FindingSpec>)
    requires
        ranked(a, 0, 1),
        ranked(b, 1, 2),
        ranked(c, 2, 4),
        ranked(d, 4, 5),
        ranked(e, 5, 6),
        ranked(f, 6, 7),
        ranked(g, 7, 8),
        ranked(h, 8, 9),
    ensures
        ranked(a + b + c + d + e + f + g, 0, 8),
        ranked(Seq::<FindingSpec>::empty(), 9, 9),
        a + b + c + d + e + f + g + h == a + b + c + d + e + f + g + h + (Seq::<FindingSpec>::empty()),
{
    assert(ranked(a + b + c + d + e + f + g, 0, 8)) by {
        lemma_ranked_concat(a, b, 0, 1, 2);
        lemma_ranked_concat(a + b, c, 0, 2, 4);
        lemma_ranked_concat(a + b + c, d, 0, 4, 5);
        lemma_ranked_concat(a + b + c + d, e, 0, 5, 6);
        lemma_ranked_concat(a + b + c + d + e, f, 0, 6, 7);
        lemma_ranked_concat(a + b + c + d + e + f, g, 0, 7, 8);
    }
    assert(ranked(Seq::<FindingSpec>::empty(), 9, 9)) by {
        assert(ranked(Seq::<FindingSpec>::empty(), 9, 9));
    }
    assert(a + b + c + d + e + f + g + h =~= a + b + c + d + e + f + g + h + (Seq::<FindingSpec>::empty()));
}

proof fn lemma_disk_rule_fires_when(r: PostureReport)
    ensures
        (r.disk_encryption.assessed && !r.disk_encryption.enabled) ==> reports_once(
            rule_findings(r),
            (FindingSpec {
                id: "device.disk_encryption.disabled"@,
                severity: "critical"@,
                title: "Disk not encrypted: "@ + r.hostname@,
                description: "Full-disk encryption is not active. Theft or seizure of the device exposes all on-disk data."@,
                recommendation: if r.platform@ == "macos"@ {
                    "Enable FileVault: System Settings → Privacy & Security → FileVault → Turn On."@
                } else if r.platform@ == "linux"@ {
                    "Re-image with LUKS-on-LVM, or migrate /home to an encrypted volume."@
                } else if r.platform@ == "windows"@ {
                    "Enable BitLocker: Control Panel → BitLocker Drive Encryption → Turn On."@
                } else {
                    "Enable full-disk encryption."@
                },
            }),
        ),
        !(r.disk_encryption.assessed && !r.disk_encryption.enabled) ==> never_reports(rule_findings(r), "device.disk_encryption.disabled"@),
{
    reveal_strlit("device.disk_encryption.disabled");
    lemma_rule_ranks(r);
    lemma_split_at_0(disk_rule(r), escrow_rule(r), screen_lock_rule(r), firewall_rule(r), antivirus_rule(r), pending_updates_rule(r), auto_update_rule(r), remote_access_rule(r));
    lemma_segment(Seq::<FindingSpec>::empty(), disk_rule(r), escrow_rule(r) + (screen_lock_rule(r) + (firewall_rule(r) + (antivirus_rule(r) + (pending_updates_rule(r) + (auto_update_rule(r) + (remote_access_rule(r))))))), 0, 1, "device.disk_encryption.disabled"@);
    if r.disk_encryption.assessed && !r.disk_encryption.enabled {
        assert(disk_rule(r)[0].id == "device.disk_encryption.disabled"@);
    }
}

proof fn lemma_escrow_rule_fires_when(r: PostureReport)
    ensures
        (r.disk_encryption.recovery_key_escrowed == Some(false)) ==> reports_once(
            rule_findings(r),
            (FindingSpec {
                id: "device.disk_encryption.recovery_key_not_escrowed"@,
                severity: "high"@,
                title: "Recovery key not escrowed: "@ + r.hostname@,
                description: "Encryption is on but the recovery key isn't escrowed centrally. A lost passphrase = data loss."@,
                recommendation: "Configure recovery-key escrow with your IdP / Cybrium device profile."@,
            }),
        ),
        !(r.disk_encryption.recovery_key_escrowed == Some(false)) ==> never_reports(rule_findings(r), "device.disk_encryption.recovery_key_not_escrowed"@),
{
    reveal_strlit("device.disk_encryption.recovery_key_not_escrowed");
    lemma_rule_ranks(r);
    lemma_split_at_1(disk_rule(r), escrow_rule(r), screen_lock_rule(r), firewall_rule(r), antivirus_rule(r), pending_updates_rule(r), auto_update_rule(r), remote_access_rule(r));
    lemma_segment(disk_rule(r), escrow_rule(r), screen_lock_rule(r) + (firewall_rule(r) + (antivirus_rule(r) + (pending_updates_rule(r) + (auto_update_rule(r) + (remote_access_rule(r)))))), 1, 2, "device.disk_encryption.recovery_key_not_escrowed"@);
    if r.disk_encryption.recovery_key_escrowed == Some(false) {
        assert(escrow_rule(r)[0].id == "device.disk_encryption.recovery_key_not_escrowed"@);
    }
}

proof fn lemma_screen_lock_disabled_rule_fires_when(r: PostureReport)
    ensures
        (r.screen_lock.assessed && !r.screen_lock.enabled) ==> reports_once(
            rule_findings(r),
            (FindingSpec {
                id: "device.screen_lock.disabled"@,
                severity: "high"@,
                title: "Screen lock disabled: "@ + r.hostname@,
                description: "The device does not lock when idle. Anyone with physical proximity can access it."@,
                recommendation: "Set an idle screen-lock of 5–10 minutes with a password requirement."@,
            }),
        ),
        !(r.screen_lock.assessed && !r.screen_lock.enabled) ==> never_reports(rule_findings(r), "device.screen_lock.disabled"@),
{
    reveal_strlit("device.screen_lock.disabled");
    reveal_strlit("device.screen_lock.timeout_too_long");
    lemma_rule_ranks(r);
    lemma_split_at_2(disk_rule(r), escrow_rule(r), screen_lock_rule(r), firewall_rule(r), antivirus_rule(r), pending_updates_rule(r), auto_update_rule(r), remote_access_rule(r));
    lemma_segment(disk_rule(r) + escrow_rule(r), screen_lock_rule(r), firewall_rule(r) + (antivirus_rule(r) + (pending_updates_rule(r) + (auto_update_rule(r) + (remote_access_rule(r))))), 2, 4, "device.screen_lock.disabled"@);
    if r.screen_lock.assessed && !r.screen_lock.enabled {
        assert(screen_lock_rule(r)[0].id == "device.screen_lock.disabled"@);
    }
}

proof fn lemma_screen_lock_timeout_rule_fires_when(r: PostureReport)
    ensures
        (r.screen_lock.assessed && r.screen_lock.enabled && r.screen_lock.idle_timeout_assessed
            && (r.screen_lock.idle_timeout_secs matches Some(n) && n > 900)) ==> reports_once(
            rule_findings(r),
            (FindingSpec {
                id: "device.screen_lock.timeout_too_long"@,
                severity: "medium"@,
                title: "Screen lock timeout > 15min: "@ + r.hostname@,
                description: "Idle timeout is "@ + decimal(r.screen_lock.idle_timeout_secs.unwrap() as nat)
                    + "s — SOC 2 CC6.6 expects ≤15min."@,
                recommendation: "Reduce the idle timeout to 600 seconds (10 minutes) or less."@,
            }),
        ),
        !(r.screen_lock.assessed && r.screen_lock.enabled && r.screen_lock.idle_timeout_assessed
            && (r.screen_lock.idle_timeout_secs matches Some(n) && n > 900)) ==> never_reports(rule_findings(r), "device.screen_lock.timeout_too_long"@),
{
    reveal_strlit("device.screen_lock.timeout_too_long");
    reveal_strlit("device.screen_lock.disabled");
    lemma_rule_ranks(r);
    lemma_split_at_2(disk_rule(r), escrow_rule(r), screen_lock_rule(r), firewall_rule(r), antivirus_rule(r), pending_updates_rule(r), auto_update_rule(r), remote_access_rule(r));
    lemma_segment(disk_rule(r) + escrow_rule(r), screen_lock_rule(r), firewall_rule(r) + (antivirus_rule(r) + (pending_updates_rule(r) + (auto_update_rule(r) + (remote_access_rule(r))))), 2, 4, "device.screen_lock.timeout_too_long"@);
    if r.screen_lock.assessed && r.screen_lock.enabled && r.screen_lock.idle_timeout_assessed
            && (r.screen_lock.idle_timeout_secs matches Some(n) && n > 900) {
        assert(screen_lock_rule(r)[0].id == "device.screen_lock.timeout_too_long"@);
    }
}

proof fn lemma_firewall_rule_fires_when(r: PostureReport)
    ensures
        (r.firewall.assessed && !r.firewall.enabled) ==> reports_once(
            rule_findings(r),
            (FindingSpec {
                id: "device.firewall.disabled"@,
                severity: "high"@,
                title: "Host firewall disabled: "@ + r.hostname@,
                description: "Inbound network filtering is not active."@,
                recommendation: if r.platform@ == "macos"@ {
                    "Enable: System Settings → Network → Firewall → Turn On."@
                } else if r.platform@ == "linux"@ {
                    "Enable ufw / firewalld with default-deny on inbound."@
                } else if r.platform@ == "windows"@ {
                    "Enable Windows Defender Firewall (all profiles)."@
                } else {
                    "Enable the host firewall."@
                },
            }),
        ),
        !(r.firewall.assessed && !r.firewall.enabled) ==> never_reports(rule_findings(r), "device.firewall.disabled"@),
{
    reveal_strlit("device.firewall.disabled");
    lemma_rule_ranks(r);
    lemma_split_at_3(disk_rule(r), escrow_rule(r), screen_lock_rule(r), firewall_rule(r), antivirus_rule(r), pending_updates_rule(r), auto_update_rule(r), remote_access_rule(r));
    lemma_segment(disk_rule(r) + escrow_rule(r) + screen_lock_rule(r), firewall_rule(r), antivirus_rule(r) + (pending_updates_rule(r) + (auto_update_rule(r) + (remote_access_rule(r)))), 4, 5, "device.firewall.disabled"@);
    if r.firewall.assessed && !r.firewall.enabled {
        assert(firewall_rule(r)[0].id == "device.firewall.disabled"@);
    }
}

proof fn lemma_antivirus_rule_fires_when(r: PostureReport)
    ensures
        (r.antivirus.assessed && !r.antivirus.running) ==> reports_once(
            rule_findings(r),
            (FindingSpec {
                id: "device.antivirus.not_running"@,
                severity: "medium"@,
                title: "No real-time AV detected: "@ + r.hostname@,
                description: "Endpoint protection (XProtect / Defender / equivalent) is not reporting active."@,
                recommendation: "Confirm endpoint protection is running and real-time scanning is enabled."@,
            }),
        ),
        !(r.antivirus.assessed && !r.antivirus.running) ==> never_reports(rule_findings(r), "device.antivirus.not_running"@),
{
    reveal_strlit("device.antivirus.not_running");
    lemma_rule_ranks(r);
    lemma_split_at_4(disk_rule(r), escrow_rule(r), screen_lock_rule(r), firewall_rule(r), antivirus_rule(r), pending_updates_rule(r), auto_update_rule(r), remote_access_rule(r));
    lemma_segment(disk_rule(r) + escrow_rule(r) + screen_lock_rule(r) + firewall_rule(r), antivirus_rule(r), pending_updates_rule(r) + (auto_update_rule(r) + (remote_access_rule(r))), 5, 6, "device.antivirus.not_running"@);
    if r.antivirus.assessed && !r.antivirus.running {
        assert(antivirus_rule(r)[0].id == "device.antivirus.not_running"@);
    }
}

proof fn lemma_pending_updates_rule_fires_when(r: PostureReport)
    ensures
        (r.os_updates.assessed && r.os_updates.pending_updates > 0) ==> reports_once(
            rule_findings(r),
            (FindingSpec {
                id: "device.os_updates.pending"@,
                severity: if r.os_updates.pending_updates > 5 {
                    "high"@
                } else {
                    "medium"@
                },
                title: decimal(r.os_updates.pending_updates as nat) + " pending OS updates on "@
                    + r.hostname@,
                description: "Operating-system patches are available but not installed."@,
                recommendation: "Run software updates and reboot if required."@,
            }),
        ),
        !(r.os_updates.assessed && r.os_updates.pending_updates > 0) ==> never_reports(rule_findings(r), "device.os_updates.pending"@),
{
    reveal_strlit("device.os_updates.pending");
    lemma_rule_ranks(r);
    lemma_split_at_5(disk_rule(r), escrow_rule(r), screen_lock_rule(r), firewall_rule(r), antivirus_rule(r), pending_updates_rule(r), auto_update_rule(r), remote_access_rule(r));
    lemma_segment(disk_rule(r) + escrow_rule(r) + screen_lock_rule(r) + firewall_rule(r) + antivirus_rule(r), pending_updates_rule(r), auto_update_rule(r) + (remote_access_rule(r)), 6, 7, "device.os_updates.pending"@);
    if r.os_updates.assessed && r.os_updates.pending_updates > 0 {
        assert(pending_updates_rule(r)[0].id == "device.os_updates.pending"@);
    }
}

proof fn lemma_auto_update_rule_fires_when(r: PostureReport)
    ensures
        (r.os_updates.auto_update_enabled == Some(false)) ==> reports_once(
            rule_findings(r),
            (FindingSpec {
                id: "device.os_updates.auto_disabled"@,
                severity: "medium"@,
                title: "Automatic OS updates disabled: "@ + r.hostname@,
                description: "Patch lag widens the exploitation window."@,
                recommendation: "Enable automatic OS updates."@,
            }),
        ),
        !(r.os_updates.auto_update_enabled == Some(false)) ==> never_reports(rule_findings(r), "device.os_updates.auto_disabled"@),
{
    reveal_strlit("device.os_updates.auto_disabled");
    lemma_rule_ranks(r);
    lemma_split_at_6(disk_rule(r), escrow_rule(r), screen_lock_rule(r), firewall_rule(r), antivirus_rule(r), pending_updates_rule(r), auto_update_rule(r), remote_access_rule(r));
    lemma_segment(disk_rule(r) + escrow_rule(r) + screen_lock_rule(r) + firewall_rule(r) + antivirus_rule(r) + pending_updates_rule(r), auto_update_rule(r), remote_access_rule(r), 7, 8, "device.os_updates.auto_disabled"@);
    if r.os_updates.auto_update_enabled == Some(false) {
        assert(auto_update_rule(r)[0].id == "device.os_updates.auto_disabled"@);
    }
}

proof fn lemma_remote_access_rule_fires_when(r: PostureReport)
    ensures
        (r.remote_access.assessed && (r.remote_access.ssh_enabled
            || r.remote_access.remote_desktop_enabled)) ==> reports_once(
            rule_findings(r),
            (FindingSpec {
                id: "device.remote_access.enabled"@,
                severity: "medium"@,
                title: (if r.remote_access.remote_desktop_enabled {
                    "Remote Desktop / ARD"@
                } else {
                    "SSH"@
                }) + " enabled: "@ + r.hostname@,
                description: "Remote access service '"@ + (if r.remote_access.remote_desktop_enabled {
                    "Remote Desktop / ARD"@
                } else {
                    "SSH"@
                })
                    + "' is enabled or running. This increases attack surface, especially on portable devices."@,
                recommendation: "Disable unless explicitly required; gate behind WireGuard / Tailscale if needed."@,
            }),
        ),
        !(r.remote_access.assessed && (r.remote_access.ssh_enabled
            || r.remote_access.remote_desktop_enabled)) ==> never_reports(rule_findings(r), "device.remote_access.enabled"@),
{
    reveal_strlit("device.remote_access.enabled");
    lemma_rule_ranks(r);
    lemma_split_at_7(disk_rule(r), escrow_rule(r), screen_lock_rule(r), firewall_rule(r), antivirus_rule(r), pending_updates_rule(r), auto_update_rule(r), remote_access_rule(r));
    lemma_segment(disk_rule(r) + escrow_rule(r) + screen_lock_rule(r) + firewall_rule(r) + antivirus_rule(r) + pending_updates_rule(r) + auto_update_rule(r), remote_access_rule(r), Seq::<FindingSpec>::empty(), 8, 9, "device.remote_access.enabled"@);
    if r.remote_access.assessed && (r.remote_access.ssh_enabled
            || r.remote_access.remote_desktop_enabled) {
        assert(remote_access_rule(r)[0].id == "device.remote_access.enabled"@);
    }
}

/// What each rule reports, stated on the report itself: every failing
/// control yields exactly one finding, with its stable id, severity, a
/// title naming the host, its description and its advice; a control that
/// does not fail yields no finding with that id.
pub proof fn lemma_rules_fire_exactly_when(r: PostureReport)
    ensures
        (r.disk_encryption.assessed && !r.disk_encryption.enabled) ==> reports_once(
            rule_findings(r),
            (FindingSpec {
                id: "device.disk_encryption.disabled"@,
                severity: "critical"@,
                title: "Disk not encrypted: "@ + r.hostname@,
                description: "Full-disk encryption is not active. Theft or seizure of the device exposes all on-disk data."@,
                recommendation: if r.platform@ == "macos"@ {
                    "Enable FileVault: System Settings → Privacy & Security → FileVault → Turn On."@
                } else if r.platform@ == "linux"@ {
                    "Re-image with LUKS-on-LVM, or migrate /home to an encrypted volume."@
                } else if r.platform@ == "windows"@ {
                    "Enable BitLocker: Control Panel → BitLocker Drive Encryption → Turn On."@
                } else {
                    "Enable full-disk encryption."@
                },
            }),
        ),
        !(r.disk_encryption.assessed && !r.disk_encryption.enabled) ==> never_reports(rule_findings(r), "device.disk_encryption.disabled"@),
        (r.disk_encryption.recovery_key_escrowed == Some(false)) ==> reports_once(
            rule_findings(r),
            (FindingSpec {
                id: "device.disk_encryption.recovery_key_not_escrowed"@,
                severity: "high"@,
                title: "Recovery key not escrowed: "@ + r.hostname@,
                description: "Encryption is on but the recovery key isn't escrowed centrally. A lost passphrase = data loss."@,
                recommendation: "Configure recovery-key escrow with your IdP / Cybrium device profile."@,
            }),
        ),
        !(r.disk_encryption.recovery_key_escrowed == Some(false)) ==> never_reports(rule_findings(r), "device.disk_encryption.recovery_key_not_escrowed"@),
        (r.screen_lock.assessed && !r.screen_lock.enabled) ==> reports_once(
            rule_findings(r),
            (FindingSpec {
                id: "device.screen_lock.disabled"@,
                severity: "high"@,
                title: "Screen lock disabled: "@ + r.hostname@,
                description: "The device does not lock when idle. Anyone with physical proximity can access it."@,
                recommendation: "Set an idle screen-lock of 5–10 minutes with a password requirement."@,
            }),
        ),
        !(r.screen_lock.assessed && !r.screen_lock.enabled) ==> never_reports(rule_findings(r), "device.screen_lock.disabled"@),
        (r.screen_lock.assessed && r.screen_lock.enabled && r.screen_lock.idle_timeout_assessed
            && (r.screen_lock.idle_timeout_secs matches Some(n) && n > 900)) ==> reports_once(
            rule_findings(r),
            (FindingSpec {
                id: "device.screen_lock.timeout_too_long"@,
                severity: "medium"@,
                title: "Screen lock timeout > 15min: "@ + r.hostname@,
                description: "Idle timeout is "@ + decimal(r.screen_lock.idle_timeout_secs.unwrap() as nat)
                    + "s — SOC 2 CC6.6 expects ≤15min."@,
                recommendation: "Reduce the idle timeout to 600 seconds (10 minutes) or less."@,
            }),
        ),
        !(r.screen_lock.assessed && r.screen_lock.enabled && r.screen_lock.idle_timeout_assessed
            && (r.screen_lock.idle_timeout_secs matches Some(n) && n > 900)) ==> never_reports(rule_findings(r), "device.screen_lock.timeout_too_long"@),
        (r.firewall.assessed && !r.firewall.enabled) ==> reports_once(
            rule_findings(r),
            (FindingSpec {
                id: "device.firewall.disabled"@,
                severity: "high"@,
                title: "Host firewall disabled: "@ + r.hostname@,
                description: "Inbound network filtering is not active."@,
                recommendation: if r.platform@ == "macos"@ {
                    "Enable: System Settings → Network → Firewall → Turn On."@
                } else if r.platform@ == "linux"@ {
                    "Enable ufw / firewalld with default-deny on inbound."@
                } else if r.platform@ == "windows"@ {
                    "Enable Windows Defender Firewall (all profiles)."@
                } else {
                    "Enable the host firewall."@
                },
            }),
        ),
        !(r.firewall.assessed && !r.firewall.enabled) ==> never_reports(rule_findings(r), "device.firewall.disabled"@),
        (r.antivirus.assessed && !r.antivirus.running) ==> reports_once(
            rule_findings(r),
            (FindingSpec {
                id: "device.antivirus.not_running"@,
                severity: "medium"@,
                title: "No real-time AV detected: "@ + r.hostname@,
                description: "Endpoint protection (XProtect / Defender / equivalent) is not reporting active."@,
                recommendation: "Confirm endpoint protection is running and real-time scanning is enabled."@,
            }),
        ),
        !(r.antivirus.assessed && !r.antivirus.running) ==> never_reports(rule_findings(r), "device.antivirus.not_running"@),
        (r.os_updates.assessed && r.os_updates.pending_updates > 0) ==> reports_once(
            rule_findings(r),
            (FindingSpec {
                id: "device.os_updates.pending"@,
                severity: if r.os_updates.pending_updates > 5 {
                    "high"@
                } else {
                    "medium"@
                },
                title: decimal(r.os_updates.pending_updates as nat) + " pending OS updates on "@
                    + r.hostname@,
                description: "Operating-system patches are available but not installed."@,
                recommendation: "Run software updates and reboot if required."@,
            }),
        ),
        !(r.os_updates.assessed && r.os_updates.pending_updates > 0) ==> never_reports(rule_findings(r), "device.os_updates.pending"@),
        (r.os_updates.auto_update_enabled == Some(false)) ==> reports_once(
            rule_findings(r),
            (FindingSpec {
                id: "device.os_updates.auto_disabled"@,
                severity: "medium"@,
                title: "Automatic OS updates disabled: "@ + r.hostname@,
                description: "Patch lag widens the exploitation window."@,
                recommendation: "Enable automatic OS updates."@,
            }),
        ),
        !(r.os_updates.auto_update_enabled == Some(false)) ==> never_reports(rule_findings(r), "device.os_updates.auto_disabled"@),
        (r.remote_access.assessed && (r.remote_access.ssh_enabled
            || r.remote_access.remote_desktop_enabled)) ==> reports_once(
            rule_findings(r),
            (FindingSpec {
                id: "device.remote_access.enabled"@,
                severity: "medium"@,
                title: (if r.remote_access.remote_desktop_enabled {
                    "Remote Desktop / ARD"@
                } else {
                    "SSH"@
                }) + " enabled: "@ + r.hostname@,
                description: "Remote access service '"@ + (if r.remote_access.remote_desktop_enabled {
                    "Remote Desktop / ARD"@
                } else {
                    "SSH"@
                })
                    + "' is enabled or running. This increases attack surface, especially on portable devices."@,
                recommendation: "Disable unless explicitly required; gate behind WireGuard / Tailscale if needed."@,
            }),
        ),
        !(r.remote_access.assessed && (r.remote_access.ssh_enabled
            || r.remote_access.remote_desktop_enabled)) ==> never_reports(rule_findings(r), "device.remote_access.enabled"@),
{
    lemma_disk_rule_fires_when(r);
    lemma_escrow_rule_fires_when(r);
    lemma_screen_lock_disabled_rule_fires_when(r);
    lemma_screen_lock_timeout_rule_fires_when(r);
    lemma_firewall_rule_fires_when(r);
    lemma_antivirus_rule_fires_when(r);
    lemma_pending_updates_rule_fires_when(r);
    lemma_auto_update_rule_fires_when(r);
    lemma_remote_access_rule_fires_when(r);
}

} // verus!
