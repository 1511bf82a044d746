//! Windows posture readers: what the PowerShell / WMI / CIM query output
//! means for the report. Each query's output is given as text when the
//! query ran and succeeded, and as `None` otherwise.

use crate::report::{
    settle_unknown_count, Antivirus, DiskEncryption, Firewall, HardwareRootOfTrust, OsUpdates,
    RemoteAccess, ScreenLock, UNKNOWN_COUNT,
};
use crate::text::{
    chars_of, eq_str, lower, lower_chars, parse_i32, parse_i32_chars, parse_u32, parse_u32_chars,
    split_char, split_on, string_from_chars, trim, trim_chars,
};
use vstd::prelude::*;
use vstd::string::StringExecFns;

verus! {

broadcast use vstd::string::group_string_axioms;

// ---------------------------------------------------------------------------
// Value parsers
// ---------------------------------------------------------------------------

/// The `i`th `|`-separated field of `t`, trimmed; empty when there is none.
pub open spec fn field(t: Seq<char>, i: int) -> Seq<char> {
    if i < split_char(t, '|').len() {
        trim(split_char(t, '|')[i])
    } else {
        seq![]
    }
}

/// PowerShell's `True` / `False`, in any ASCII case.
pub open spec fn ps_bool(raw: Seq<char>) -> Option<bool> {
    if lower(raw) == "true"@ {
        Some(true)
    } else if lower(raw) == "false"@ {
        Some(false)
    } else {
        None
    }
}

pub open spec fn protection_on(p: Seq<char>) -> bool {
    p == "1"@ || p == "On"@ || p == "ProtectionOn"@ || p == "True"@ || p == "true"@
}

pub open spec fn volume_encrypted(v: Seq<char>) -> bool {
    v == "FullyEncrypted"@ || v == "EncryptionInProgress"@ || v
        == "FullyEncryptedInUseSpaceOnly"@
}

pub open spec fn bitlocker_mechanism(method: Seq<char>) -> Seq<char> {
    if method.len() == 0 {
        "BitLocker"@
    } else {
        "BitLocker ("@ + method + ")"@
    }
}

/// `ProtectionStatus|VolumeStatus|EncryptionMethod` of the system drive:
/// encrypted when protection is on or the volume is (being) encrypted;
/// nothing when the output is blank.
pub open spec fn bitlocker_status(raw: Seq<char>) -> Option<(bool, Seq<char>)> {
    let t = trim(raw);
    if t.len() == 0 {
        None
    } else {
        Some(
            (
                protection_on(field(t, 0)) || volume_encrypted(field(t, 1)),
                bitlocker_mechanism(field(t, 2)),
            ),
        )
    }
}

/// `TpmPresent|TpmReady|ManufacturerIdTxt`: nothing when the output is
/// blank or presence is not a PowerShell boolean; readiness defaults to
/// false; the vendor is kept when not blank.
pub open spec fn tpm_status(raw: Seq<char>) -> Option<(bool, bool, Option<Seq<char>>)> {
    let t = trim(raw);
    if t.len() == 0 {
        None
    } else {
        match ps_bool(field(t, 0)) {
            None => None,
            Some(present) => Some(
                (
                    present,
                    match ps_bool(field(t, 1)) {
                        Some(e) => e,
                        None => false,
                    },
                    if field(t, 2).len() > 0 {
                        Some(field(t, 2))
                    } else {
                        None
                    },
                ),
            ),
        }
    }
}

/// PowerShell's `True` / `False`, in any ASCII case.
pub fn parse_ps_bool(raw: &str) -> (r: Option<bool>)
    ensures
        r == ps_bool(raw@),
{
    let v = chars_of(raw);
    let l = lower_chars(v.as_slice());
    if eq_str(l.as_slice(), "true") {
        Some(true)
    } else if eq_str(l.as_slice(), "false") {
        Some(false)
    } else {
        None
    }
}

/// The trimmed `|`-separated fields of `t`.
fn fields_of(t: &[char]) -> (r: Vec<Vec<char>>)
    ensures
        r@.len() == split_char(t@, '|').len(),
        forall|i: int| 0 <= i < r@.len() ==> #[trigger] r@[i]@ == field(t@, i),
{
    let parts = split_on(t, '|');
    let mut out: Vec<Vec<char>> = Vec::new();
    let mut i: usize = 0;
    while i < parts.len()
        invariant
            0 <= i <= parts@.len(),
            crate::text::views(parts@) == split_char(t@, '|'),
            out@.len() == i,
            forall|k: int| 0 <= k < i ==> #[trigger] out@[k]@ == field(t@, k),
        decreases parts@.len() - i,
    {
        assert(parts@[i as int]@ == split_char(t@, '|')[i as int]);
        out.push(trim_chars(parts[i].as_slice()));
        i = i + 1;
    }
    out
}

/// The `i`th field, or nothing.
fn field_at(fs: &Vec<Vec<char>>, i: usize) -> (f: Vec<char>)
    ensures
        f@ == (if i < fs@.len() {
            fs@[i as int]@
        } else {
            seq![]
        }),
{
    if i < fs.len() {
        fs[i].clone()
    } else {
        Vec::new()
    }
}

/// BitLocker state of the system drive from `ProtectionStatus|VolumeStatus|
/// EncryptionMethod`: `(encrypted, mechanism)`, or `None` for blank output.
pub fn parse_bitlocker_status(raw: &str) -> (r: Option<(bool, String)>)
    ensures
        match r {
            Some((on, mech)) => bitlocker_status(raw@) == Some((on, mech@)),
            None => bitlocker_status(raw@) is None,
        },
{
    let v = chars_of(raw);
    let t = trim_chars(v.as_slice());
    if t.len() == 0 {
        return None;
    }
    let fs = fields_of(t.as_slice());
    let protection = field_at(&fs, 0);
    let volume = field_at(&fs, 1);
    let method = field_at(&fs, 2);
    let on = eq_str(protection.as_slice(), "1") || eq_str(protection.as_slice(), "On") || eq_str(
        protection.as_slice(),
        "ProtectionOn",
    ) || eq_str(protection.as_slice(), "True") || eq_str(protection.as_slice(), "true");
    let encrypted = eq_str(volume.as_slice(), "FullyEncrypted") || eq_str(
        volume.as_slice(),
        "EncryptionInProgress",
    ) || eq_str(volume.as_slice(), "FullyEncryptedInUseSpaceOnly");
    let mechanism = if method.len() == 0 {
        "BitLocker".to_owned()
    } else {
        "BitLocker (".to_owned().concat(string_from_chars(method.as_slice()).as_str()).concat(")")
    };
    Some((on || encrypted, mechanism))
}

/// TPM state from `TpmPresent|TpmReady|ManufacturerIdTxt`:
/// `(present, ready, vendor)`, or `None` when the output is blank or
/// presence is not a PowerShell boolean.
pub fn parse_tpm_status(raw: &str) -> (r: Option<(bool, bool, Option<String>)>)
    ensures
        match r {
            Some((present, ready, vendor)) => tpm_status(raw@) == Some(
                (
                    present,
                    ready,
                    match vendor {
                        Some(s) => Some(s@),
                        None => None,
                    },
                ),
            ),
            None => tpm_status(raw@) is None,
        },
{
    let v = chars_of(raw);
    let t = trim_chars(v.as_slice());
    if t.len() == 0 {
        return None;
    }
    let fs = fields_of(t.as_slice());
    let p = field_at(&fs, 0);
    let present = match parse_ps_bool(string_from_chars(p.as_slice()).as_str()) {
        Some(b) => b,
        None => return None,
    };
    let e = field_at(&fs, 1);
    let ready = match parse_ps_bool(string_from_chars(e.as_slice()).as_str()) {
        Some(b) => b,
        None => false,
    };
    let m = field_at(&fs, 2);
    let vendor = if m.len() > 0 {
        Some(string_from_chars(m.as_slice()))
    } else {
        None
    };
    Some((present, ready, vendor))
}

// ---------------------------------------------------------------------------
// Applying query results to the report
// ---------------------------------------------------------------------------

/// `Get-BitLockerVolume` on the system drive.
pub fn disk_from_bitlocker(d: &mut DiskEncryption, out: Option<&str>)
    ensures
        old(d).consistent() ==> final(d).consistent(),
        match out {
            Some(o) => {
                &&& final(d).assessed
                &&& match bitlocker_status(o@) {
                    Some((on, mech)) => final(d).enabled == on && final(d).mechanism@ == mech,
                    None => final(d).enabled == old(d).enabled && final(d).mechanism
                        == old(d).mechanism,
                }
            },
            None => *final(d) == *old(d),
        },
        final(d).recovery_key_escrowed == old(d).recovery_key_escrowed,
{
    if let Some(o) = out {
        d.assessed = true;
        if let Some((enabled, mechanism)) = parse_bitlocker_status(o) {
            d.enabled = enabled;
            d.mechanism = mechanism;
        }
    }
}

/// `ScreenSaverIsSecure` and `ScreenSaveTimeOut` under
/// `HKCU\Control Panel\Desktop`.
pub fn screen_lock_from_registry(s: &mut ScreenLock, secure: Option<&str>, timeout: Option<&str>)
    ensures
        old(s).consistent() ==> final(s).consistent(),
        final(s).assessed == (old(s).assessed || secure is Some),
        final(s).enabled == match secure {
            Some(o) => trim(o@) == "1"@,
            None => old(s).enabled,
        },
        final(s).idle_timeout_assessed == (old(s).idle_timeout_assessed || timeout is Some),
        final(s).idle_timeout_secs == match timeout {
            Some(o) => if parse_u32(trim(o@)) is Some {
                parse_u32(trim(o@))
            } else {
                old(s).idle_timeout_secs
            },
            None => old(s).idle_timeout_secs,
        },
{
    if let Some(o) = secure {
        s.assessed = true;
        let v = chars_of(o);
        let t = trim_chars(v.as_slice());
        s.enabled = eq_str(t.as_slice(), "1");
    }
    if let Some(o) = timeout {
        s.idle_timeout_assessed = true;
        let v = chars_of(o);
        let t = trim_chars(v.as_slice());
        if let Some(secs) = parse_u32_chars(t.as_slice()) {
            s.idle_timeout_secs = Some(secs);
        }
    }
}

/// The number of disabled `Get-NetFirewallProfile` profiles: the firewall
/// is on when it is `0`.
pub fn firewall_from_profiles(f: &mut Firewall, disabled_count: Option<&str>)
    ensures
        old(f).consistent() ==> final(f).consistent(),
        match disabled_count {
            Some(o) => {
                &&& final(f).assessed
                &&& final(f).enabled == (trim(o@) == "0"@)
                &&& final(f).mechanism@ == "Windows Defender Firewall"@
            },
            None => *final(f) == *old(f),
        },
{
    if let Some(o) = disabled_count {
        f.assessed = true;
        let v = chars_of(o);
        let t = trim_chars(v.as_slice());
        f.enabled = eq_str(t.as_slice(), "0");
        f.mechanism = "Windows Defender Firewall".to_owned();
    }
}

/// SecurityCenter2 antivirus product names, then Defender's
/// `RealTimeProtectionEnabled`.
pub fn antivirus_from_security_center(a: &mut Antivirus, products: Option<&str>, realtime: Option<&str>)
    ensures
        old(a).consistent() ==> final(a).consistent(),
        final(a).assessed == (old(a).assessed || products is Some || realtime is Some),
        match products {
            Some(o) => if trim(o@).len() > 0 {
                final(a).running && final(a).product@ == trim(o@)
            } else {
                final(a).running == old(a).running && final(a).product == old(a).product
            },
            None => final(a).running == old(a).running && final(a).product == old(a).product,
        },
        final(a).realtime_protection == match realtime {
            Some(o) => if trim(o@).len() > 0 {
                Some(lower(trim(o@)) == "true"@)
            } else {
                old(a).realtime_protection
            },
            None => old(a).realtime_protection,
        },
{
    if let Some(o) = products {
        a.assessed = true;
        let v = chars_of(o);
        let t = trim_chars(v.as_slice());
        if t.len() > 0 {
            a.running = true;
            a.product = string_from_chars(t.as_slice());
        }
    }
    if let Some(o) = realtime {
        a.assessed = true;
        let v = chars_of(o);
        let t = trim_chars(v.as_slice());
        if t.len() > 0 {
            let l = lower_chars(t.as_slice());
            a.realtime_protection = Some(eq_str(l.as_slice(), "true"));
        }
    }
}

/// The count of not-installed updates from `Microsoft.Update.Session`,
/// then `Get-WUSettings`' `NotificationLevel` (`1` means automatic updates
/// are off). A count that stays unassessed is unknown.
pub fn updates_from_windows_update(u: &mut OsUpdates, pending: Option<&str>, level: Option<&str>)
    ensures
        final(u).assessed == (old(u).assessed || pending is Some || level is Some),
        final(u).pending_updates == match pending {
            Some(o) => match parse_i32(trim(o@)) {
                Some(n) => n,
                None => old(u).pending_updates,
            },
            None => if final(u).assessed {
                old(u).pending_updates
            } else {
                UNKNOWN_COUNT
            },
        },
        final(u).auto_update_enabled == match level {
            Some(o) => if trim(o@).len() > 0 {
                Some(trim(o@) != "1"@)
            } else {
                old(u).auto_update_enabled
            },
            None => old(u).auto_update_enabled,
        },
        final(u).last_check_unix_nanos == old(u).last_check_unix_nanos,
        final(u).consistent(),
{
    if let Some(o) = pending {
        u.assessed = true;
        let v = chars_of(o);
        let t = trim_chars(v.as_slice());
        if let Some(n) = parse_i32_chars(t.as_slice()) {
            u.pending_updates = n;
        }
    }
    if let Some(o) = level {
        u.assessed = true;
        let v = chars_of(o);
        let t = trim_chars(v.as_slice());
        if t.len() > 0 {
            u.auto_update_enabled = Some(!eq_str(t.as_slice(), "1"));
        }
    }
    settle_unknown_count(u);
}

/// `Status` of the `TermService` (RDP) and `sshd` services: enabled when
/// `Running`.
pub fn remote_access_from_services(ra: &mut RemoteAccess, term_service: Option<&str>, sshd: Option<&str>)
    ensures
        old(ra).consistent() ==> final(ra).consistent(),
        final(ra).assessed == (old(ra).assessed || term_service is Some || sshd is Some),
        final(ra).remote_desktop_enabled == match term_service {
            Some(o) => trim(o@) == "Running"@,
            None => old(ra).remote_desktop_enabled,
        },
        final(ra).ssh_enabled == match sshd {
            Some(o) => trim(o@) == "Running"@,
            None => old(ra).ssh_enabled,
        },
{
    if let Some(o) = term_service {
        ra.assessed = true;
        let v = chars_of(o);
        let t = trim_chars(v.as_slice());
        ra.remote_desktop_enabled = eq_str(t.as_slice(), "Running");
    }
    if let Some(o) = sshd {
        ra.assessed = true;
        let v = chars_of(o);
        let t = trim_chars(v.as_slice());
        ra.ssh_enabled = eq_str(t.as_slice(), "Running");
    }
}

/// `Get-Tpm`'s `TpmPresent|TpmReady|ManufacturerIdTxt`.
pub fn hardware_root_of_trust_from_tpm(h: &mut HardwareRootOfTrust, out: Option<&str>)
    ensures
        old(h).consistent() ==> final(h).consistent(),
        match out {
            Some(o) => {
                &&& final(h).assessed
                &&& match tpm_status(o@) {
                    Some((present, ready, vendor)) => {
                        &&& final(h).present == present
                        &&& final(h).kind@ == (if present {
                            "tpm2"@
                        } else {
                            "none"@
                        })
                        &&& final(h).enabled == ready
                        &&& !final(h).attested
                        &&& match final(h).vendor {
                            Some(s) => vendor == Some(s@),
                            None => vendor is None,
                        }
                    },
                    None => {
                        &&& final(h).present == old(h).present
                        &&& final(h).kind == old(h).kind
                        &&& final(h).enabled == old(h).enabled
                        &&& final(h).attested == old(h).attested
                        &&& final(h).vendor == old(h).vendor
                    },
                }
            },
            None => *final(h) == *old(h),
        },
{
    if let Some(o) = out {
        h.assessed = true;
        if let Some((present, enabled, vendor)) = parse_tpm_status(o) {
            h.present = present;
            h.kind = if present {
                "tpm2".to_owned()
            } else {
                "none".to_owned()
            };
            h.enabled = enabled;
            h.attested = false;
            h.vendor = vendor;
        }
    }
}

/// What `Get-BitLockerVolume` output means: nothing for blank output;
/// otherwise, with its `|`-separated fields trimmed, the drive is encrypted
/// when protection reads `1`, `On`, `ProtectionOn`, `True` or `true`, or the
/// volume reads `FullyEncrypted`, `EncryptionInProgress` or
/// `FullyEncryptedInUseSpaceOnly`; the mechanism is `BitLocker`, followed by
/// the encryption method in parentheses when one is given.
pub proof fn lemma_bitlocker_reading(raw: Seq<char>)
    ensures
        bitlocker_status(raw) is None <==> trim(raw).len() == 0,
        bitlocker_status(raw) matches Some((on, mech)) ==> {
            let p = field(trim(raw), 0);
            let v = field(trim(raw), 1);
            let m = field(trim(raw), 2);
            &&& on == (p == "1"@ || p == "On"@ || p == "ProtectionOn"@ || p == "True"@ || p
                == "true"@ || v == "FullyEncrypted"@ || v == "EncryptionInProgress"@ || v
                == "FullyEncryptedInUseSpaceOnly"@)
            &&& mech == (if m.len() == 0 {
                "BitLocker"@
            } else {
                "BitLocker ("@ + m + ")"@
            })
        },
{
}

/// What `Get-Tpm` output means: nothing for blank output or when
/// `TpmPresent` is not `true` / `false` in some ASCII case; otherwise the
/// TPM is present when it reads `true`, ready when `TpmReady` reads `true`
/// (any ASCII case), and its vendor is the manufacturer field when that is
/// not blank.
pub proof fn lemma_tpm_reading(raw: Seq<char>)
    ensures
        tpm_status(raw) is None <==> (trim(raw).len() == 0 || !(lower(field(trim(raw), 0))
            == "true"@ || lower(field(trim(raw), 0)) == "false"@)),
        tpm_status(raw) matches Some((present, ready, vendor)) ==> {
            &&& present == (lower(field(trim(raw), 0)) == "true"@)
            &&& ready == (lower(field(trim(raw), 1)) == "true"@)
            &&& vendor == (if field(trim(raw), 2).len() > 0 {
                Some(field(trim(raw), 2))
            } else {
                None
            })
        },
{
    reveal_strlit("true");
    reveal_strlit("false");
    assert("true"@.len() != "false"@.len());
}

} // verus!
