//! macOS posture readers: what the output of fdesetup, mdmclient,
//! `defaults`, socketfilterfw, softwareupdate, systemsetup, launchctl and
//! system_profiler means for the report.

use crate::posture::ProbeOutput;
use crate::report::{
    settle_unknown_count, Antivirus, DiskEncryption, Firewall, HardwareRootOfTrust, OsUpdates,
    RemoteAccess, ScreenLock, UNKNOWN_COUNT,
};
use crate::text::{
    chars_of, contains, contains_str, eq_str, lines, lines_of, lower, lower_chars, parse_u32,
    parse_u32_chars, starts_with, starts_with_str, to_lowercase, trim, trim_chars, trim_start,
    trim_start_chars, unicode_lower,
};
use vstd::prelude::*;
use vstd::string::StringExecFns;

verus! {

broadcast use vstd::string::group_string_axioms;

/// `fdesetup status`, then (when fdesetup could be run) `mdmclient
/// QueryDeviceInformation`: FileVault is on when the lower-cased status says
/// so; a personal recovery key in the MDM report means the key is escrowed.
pub fn disk_from_fdesetup(d: &mut DiskEncryption, fdesetup: Option<&ProbeOutput>, mdm: Option<&ProbeOutput>)
    ensures
        old(d).consistent() ==> final(d).consistent(),
        match fdesetup {
            Some(o) => {
                &&& final(d).assessed
                &&& final(d).enabled == contains(unicode_lower(o.stdout@), "filevault is on"@)
                &&& final(d).mechanism@ == "FileVault"@
                &&& final(d).recovery_key_escrowed == (if mdm matches Some(m) && contains(
                    unicode_lower(m.stdout@),
                    "personalrecoverykey"@,
                ) {
                    Some(true)
                } else {
                    old(d).recovery_key_escrowed
                })
            },
            None => *final(d) == *old(d),
        },
{
    if let Some(o) = fdesetup {
        d.assessed = true;
        let s = to_lowercase(o.stdout.as_str());
        let v = chars_of(s.as_str());
        d.enabled = contains_str(v.as_slice(), "filevault is on");
        d.mechanism = "FileVault".to_owned();
        if let Some(m) = mdm {
            let s2 = to_lowercase(m.stdout.as_str());
            let v2 = chars_of(s2.as_str());
            if contains_str(v2.as_slice(), "personalrecoverykey") {
                d.recovery_key_escrowed = Some(true);
            }
        }
    }
}

/// The screensaver idle time in seconds, when it is a positive `u32`.
pub open spec fn idle_secs_value(idle: Option<Seq<char>>) -> Option<u32> {
    match idle {
        Some(v) => match parse_u32(trim(v)) {
            Some(n) => if n > 0 {
                Some(n)
            } else {
                None
            },
            None => None,
        },
        None => None,
    }
}

/// `x + y`, or `u32::MAX` when that does not fit.
pub open spec fn saturating_add(x: u32, y: u32) -> u32 {
    if x + y > u32::MAX {
        u32::MAX
    } else {
        (x + y) as u32
    }
}

pub open spec fn str_view(o: Option<&str>) -> Option<Seq<char>> {
    match o {
        Some(s) => Some(s@),
        None => None,
    }
}

/// `com.apple.screensaver` `askForPassword`, `idleTime` and the whole
/// seconds of `askForPasswordDelay` (0 when unreadable): the lock is known
/// when either of the first two could be read, and on when a password is
/// asked for and an idle time is set; the lock then engages after idle time
/// plus delay.
pub fn screen_lock_from_defaults(s: &mut ScreenLock, ask: Option<&str>, idle: Option<&str>, delay_secs: u32)
    ensures
        old(s).consistent() ==> final(s).consistent(),
        final(s).assessed == (ask is Some || idle is Some),
        final(s).enabled == ((ask matches Some(a) && trim(a@) == "1"@) && idle_secs_value(
            str_view(idle),
        ) is Some),
        match idle_secs_value(str_view(idle)) {
            Some(n) => final(s).idle_timeout_assessed && final(s).idle_timeout_secs == Some(
                saturating_add(n, delay_secs),
            ),
            None => final(s).idle_timeout_assessed == old(s).idle_timeout_assessed
                && final(s).idle_timeout_secs == old(s).idle_timeout_secs,
        },
{
    s.assessed = ask.is_some() || idle.is_some();
    let ask_enabled = match ask {
        Some(a) => {
            let v = chars_of(a);
            let t = trim_chars(v.as_slice());
            eq_str(t.as_slice(), "1")
        },
        None => false,
    };
    let idle_secs: Option<u32> = match idle {
        Some(i) => {
            let v = chars_of(i);
            let t = trim_chars(v.as_slice());
            match parse_u32_chars(t.as_slice()) {
                Some(n) => if n > 0 {
                    Some(n)
                } else {
                    None
                },
                None => None,
            }
        },
        None => None,
    };
    s.enabled = ask_enabled && idle_secs.is_some();
    if let Some(n) = idle_secs {
        s.idle_timeout_assessed = true;
        s.idle_timeout_secs = Some(n.checked_add(delay_secs).unwrap_or(u32::MAX));
    }
}

/// `socketfilterfw --getglobalstate`: on when the lower-cased output says
/// `enabled`.
pub fn firewall_from_socketfilterfw(f: &mut Firewall, out: Option<&ProbeOutput>)
    ensures
        old(f).consistent() ==> final(f).consistent(),
        match out {
            Some(o) => {
                &&& final(f).assessed
                &&& final(f).enabled == contains(unicode_lower(o.stdout@), "enabled"@)
                &&& final(f).mechanism@ == "macOS Application Firewall"@
            },
            None => *final(f) == *old(f),
        },
{
    if let Some(o) = out {
        f.assessed = true;
        let s = to_lowercase(o.stdout.as_str());
        let v = chars_of(s.as_str());
        f.enabled = contains_str(v.as_slice(), "enabled");
        f.mechanism = "macOS Application Firewall".to_owned();
    }
}

/// Third-party endpoint agents, by the launch-daemon name fragment that
/// reveals them and the product name reported.
pub open spec fn av_agents() -> Seq<(Seq<char>, Seq<char>)> {
    seq![
        ("crowdstrike"@, "CrowdStrike Falcon"@),
        ("sentinelone"@, "SentinelOne"@),
        ("sophos"@, "Sophos"@),
        ("malwarebytes"@, "Malwarebytes"@),
        ("eset"@, "ESET"@),
        ("clamav"@, "ClamAV"@),
    ]
}

/// The first agent of `av_agents()[from..]` that the lower-cased listing
/// mentions.
pub open spec fn first_agent(listing: Seq<char>, from: int) -> Option<Seq<char>>
    decreases 6 - from,
{
    if from < 0 || from >= 6 {
        None
    } else if contains(listing, av_agents()[from].0) {
        Some(av_agents()[from].1)
    } else {
        first_agent(listing, from + 1)
    }
}

fn agent_at(i: usize) -> (r: (&'static str, &'static str))
    requires
        i < 6,
    ensures
        r.0@ == av_agents()[i as int].0,
        r.1@ == av_agents()[i as int].1,
{
    if i == 0 {
        ("crowdstrike", "CrowdStrike Falcon")
    } else if i == 1 {
        ("sentinelone", "SentinelOne")
    } else if i == 2 {
        ("sophos", "Sophos")
    } else if i == 3 {
        ("malwarebytes", "Malwarebytes")
    } else if i == 4 {
        ("eset", "ESET")
    } else {
        ("clamav", "ClamAV")
    }
}

/// A third-party agent found in `ls /Library/LaunchDaemons` (when it could
/// be run): `(true, product, Some(true))` for the first known agent that
/// the lower-cased listing mentions.
pub fn antivirus_from_launch_daemons(listing: Option<&ProbeOutput>) -> (r: Option<(bool, String, Option<bool>)>)
    ensures
        r is Some ==> {
            &&& listing is Some
            &&& first_agent(unicode_lower(listing.unwrap().stdout@), 0) == Some(r.unwrap().1@)
            &&& r.unwrap().0
            &&& r.unwrap().2 == Some(true)
        },
        r is None ==> !(listing is Some && first_agent(unicode_lower(listing.unwrap().stdout@), 0) is Some),
{
    match listing {
        Some(o) => {
            let s = to_lowercase(o.stdout.as_str());
            let v = chars_of(s.as_str());
            let mut i: usize = 0;
            while i < 6
                invariant
                    0 <= i <= 6,
                    listing == Some(o),
                    v@ == unicode_lower(o.stdout@),
                    first_agent(v@, 0) == first_agent(v@, i as int),
                decreases 6 - i,
            {
                let (key, name) = agent_at(i);
                if contains_str(v.as_slice(), key) {
                    assert(first_agent(v@, i as int) == Some(av_agents()[i as int].1));
                    let product = name.to_owned();
                    assert(first_agent(unicode_lower(o.stdout@), 0) == Some(product@));
                    return Some((true, product, Some(true)));
                }
                i = i + 1;
            }
            None
        },
        None => None,
    }
}

/// Apple's XProtect as the antivirus, when no third-party agent was found:
/// it runs when its service (or `syspolicyd`) runs; with no XProtect
/// installed there is no antivirus.
pub fn antivirus_from_xprotect(present: bool, running: bool) -> (r: (bool, String, Option<bool>))
    ensures
        if present {
            r.0 == running && r.1@ == "XProtect"@ && r.2 == Some(running)
        } else {
            !r.0 && r.1@ == Seq::<char>::empty() && r.2 == Some(false)
        },
{
    if present {
        (running, "XProtect".to_owned(), Some(running))
    } else {
        (false, String::new(), Some(false))
    }
}

/// The antivirus detection result recorded as assessed.
pub fn antivirus_from_detection(a: &mut Antivirus, detected: (bool, String, Option<bool>))
    ensures
        final(a).consistent(),
        final(a).assessed,
        final(a).running == detected.0,
        final(a).product == detected.1,
        final(a).realtime_protection == detected.2,
{
    a.assessed = true;
    a.running = detected.0;
    a.product = detected.1;
    a.realtime_protection = detected.2;
}

/// A `softwareupdate -l` line that lists an update: `* ...` (after leading
/// whitespace) or one holding `Label:`.
pub open spec fn lists_update(line: Seq<char>) -> bool {
    starts_with(trim_start(line), "* "@) || contains(line, "Label:"@)
}

pub open spec fn count_updates(ls: Seq<Seq<char>>) -> nat
    decreases ls.len(),
{
    if ls.len() == 0 {
        0
    } else {
        (if lists_update(ls.last()) {
            1nat
        } else {
            0nat
        }) + count_updates(ls.drop_last())
    }
}

/// Available updates in `softwareupdate -l` output (its stderr, then its
/// stdout).
pub open spec fn softwareupdate_count(o: ProbeOutput) -> nat {
    count_updates(lines(o.stderr@ + o.stdout@))
}

/// `softwareupdate -l` (when it could be run), then `com.apple.SoftwareUpdate
/// AutomaticCheckEnabled` (`1` means on; unread or blank says nothing). A
/// count that stays unassessed is unknown.
pub fn updates_from_softwareupdate(u: &mut OsUpdates, listing: Option<&ProbeOutput>, auto_check: Option<&str>)
    ensures
        match listing {
            Some(o) => {
                &&& final(u).pending_updates == (softwareupdate_count(*o) as i32)
                &&& final(u).pending_updates == (lines(o.stderr@ + o.stdout@).filter(
                    |l: Seq<char>| starts_with(trim_start(l), "* "@) || contains(l, "Label:"@),
                ).len() as i32)
            },
            None => final(u).pending_updates == (if final(u).assessed {
                old(u).pending_updates
            } else {
                UNKNOWN_COUNT
            }),
        },
        final(u).assessed == (old(u).assessed || listing is Some || (auto_check matches Some(a)
            && a@.len() > 0)),
        final(u).auto_update_enabled == (if auto_check matches Some(a) && a@.len() > 0 {
            Some(trim(auto_check.unwrap()@) == "1"@)
        } else {
            old(u).auto_update_enabled
        }),
        final(u).last_check_unix_nanos == old(u).last_check_unix_nanos,
        final(u).consistent(),
{
    proof {
        if let Some(o) = listing {
            lemma_softwareupdate_counts_listed_lines(*o);
        }
    }
    if let Some(o) = listing {
        u.assessed = true;
        let text = o.stderr.clone().concat(o.stdout.as_str());
        let v = chars_of(text.as_str());
        let ls = lines_of(v.as_slice());
        let ghost vs = crate::text::views(ls@);
        let mut n: usize = 0;
        let mut i: usize = 0;
        assert(vs.take(0) =~= Seq::<Seq<char>>::empty());
        while i < ls.len()
            invariant
                0 <= i <= ls@.len(),
                vs == crate::text::views(ls@),
                vs == lines(o.stderr@ + o.stdout@),
                n == count_updates(vs.take(i as int)),
                n <= i,
            decreases ls@.len() - i,
        {
            assert(vs.take(i + 1).drop_last() =~= vs.take(i as int));
            assert(vs.take(i + 1).last() == ls@[i as int]@);
            let lead = trim_start_chars(ls[i].as_slice());
            if starts_with_str(lead.as_slice(), "* ") || contains_str(ls[i].as_slice(), "Label:") {
                n = n + 1;
            }
            i = i + 1;
        }
        assert(vs.take(ls@.len() as int) =~= vs);
        u.pending_updates = n as i32;
    }
    if let Some(a) = auto_check {
        if !a.is_empty() {
            u.assessed = true;
            let v = chars_of(a);
            let t = trim_chars(v.as_slice());
            u.auto_update_enabled = Some(eq_str(t.as_slice(), "1"));
        }
    }
    settle_unknown_count(u);
}

/// `systemsetup -getremotelogin`, then `launchctl list
/// com.apple.RemoteDesktop.agent`: SSH is on when the lower-cased answer
/// says `on` and not `off`; remote desktop is on when the agent is listed.
pub fn remote_access_from_macos(ra: &mut RemoteAccess, remote_login: Option<&ProbeOutput>, ard: Option<&ProbeOutput>)
    ensures
        old(ra).consistent() ==> final(ra).consistent(),
        final(ra).assessed == (old(ra).assessed || remote_login is Some || ard is Some),
        final(ra).ssh_enabled == match remote_login {
            Some(o) => contains(unicode_lower(o.stdout@), "on"@) && !contains(
                unicode_lower(o.stdout@),
                "off"@,
            ),
            None => old(ra).ssh_enabled,
        },
        final(ra).remote_desktop_enabled == match ard {
            Some(o) => o.success,
            None => old(ra).remote_desktop_enabled,
        },
{
    if let Some(o) = remote_login {
        ra.assessed = true;
        let s = to_lowercase(o.stdout.as_str());
        let v = chars_of(s.as_str());
        ra.ssh_enabled = contains_str(v.as_slice(), "on") && !contains_str(v.as_slice(), "off");
    }
    if let Some(o) = ard {
        ra.assessed = true;
        ra.remote_desktop_enabled = o.success;
    }
}

/// `system_profiler SPiBridgeDataType` (when it could be run): an Apple T2
/// chip is present when it succeeds and mentions `apple t2` in any ASCII
/// case.
pub fn t2_bridge_from_profiler(out: Option<&ProbeOutput>) -> (present: bool)
    ensures
        present == (out matches Some(o) && o.success && contains(lower(o.stdout@), "apple t2"@)),
{
    match out {
        Some(o) => {
            if !o.success {
                return false;
            }
            let v = chars_of(o.stdout.as_str());
            let l = lower_chars(v.as_slice());
            contains_str(l.as_slice(), "apple t2")
        },
        None => false,
    }
}

/// The hardware root of trust on a Mac: the Secure Enclave, present and
/// enabled on Apple silicon or with a T2 chip; Apple is the vendor either
/// way; never attested.
pub fn mac_hardware_root_of_trust(h: &mut HardwareRootOfTrust, apple_silicon: bool, t2_bridge: bool)
    ensures
        final(h).consistent(),
        final(h).assessed,
        !final(h).attested,
        final(h).vendor matches Some(v) && v@ == "Apple"@,
        final(h).present == (apple_silicon || t2_bridge),
        final(h).enabled == (apple_silicon || t2_bridge),
        final(h).kind@ == (if apple_silicon || t2_bridge {
            "secure_enclave"@
        } else {
            "none"@
        }),
{
    h.assessed = true;
    h.attested = false;
    h.vendor = Some("Apple".to_owned());
    let present = apple_silicon || t2_bridge;
    h.present = present;
    h.enabled = present;
    h.kind = if present {
        "secure_enclave".to_owned()
    } else {
        "none".to_owned()
    };
}

/// The lines of a `softwareupdate -l` listing that name an available
/// update: those whose text, after leading whitespace, begins with `* `,
/// and those that hold `Label:`.
proof fn lemma_count_updates_filter(ls: Seq<Seq<char>>)
    ensures
        count_updates(ls) == ls.filter(
            |l: Seq<char>| starts_with(trim_start(l), "* "@) || contains(l, "Label:"@),
        ).len(),
    decreases ls.len(),
{
    reveal(Seq::filter);
    if ls.len() > 0 {
        lemma_count_updates_filter(ls.drop_last());
    }
}

/// `softwareupdate -l` reports one pending update per line of its output
/// (stderr, then stdout) that begins with `* ` after leading whitespace or
/// holds `Label:`; no other line counts.
pub proof fn lemma_softwareupdate_counts_listed_lines(o: ProbeOutput)
    ensures
        softwareupdate_count(o) == lines(o.stderr@ + o.stdout@).filter(
            |l: Seq<char>| starts_with(trim_start(l), "* "@) || contains(l, "Label:"@),
        ).len(),
{
    lemma_count_updates_filter(lines(o.stderr@ + o.stdout@));
}

/// The third-party agents recognised in `ls /Library/LaunchDaemons`, in
/// order: CrowdStrike (`crowdstrike`), SentinelOne (`sentinelone`), Sophos
/// (`sophos`), Malwarebytes (`malwarebytes`), ESET (`eset`), ClamAV
/// (`clamav`); the first whose fragment the lower-cased listing mentions is
/// reported, and none when no fragment occurs.
pub proof fn lemma_launch_daemon_agents(listing: Seq<char>)
    ensures
        first_agent(listing, 0) == (if contains(listing, "crowdstrike"@) {
            Some("CrowdStrike Falcon"@)
        } else if contains(listing, "sentinelone"@) {
            Some("SentinelOne"@)
        } else if contains(listing, "sophos"@) {
            Some("Sophos"@)
        } else if contains(listing, "malwarebytes"@) {
            Some("Malwarebytes"@)
        } else if contains(listing, "eset"@) {
            Some("ESET"@)
        } else if contains(listing, "clamav"@) {
            Some("ClamAV"@)
        } else {
            None
        }),
{
    reveal_with_fuel(first_agent, 7);
}

/// The macOS idle timeout is the screensaver's idle time, a positive whole
/// number of seconds, plus the password delay, capped at `u32::MAX` rather
/// than wrapping.
pub proof fn lemma_mac_idle_timeout(idle: Seq<char>, x: u32, y: u32)
    ensures
        idle_secs_value(Some(idle)) matches Some(n) ==> n > 0 && parse_u32(trim(idle)) == Some(n),
        parse_u32(trim(idle)) is Some && parse_u32(trim(idle)).unwrap() > 0 ==> idle_secs_value(
            Some(idle),
        ) == parse_u32(trim(idle)),
        x + y <= u32::MAX ==> saturating_add(x, y) == x + y,
        x + y > u32::MAX ==> saturating_add(x, y) == u32::MAX,
{
}

} // verus!
