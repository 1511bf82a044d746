//! Linux posture readers: what the output of the standard utilities
//! (blkid, gsettings, kreadconfig, swayidle configs, ufw, systemctl, apt,
//! dnf, pacman, tpm2_getcap) means for the report.

use crate::posture::ProbeOutput;
use crate::report::{
    settle_unknown_count, settled_count, Antivirus, DiskEncryption, Firewall,
    HardwareRootOfTrust, OsUpdates, RemoteAccess, ScreenLock,
};
use crate::text::{
    chars_of, contains, contains_str, eq_str, lines, lines_of, lower, lower_chars, parse_u32,
    parse_u32_chars, string_from_chars, to_lowercase, trim, trim_chars, unicode_lower, words,
    words_of, nonblank_trimmed,
};
use vstd::prelude::*;

verus! {

broadcast use vstd::string::group_string_axioms;

// ---------------------------------------------------------------------------
// Value parsers
// ---------------------------------------------------------------------------

/// The spellings of "true" that KDE config files use.
pub open spec fn kde_true(s: Seq<char>) -> bool {
    s == "true"@ || s == "1"@ || s == "yes"@ || s == "on"@
}

/// `x * k`, or `u32::MAX` when that does not fit.
pub open spec fn saturating_mul(x: u32, k: u32) -> u32 {
    if x * k > u32::MAX {
        u32::MAX
    } else {
        (x * k) as u32
    }
}

/// A duration: plain seconds, or minutes with an `m` suffix, or hours with
/// an `h` suffix, in whole units that fit a `u32` (the product saturates).
pub open spec fn duration_secs(raw: Seq<char>) -> Option<u32> {
    let t = trim(raw);
    if t.len() == 0 {
        None
    } else if parse_u32(t) is Some {
        parse_u32(t)
    } else if t.last() == 'm' {
        match parse_u32(trim(t.drop_last())) {
            Some(m) => Some(saturating_mul(m, 60)),
            None => None,
        }
    } else if t.last() == 'h' {
        match parse_u32(trim(t.drop_last())) {
            Some(h) => Some(saturating_mul(h, 3600)),
            None => None,
        }
    } else {
        None
    }
}

/// The lock timeout a swayidle line sets: a line that mentions swaylock
/// (in any case) and reads `timeout <duration> ...`.
pub open spec fn sway_timeout(line: Seq<char>) -> Option<u32> {
    let w = words(line);
    if !contains(lower(line), "swaylock"@) {
        None
    } else if w.len() == 0 || w[0] != "timeout"@ || w.len() < 2 {
        None
    } else {
        duration_secs(w[1])
    }
}

/// One line of a swayidle config applied to the shortest lock timeout seen
/// so far. Blank lines and `#` comments are skipped.
pub open spec fn sway_step(line: Seq<char>, best: Option<u32>) -> Option<u32> {
    let t = trim(line);
    if t.len() == 0 || t[0] == '#' {
        best
    } else {
        match sway_timeout(t) {
            Some(x) => Some(
                match best {
                    Some(c) => if c <= x {
                        c
                    } else {
                        x
                    },
                    None => x,
                },
            ),
            None => best,
        }
    }
}

pub open spec fn sway_fold(ls: Seq<Seq<char>>, best: Option<u32>) -> Option<u32>
    decreases ls.len(),
{
    if ls.len() == 0 {
        best
    } else {
        sway_fold(ls.drop_first(), sway_step(ls[0], best))
    }
}

/// Screen lock read from a swayidle or sway config: present with the
/// shortest lock timeout when some line sets one.
pub open spec fn sway_screen_lock(raw: Seq<char>) -> Option<(bool, Option<u32>)> {
    match sway_fold(lines(raw), None) {
        Some(b) => Some((true, Some(b))),
        None => None,
    }
}

/// Whether a KDE config value means "on" (`true`, `1`, `yes`, `on`, in any
/// ASCII case, surrounding whitespace ignored).
pub fn parse_kde_bool(raw: &str) -> (b: bool)
    ensures
        b == kde_true(lower(trim(raw@))),
{
    let v = chars_of(raw);
    let t = trim_chars(v.as_slice());
    let l = lower_chars(t.as_slice());
    eq_str(l.as_slice(), "true") || eq_str(l.as_slice(), "1") || eq_str(l.as_slice(), "yes")
        || eq_str(l.as_slice(), "on")
}

/// A KDE lock timeout in seconds.
pub fn parse_kde_timeout_secs(raw: &str) -> (r: Option<u32>)
    ensures
        r == parse_u32(trim(raw@)),
{
    let v = chars_of(raw);
    let t = trim_chars(v.as_slice());
    parse_u32_chars(t.as_slice())
}

fn saturating_mul_u32(x: u32, k: u32) -> (r: u32)
    ensures
        r == saturating_mul(x, k),
{
    x.checked_mul(k).unwrap_or(u32::MAX)
}

/// A duration in seconds (`600`, `10m`, `1h`).
pub fn parse_duration_secs(raw: &str) -> (r: Option<u32>)
    ensures
        r == duration_secs(raw@),
{
    let v = chars_of(raw);
    let t = trim_chars(v.as_slice());
    if t.len() == 0 {
        return None;
    }
    let plain = parse_u32_chars(t.as_slice());
    if plain.is_some() {
        return plain;
    }
    let last = t[t.len() - 1];
    if last == 'm' || last == 'h' {
        let mut head = t.clone();
        head.pop();
        assert(head@ =~= t@.drop_last());
        let ht = trim_chars(head.as_slice());
        match parse_u32_chars(ht.as_slice()) {
            Some(n) => {
                if last == 'm' {
                    Some(saturating_mul_u32(n, 60))
                } else {
                    Some(saturating_mul_u32(n, 3600))
                }
            },
            None => None,
        }
    } else {
        None
    }
}

/// The lock timeout a swayidle line sets, if any.
pub fn parse_sway_timeout_secs(line: &str) -> (r: Option<u32>)
    ensures
        r == sway_timeout(line@),
{
    let v = chars_of(line);
    sway_timeout_chars(v.as_slice())
}

fn sway_timeout_chars(line: &[char]) -> (r: Option<u32>)
    ensures
        r == sway_timeout(line@),
{
    let lowered = lower_chars(line);
    if !contains_str(lowered.as_slice(), "swaylock") {
        return None;
    }
    let w = words_of(line);
    if w.len() == 0 || !eq_str(w[0].as_slice(), "timeout") || w.len() < 2 {
        return None;
    }
    let value = string_from_chars(w[1].as_slice());
    parse_duration_secs(value.as_str())
}

/// Screen lock read from a swayidle or sway config: `(true, shortest lock
/// timeout)` when some non-comment line sets a swaylock timeout.
pub fn parse_sway_screen_lock(raw: &str) -> (r: Option<(bool, Option<u32>)>)
    ensures
        r == sway_screen_lock(raw@),
{
    let v = chars_of(raw);
    let ls = lines_of(v.as_slice());
    let mut best: Option<u32> = None;
    let mut i: usize = 0;
    assert(lines(v@).skip(0) =~= lines(v@));
    while i < ls.len()
        invariant
            0 <= i <= ls@.len(),
            crate::text::views(ls@) == lines(v@),
            sway_fold(lines(v@), None) == sway_fold(lines(v@).skip(i as int), best),
        decreases ls@.len() - i,
    {
        let ghost rest = lines(v@).skip(i as int);
        assert(rest.drop_first() =~= lines(v@).skip(i + 1));
        assert(rest[0] == ls@[i as int]@);
        let t = trim_chars(ls[i].as_slice());
        if t.len() == 0 || t[0] == '#' {
        } else {
            match sway_timeout_chars(t.as_slice()) {
                Some(x) => {
                    best = Some(
                        match best {
                            Some(c) => if c <= x {
                                c
                            } else {
                                x
                            },
                            None => x,
                        },
                    );
                },
                None => {},
            }
        }
        i = i + 1;
    }
    assert(lines(v@).skip(i as int) =~= Seq::<Seq<char>>::empty());
    match best {
        Some(b) => Some((true, Some(b))),
        None => None,
    }
}

// ---------------------------------------------------------------------------
// Applying probe results to the report
// ---------------------------------------------------------------------------

/// Some line is neither blank nor a `#` comment.
pub open spec fn has_entry(ls: Seq<Seq<char>>) -> bool {
    exists|i: int| 0 <= i < ls.len() && trim(#[trigger] ls[i]).len() > 0 && !(ls[i].len() > 0 && ls[i][0] == '#')
}

/// KDE's boolean spellings: a value reads as true exactly when, trimmed and
/// ASCII-lowercased, it is `true`, `1`, `yes` or `on`.
pub proof fn lemma_kde_spellings(raw: Seq<char>)
    ensures
        kde_true(lower(trim(raw))) <==> (lower(trim(raw)) == "true"@ || lower(trim(raw)) == "1"@
            || lower(trim(raw)) == "yes"@ || lower(trim(raw)) == "on"@),
{
}

/// `blkid -t TYPE=crypto_LUKS` (when it could be run): a LUKS device is
/// listed exactly when it succeeds with output. Returns whether the
/// `/etc/crypttab` fallback is still needed, that is whether encryption is
/// still not found.
pub fn disk_from_blkid(d: &mut DiskEncryption, blkid: Option<&ProbeOutput>) -> (check_crypttab: bool)
    ensures
        old(d).consistent() ==> final(d).consistent(),
        match blkid {
            Some(o) => {
                &&& final(d).assessed
                &&& if o.success && o.stdout@.len() > 0 {
                    final(d).enabled && final(d).mechanism@ == "LUKS"@
                } else {
                    final(d).enabled == old(d).enabled && final(d).mechanism == old(d).mechanism
                }
            },
            None => *final(d) == *old(d),
        },
        final(d).recovery_key_escrowed == old(d).recovery_key_escrowed,
        check_crypttab == !final(d).enabled,
{
    if let Some(o) = blkid {
        d.assessed = true;
        if o.success && !o.stdout.as_str().is_empty() {
            d.enabled = true;
            d.mechanism = "LUKS".to_owned();
        }
    }
    !d.enabled
}

/// A crypttab configures an encrypted volume exactly when one of its lines,
/// the first included, is neither blank nor a `#` comment.
pub proof fn lemma_crypttab_entries(c: Seq<char>)
    ensures
        has_entry(lines(c)) <==> exists|i: int|
            0 <= i < lines(c).len() && trim(#[trigger] lines(c)[i]).len() > 0 && !(lines(c)[i].len()
                > 0 && lines(c)[i][0] == '#'),
{
}

/// `/etc/crypttab` (when it could be read): an entry that is neither blank
/// nor a comment means encrypted volumes are configured.
pub fn disk_from_crypttab(d: &mut DiskEncryption, crypttab: Option<&str>)
    ensures
        old(d).consistent() ==> final(d).consistent(),
        match crypttab {
            Some(c) => {
                &&& final(d).assessed
                &&& if has_entry(lines(c@)) {
                    final(d).enabled && final(d).mechanism@ == "LUKS (via crypttab)"@
                } else {
                    final(d).enabled == old(d).enabled && final(d).mechanism == old(d).mechanism
                }
            },
            None => *final(d) == *old(d),
        },
        final(d).recovery_key_escrowed == old(d).recovery_key_escrowed,
        crypttab matches Some(c) ==> final(d).enabled == (old(d).enabled || exists|i: int|
            0 <= i < lines(c@).len() && trim(#[trigger] lines(c@)[i]).len() > 0 && !(lines(
                c@,
            )[i].len() > 0 && lines(c@)[i][0] == '#')),
{
    proof {
        if let Some(c) = crypttab {
            lemma_crypttab_entries(c@);
        }
    }
    if let Some(c) = crypttab {
        d.assessed = true;
        let v = chars_of(c);
        let ls = lines_of(v.as_slice());
        let mut found = false;
        let mut i: usize = 0;
        while i < ls.len()
            invariant
                0 <= i <= ls@.len(),
                crate::text::views(ls@) == lines(c@),
                found == exists|k: int|
                    0 <= k < i && trim(#[trigger] lines(c@)[k]).len() > 0 && !(lines(c@)[k].len() > 0 && lines(c@)[k][0] == '#'),
            decreases ls@.len() - i,
        {
            assert(ls@[i as int]@ == lines(c@)[i as int]);
            let t = trim_chars(ls[i].as_slice());
            let comment = ls[i].len() > 0 && ls[i][0] == '#';
            if t.len() > 0 && !comment {
                found = true;
            }
            i = i + 1;
        }
        if found {
            d.enabled = true;
            d.mechanism = "LUKS (via crypttab)".to_owned();
        }
    }
}

/// The last whitespace-separated word of `s`, if any.
pub open spec fn last_word(s: Seq<char>) -> Option<Seq<char>> {
    if words(s).len() == 0 {
        None
    } else {
        Some(words(s).last())
    }
}

/// `gsettings get org.gnome.desktop.session idle-delay` prints
/// `uint32 <secs>`: the idle timeout when its last word is a positive
/// `u32`.
pub open spec fn gnome_idle_secs(out: Seq<char>) -> Option<u32> {
    match last_word(out) {
        Some(w) => match parse_u32(trim(w)) {
            Some(n) => if n > 0 {
                Some(n)
            } else {
                None
            },
            None => None,
        },
        None => None,
    }
}

/// GNOME screen lock from `gsettings` (`lock-enabled`, then `idle-delay`),
/// each used only when it ran and succeeded. Returns whether another
/// desktop's settings should still be consulted, that is whether the lock
/// is still not assessed.
pub fn screen_lock_from_gsettings(
    s: &mut ScreenLock,
    lock: Option<&ProbeOutput>,
    idle: Option<&ProbeOutput>,
) -> (need_fallback: bool)
    ensures
        old(s).consistent() ==> final(s).consistent(),
        final(s).assessed == (old(s).assessed || (lock matches Some(o) && o.success)),
        final(s).enabled == (if lock matches Some(o) && o.success {
            trim(lock.unwrap().stdout@) == "true"@
        } else {
            old(s).enabled
        }),
        final(s).idle_timeout_assessed == (old(s).idle_timeout_assessed || (idle matches Some(
            o,
        ) && o.success)),
        final(s).idle_timeout_secs == (if idle matches Some(o) && o.success && gnome_idle_secs(
            o.stdout@,
        ) is Some {
            gnome_idle_secs(idle.unwrap().stdout@)
        } else {
            old(s).idle_timeout_secs
        }),
        need_fallback == !final(s).assessed,
{
    if let Some(o) = lock {
        if o.success {
            s.assessed = true;
            let v = chars_of(o.stdout.as_str());
            let t = trim_chars(v.as_slice());
            s.enabled = eq_str(t.as_slice(), "true");
        }
    }
    if let Some(o) = idle {
        if o.success {
            s.idle_timeout_assessed = true;
            let v = chars_of(o.stdout.as_str());
            let w = words_of(v.as_slice());
            if w.len() > 0 {
                assert(w@[w@.len() - 1]@ == words(v@).last());
                let num = trim_chars(w[w.len() - 1].as_slice());
                match parse_u32_chars(num.as_slice()) {
                    Some(secs) => {
                        if secs > 0 {
                            s.idle_timeout_secs = Some(secs);
                        }
                    },
                    None => {},
                }
            }
        }
    }
    !s.assessed
}

/// A desktop's own lock settings (KDE, then sway), used when GNOME's were
/// not found. Returns whether the next desktop should still be consulted.
pub fn screen_lock_from_desktop(s: &mut ScreenLock, found: Option<(bool, Option<u32>)>) -> (need_fallback: bool)
    ensures
        old(s).consistent() ==> final(s).consistent(),
        match found {
            Some((enabled, timeout)) => {
                &&& final(s).assessed
                &&& final(s).enabled == enabled
                &&& match timeout {
                    Some(secs) => final(s).idle_timeout_assessed && final(s).idle_timeout_secs
                        == Some(secs),
                    None => final(s).idle_timeout_assessed == old(s).idle_timeout_assessed
                        && final(s).idle_timeout_secs == old(s).idle_timeout_secs,
                }
            },
            None => *final(s) == *old(s),
        },
        need_fallback == !final(s).assessed,
{
    if let Some((enabled, timeout)) = found {
        s.assessed = true;
        s.enabled = enabled;
        if let Some(secs) = timeout {
            s.idle_timeout_assessed = true;
            s.idle_timeout_secs = Some(secs);
        }
    }
    !s.assessed
}

/// The output of a successful `kreadconfig` run, trimmed.
pub open spec fn kde_value(o: Option<&ProbeOutput>) -> Option<Seq<char>> {
    match o {
        Some(p) => if p.success {
            Some(trim(p.stdout@))
        } else {
            None
        },
        None => None,
    }
}

/// KDE screen lock from one `kreadconfig` tool's `Autolock` and `Timeout`
/// reads: known when either read succeeded; the lock is on when `Autolock`
/// reads as true.
pub fn kde_lock_from_reads(autolock: Option<&ProbeOutput>, timeout: Option<&ProbeOutput>) -> (r:
    Option<(bool, Option<u32>)>)
    ensures
        r == (if kde_value(autolock) is Some || kde_value(timeout) is Some {
            Some(
                (
                    match kde_value(autolock) {
                        Some(v) => kde_true(lower(trim(v))),
                        None => false,
                    },
                    match kde_value(timeout) {
                        Some(v) => parse_u32(trim(v)),
                        None => None,
                    },
                ),
            )
        } else {
            None
        }),
{
    let enabled: Option<String> = match autolock {
        Some(o) => if o.success {
            let v = chars_of(o.stdout.as_str());
            Some(string_from_chars(trim_chars(v.as_slice()).as_slice()))
        } else {
            None
        },
        None => None,
    };
    let secs: Option<String> = match timeout {
        Some(o) => if o.success {
            let v = chars_of(o.stdout.as_str());
            Some(string_from_chars(trim_chars(v.as_slice()).as_slice()))
        } else {
            None
        },
        None => None,
    };
    if enabled.is_some() || secs.is_some() {
        let lock_enabled = match &enabled {
            Some(e) => parse_kde_bool(e.as_str()),
            None => false,
        };
        let idle = match &secs {
            Some(t) => parse_kde_timeout_secs(t.as_str()),
            None => None,
        };
        Some((lock_enabled, idle))
    } else {
        None
    }
}

/// `ufw status` (when it ran and succeeded): the firewall is on when the
/// lower-cased output says `status: active`. Returns whether the next
/// firewall service should still be checked, that is whether the firewall
/// is still not found enabled.
pub fn firewall_from_ufw(f: &mut Firewall, ufw: Option<&ProbeOutput>) -> (check_next: bool)
    ensures
        old(f).consistent() ==> final(f).consistent(),
        if ufw matches Some(o) && o.success {
            &&& final(f).assessed
            &&& final(f).enabled == contains(unicode_lower(ufw.unwrap().stdout@), "status: active"@)
            &&& final(f).mechanism@ == "ufw"@
        } else {
            *final(f) == *old(f)
        },
        check_next == !final(f).enabled,
{
    if let Some(o) = ufw {
        if o.success {
            f.assessed = true;
            let lowered = to_lowercase(o.stdout.as_str());
            let v = chars_of(lowered.as_str());
            f.enabled = contains_str(v.as_slice(), "status: active");
            f.mechanism = "ufw".to_owned();
        }
    }
    !f.enabled
}

/// `systemctl is-active <service>` for a firewall service (when it could be
/// run): the firewall is on, by that service, when the unit is active.
/// Returns whether the next firewall service should still be checked.
pub fn firewall_from_service(f: &mut Firewall, probe: Option<&ProbeOutput>, service: &str) -> (check_next: bool)
    ensures
        old(f).consistent() ==> final(f).consistent(),
        match probe {
            Some(o) => {
                &&& final(f).assessed
                &&& if o.success {
                    final(f).enabled && final(f).mechanism@ == service@
                } else {
                    final(f).enabled == old(f).enabled && final(f).mechanism == old(f).mechanism
                }
            },
            None => *final(f) == *old(f),
        },
        check_next == !final(f).enabled,
{
    if let Some(o) = probe {
        f.assessed = true;
        if o.success {
            f.enabled = true;
            f.mechanism = service.to_owned();
        }
    }
    !f.enabled
}

/// `systemctl is-active <service>` for an antivirus service (when it could
/// be run): an active unit means that product runs with real-time
/// protection. Returns whether the search can stop.
pub fn antivirus_from_service(a: &mut Antivirus, probe: Option<&ProbeOutput>, service: &str) -> (stop: bool)
    ensures
        old(a).consistent() ==> final(a).consistent(),
        match probe {
            Some(o) => {
                &&& final(a).assessed
                &&& if o.success {
                    &&& final(a).running
                    &&& final(a).product@ == service@
                    &&& final(a).realtime_protection == Some(true)
                } else {
                    &&& final(a).running == old(a).running
                    &&& final(a).product == old(a).product
                    &&& final(a).realtime_protection == old(a).realtime_protection
                }
            },
            None => *final(a) == *old(a),
        },
        stop == (probe matches Some(o) && o.success),
{
    if let Some(o) = probe {
        a.assessed = true;
        if o.success {
            a.running = true;
            a.product = service.to_owned();
            a.realtime_protection = Some(true);
            return true;
        }
    }
    false
}

/// Number of non-blank lines in `ls`.
pub open spec fn count_nonblank(ls: Seq<Seq<char>>) -> nat
    decreases ls.len(),
{
    if ls.len() == 0 {
        0
    } else {
        (if trim(ls.last()).len() > 0 {
            1nat
        } else {
            0nat
        }) + count_nonblank(ls.drop_last())
    }
}

/// Counts the non-blank lines of `ls[from..]`.
fn count_nonblank_lines(ls: &Vec<Vec<char>>, from: usize) -> (n: usize)
    requires
        from <= ls@.len(),
    ensures
        n == count_nonblank(crate::text::views(ls@).skip(from as int)),
{
    let ghost vs = crate::text::views(ls@).skip(from as int);
    let mut n: usize = 0;
    let mut i: usize = from;
    assert(vs.take(0) =~= Seq::<Seq<char>>::empty());
    while i < ls.len()
        invariant
            from <= i <= ls@.len(),
            vs == crate::text::views(ls@).skip(from as int),
            n == count_nonblank(vs.take(i - from)),
            n <= i - from,
        decreases ls@.len() - i,
    {
        let t = trim_chars(ls[i].as_slice());
        assert(vs.take(i + 1 - from).drop_last() =~= vs.take(i - from));
        assert(vs.take(i + 1 - from).last() == ls@[i as int]@);
        if t.len() > 0 {
            n = n + 1;
        }
        i = i + 1;
    }
    assert(vs.take(ls@.len() - from) =~= vs);
    n
}

/// Upgradable packages in `apt list --upgradable` output: the non-blank
/// lines after the first.
pub open spec fn apt_upgradable(out: Seq<char>) -> nat {
    if lines(out).len() > 0 {
        count_nonblank(lines(out).skip(1))
    } else {
        0
    }
}

proof fn lemma_count_nonblank_filter(ls: Seq<Seq<char>>)
    ensures
        count_nonblank(ls) == ls.filter(|l: Seq<char>| trim(l).len() > 0).len(),
    decreases ls.len(),
{
    reveal(Seq::filter);
    if ls.len() > 0 {
        lemma_count_nonblank_filter(ls.drop_last());
    }
}

/// Package counts: `apt list --upgradable` lists one upgradable package per
/// non-blank line after its first (`Listing...`) line; `dnf check-update`
/// and `pacman -Qu` list one per non-blank line, their first included.
pub proof fn lemma_package_lines_counted(out: Seq<char>)
    ensures
        apt_upgradable(out) == (if lines(out).len() == 0 {
            0
        } else {
            lines(out).drop_first().filter(|l: Seq<char>| trim(l).len() > 0).len()
        }),
        count_nonblank(lines(out)) == lines(out).filter(|l: Seq<char>| trim(l).len() > 0).len(),
{
    lemma_count_nonblank_filter(lines(out));
    lemma_count_nonblank_filter(lines(out).skip(1));
    if lines(out).len() > 0 {
        assert(lines(out).skip(1) =~= lines(out).drop_first());
    }
}

/// `apt list --upgradable` (when it ran and succeeded): every non-blank
/// line after the `Listing...` header is an upgradable package. A count
/// that stays unassessed is unknown.
pub fn updates_from_apt(u: &mut OsUpdates, apt: &ProbeOutput)
    ensures
        if apt.success {
            final(u).assessed && final(u).pending_updates == (apt_upgradable(apt.stdout@) as i32)
        } else {
            final(u).assessed == old(u).assessed && final(u).pending_updates == settled_count(
                *old(u),
            )
        },
        final(u).auto_update_enabled == old(u).auto_update_enabled,
        final(u).last_check_unix_nanos == old(u).last_check_unix_nanos,
        final(u).consistent(),
{
    if apt.success {
        u.assessed = true;
        let v = chars_of(apt.stdout.as_str());
        let ls = lines_of(v.as_slice());
        let n = if ls.len() > 0 {
            count_nonblank_lines(&ls, 1)
        } else {
            0
        };
        u.pending_updates = n as i32;
    }
    settle_unknown_count(u);
}

/// `dnf check-update -q`: exit 100 lists the available updates one per
/// non-blank line, exit 0 means none; any other outcome says nothing, and a count that
/// stays unassessed is unknown.
pub fn updates_from_dnf(u: &mut OsUpdates, dnf: &ProbeOutput)
    ensures
        if dnf.code == Some(100i32) {
            final(u).assessed && final(u).pending_updates == (count_nonblank(
                lines(dnf.stdout@),
            ) as i32)
        } else if dnf.code == Some(0i32) {
            final(u).assessed && final(u).pending_updates == 0
        } else {
            final(u).assessed == old(u).assessed && final(u).pending_updates == settled_count(
                *old(u),
            )
        },
        final(u).auto_update_enabled == old(u).auto_update_enabled,
        final(u).last_check_unix_nanos == old(u).last_check_unix_nanos,
        final(u).consistent(),
{
    if let Some(code) = dnf.code {
        if code == 0 || code == 100 {
            u.assessed = true;
        }
        if code == 100 {
            let v = chars_of(dnf.stdout.as_str());
            let ls = lines_of(v.as_slice());
            let n = count_nonblank_lines(&ls, 0);
            assert(crate::text::views(ls@).skip(0) =~= lines(dnf.stdout@));
            u.pending_updates = n as i32;
        } else if code == 0 {
            u.pending_updates = 0;
        }
    }
    settle_unknown_count(u);
}

/// `pacman -Qu`: exit 0 lists the available updates one per non-blank
/// line, exit 1 means none; any other outcome says nothing, and a count that
/// stays unassessed is unknown.
pub fn updates_from_pacman(u: &mut OsUpdates, pacman: &ProbeOutput)
    ensures
        if pacman.code == Some(0i32) {
            final(u).assessed && final(u).pending_updates == (count_nonblank(
                lines(pacman.stdout@),
            ) as i32)
        } else if pacman.code == Some(1i32) {
            final(u).assessed && final(u).pending_updates == 0
        } else {
            final(u).assessed == old(u).assessed && final(u).pending_updates == settled_count(
                *old(u),
            )
        },
        final(u).auto_update_enabled == old(u).auto_update_enabled,
        final(u).last_check_unix_nanos == old(u).last_check_unix_nanos,
        final(u).consistent(),
{
    if let Some(code) = pacman.code {
        if code == 0 || code == 1 {
            u.assessed = true;
        }
        if code == 0 {
            let v = chars_of(pacman.stdout.as_str());
            let ls = lines_of(v.as_slice());
            let n = count_nonblank_lines(&ls, 0);
            assert(crate::text::views(ls@).skip(0) =~= lines(pacman.stdout@));
            u.pending_updates = n as i32;
        } else if code == 1 {
            u.pending_updates = 0;
        }
    }
    settle_unknown_count(u);
}

/// `systemctl is-active ssh` / `sshd` (when it could be run): an active
/// unit means SSH is enabled. Returns whether the next SSH unit should
/// still be checked.
pub fn ssh_from_service(ra: &mut RemoteAccess, probe: Option<&ProbeOutput>) -> (check_next: bool)
    ensures
        old(ra).consistent() ==> final(ra).consistent(),
        match probe {
            Some(o) => final(ra).assessed && final(ra).ssh_enabled == (old(ra).ssh_enabled
                || o.success),
            None => *final(ra) == *old(ra),
        },
        final(ra).remote_desktop_enabled == old(ra).remote_desktop_enabled,
        check_next == !final(ra).ssh_enabled,
{
    if let Some(o) = probe {
        ra.assessed = true;
        if o.success {
            ra.ssh_enabled = true;
        }
    }
    !ra.ssh_enabled
}

/// `systemctl is-active <vnc or remote-desktop unit>` (when it could be
/// run): an active unit means remote desktop is enabled. Returns whether
/// the search can stop.
pub fn remote_desktop_from_service(ra: &mut RemoteAccess, probe: Option<&ProbeOutput>) -> (stop: bool)
    ensures
        old(ra).consistent() ==> final(ra).consistent(),
        match probe {
            Some(o) => final(ra).assessed && final(ra).remote_desktop_enabled == (old(
                ra,
            ).remote_desktop_enabled || o.success),
            None => *final(ra) == *old(ra),
        },
        final(ra).ssh_enabled == old(ra).ssh_enabled,
        stop == (probe matches Some(o) && o.success),
{
    if let Some(o) = probe {
        ra.assessed = true;
        if o.success {
            ra.remote_desktop_enabled = true;
            return true;
        }
    }
    false
}

/// `tpm2_getcap properties-fixed` (when it ran and succeeded): the TPM is
/// enabled when its output mentions `tpm2` or `family_indicator` in any
/// ASCII case; otherwise nothing is known.
pub fn tpm_enabled_from_getcap(probe: Option<&ProbeOutput>) -> (enabled: Option<bool>)
    ensures
        enabled == (if probe matches Some(o) && o.success {
            Some(
                contains(lower(probe.unwrap().stdout@), "tpm2"@) || contains(
                    lower(probe.unwrap().stdout@),
                    "family_indicator"@,
                ),
            )
        } else {
            None
        }),
{
    match probe {
        Some(o) => if o.success {
            let v = chars_of(o.stdout.as_str());
            let l = lower_chars(v.as_slice());
            Some(contains_str(l.as_slice(), "tpm2") || contains_str(l.as_slice(), "family_indicator"))
        } else {
            None
        },
        None => None,
    }
}

/// The TPM vendor from the sysfs reads, in order (`manufacturer_name`,
/// `manufacturer`, `description`; `None` for a file that could not be
/// read): the first value that is not blank, trimmed.
pub open spec fn first_vendor(reads: Seq<Option<String>>) -> Option<Seq<char>>
    decreases reads.len(),
{
    if reads.len() == 0 {
        None
    } else if reads[0] matches Some(v) && trim(v@).len() > 0 {
        Some(trim(reads[0].unwrap()@))
    } else {
        first_vendor(reads.drop_first())
    }
}

/// The TPM vendor: the first read that succeeded with a non-blank value,
/// trimmed; a file that could not be read or is blank is passed over.
pub fn tpm_vendor_from_reads(reads: &Vec<Option<String>>) -> (v: Option<String>)
    ensures
        match v {
            Some(s) => first_vendor(reads@) == Some(s@),
            None => first_vendor(reads@) is None,
        },
{
    let mut i: usize = 0;
    assert(reads@.skip(0) =~= reads@);
    while i < reads.len()
        invariant
            0 <= i <= reads@.len(),
            first_vendor(reads@) == first_vendor(reads@.skip(i as int)),
        decreases reads@.len() - i,
    {
        let ghost rest = reads@.skip(i as int);
        assert(rest.drop_first() =~= reads@.skip(i + 1));
        assert(rest[0] == reads@[i as int]);
        match &reads[i] {
            Some(value) => {
                match nonblank_trimmed(value.as_str()) {
                    Some(t) => {
                        return Some(t);
                    },
                    None => {},
                }
            },
            None => {},
        }
        i = i + 1;
    }
    assert(reads@.skip(i as int) =~= Seq::<Option<String>>::empty());
    None
}

/// The hardware root of trust on Linux: a TPM device node or sysfs entry
/// means a TPM 2 is present and, unless `tpm2_getcap` says otherwise,
/// enabled; its vendor is recorded when read. No TPM means none.
pub fn linux_hardware_root_of_trust(
    h: &mut HardwareRootOfTrust,
    device_present: bool,
    vendor: Option<String>,
    enabled: Option<bool>,
)
    ensures
        final(h).consistent(),
        final(h).assessed,
        !final(h).attested,
        final(h).present == device_present,
        if device_present {
            &&& final(h).kind@ == "tpm2"@
            &&& final(h).enabled == match enabled {
                Some(e) => e,
                None => true,
            }
            &&& final(h).vendor == match vendor {
                Some(v) => Some(v),
                None => old(h).vendor,
            }
        } else {
            &&& final(h).kind@ == "none"@
            &&& !final(h).enabled
            &&& final(h).vendor == old(h).vendor
        },
{
    if device_present {
        h.assessed = true;
        h.present = true;
        h.kind = "tpm2".to_owned();
        h.enabled = true;
        h.attested = false;
        if let Some(v) = vendor {
            h.vendor = Some(v);
        }
        if let Some(e) = enabled {
            h.enabled = e;
        }
    } else {
        h.assessed = true;
        h.present = false;
        h.kind = "none".to_owned();
        h.enabled = false;
        h.attested = false;
    }
}

} // verus!

verus! {

/// The lock timeout one config line contributes: none for blank lines and
/// `#` comments.
pub open spec fn line_timeout(line: Seq<char>) -> Option<u32> {
    let t = trim(line);
    if t.len() == 0 || t[0] == '#' {
        None
    } else {
        sway_timeout(t)
    }
}

proof fn lemma_sway_fold_min(ls: Seq<Seq<char>>, best: Option<u32>)
    ensures
        match sway_fold(ls, best) {
            Some(b) => {
                &&& (best matches Some(c) ==> b <= c)
                &&& forall|i: int|
                    0 <= i < ls.len() && line_timeout(#[trigger] ls[i]) is Some ==> b <= line_timeout(
                        ls[i],
                    ).unwrap()
                &&& (best == Some(b) || exists|i: int|
                    0 <= i < ls.len() && line_timeout(#[trigger] ls[i]) == Some(b))
            },
            None => best is None && forall|i: int|
                0 <= i < ls.len() ==> line_timeout(#[trigger] ls[i]) is None,
        },
    decreases ls.len(),
{
    if ls.len() > 0 {
        let next = sway_step(ls[0], best);
        assert(next == match line_timeout(ls[0]) {
            Some(x) => Some(
                match best {
                    Some(c) => if c <= x {
                        c
                    } else {
                        x
                    },
                    None => x,
                },
            ),
            None => best,
        });
        lemma_sway_fold_min(ls.drop_first(), next);
        let rest = ls.drop_first();
        match sway_fold(ls, best) {
            Some(b) => {
                assert forall|i: int|
                    0 <= i < ls.len() && line_timeout(#[trigger] ls[i]) is Some implies b
                    <= line_timeout(ls[i]).unwrap() by {
                    if i > 0 {
                        assert(ls[i] == rest[i - 1]);
                    }
                }
                if next == Some(b) {
                    if best != Some(b) {
                        assert(line_timeout(ls[0]) == Some(b));
                    }
                } else {
                    let i = choose|i: int| 0 <= i < rest.len() && line_timeout(#[trigger] rest[i]) == Some(b);
                    assert(ls[i + 1] == rest[i]);
                }
            },
            None => {
                assert forall|i: int| 0 <= i < ls.len() implies line_timeout(#[trigger] ls[i]) is None by {
                    if i > 0 {
                        assert(ls[i] == rest[i - 1]);
                    }
                }
            },
        }
    }
}

/// The lock timeout read from a sway config is the shortest that any of
/// its lines sets; when no line sets one, no lock is reported.
pub proof fn lemma_sway_lock_is_shortest_timeout(raw: Seq<char>)
    ensures
        match sway_screen_lock(raw) {
            Some((locked, Some(b))) => {
                &&& locked
                &&& forall|i: int|
                    0 <= i < lines(raw).len() && line_timeout(#[trigger] lines(raw)[i]) is Some
                        ==> b <= line_timeout(lines(raw)[i]).unwrap()
                &&& exists|i: int|
                    0 <= i < lines(raw).len() && line_timeout(#[trigger] lines(raw)[i]) == Some(b)
            },
            Some((_, None)) => false,
            None => forall|i: int|
                0 <= i < lines(raw).len() ==> line_timeout(#[trigger] lines(raw)[i]) is None,
        },
{
    lemma_sway_fold_min(lines(raw), None);
}

/// Durations read back in their own units: `<n>m` is `n` minutes and
/// `<n>h` is `n` hours, saturating at `u32::MAX` seconds.
pub proof fn lemma_duration_units(n: u32)
    ensures
        duration_secs(crate::text::decimal(n as nat)) == Some(n),
        duration_secs(crate::text::decimal(n as nat).push('m')) == Some(saturating_mul(n, 60)),
        duration_secs(crate::text::decimal(n as nat).push('h')) == Some(saturating_mul(n, 3600)),
{
    let d = crate::text::decimal(n as nat);
    crate::text::lemma_decimal_parses_back(n);
    crate::text::lemma_decimal_is_trimmed(n as nat);
    let dm = d.push('m');
    let dh = d.push('h');
    crate::text::lemma_decimal_suffix_trimmed(n as nat, 'm');
    crate::text::lemma_decimal_suffix_trimmed(n as nat, 'h');
    assert(dm.drop_last() =~= d);
    assert(dh.drop_last() =~= d);
    assert(parse_u32(dm) is None) by {
        assert(!crate::text::is_digit(dm.last()));
        if dm.len() > 0 && dm[0] == '+' {
        }
    }
    assert(parse_u32(dh) is None) by {
        assert(!crate::text::is_digit(dh.last()));
    }
}

/// Durations saturate rather than wrap: `x * k` when it fits a `u32`,
/// `u32::MAX` when it does not.
pub proof fn lemma_saturating_mul_caps(x: u32, k: u32)
    ensures
        x * k <= u32::MAX ==> saturating_mul(x, k) == x * k,
        x * k > u32::MAX ==> saturating_mul(x, k) == u32::MAX,
{
}

/// A swayidle line sets a lock timeout only when it mentions `swaylock` in
/// some case and its first word is `timeout`; the timeout is then the
/// duration its second word gives.
pub proof fn lemma_sway_timeout_shape(line: Seq<char>)
    ensures
        sway_timeout(line) is Some ==> {
            &&& contains(lower(line), "swaylock"@)
            &&& words(line).len() >= 2
            &&& words(line)[0] == "timeout"@
            &&& sway_timeout(line) == duration_secs(words(line)[1])
        },
        contains(lower(line), "swaylock"@) && words(line).len() >= 2 && words(line)[0]
            == "timeout"@ ==> sway_timeout(line) == duration_secs(words(line)[1]),
{
}

/// GNOME's idle delay is the last word of the `gsettings` answer read as a
/// positive whole number of seconds; zero (never) or anything else gives
/// no timeout.
pub proof fn lemma_gnome_idle_last_word(out: Seq<char>)
    ensures
        gnome_idle_secs(out) matches Some(n) ==> n > 0 && words(out).len() > 0 && parse_u32(
            trim(words(out).last()),
        ) == Some(n),
        words(out).len() > 0 && parse_u32(trim(words(out).last())) is Some && parse_u32(
            trim(words(out).last()),
        ).unwrap() > 0 ==> gnome_idle_secs(out) == parse_u32(trim(words(out).last())),
{
}

} // verus!
