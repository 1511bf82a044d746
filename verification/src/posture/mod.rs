//! Cross-platform posture collection: the model of a probe's output, the
//! platform readers, host identity, and the final assembly of a report.

pub mod linux;
pub mod macos;
pub mod windows;

use crate::findings::{derive_findings, rule_findings, same_but_findings};
use crate::fingerprint::{device_fingerprint_v2, fingerprint};
use crate::report::{controls_consistent, finding_views, PostureReport};
use crate::text::{chars_of, find_char, find_chars, find_sub, lines, lines_of, slice_range, string_from_chars};
use vstd::prelude::*;

verus! {

broadcast use vstd::string::group_string_axioms;

/// What one run of a command left behind: whether it exited with success,
/// its exit code when it had one, and its output decoded as text.
#[derive(Debug, Clone)]
pub struct ProbeOutput {
    pub success: bool,
    pub code: Option<i32>,
    pub stdout: String,
    pub stderr: String,
}

/// The key that precedes the hardware UUID in `ioreg -rd1 -c
/// IOPlatformExpertDevice` output.
pub open spec fn uuid_key() -> Seq<char> {
    "\"IOPlatformUUID\" = \""@
}

/// The quoted UUID on one `ioreg` line: the text after the key up to the
/// next `"`.
pub open spec fn ioreg_line_uuid(line: Seq<char>) -> Option<Seq<char>> {
    match find_sub(line, uuid_key()) {
        Some(j) => {
            let rest = line.skip(j as int + uuid_key().len());
            let e = find_char(rest, '"');
            if e < rest.len() {
                Some(rest.take(e as int))
            } else {
                None
            }
        },
        None => None,
    }
}

/// The first UUID that some line of the `ioreg` output carries.
pub open spec fn ioreg_uuid(ls: Seq<Seq<char>>) -> Option<Seq<char>>
    decreases ls.len(),
{
    if ls.len() == 0 {
        None
    } else {
        match ioreg_line_uuid(ls[0]) {
            Some(u) => Some(u),
            None => ioreg_uuid(ls.drop_first()),
        }
    }
}

fn ioreg_line_uuid_of(line: &[char]) -> (r: Option<Vec<char>>)
    ensures
        match r {
            Some(u) => ioreg_line_uuid(line@) == Some(u@),
            None => ioreg_line_uuid(line@) is None,
        },
{
    let key = chars_of("\"IOPlatformUUID\" = \"");
    match find_chars(line, key.as_slice()) {
        Some(j) => {
            proof {
                crate::text::lemma_find_sub_bounds(line@, key@);
            }
            let n = line.len();
            assert(j + key@.len() <= n);
            let start = j + key.len();
            let rest = slice_range(line, start, line.len());
            assert(rest@ =~= line@.skip(start as int));
            let mut e: usize = 0;
            while e < rest.len() && rest[e] != '"'
                invariant
                    0 <= e <= rest@.len(),
                    forall|k: int| 0 <= k < e ==> rest@[k] != '"',
                decreases rest@.len() - e,
            {
                e = e + 1;
            }
            proof {
                crate::text::lemma_find_char_at(rest@, '"', e as int);
            }
            if e < rest.len() {
                Some(slice_range(rest.as_slice(), 0, e))
            } else {
                None
            }
        },
        None => None,
    }
}

/// The hardware UUID in `ioreg -rd1 -c IOPlatformExpertDevice` output: the
/// quoted value after `"IOPlatformUUID" = ` on the first line that has
/// one.
pub fn uuid_from_ioreg(output: &str) -> (r: Option<String>)
    ensures
        match r {
            Some(u) => ioreg_uuid(lines(output@)) == Some(u@),
            None => ioreg_uuid(lines(output@)) is None,
        },
{
    let v = chars_of(output);
    let ls = lines_of(v.as_slice());
    let mut i: usize = 0;
    assert(lines(v@).skip(0) =~= lines(v@));
    while i < ls.len()
        invariant
            0 <= i <= ls@.len(),
            crate::text::views(ls@) == lines(v@),
            v@ == output@,
            ioreg_uuid(lines(v@)) == ioreg_uuid(lines(v@).skip(i as int)),
        decreases ls@.len() - i,
    {
        let ghost rest = lines(v@).skip(i as int);
        assert(rest.drop_first() =~= lines(v@).skip(i + 1));
        assert(rest[0] == ls@[i as int]@);
        match ioreg_line_uuid_of(ls[i].as_slice()) {
            Some(u) => {
                return Some(string_from_chars(u.as_slice()));
            },
            None => {},
        }
        i = i + 1;
    }
    assert(lines(v@).skip(i as int) =~= Seq::<Seq<char>>::empty());
    None
}

/// The last steps of a collection: the fingerprint is set from the
/// populated report, then the rules' findings are appended.
pub fn finalize_report(r: &mut PostureReport)
    ensures
        final(r).device_fingerprint_v2@ == fingerprint(*old(r)),
        finding_views(final(r).findings@) == finding_views(old(r).findings@) + rule_findings(
            *old(r),
        ),
        same_but_findings(*final(r), PostureReport { device_fingerprint_v2: final(r).device_fingerprint_v2, ..*old(r) }),
        controls_consistent(*old(r)) ==> controls_consistent(*final(r)),
{
    let fp = device_fingerprint_v2(r);
    r.device_fingerprint_v2 = fp;
    let ghost mid = *r;
    assert(rule_findings(mid) == rule_findings(*old(r)));
    derive_findings(r);
}

proof fn lemma_find_char_first(s: Seq<char>, c: char)
    ensures
        find_char(s, c) <= s.len(),
        find_char(s, c) < s.len() ==> s[find_char(s, c) as int] == c,
        forall|k: int| 0 <= k < find_char(s, c) ==> s[k] != c,
    decreases s.len(),
{
    if s.len() > 0 && s[0] != c {
        lemma_find_char_first(s.drop_first(), c);
        assert forall|k: int| 0 <= k < find_char(s, c) implies s[k] != c by {
            if k > 0 {
                assert(s[k] == s.drop_first()[k - 1]);
            }
        }
    }
}

/// A UUID read off an `ioreg` line is the whole quoted value that directly
/// follows `"IOPlatformUUID" = "` on that line: the key, the UUID and the
/// closing quote stand side by side in the line, and the UUID holds no
/// quote.
pub proof fn lemma_ioreg_line_uuid_is_quoted_value(line: Seq<char>)
    ensures
        ioreg_line_uuid(line) matches Some(u) ==> {
            &&& forall|k: int| 0 <= k < u.len() ==> u[k] != '"'
            &&& exists|j: int|
                0 <= j && j + 21 + u.len() <= line.len() && #[trigger] line.subrange(
                    j,
                    j + 21 + u.len(),
                ) == "\"IOPlatformUUID\" = \""@ + u + "\""@
        },
{
    reveal_strlit("\"IOPlatformUUID\" = \"");
    reveal_strlit("\"");
    let key = uuid_key();
    assert(key.len() == 20);
    if let Some(u) = ioreg_line_uuid(line) {
        crate::text::lemma_find_sub_bounds(line, key);
        let j = find_sub(line, key).unwrap() as int;
        let rest = line.skip(j + 20);
        lemma_find_char_first(rest, '"');
        let e = find_char(rest, '"') as int;
        assert(u == rest.take(e));
        assert(line.subrange(j, j + 21 + u.len()) =~= key + u + "\""@) by {
            assert forall|k: int| 0 <= k < 21 + u.len() implies line.subrange(j, j + 21 + u.len())[k]
                == (key + u + "\""@)[k] by {
                if k < 20 {
                    assert(line.subrange(j, j + 20)[k] == key[k]);
                } else if k < 20 + u.len() {
                    assert(rest[k - 20] == line[j + k]);
                } else {
                    assert(rest[e] == line[j + 20 + e]);
                }
            }
        }
    }
}

/// The UUID taken from `ioreg` output is the one on the first line that
/// carries one; when no line does, there is none.
pub proof fn lemma_ioreg_uuid_first_line(ls: Seq<Seq<char>>)
    ensures
        ioreg_uuid(ls) matches Some(u) ==> exists|i: int|
            0 <= i < ls.len() && ioreg_line_uuid(#[trigger] ls[i]) == Some(u) && forall|k: int|
                0 <= k < i ==> ioreg_line_uuid(#[trigger] ls[k]) is None,
        ioreg_uuid(ls) is None ==> forall|k: int|
            0 <= k < ls.len() ==> ioreg_line_uuid(#[trigger] ls[k]) is None,
    decreases ls.len(),
{
    if ls.len() > 0 {
        let rest = ls.drop_first();
        lemma_ioreg_uuid_first_line(rest);
        if ioreg_line_uuid(ls[0]) is Some {
            assert(ioreg_line_uuid(ls[0]) == ioreg_uuid(ls));
        } else {
            if let Some(u) = ioreg_uuid(ls) {
                let i = choose|i: int|
                    0 <= i < rest.len() && ioreg_line_uuid(#[trigger] rest[i]) == Some(u) && forall|k: int|
                        0 <= k < i ==> ioreg_line_uuid(#[trigger] rest[k]) is None;
                assert(ls[i + 1] == rest[i]);
                assert forall|k: int| 0 <= k < i + 1 implies ioreg_line_uuid(#[trigger] ls[k]) is None by {
                    if k > 0 {
                        assert(ls[k] == rest[k - 1]);
                    }
                }
            } else {
                assert forall|k: int| 0 <= k < ls.len() implies ioreg_line_uuid(#[trigger] ls[k]) is None by {
                    if k > 0 {
                        assert(ls[k] == rest[k - 1]);
                    }
                }
            }
        }
    }
}

} // verus!
