//! Device fingerprint v2: a SHA-256 over a canonical `key=value` listing of
//! the identity and hardware-trust fields of a report, hex encoded in lower
//! case. Values are trimmed, have line breaks turned into spaces, and are
//! ASCII-lowercased, so cosmetic differences in tool output do not change
//! the fingerprint.

use crate::report::PostureReport;
use crate::text::{
    chars_of, is_ws, lemma_trim_ends, lemma_trim_noop, lower, lower_ascii_char, lower_char,
    string_from_chars, trim, trim_bounds,
};
use sha2::Digest;
use vstd::prelude::*;
use vstd::string::StringExecFns;

verus! {

broadcast use vstd::string::group_string_axioms;

// ---------------------------------------------------------------------------
// SHA-256 (sha2 crate)
// ---------------------------------------------------------------------------

/// The SHA-256 digest of `data`, as `sha2::Sha256` computes it.
pub uninterp spec fn sha256(data: Seq<u8>) -> Seq<u8>;

/// `sha2::Sha256::digest`: the digest of `data`, which the crate fixes at
/// 32 bytes (`OutputSize = U32`). What the bytes are is left to the name
/// `sha256`.
#[verifier::external_body]
fn sha256_digest(data: &[u8]) -> (d: Vec<u8>)
    ensures
        d@ == sha256(data@),
        d@.len() == 32,
{
    sha2::Sha256::digest(data).to_vec()
}

// ---------------------------------------------------------------------------
// Lower-case hex
// ---------------------------------------------------------------------------

/// The lower-case hex digit of a nibble.
pub open spec fn nibble_char(n: u8) -> char {
    if n < 10 {
        ((48 + n) as u8) as char
    } else {
        ((87 + n) as u8) as char
    }
}

/// Lower-case hex of `bytes`, two digits per byte, high nibble first.
pub open spec fn hex(bytes: Seq<u8>) -> Seq<char>
    decreases bytes.len(),
{
    if bytes.len() == 0 {
        seq![]
    } else {
        hex(bytes.drop_last()) + seq![
            nibble_char(bytes.last() / 16),
            nibble_char(bytes.last() % 16),
        ]
    }
}

pub open spec fn is_lower_hex_digit(c: char) -> bool {
    ('0' <= c && c <= '9') || ('a' <= c && c <= 'f')
}

/// Hex has two digits per byte, each a lower-case hex digit.
pub proof fn lemma_hex_shape(b: Seq<u8>)
    ensures
        hex(b).len() == 2 * b.len(),
        forall|i: int| 0 <= i < hex(b).len() ==> is_lower_hex_digit(#[trigger] hex(b)[i]),
    decreases b.len(),
{
    if b.len() > 0 {
        lemma_hex_shape(b.drop_last());
        let hi = b.last() / 16;
        let lo = b.last() % 16;
        assert(is_lower_hex_digit(nibble_char(hi)));
        assert(is_lower_hex_digit(nibble_char(lo)));
        let h = hex(b);
        assert forall|i: int| 0 <= i < h.len() implies is_lower_hex_digit(#[trigger] h[i]) by {
            if i < h.len() - 2 {
                assert(h[i] == hex(b.drop_last())[i]);
            }
        }
    }
}

/// Distinct nibbles have distinct digits.
pub proof fn lemma_nibble_char_injective(a: u8, b: u8)
    requires
        a < 16,
        b < 16,
        nibble_char(a) == nibble_char(b),
    ensures
        a == b,
{
}

/// Hex loses nothing: equal hex means equal bytes.
pub proof fn lemma_hex_injective(a: Seq<u8>, b: Seq<u8>)
    requires
        hex(a) == hex(b),
    ensures
        a == b,
    decreases a.len(),
{
    lemma_hex_shape(a);
    lemma_hex_shape(b);
    if a.len() > 0 {
        let ha = hex(a);
        let n = ha.len();
        assert(ha[n - 2] == nibble_char(a.last() / 16));
        assert(ha[n - 1] == nibble_char(a.last() % 16));
        assert(hex(b)[n - 2] == nibble_char(b.last() / 16));
        assert(hex(b)[n - 1] == nibble_char(b.last() % 16));
        lemma_nibble_char_injective(a.last() / 16, b.last() / 16);
        lemma_nibble_char_injective(a.last() % 16, b.last() % 16);
        assert(hex(a.drop_last()) =~= ha.take(n - 2));
        assert(hex(b.drop_last()) =~= hex(b).take(n - 2));
        lemma_hex_injective(a.drop_last(), b.drop_last());
        assert(a =~= b.drop_last().push(b.last()));
        assert(b =~= b.drop_last().push(b.last()));
    }
}

/// The hex digit of a nibble.
pub fn nibble_to_hex(nibble: u8) -> (c: char)
    requires
        nibble < 16,
    ensures
        c == nibble_char(nibble),
{
    if nibble <= 9 {
        (48u8 + nibble) as char
    } else {
        (97u8 + (nibble - 10)) as char
    }
}

/// Lower-case hex of `bytes`.
pub fn hex_lower(bytes: &[u8]) -> (s: String)
    ensures
        s@ == hex(bytes@),
{
    let mut out: Vec<char> = Vec::new();
    let mut i: usize = 0;
    while i < bytes.len()
        invariant
            0 <= i <= bytes@.len(),
            out@ == hex(bytes@.take(i as int)),
        decreases bytes@.len() - i,
    {
        let byte = bytes[i];
        assert(byte >> 4 == byte / 16 && byte & 0x0f == byte % 16) by (bit_vector);
        out.push(nibble_to_hex(byte >> 4));
        out.push(nibble_to_hex(byte & 0x0f));
        assert(bytes@.take(i + 1).drop_last() =~= bytes@.take(i as int));
        i = i + 1;
        assert(out@ =~= hex(bytes@.take(i as int)));
    }
    assert(bytes@.take(bytes@.len() as int) =~= bytes@);
    string_from_chars(out.as_slice())
}

// ---------------------------------------------------------------------------
// Canonical form
// ---------------------------------------------------------------------------

pub open spec fn unbreak_char(c: char) -> char {
    if c == '\n' || c == '\r' {
        ' '
    } else {
        c
    }
}

/// A fingerprint value in canonical form: trimmed, `\n` and `\r` turned
/// into spaces, ASCII-lowercased.
pub open spec fn sanitize(v: Seq<char>) -> Seq<char> {
    lower(trim(v).map_values(|c: char| unbreak_char(c)))
}

pub open spec fn hrt_kind_value(r: PostureReport) -> Seq<char> {
    if r.hardware_root_of_trust.kind@.len() == 0 {
        "unknown"@
    } else {
        r.hardware_root_of_trust.kind@
    }
}

pub open spec fn hrt_vendor_value(r: PostureReport) -> Seq<char> {
    match r.hardware_root_of_trust.vendor {
        Some(v) => v@,
        None => "unknown"@,
    }
}

pub open spec fn hrt_present_value(r: PostureReport) -> Seq<char> {
    if r.hardware_root_of_trust.present {
        "true"@
    } else {
        "false"@
    }
}

/// The fingerprinted fields, in ascending key order.
pub open spec fn fingerprint_fields(r: PostureReport) -> Seq<(Seq<char>, Seq<char>)> {
    seq![
        ("arch"@, r.arch@),
        ("disk_mechanism"@, r.disk_encryption.mechanism@),
        ("host_uid"@, r.host_uid@),
        ("hrt_kind"@, hrt_kind_value(r)),
        ("hrt_present"@, hrt_present_value(r)),
        ("hrt_vendor"@, hrt_vendor_value(r)),
        ("os_name"@, r.os_name@),
        ("os_version"@, r.os_version@),
        ("platform"@, r.platform@),
        ("v"@, "2"@),
    ]
}

pub open spec fn field_line(f: (Seq<char>, Seq<char>)) -> Seq<char> {
    f.0 + "="@ + sanitize(f.1)
}

/// `key=value` lines joined by `\n`.
pub open spec fn join_fields(fs: Seq<(Seq<char>, Seq<char>)>) -> Seq<char>
    decreases fs.len(),
{
    if fs.len() == 0 {
        seq![]
    } else if fs.len() == 1 {
        field_line(fs[0])
    } else {
        field_line(fs[0]) + "\n"@ + join_fields(fs.drop_first())
    }
}

pub open spec fn canonical(r: PostureReport) -> Seq<char> {
    join_fields(fingerprint_fields(r))
}

/// The device fingerprint of `r`.
pub open spec fn fingerprint(r: PostureReport) -> Seq<char> {
    hex(sha256(vstd::utf8::encode_utf8(canonical(r))))
}

/// The canonical form of a value.
pub fn sanitize_fingerprint_value(value: &str) -> (s: String)
    ensures
        s@ == sanitize(value@),
{
    let v = chars_of(value);
    let (i, j) = trim_bounds(v.as_slice());
    let ghost t = v@.subrange(i as int, j as int);
    let mut out: Vec<char> = Vec::new();
    let mut k = i;
    while k < j
        invariant
            i <= k <= j <= v@.len(),
            t == v@.subrange(i as int, j as int),
            out@ == lower(t.take(k - i).map_values(|c: char| unbreak_char(c))),
        decreases j - k,
    {
        let c = v[k];
        let d = if c == '\n' || c == '\r' {
            ' '
        } else {
            c
        };
        out.push(lower_ascii_char(d));
        k = k + 1;
        assert(out@ =~= lower(t.take(k - i).map_values(|c: char| unbreak_char(c))));
    }
    assert(t.take(j - i) =~= t);
    string_from_chars(out.as_slice())
}

fn field_text(key: &str, value: &str) -> (s: String)
    ensures
        s@ == field_line((key@, value@)),
{
    key.to_owned().concat("=").concat(sanitize_fingerprint_value(value).as_str())
}

/// `key=value`, a line break, then `rest`.
fn prepend_field(key: &str, value: &str, rest: String) -> (s: String)
    ensures
        s@ == field_line((key@, value@)) + "\n"@ + rest@,
{
    field_text(key, value).concat("\n").concat(rest.as_str())
}

proof fn lemma_join_step(fs: Seq<(Seq<char>, Seq<char>)>, k: int)
    requires
        0 <= k < fs.len() - 1,
    ensures
        join_fields(fs.skip(k)) == field_line(fs[k]) + "\n"@ + join_fields(fs.skip(k + 1)),
{
    assert(fs.skip(k).drop_first() =~= fs.skip(k + 1));
}

proof fn lemma_join_last(fs: Seq<(Seq<char>, Seq<char>)>)
    requires
        fs.len() >= 1,
    ensures
        join_fields(fs.skip(fs.len() - 1)) == field_line(fs[fs.len() - 1]),
{
    assert(fs.skip(fs.len() - 1) =~= seq![fs[fs.len() - 1]]);
}

/// The canonical listing that the fingerprint hashes.
pub fn canonical_text(r: &PostureReport) -> (s: String)
    ensures
        s@ == canonical(*r),
{
    let ghost fs = fingerprint_fields(*r);
    let kind: &str = if r.hardware_root_of_trust.kind.as_str().is_empty() {
        "unknown"
    } else {
        r.hardware_root_of_trust.kind.as_str()
    };
    let vendor: &str = match &r.hardware_root_of_trust.vendor {
        Some(v) => v.as_str(),
        None => "unknown",
    };
    let present: &str = if r.hardware_root_of_trust.present {
        "true"
    } else {
        "false"
    };
    assert(kind@ == hrt_kind_value(*r));
    assert(vendor@ == hrt_vendor_value(*r));
    assert(present@ == hrt_present_value(*r));
    let s = field_text("v", "2");
    proof { lemma_join_last(fs); }
    assert(s@ == join_fields(fs.skip(9)));
    let s = prepend_field("platform", r.platform.as_str(), s);
    proof { lemma_join_step(fs, 8); }
    assert(s@ == join_fields(fs.skip(8)));
    let s = prepend_field("os_version", r.os_version.as_str(), s);
    proof { lemma_join_step(fs, 7); }
    assert(s@ == join_fields(fs.skip(7)));
    let s = prepend_field("os_name", r.os_name.as_str(), s);
    proof { lemma_join_step(fs, 6); }
    assert(s@ == join_fields(fs.skip(6)));
    let s = prepend_field("hrt_vendor", vendor, s);
    proof { lemma_join_step(fs, 5); }
    assert(s@ == join_fields(fs.skip(5)));
    let s = prepend_field("hrt_present", present, s);
    proof { lemma_join_step(fs, 4); }
    assert(s@ == join_fields(fs.skip(4)));
    let s = prepend_field("hrt_kind", kind, s);
    proof { lemma_join_step(fs, 3); }
    assert(s@ == join_fields(fs.skip(3)));
    let s = prepend_field("host_uid", r.host_uid.as_str(), s);
    proof { lemma_join_step(fs, 2); }
    assert(s@ == join_fields(fs.skip(2)));
    let s = prepend_field("disk_mechanism", r.disk_encryption.mechanism.as_str(), s);
    proof { lemma_join_step(fs, 1); }
    assert(s@ == join_fields(fs.skip(1)));
    let s = prepend_field("arch", r.arch.as_str(), s);
    proof {
        lemma_join_step(fs, 0);
        assert(fs.skip(0) =~= fs);
    }
    s
}

/// The device fingerprint of `r`: lower-case hex SHA-256 of its canonical
/// listing.
pub fn device_fingerprint_v2(r: &PostureReport) -> (s: String)
    ensures
        s@ == fingerprint(*r),
        s@.len() == 64,
        forall|i: int| 0 <= i < s@.len() ==> is_lower_hex_digit(#[trigger] s@[i]),
{
    let canonical = canonical_text(r);
    let digest = sha256_digest(canonical.as_str().as_bytes());
    proof {
        lemma_hex_shape(digest@);
    }
    hex_lower(digest.as_slice())
}

// ---------------------------------------------------------------------------
// Laws
// ---------------------------------------------------------------------------

/// A value in canonical form is left as it is: canonicalising twice is the
/// same as canonicalising once.
pub proof fn lemma_sanitize_idempotent(v: Seq<char>)
    ensures
        sanitize(sanitize(v)) == sanitize(v),
{
    let t = trim(v);
    let u = t.map_values(|c: char| unbreak_char(c));
    let s = lower(u);
    lemma_trim_ends(v);
    if s.len() > 0 {
        assert(s[0] == lower_char(unbreak_char(t[0])));
        assert(s.last() == lower_char(unbreak_char(t.last())));
    }
    lemma_trim_noop(s);
    assert(s.map_values(|c: char| unbreak_char(c)) =~= s);
    assert(lower(s) =~= s);
}

/// The fingerprint reads only the identity and hardware-trust fields: two
/// reports that agree on them have the same fingerprint, whatever their
/// hostnames, timestamps, control states or findings.
pub proof fn lemma_fingerprint_reads_identity_only(a: PostureReport, b: PostureReport)
    requires
        a.arch@ == b.arch@,
        a.disk_encryption.mechanism@ == b.disk_encryption.mechanism@,
        a.host_uid@ == b.host_uid@,
        hrt_kind_value(a) == hrt_kind_value(b),
        hrt_present_value(a) == hrt_present_value(b),
        hrt_vendor_value(a) == hrt_vendor_value(b),
        a.os_name@ == b.os_name@,
        a.os_version@ == b.os_version@,
        a.platform@ == b.platform@,
    ensures
        fingerprint(a) == fingerprint(b),
{
    assert(fingerprint_fields(a) =~= fingerprint_fields(b));
}

/// Cosmetic differences do not move the fingerprint: reports whose
/// fingerprinted values have the same canonical forms (case, surrounding
/// whitespace, line breaks) have the same fingerprint.
pub proof fn lemma_fingerprint_ignores_cosmetic_differences(a: PostureReport, b: PostureReport)
    requires
        forall|i: int|
            0 <= i < 10 ==> sanitize(#[trigger] fingerprint_fields(a)[i].1) == sanitize(
                fingerprint_fields(b)[i].1,
            ),
    ensures
        fingerprint(a) == fingerprint(b),
{
    let fa = fingerprint_fields(a);
    let fb = fingerprint_fields(b);
    assert forall|k: int| 0 <= k <= 9 implies #[trigger] join_fields(fa.skip(k)) == join_fields(
        fb.skip(k),
    ) by {
        lemma_join_suffix_equal(fa, fb, k);
    }
    assert(fa.skip(0) =~= fa);
    assert(fb.skip(0) =~= fb);
}

proof fn lemma_join_suffix_equal(
    fa: Seq<(Seq<char>, Seq<char>)>,
    fb: Seq<(Seq<char>, Seq<char>)>,
    k: int,
)
    requires
        fa.len() == fb.len(),
        0 <= k < fa.len(),
        forall|i: int| 0 <= i < fa.len() ==> fa[i].0 == fb[i].0,
        forall|i: int|
            0 <= i < fa.len() ==> sanitize(#[trigger] fa[i].1) == sanitize(fb[i].1),
    ensures
        join_fields(fa.skip(k)) == join_fields(fb.skip(k)),
    decreases fa.len() - k,
{
    if k == fa.len() - 1 {
        lemma_join_last(fa);
        lemma_join_last(fb);
    } else {
        lemma_join_suffix_equal(fa, fb, k + 1);
        lemma_join_step(fa, k);
        lemma_join_step(fb, k);
    }
}

/// Code-point order, which is the order `str`'s `Ord` gives.
pub open spec fn lex_lt(a: Seq<char>, b: Seq<char>) -> bool
    decreases a.len(),
{
    if b.len() == 0 {
        false
    } else if a.len() == 0 {
        true
    } else if a[0] < b[0] {
        true
    } else if a[0] == b[0] {
        lex_lt(a.drop_first(), b.drop_first())
    } else {
        false
    }
}

proof fn lemma_lex_lt_transitive(a: Seq<char>, b: Seq<char>, c: Seq<char>)
    requires
        lex_lt(a, b),
        lex_lt(b, c),
    ensures
        lex_lt(a, c),
    decreases a.len(),
{
    if a.len() > 0 && b.len() > 0 && c.len() > 0 && a[0] == b[0] && b[0] == c[0] {
        lemma_lex_lt_transitive(a.drop_first(), b.drop_first(), c.drop_first());
    }
}

/// The canonical listing names its fields in strictly ascending key order,
/// which is the order that sorting the fields by key produces.
pub proof fn lemma_fingerprint_keys_ascending(r: PostureReport)
    ensures
        forall|i: int, j: int|
            0 <= i < j < fingerprint_fields(r).len() ==> lex_lt(
                #[trigger] fingerprint_fields(r)[i].0,
                #[trigger] fingerprint_fields(r)[j].0,
            ),
{
    let f = fingerprint_fields(r);
    reveal_strlit("arch");
    reveal_strlit("disk_mechanism");
    reveal_strlit("host_uid");
    reveal_strlit("hrt_kind");
    reveal_strlit("hrt_present");
    reveal_strlit("hrt_vendor");
    reveal_strlit("os_name");
    reveal_strlit("os_version");
    reveal_strlit("platform");
    reveal_strlit("v");
    reveal_with_fuel(lex_lt, 6);
    assert forall|i: int| 0 <= i < 9 implies lex_lt(#[trigger] f[i].0, f[i + 1].0) by {}
    assert forall|i: int, j: int| 0 <= i < j < f.len() implies lex_lt(
        #[trigger] f[i].0,
        #[trigger] f[j].0,
    ) by {
        lemma_lex_chain(f, i, j);
    }
}

proof fn lemma_lex_chain(f: Seq<(Seq<char>, Seq<char>)>, i: int, j: int)
    requires
        0 <= i < j < f.len(),
        forall|k: int| 0 <= k < f.len() - 1 ==> lex_lt(#[trigger] f[k].0, f[k + 1].0),
    ensures
        lex_lt(f[i].0, f[j].0),
    decreases j - i,
{
    if j > i + 1 {
        lemma_lex_chain(f, i, j - 1);
        lemma_lex_lt_transitive(f[i].0, f[j - 1].0, f[j].0);
    }
}

/// The canonical listing, line by line: each identity field as
/// `key=value` with its value sanitized, keys in ascending order, each line
/// but the last followed by `\n`. The hardware root of trust contributes its
/// kind (`unknown` when empty), whether it is present, and its vendor
/// whenever one is recorded, whatever its presence (`unknown` only when none
/// is).
pub proof fn lemma_canonical_listing(r: PostureReport)
    ensures
        canonical(r) == ("arch="@ + sanitize(r.arch@) + "\n"@) + (("disk_mechanism="@ + sanitize(
            r.disk_encryption.mechanism@,
        ) + "\n"@) + (("host_uid="@ + sanitize(r.host_uid@) + "\n"@) + (("hrt_kind="@ + sanitize(
            if r.hardware_root_of_trust.kind@.len() == 0 {
                "unknown"@
            } else {
                r.hardware_root_of_trust.kind@
            },
        ) + "\n"@) + (("hrt_present="@ + sanitize(
            if r.hardware_root_of_trust.present {
                "true"@
            } else {
                "false"@
            },
        ) + "\n"@) + (("hrt_vendor="@ + sanitize(
            match r.hardware_root_of_trust.vendor {
                Some(v) => v@,
                None => "unknown"@,
            },
        ) + "\n"@) + (("os_name="@ + sanitize(r.os_name@) + "\n"@) + (("os_version="@ + sanitize(
            r.os_version@,
        ) + "\n"@) + (("platform="@ + sanitize(r.platform@) + "\n"@) + ("v="@ + sanitize(
            "2"@,
        )))))))))),
{
    let fs = fingerprint_fields(r);
    lemma_field_lines(r);
    assert(fs.skip(9).drop_first().len() == 0);
    assert(join_fields(fs.skip(9)) == field_line(fs[9]));
    assert(fs.skip(8).drop_first() =~= fs.skip(9));
    assert(fs.skip(7).drop_first() =~= fs.skip(8));
    assert(fs.skip(6).drop_first() =~= fs.skip(7));
    assert(fs.skip(5).drop_first() =~= fs.skip(6));
    assert(fs.skip(4).drop_first() =~= fs.skip(5));
    assert(fs.skip(3).drop_first() =~= fs.skip(4));
    assert(fs.skip(2).drop_first() =~= fs.skip(3));
    assert(fs.skip(1).drop_first() =~= fs.skip(2));
    assert(fs.drop_first() =~= fs.skip(1));
    assert(fs.skip(8)[0] == fs[8]);
    assert(fs.skip(7)[0] == fs[7]);
    assert(fs.skip(6)[0] == fs[6]);
    assert(fs.skip(5)[0] == fs[5]);
    assert(fs.skip(4)[0] == fs[4]);
    assert(fs.skip(3)[0] == fs[3]);
    assert(fs.skip(2)[0] == fs[2]);
    assert(fs.skip(1)[0] == fs[1]);
    assert(fs.skip(9)[0] == fs[9]);
    assert(join_fields(fs.skip(8)) == field_line(fs[8]) + "\n"@ + join_fields(fs.skip(9)));
    assert(join_fields(fs.skip(7)) == field_line(fs[7]) + "\n"@ + join_fields(fs.skip(8)));
    assert(join_fields(fs.skip(6)) == field_line(fs[6]) + "\n"@ + join_fields(fs.skip(7)));
    assert(join_fields(fs.skip(5)) == field_line(fs[5]) + "\n"@ + join_fields(fs.skip(6)));
    assert(join_fields(fs.skip(4)) == field_line(fs[4]) + "\n"@ + join_fields(fs.skip(5)));
    assert(join_fields(fs.skip(3)) == field_line(fs[3]) + "\n"@ + join_fields(fs.skip(4)));
    assert(join_fields(fs.skip(2)) == field_line(fs[2]) + "\n"@ + join_fields(fs.skip(3)));
    assert(join_fields(fs.skip(1)) == field_line(fs[1]) + "\n"@ + join_fields(fs.skip(2)));
    assert(canonical(r) == field_line(fs[0]) + "\n"@ + join_fields(fs.skip(1)));
}

/// Each line of the listing is its key, `=`, and the sanitized value.
proof fn lemma_field_lines(r: PostureReport)
    ensures
        field_line(fingerprint_fields(r)[0]) == "arch="@ + sanitize(r.arch@),
        field_line(fingerprint_fields(r)[1]) == "disk_mechanism="@ + sanitize(
            r.disk_encryption.mechanism@,
        ),
        field_line(fingerprint_fields(r)[2]) == "host_uid="@ + sanitize(r.host_uid@),
        field_line(fingerprint_fields(r)[3]) == "hrt_kind="@ + sanitize(hrt_kind_value(r)),
        field_line(fingerprint_fields(r)[4]) == "hrt_present="@ + sanitize(hrt_present_value(r)),
        field_line(fingerprint_fields(r)[5]) == "hrt_vendor="@ + sanitize(hrt_vendor_value(r)),
        field_line(fingerprint_fields(r)[6]) == "os_name="@ + sanitize(r.os_name@),
        field_line(fingerprint_fields(r)[7]) == "os_version="@ + sanitize(r.os_version@),
        field_line(fingerprint_fields(r)[8]) == "platform="@ + sanitize(r.platform@),
        field_line(fingerprint_fields(r)[9]) == "v="@ + sanitize("2"@),
{
    reveal_strlit("arch");
    reveal_strlit("disk_mechanism");
    reveal_strlit("host_uid");
    reveal_strlit("hrt_kind");
    reveal_strlit("hrt_present");
    reveal_strlit("hrt_vendor");
    reveal_strlit("os_name");
    reveal_strlit("os_version");
    reveal_strlit("platform");
    reveal_strlit("v");
    reveal_strlit("=");
    reveal_strlit("arch=");
    reveal_strlit("disk_mechanism=");
    reveal_strlit("host_uid=");
    reveal_strlit("hrt_kind=");
    reveal_strlit("hrt_present=");
    reveal_strlit("hrt_vendor=");
    reveal_strlit("os_name=");
    reveal_strlit("os_version=");
    reveal_strlit("platform=");
    reveal_strlit("v=");
    assert("arch"@ + "="@ =~= "arch="@);
    assert("disk_mechanism"@ + "="@ =~= "disk_mechanism="@);
    assert("host_uid"@ + "="@ =~= "host_uid="@);
    assert("hrt_kind"@ + "="@ =~= "hrt_kind="@);
    assert("hrt_present"@ + "="@ =~= "hrt_present="@);
    assert("hrt_vendor"@ + "="@ =~= "hrt_vendor="@);
    assert("os_name"@ + "="@ =~= "os_name="@);
    assert("os_version"@ + "="@ =~= "os_version="@);
    assert("platform"@ + "="@ =~= "platform="@);
    assert("v"@ + "="@ =~= "v="@);
}

/// A sanitized value is the trimmed value, character for character, except
/// that line breaks become spaces and ASCII capitals become small letters:
/// it holds neither line breaks nor ASCII capitals.
pub proof fn lemma_sanitize_shape(v: Seq<char>)
    ensures
        sanitize(v).len() == trim(v).len(),
        forall|k: int|
            0 <= k < sanitize(v).len() ==> {
                let c = #[trigger] sanitize(v)[k];
                &&& c != '\n' && c != '\r'
                &&& !('A' <= c && c <= 'Z')
            },
        forall|k: int|
            0 <= k < trim(v).len() && trim(v)[k] != '\n' && trim(v)[k] != '\r' && !('A' <= trim(
                v,
            )[k] && trim(v)[k] <= 'Z') ==> #[trigger] sanitize(v)[k] == trim(v)[k],
        forall|k: int|
            0 <= k < trim(v).len() && (trim(v)[k] == '\n' || trim(v)[k] == '\r') ==> #[trigger] sanitize(
                v,
            )[k] == ' ',
{
}

} // verus!
