//! The Cybrium device-posture API as the agent speaks it: endpoint paths,
//! request headers, and what a registration reply means.

use crate::text::{chars_of, string_from_chars};
use vstd::prelude::*;
use vstd::string::StringExecFns;

verus! {

broadcast use vstd::string::group_string_axioms;

/// `s` without its trailing `/`s (`str::trim_end_matches('/')`).
pub open spec fn trim_trailing_slashes(s: Seq<char>) -> Seq<char>
    decreases s.len(),
{
    if s.len() > 0 && s.last() == '/' {
        trim_trailing_slashes(s.drop_last())
    } else {
        s
    }
}

proof fn lemma_trim_trailing_slashes_at(s: Seq<char>, j: int)
    requires
        0 <= j <= s.len(),
        forall|k: int| j <= k < s.len() ==> s[k] == '/',
        j == 0 || s[j - 1] != '/',
    ensures
        trim_trailing_slashes(s) == s.take(j),
    decreases s.len(),
{
    if s.len() > j {
        lemma_trim_trailing_slashes_at(s.drop_last(), j);
        assert(s.drop_last().take(j) =~= s.take(j));
    } else {
        assert(s.take(j) =~= s);
    }
}

/// The API base URL as given, without trailing slashes.
pub fn normalize_base_url(url: &str) -> (s: String)
    ensures
        s@ == trim_trailing_slashes(url@),
{
    let v = chars_of(url);
    let mut j = v.len();
    while j > 0 && v[j - 1] == '/'
        invariant
            0 <= j <= v@.len(),
            forall|k: int| j <= k < v@.len() ==> v@[k] == '/',
        decreases j,
    {
        j = j - 1;
    }
    proof {
        lemma_trim_trailing_slashes_at(v@, j as int);
    }
    let mut head: Vec<char> = Vec::new();
    let mut i: usize = 0;
    while i < j
        invariant
            0 <= i <= j <= v@.len(),
            head@ == v@.take(i as int),
        decreases j - i,
    {
        head.push(v[i]);
        i = i + 1;
        assert(head@ =~= v@.take(i as int));
    }
    string_from_chars(head.as_slice())
}

/// Where a device registers: `<base>/scans/device-posture/register/`.
pub fn register_endpoint(base: &str) -> (s: String)
    ensures
        s@ == base@ + "/scans/device-posture/register/"@,
{
    base.to_owned().concat("/scans/device-posture/register/")
}

/// Where a device uploads its report:
/// `<base>/scans/device-posture/<device_id>/`.
pub fn upload_endpoint(base: &str, device_id: &str) -> (s: String)
    ensures
        s@ == base@ + "/scans/device-posture/"@ + device_id@ + "/"@,
{
    base.to_owned().concat("/scans/device-posture/").concat(device_id).concat("/")
}

/// The `Authorization` header value: `Api-Key <key>`.
pub fn api_key_header(api_key: &str) -> (s: String)
    ensures
        s@ == "Api-Key "@ + api_key@,
{
    "Api-Key ".to_owned().concat(api_key)
}

/// The `User-Agent` header value: `cydevice/<version>`.
pub fn user_agent(version: &str) -> (s: String)
    ensures
        s@ == "cydevice/"@ + version@,
{
    "cydevice/".to_owned().concat(version)
}

// ---------------------------------------------------------------------------
// Registration reply (serde_json)
// ---------------------------------------------------------------------------

#[verifier::external_type_specification]
#[verifier::external_body]
pub struct ExJsonError(serde_json::Error);

/// For a JSON text and a key: `None` when the text is not JSON;
/// `Some(Some(v))` when the text is an object whose member `key` is the
/// string `v`; `Some(None)` otherwise.
pub uninterp spec fn json_string_member(text: Seq<char>, key: Seq<char>) -> Option<Option<Seq<char>>>;

/// `serde_json::from_str::<serde_json::Value>`, then the member `key` read
/// as a string (`Value::get`, `Value::as_str`). The parse error is passed
/// on; what the parser accepts is left to the name `json_string_member`.
#[verifier::external_body]
fn json_string_member_of(text: &str, key: &str) -> (r: Result<Option<String>, serde_json::Error>)
    ensures
        match r {
            Ok(Some(v)) => json_string_member(text@, key@) == Some(Some(v@)),
            Ok(None) => json_string_member(text@, key@) == Some(None::<Seq<char>>),
            Err(_) => json_string_member(text@, key@) is None,
        },
{
    match serde_json::from_str::<serde_json::Value>(text) {
        Ok(value) => Ok(value.get(key).and_then(serde_json::Value::as_str).map(String::from)),
        Err(e) => Err(e),
    }
}

/// Why a registration did not yield a device id.
#[derive(Debug, Clone, Copy, PartialEq, Eq)]
pub enum RegisterError {
    /// The server answered with a non-success status.
    Rejected,
    /// The reply body is not JSON.
    MalformedReply,
    /// The reply has no string `device_id`.
    MissingDeviceId,
}

/// What a registration reply grants once its body has been read as JSON
/// (`None`: not JSON; `Some(None)`: no string `device_id`; `Some(Some(id))`).
pub fn device_id_from_member(member: Option<Option<String>>) -> (r: Result<String, RegisterError>)
    ensures
        match member {
            None => r matches Err(RegisterError::MalformedReply),
            Some(None) => r matches Err(RegisterError::MissingDeviceId),
            Some(Some(id)) => r matches Ok(s) && s@ == id@,
        },
{
    match member {
        Some(Some(id)) => Ok(id),
        Some(None) => Err(RegisterError::MissingDeviceId),
        None => Err(RegisterError::MalformedReply),
    }
}

/// The device id that a registration reply grants: the reply must have a
/// success status and be a JSON object with a string `device_id`.
pub fn device_id_from_register_reply(status_ok: bool, body: &str) -> (r: Result<
    String,
    RegisterError,
>)
    ensures
        !status_ok ==> r matches Err(RegisterError::Rejected),
        status_ok ==> match json_string_member(body@, "device_id"@) {
            None => r matches Err(RegisterError::MalformedReply),
            Some(None) => r matches Err(RegisterError::MissingDeviceId),
            Some(Some(id)) => r matches Ok(s) && s@ == id,
        },
{
    if !status_ok {
        return Err(RegisterError::Rejected);
    }
    let member = match json_string_member_of(body, "device_id") {
        Ok(m) => Some(m),
        Err(_) => None,
    };
    device_id_from_member(member)
}

} // verus!
