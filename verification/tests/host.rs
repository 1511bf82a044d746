use cydevice::api::{
    api_key_header, device_id_from_member, device_id_from_register_reply, normalize_base_url, register_endpoint,
    upload_endpoint, user_agent, RegisterError,
};
use cydevice::posture::uuid_from_ioreg;

#[test]
fn reads_platform_uuid_from_ioreg() {
    let out = "+-o Root  <class IOPlatformExpertDevice>\n    {\n      \"IOPlatformSerialNumber\" = \"C02XYZ\"\n      \"IOPlatformUUID\" = \"4C4C4544-0042-3510-8051-B8C04F4E4B32\"\n    }\n";
    assert_eq!(
        uuid_from_ioreg(out),
        Some("4C4C4544-0042-3510-8051-B8C04F4E4B32".to_string())
    );
    assert_eq!(uuid_from_ioreg("\"IOPlatformUUID\" = \"unterminated\n"), None);
    assert_eq!(uuid_from_ioreg(""), None);
}

#[test]
fn builds_endpoints_and_headers() {
    let base = normalize_base_url("https://app.cybrium.ai/api//");
    assert_eq!(base, "https://app.cybrium.ai/api");
    assert_eq!(normalize_base_url("https://x"), "https://x");
    assert_eq!(
        register_endpoint(&base),
        "https://app.cybrium.ai/api/scans/device-posture/register/"
    );
    assert_eq!(
        upload_endpoint(&base, "dev-9"),
        "https://app.cybrium.ai/api/scans/device-posture/dev-9/"
    );
    assert_eq!(api_key_header("k123"), "Api-Key k123");
    assert_eq!(user_agent("0.1.0"), "cydevice/0.1.0");
}

#[test]
fn register_reply_yields_device_id() {
    assert_eq!(
        device_id_from_register_reply(true, "{\"device_id\": \"dev-42\", \"ok\": true}"),
        Ok("dev-42".to_string())
    );
    assert_eq!(
        device_id_from_register_reply(true, "{\"device_id\": 42}"),
        Err(RegisterError::MissingDeviceId)
    );
    assert_eq!(
        device_id_from_register_reply(true, "[1, 2]"),
        Err(RegisterError::MissingDeviceId)
    );
    assert_eq!(
        device_id_from_register_reply(true, "not json"),
        Err(RegisterError::MalformedReply)
    );
    assert_eq!(
        device_id_from_register_reply(false, "{\"device_id\": \"dev-42\"}"),
        Err(RegisterError::Rejected)
    );
}

#[test]
fn parsed_reply_member_decides_the_outcome() {
    assert_eq!(
        device_id_from_member(Some(Some("dev-7".to_string()))),
        Ok("dev-7".to_string())
    );
    assert_eq!(device_id_from_member(Some(None)), Err(RegisterError::MissingDeviceId));
    assert_eq!(device_id_from_member(None), Err(RegisterError::MalformedReply));
}
