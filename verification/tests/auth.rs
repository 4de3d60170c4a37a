//! Login and logout.

use syno_clean::api::auth::{
    build_login_params, build_logout_params, is_otp_required, Credentials, LoginData,
    AUTH_SESSION, AUTH_SUPPORTED,
};
use syno_clean::api::client::parse_envelope;
use syno_clean::error::{Error, AUTH_API, OTP_REQUIRED_CODE};

#[test]
fn login_params_request_a_sid_for_the_download_station_session() {
    let credentials = Credentials::new("eduard", "hunter2");
    assert_eq!(
        build_login_params(&credentials, AUTH_SESSION),
        vec![
            ("account", "eduard".to_string()),
            ("passwd", "hunter2".to_string()),
            ("session", "DownloadStation".to_string()),
            ("format", "sid".to_string()),
        ]
    );
}

#[test]
fn otp_code_is_sent_only_when_one_is_known() {
    let credentials = Credentials::new("eduard", "hunter2").with_otp("123456");
    let params = build_login_params(&credentials, AUTH_SESSION);
    assert_eq!(params.last(), Some(&("otp_code", "123456".to_string())));

    // An empty code is the same as no code: never send `otp_code=`.
    let credentials = Credentials::new("eduard", "hunter2").with_otp("");
    let params = build_login_params(&credentials, AUTH_SESSION);
    assert!(params.iter().all(|(k, _)| *k != "otp_code"), "{params:?}");
}

#[test]
fn logout_names_the_same_session_login_used() {
    assert_eq!(
        build_logout_params(AUTH_SESSION),
        vec![("session", "DownloadStation".to_string())]
    );
}

#[test]
fn credentials_never_render_the_password() {
    let rendered = Credentials::new("eduard", "hunter2").with_otp("999").redacted();
    assert!(rendered.contains("eduard"), "{rendered}");
    assert!(!rendered.contains("hunter2"), "{rendered}");
    assert!(!rendered.contains("999"), "{rendered}");
}

#[test]
fn redacted_credentials_have_one_exact_form() {
    assert_eq!(
        Credentials::new("ed\"u", "hunter2").redacted(),
        "Credentials { username: \"ed\\\"u\", password: \"<redacted>\", otp: None }"
    );
    assert_eq!(
        Credentials::new("eduard", "hunter2").with_otp("999").redacted(),
        "Credentials { username: \"eduard\", password: \"<redacted>\", otp: Some(\"<redacted>\") }"
    );
}

#[test]
fn login_response_parses_out_the_sid() {
    let body = r#"{"success": true, "data": {"sid": "abc123", "did": "d1"}}"#;
    let data: LoginData = parse_envelope(body, AUTH_API).expect("login payload");
    assert_eq!(data.sid, "abc123");
    assert_eq!(data.did.as_deref(), Some("d1"));
    assert_eq!(data.is_portal_port, None);

    // DSM 7 answers with just the sid on some versions.
    let data: LoginData = parse_envelope(r#"{"success": true, "data": {"sid": "x"}}"#, AUTH_API)
        .expect("minimal payload");
    assert_eq!(data.sid, "x");
}

#[test]
fn a_failed_login_renders_the_auth_specific_message() {
    let err =
        parse_envelope::<LoginData>(r#"{"success": false, "error": {"code": 400}}"#, AUTH_API)
            .expect_err("bad credentials");
    assert!(
        err.message().contains("no such account or incorrect password"),
        "{}",
        err.message()
    );
}

#[test]
fn otp_required_is_recognized_only_for_403_on_the_auth_api() {
    assert!(is_otp_required(&Error::dsm(OTP_REQUIRED_CODE, AUTH_API)));
    assert!(!is_otp_required(&Error::dsm(400, AUTH_API)));
    // 403 means something else entirely on another API.
    assert!(!is_otp_required(&Error::dsm(
        OTP_REQUIRED_CODE,
        "SYNO.DownloadStation.Task"
    )));
    assert!(!is_otp_required(&Error::Auth("nope".into())));
}

#[test]
fn the_supported_range_can_carry_an_otp_code() {
    // Below version 3 there is no `otp_code` parameter at all, so a 2FA account could
    // never log in.
    assert!(AUTH_SUPPORTED.0 >= 3, "{AUTH_SUPPORTED:?}");
    assert!(AUTH_SUPPORTED.0 <= AUTH_SUPPORTED.1);
}
