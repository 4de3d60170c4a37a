//! Error texts, classification, redaction and the startup diagnostic.

use syno_clean::error::{
    connection_diagnostic, connection_hint, dsm_message, is_session_error, may_be_stale_session,
    redact_query, ApiUnavailableReason, Error, IoError, IoErrorKind, AUTH_API, OTP_REQUIRED_CODE,
    PERMISSION_DENIED_CODE, SESSION_ERROR_CODES,
};

const OTHER_API: &str = "SYNO.DownloadStation.Task";

#[test]
fn common_codes_map_to_specific_text() {
    assert_eq!(dsm_message(100, OTHER_API), "unknown error");
    assert_eq!(dsm_message(101, OTHER_API), "invalid parameter");
    assert_eq!(
        dsm_message(102, OTHER_API),
        "the requested API does not exist"
    );
    assert_eq!(
        dsm_message(103, OTHER_API),
        "the requested method does not exist"
    );
    assert_eq!(
        dsm_message(105, OTHER_API),
        "the logged-in session does not have permission for this request"
    );
    assert_eq!(dsm_message(106, OTHER_API), "session timeout");
    assert_eq!(
        dsm_message(107, OTHER_API),
        "session interrupted by duplicate login"
    );
    assert_eq!(dsm_message(119, OTHER_API), "invalid session ID (SID)");
}

#[test]
fn common_codes_apply_to_the_auth_api_too() {
    assert_eq!(dsm_message(119, AUTH_API), "invalid session ID (SID)");
    assert_eq!(dsm_message(106, AUTH_API), "session timeout");
}

// 400/401/402 are the three most easily transposed codes in the whole table, so each is
// asserted on its own.
#[test]
fn auth_400_is_bad_credentials() {
    assert_eq!(
        dsm_message(400, AUTH_API),
        "no such account or incorrect password"
    );
}

#[test]
fn auth_401_is_account_disabled() {
    assert_eq!(dsm_message(401, AUTH_API), "account disabled");
}

#[test]
fn auth_402_is_permission_denied() {
    assert_eq!(dsm_message(402, AUTH_API), "permission denied");
}

#[test]
fn remaining_auth_codes_map_to_specific_text() {
    assert_eq!(
        dsm_message(403, AUTH_API),
        "2-step verification code required"
    );
    assert_eq!(
        dsm_message(404, AUTH_API),
        "failed to authenticate 2-step verification code"
    );
    assert_eq!(
        dsm_message(406, AUTH_API),
        "2-step verification is enforced for this account"
    );
    assert_eq!(dsm_message(407, AUTH_API), "blocked IP source");
    assert_eq!(
        dsm_message(408, AUTH_API),
        "expired password (cannot be changed)"
    );
    assert_eq!(dsm_message(409, AUTH_API), "expired password");
    assert_eq!(dsm_message(410, AUTH_API), "password must be changed");
}

#[test]
fn auth_table_does_not_leak_into_other_apis() {
    // 400 on Download Station is *not* "incorrect password"; without an API-specific
    // table it must fall through to the generic message.
    let msg = dsm_message(400, OTHER_API);
    assert!(msg.contains("400"), "{msg}");
    assert!(!msg.contains("password"), "{msg}");
}

#[test]
fn unknown_code_falls_back_to_a_message_naming_the_code() {
    let msg = dsm_message(9999, OTHER_API);
    assert!(msg.contains("9999"), "{msg}");
    let msg = dsm_message(-1, AUTH_API);
    assert!(msg.contains("-1"), "{msg}");
}

#[test]
fn dsm_error_display_includes_api_code_and_meaning() {
    let err = Error::dsm(401, AUTH_API);
    let rendered = err.message();
    assert!(rendered.contains(AUTH_API), "{rendered}");
    assert!(rendered.contains("401"), "{rendered}");
    assert!(rendered.contains("account disabled"), "{rendered}");
}

#[test]
fn every_error_variant_has_one_exact_text() {
    assert_eq!(
        Error::dsm(401, AUTH_API).message(),
        "SYNO.API.Auth failed: account disabled (DSM error 401)"
    );
    assert_eq!(
        Error::Http { message: "refused".to_string() }.message(),
        "HTTP request failed: refused"
    );
    assert_eq!(
        Error::config("no host").message(),
        "configuration error: no host"
    );
    assert_eq!(
        Error::Io(IoError { kind: IoErrorKind::Other, message: "gone".to_string() }).message(),
        "I/O error: gone"
    );
    assert_eq!(
        Error::Parse("eof".to_string()).message(),
        "failed to parse response: eof"
    );
    assert_eq!(
        Error::Auth("no".to_string()).message(),
        "authentication failed: no"
    );
    assert_eq!(
        Error::unsafe_path("/a\n", "bad").message(),
        "refusing unsafe path \"/a\\n\": bad"
    );
    assert_eq!(
        ApiUnavailableReason::NotInstalled.message(),
        "not installed"
    );
}

#[test]
fn session_errors_are_exactly_106_107_119() {
    assert!(is_session_error(106));
    assert!(is_session_error(107));
    assert!(is_session_error(119));
    assert!(!is_session_error(105));
    assert!(!is_session_error(400));
}

#[test]
fn a_stale_session_may_also_arrive_as_105() {
    // Observed on a real DSM 7: a cached sid returned 105 for every request, while a
    // fresh login with the same credentials listed the tasks immediately.
    assert!(may_be_stale_session(105));
    for code in SESSION_ERROR_CODES {
        assert!(may_be_stale_session(code));
    }
    // Everything else stays outside: a re-login cannot fix a bad password or a missing
    // API, and retrying would only double the traffic.
    for code in [100, 101, 102, 103, 104, 400, 402, 403, 408] {
        assert!(!may_be_stale_session(code), "{code}");
    }
}

#[test]
fn code_105_still_reads_as_a_permission_problem() {
    let rendered = dsm_message(PERMISSION_DENIED_CODE, OTHER_API);
    assert!(rendered.contains("permission"), "{rendered}");
}

#[test]
fn missing_api_names_the_dsm_package() {
    let err = Error::api_missing("SYNO.FileStation.List");
    assert_eq!(
        err.message(),
        "File Station is not installed on this NAS (missing API SYNO.FileStation.List)"
    );

    let err = Error::api_missing("SYNO.DownloadStation.Task");
    assert!(err.message().starts_with("Download Station is not installed"));

    let err = Error::api_missing("SYNO.Weird.Thing");
    assert!(err.message().contains("SYNO.Weird.Thing"));
}

#[test]
fn version_mismatch_reports_both_ranges() {
    let err = Error::api_version_mismatch("SYNO.DownloadStation.Task", (2, 3), (1, 1));
    let rendered = err.message();
    assert!(rendered.contains("2-3"), "{rendered}");
    assert!(rendered.contains("1-1"), "{rendered}");
}

#[test]
fn unsafe_path_error_quotes_the_path_and_reason() {
    let err = Error::unsafe_path("/downloads", "fewer than two path components");
    let rendered = err.message();
    assert!(rendered.contains("/downloads"), "{rendered}");
    assert!(rendered.contains("fewer than two"), "{rendered}");
}

const TARGET: &str = "https://nas.local:5001";

#[test]
fn a_login_failure_names_the_account_and_what_the_code_means() {
    let err = Error::dsm(400, AUTH_API);
    let diagnostic = connection_diagnostic(&err, TARGET, "eduard");
    // Where it tried, as whom...
    assert!(diagnostic.contains("nas.local"), "{diagnostic}");
    assert!(diagnostic.contains("5001"), "{diagnostic}");
    assert!(diagnostic.contains("eduard"), "{diagnostic}");
    assert!(diagnostic.starts_with("cannot log in"), "{diagnostic}");
    // ...what DSM said, in words rather than as a bare 400...
    assert!(
        diagnostic.contains("no such account or incorrect password"),
        "{diagnostic}"
    );
    // ...and what to do about it.
    assert!(diagnostic.contains("SYNO_CLEAN_PASSWORD"), "{diagnostic}");
}

#[test]
fn each_auth_failure_points_somewhere_different() {
    // These are the codes whose fixes are in completely different places; rendering them
    // all as "check your password" is the failure mode.
    let hint = |code| connection_hint(&Error::dsm(code, AUTH_API));
    assert!(hint(401).contains("disabled"), "{}", hint(401));
    assert!(hint(402).contains("permissions"), "{}", hint(402));
    assert!(
        hint(OTP_REQUIRED_CODE).contains("SYNO_CLEAN_OTP"),
        "{}",
        hint(OTP_REQUIRED_CODE)
    );
    assert!(hint(407).contains("Auto Block"), "{}", hint(407));
    assert!(hint(409).contains("expired"), "{}", hint(409));
    // An auth code nobody has documented still gets a usable next step.
    assert!(!hint(499).is_empty());
}

#[test]
fn a_non_auth_failure_reads_as_a_connection_problem() {
    let err = Error::dsm(105, OTHER_API);
    let diagnostic = connection_diagnostic(&err, TARGET, "eduard");
    assert!(diagnostic.starts_with("cannot reach"), "{diagnostic}");
    assert!(diagnostic.contains("nas.local:5001"), "{diagnostic}");
    assert!(diagnostic.contains("Download Station"), "{diagnostic}");
}

#[test]
fn a_missing_package_says_to_install_it() {
    let err = Error::api_missing("SYNO.FileStation.List");
    let diagnostic = connection_diagnostic(&err, TARGET, "eduard");
    assert!(
        diagnostic.contains("File Station is not installed"),
        "{diagnostic}"
    );
    assert!(diagnostic.contains("Package Center"), "{diagnostic}");
}

/// The text reqwest produces: its own description, then the whole URL.
fn reqwest_style(url: &str) -> String {
    format!("error sending request for url ({url})")
}

#[test]
fn a_transport_errors_url_is_rendered_without_its_query() {
    // Every non-login request carries `_sid=<bearer credential>` in the query, and reqwest
    // appends the whole URL to the error it hands back.
    let url = reqwest::Url::parse(
        "https://nas.local:5001/webapi/entry.cgi\
         ?api=SYNO.FileStation.List&method=list&_sid=SECRET-SESSION-ID",
    )
    .expect("a valid url");
    let redacted = redact_query(&reqwest_style(url.as_str()), Some(url.as_str()));

    assert!(!redacted.contains("_sid"), "{redacted}");
    assert!(!redacted.contains("SECRET-SESSION-ID"), "{redacted}");
    // The half that says which endpoint failed survives.
    assert!(
        redacted.contains("https://nas.local:5001/webapi/entry.cgi"),
        "{redacted}"
    );
    assert!(redacted.starts_with("error sending request"), "{redacted}");
}

#[test]
fn an_error_with_no_query_or_no_url_is_left_exactly_as_it_was() {
    let bare = reqwest::Url::parse("https://nas.local:5001/webapi/entry.cgi").expect("url");
    let text = reqwest_style(bare.as_str());
    assert_eq!(redact_query(&text, Some(bare.as_str())), text);
    assert_eq!(redact_query("connection closed", None), "connection closed");
}

#[test]
fn a_fragment_behind_the_query_is_kept() {
    let url = "https://nas.local:5001/webapi/entry.cgi?_sid=SECRET#part";
    let redacted = redact_query(&reqwest_style(url), Some(url));
    assert_eq!(
        redacted,
        reqwest_style("https://nas.local:5001/webapi/entry.cgi#part")
    );
}

#[test]
fn every_diagnostic_is_headline_error_and_hint() {
    for err in [
        Error::dsm(400, AUTH_API),
        Error::dsm(101, OTHER_API),
        Error::api_missing("SYNO.DownloadStation.Task"),
        Error::Auth("no sid in the login response".into()),
        Error::config("nothing configured"),
    ] {
        let diagnostic = connection_diagnostic(&err, TARGET, "eduard");
        let lines: Vec<&str> = diagnostic.lines().collect();
        assert_eq!(lines.len(), 3, "{diagnostic}");
        assert!(lines[1].trim() == err.message(), "{diagnostic}");
        assert!(lines[2].starts_with("  hint: "), "{diagnostic}");
        assert!(lines[2].len() > "  hint: ".len(), "{diagnostic}");
    }
}
