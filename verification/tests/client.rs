//! The response envelope, discovery, version negotiation, sessions and calls.

use syno_clean::api::auth::Credentials;
use syno_clean::api::client::{
    build_base_params, build_query, check_envelope, parse_envelope, pick_version_in, webapi_url,
    ApiInfo, ApiInfoMap, CallAction, CallEvent, CallPhase, Decode, Endpoint, Envelope,
    SynoClient, API_INFO_VERSION, QUERY_CGI,
};
use syno_clean::error::{ApiUnavailableReason, Error};
use syno_clean::json::{parse_json, read_text, read_u32, Doc, Json};
use syno_clean::testutil::offline_client;

const DS_TASK: &str = "SYNO.DownloadStation.Task";
const FS_LIST: &str = "SYNO.FileStation.List";

fn info(path: &str, min: u32, max: u32) -> ApiInfo {
    ApiInfo {
        path: path.to_string(),
        min_version: min,
        max_version: max,
    }
}

/// Negotiate a version through the one production entry point.
fn sample_endpoint(
    map: &ApiInfoMap,
    api: &str,
    supported: (u32, u32),
) -> Result<Endpoint, Error> {
    map.endpoint("https://nas.local:5001", api, supported)
}

fn sample_map() -> ApiInfoMap {
    ApiInfoMap::from_entries(vec![
        (DS_TASK.to_string(), info("DownloadStation/task.cgi", 1, 3)),
        (FS_LIST.to_string(), info("entry.cgi", 1, 2)),
    ])
}

#[derive(Debug, PartialEq, Eq)]
struct Payload {
    total: u32,
    name: String,
}

impl Decode for Payload {
    // What a payload is read to is only stated where it is proved.
    fn readable(_: Doc) -> bool {
        true
    }

    fn reads(_: Doc, _: Self) -> bool {
        true
    }

    fn decode(json: &Json) -> Option<Self> {
        Some(Payload {
            total: read_u32(json.get("total"))?,
            name: read_text(json.get("name"))?,
        })
    }
}

fn envelope(body: &str) -> Envelope {
    Envelope::from_json(&parse_json(body).expect("valid JSON")).expect("an envelope")
}

#[test]
fn success_envelope_yields_the_payload() {
    let body = r#"{"success": true, "data": {"total": 2, "name": "ok"}}"#;
    let parsed: Payload = parse_envelope(body, DS_TASK).expect("success payload");
    assert_eq!(
        parsed,
        Payload {
            total: 2,
            name: "ok".into()
        }
    );
}

#[test]
fn error_envelope_becomes_a_dsm_error_carrying_the_code_and_api() {
    let body = r#"{"success": false, "error": {"code": 119}}"#;
    let err = parse_envelope::<Payload>(body, DS_TASK).expect_err("failure envelope");
    match err {
        Error::Dsm { code, ref api } => {
            assert_eq!(code, 119);
            assert_eq!(api, DS_TASK);
        }
        other => panic!("expected Error::Dsm, got {other:?}"),
    }
    assert!(err.message().contains("invalid session ID"), "{}", err.message());
}

#[test]
fn error_envelope_keeps_the_per_item_errors_array() {
    let body = r#"{"success": false, "error": {"code": 408, "errors": [{"path": "/a"}]}}"#;
    let err = envelope(body).error.expect("error object");
    assert_eq!(err.code, 408);
    assert_eq!(err.errors.len(), 1);
}

#[test]
fn malformed_body_is_a_parse_error_not_a_panic() {
    for body in ["", "not json at all", "{\"success\":", "[1, 2, 3]"] {
        let err =
            parse_envelope::<Payload>(body, DS_TASK).expect_err("malformed body must not parse");
        assert!(matches!(err, Error::Parse(_)), "{body:?} gave {err:?}");
    }
}

#[test]
fn payload_of_the_wrong_shape_is_a_parse_error() {
    let body = r#"{"success": true, "data": {"total": "two"}}"#;
    let err = parse_envelope::<Payload>(body, DS_TASK).expect_err("wrong payload shape");
    assert!(matches!(err, Error::Parse(_)), "{err:?}");
}

#[test]
fn success_without_data_is_rejected_when_a_payload_is_required() {
    let body = r#"{"success": true}"#;
    let err = parse_envelope::<Payload>(body, DS_TASK).expect_err("no data");
    assert!(matches!(err, Error::Parse(_)), "{err:?}");
    assert!(err.message().contains("no data"), "{}", err.message());
}

#[test]
fn success_without_data_is_fine_for_no_data_methods() {
    // logout / pause / resume answer with a bare `{"success": true}`.
    check_envelope(r#"{"success": true}"#, DS_TASK).expect("no-data success");
    check_envelope(r#"{"success": true, "data": null}"#, DS_TASK).expect("explicit null");

    // The envelope itself keeps the absent payload as `None` rather than inventing one:
    // `parse_envelope` is what turns that into an error.
    let bare = envelope(r#"{"success": true}"#);
    assert!(bare.into_result(DS_TASK).expect("optional").is_none());
}

#[test]
fn check_envelope_reports_the_dsm_code() {
    let err = check_envelope(r#"{"success": false, "error": {"code": 105}}"#, DS_TASK)
        .expect_err("failure");
    assert!(matches!(err, Error::Dsm { code: 105, .. }), "{err:?}");
}

#[test]
fn failure_without_an_error_code_is_a_protocol_error() {
    // Not translatable to a DSM message: there is no code to translate.
    let err = check_envelope(r#"{"success": false}"#, DS_TASK).expect_err("no code");
    assert!(matches!(err, Error::Parse(_)), "{err:?}");
}

#[test]
fn a_body_that_is_json_but_not_an_envelope_is_not_a_silent_success() {
    let err = check_envelope(r#"{"totally": "unrelated"}"#, DS_TASK).expect_err("not an envelope");
    assert!(matches!(err, Error::Parse(_)), "{err:?}");
}

#[test]
fn discovery_response_parses_into_the_map() {
    let body = r#"{
        "success": true,
        "data": {
            "SYNO.API.Auth": {"path": "entry.cgi", "minVersion": 1, "maxVersion": 7},
            "SYNO.DownloadStation.Task": {
                "path": "DownloadStation/task.cgi", "minVersion": 1, "maxVersion": 3
            }
        }
    }"#;
    let map = ApiInfoMap::from_response(body).expect("valid discovery response");
    assert_eq!(map.len(), 2);
    let info = map.get(DS_TASK).expect("present");
    assert_eq!(info.path, "DownloadStation/task.cgi");
    assert_eq!((info.min_version, info.max_version), (1, 3));
}

#[test]
fn discovery_failure_surfaces_as_a_dsm_error() {
    let body = r#"{"success": false, "error": {"code": 105}}"#;
    let err = ApiInfoMap::from_response(body).expect_err("failed discovery");
    assert!(matches!(err, Error::Dsm { code: 105, .. }), "{err:?}");
}

#[test]
fn looking_up_a_present_api_succeeds() {
    let map = sample_map();
    assert!(map.get(DS_TASK).is_ok());
    assert_eq!(map.get(FS_LIST).expect("present").path, "entry.cgi");
    assert!(!map.is_empty());
}

#[test]
fn looking_up_a_missing_api_names_the_dsm_package() {
    let map = ApiInfoMap::from_entries(vec![(DS_TASK.to_string(), info("task.cgi", 1, 3))]);
    let err = map.get(FS_LIST).expect_err("absent API");
    assert!(matches!(err, Error::ApiUnavailable { .. }), "{err:?}");
    assert!(
        err.message().starts_with("File Station is not installed"),
        "{}",
        err.message()
    );
}

#[test]
fn empty_map_reports_everything_missing() {
    let map = ApiInfoMap::default();
    assert!(map.is_empty());
    assert_eq!(map.len(), 0);
    assert!(map.get(DS_TASK).is_err());
}

#[test]
fn pick_version_clamps_to_the_nas_max() {
    // NAS tops out at 3, we would go to 5: take 3.
    let map = sample_map();
    assert_eq!(
        sample_endpoint(&map, DS_TASK, (1, 5))
            .expect("overlap")
            .version,
        3
    );
}

#[test]
fn pick_version_clamps_to_the_supported_max() {
    // The NAS offers 3 but this client only implements up to 1.
    let map = sample_map();
    assert_eq!(
        sample_endpoint(&map, DS_TASK, (1, 1))
            .expect("overlap")
            .version,
        1
    );
}

#[test]
fn pick_version_takes_the_top_of_the_overlap() {
    assert_eq!(
        pick_version_in(DS_TASK, (2, 6), (3, 4)).expect("overlap"),
        4
    );
    assert_eq!(
        pick_version_in(DS_TASK, (1, 1), (1, 1)).expect("overlap"),
        1
    );
}

#[test]
fn pick_version_errors_when_the_nas_is_too_old() {
    // DSM 6-era NAS: it offers only v1, this client needs v2+.
    let err = pick_version_in(DS_TASK, (1, 1), (2, 3)).expect_err("no overlap");
    match err {
        Error::ApiUnavailable { ref api, reason } => {
            assert_eq!(api, DS_TASK);
            assert!(
                matches!(
                    reason,
                    ApiUnavailableReason::VersionMismatch {
                        nas: (1, 1),
                        supported: (2, 3)
                    }
                ),
                "{reason:?}"
            );
        }
        other => panic!("expected ApiUnavailable, got {other:?}"),
    }
    let rendered = err.message();
    assert!(rendered.contains("1-1"), "{rendered}");
    assert!(rendered.contains("2-3"), "{rendered}");
}

#[test]
fn pick_version_errors_when_the_nas_is_too_new() {
    let err = pick_version_in(FS_LIST, (5, 9), (1, 2)).expect_err("no overlap");
    assert!(matches!(err, Error::ApiUnavailable { .. }), "{err:?}");
}

#[test]
fn pick_version_on_a_missing_api_reports_the_api_not_the_range() {
    let err = sample_endpoint(&ApiInfoMap::default(), FS_LIST, (1, 2)).expect_err("absent API");
    assert!(err.message().contains("not installed"), "{}", err.message());
}

#[test]
fn webapi_urls_are_built_from_the_discovered_path() {
    assert_eq!(
        webapi_url("https://nas.local:5001", "DownloadStation/task.cgi"),
        "https://nas.local:5001/webapi/DownloadStation/task.cgi"
    );
    // Stray slashes on either side must not double up.
    assert_eq!(
        webapi_url("https://nas.local:5001/", "/entry.cgi"),
        "https://nas.local:5001/webapi/entry.cgi"
    );
}

#[test]
fn discovery_is_not_served_from_entry_cgi() {
    // The whole point of the special case: query.cgi, always.
    assert_eq!(
        webapi_url("http://nas:5000", QUERY_CGI),
        "http://nas:5000/webapi/query.cgi"
    );
    assert_eq!(API_INFO_VERSION, 1);
}

#[test]
fn endpoint_combines_base_url_discovered_path_and_negotiated_version() {
    let endpoint = sample_map()
        .endpoint("https://nas.local:5001", DS_TASK, (1, 1))
        .expect("resolvable");
    assert_eq!(
        endpoint,
        Endpoint {
            api: DS_TASK.to_string(),
            url: "https://nas.local:5001/webapi/DownloadStation/task.cgi".to_string(),
            version: 1,
        }
    );
}

#[test]
fn endpoint_propagates_a_missing_api() {
    let err = sample_map()
        .endpoint("https://nas.local:5001", "SYNO.FileStation.Delete", (1, 2))
        .expect_err("absent API");
    assert!(matches!(err, Error::ApiUnavailable { .. }), "{err:?}");
}

#[test]
fn a_fresh_client_carries_no_session_and_cannot_repair_one() {
    let client = offline_client();
    assert_eq!(client.sid(), None);
    // No credentials: a rejected session has to fail rather than loop.
    assert!(!client.can_relogin());
    assert!(client.base_url().starts_with("https://nas.invalid:5001"));
}

#[test]
fn a_sid_can_be_seeded_replaced_and_cleared() {
    let mut client = offline_client().with_sid("cached");
    assert_eq!(client.sid().as_deref(), Some("cached"));

    // The re-login path replaces rather than appends.
    client.set_sid("renewed");
    assert_eq!(client.sid().as_deref(), Some("renewed"));

    client.clear_sid();
    assert_eq!(client.sid(), None);
}

#[test]
fn credentials_are_what_make_the_transparent_retry_possible() {
    let client = offline_client().with_credentials(Credentials::new("eduard", "hunter2"));
    assert!(client.can_relogin());
    // And the password is not reachable through the rendered form.
    assert!(!client.redacted().contains("hunter2"));
}

#[test]
fn base_params_carry_api_version_and_method() {
    assert_eq!(
        build_base_params(DS_TASK, 3, "list"),
        vec![
            ("api", DS_TASK.to_string()),
            ("version", "3".to_string()),
            ("method", "list".to_string()),
        ]
    );
}

#[test]
fn a_query_ends_with_the_session_where_there_is_one() {
    let endpoint = Endpoint {
        api: DS_TASK.to_string(),
        url: "https://nas".to_string(),
        version: 1,
    };
    let params = [("id", "a,b".to_string())];
    let query = build_query(&endpoint, "pause", &params, Some("s1".to_string()));
    assert_eq!(
        query,
        vec![
            ("api", DS_TASK.to_string()),
            ("version", "1".to_string()),
            ("method", "pause".to_string()),
            ("id", "a,b".to_string()),
            ("_sid", "s1".to_string()),
        ]
    );
    let query = build_query(&endpoint, "pause", &params, None);
    assert!(query.iter().all(|(k, _)| *k != "_sid"), "{query:?}");
}

/// A discovered client with a session it can renew.
fn online_client() -> SynoClient {
    let mut client = offline_client()
        .with_credentials(Credentials::new("eduard", "hunter2"))
        .with_sid("old");
    client.apis = sample_map();
    client
}

const OK: &str = r#"{"success": true}"#;

fn rejected(code: i32) -> String {
    format!("{{\"success\": false, \"error\": {{\"code\": {code}}}}}")
}

#[test]
fn a_call_that_succeeds_is_answered_at_once() {
    let mut client = online_client();
    let (endpoint, action) = client.begin_call(DS_TASK, (1, 1)).expect("a call");
    assert_eq!(endpoint.version, 1);
    assert!(matches!(action, CallAction::Send(Some(ref sid)) if sid == "old"));
    let (phase, action) =
        client.advance_call(DS_TASK, CallPhase::Sent, CallEvent::Answered(Ok(OK.to_string())));
    assert_eq!(phase, CallPhase::Over);
    assert!(matches!(action, CallAction::Finish(Ok(ref body)) if body == OK));
    assert_eq!(client.sid().as_deref(), Some("old"));
}

#[test]
fn a_rejected_session_is_renewed_once_and_the_request_replayed() {
    let mut client = online_client();
    let (phase, action) = client.advance_call(
        DS_TASK,
        CallPhase::Sent,
        CallEvent::Answered(Ok(rejected(119))),
    );
    assert!(matches!(action, CallAction::Login));
    assert_eq!(client.sid(), None, "the dead session is dropped");

    let (phase, action) =
        client.advance_call(DS_TASK, phase, CallEvent::LoggedIn(Ok("new".to_string())));
    assert!(matches!(action, CallAction::Send(Some(ref sid)) if sid == "new"));
    assert_eq!(client.sid().as_deref(), Some("new"));

    // Rejected again: the answer is the caller's, there is no third try.
    let (phase, action) =
        client.advance_call(DS_TASK, phase, CallEvent::Answered(Ok(rejected(119))));
    assert_eq!(phase, CallPhase::Over);
    assert!(matches!(action, CallAction::Finish(Ok(_))));
}

#[test]
fn a_permission_error_that_survives_a_fresh_session_is_a_real_one() {
    let mut client = online_client();
    let (phase, action) = client.advance_call(
        DS_TASK,
        CallPhase::Sent,
        CallEvent::Answered(Ok(rejected(105))),
    );
    assert!(matches!(action, CallAction::Login));
    let (phase, _) =
        client.advance_call(DS_TASK, phase, CallEvent::LoggedIn(Ok("new".to_string())));
    client.advance_call(DS_TASK, phase, CallEvent::Answered(Ok(rejected(105))));
    assert!(client.permission_is_real);

    // From now on a 105 is not taken for a stale session; a 119 still is.
    assert!(!client.should_retry_session(105));
    assert!(client.should_retry_session(119));
}

#[test]
fn without_credentials_a_rejected_session_fails_rather_than_loops() {
    let mut client = offline_client().with_sid("old");
    client.apis = sample_map();
    let (phase, action) = client.advance_call(
        DS_TASK,
        CallPhase::Sent,
        CallEvent::Answered(Ok(rejected(119))),
    );
    assert_eq!(phase, CallPhase::Over);
    assert!(matches!(
        action,
        CallAction::Finish(Err(Error::Dsm { code: 119, .. }))
    ));
    assert!(matches!(client.login_credentials(), Err(Error::Auth(_))));
}

#[test]
fn an_undiscovered_api_fails_before_anything_is_sent() {
    let client = offline_client();
    assert!(matches!(
        client.begin_call(DS_TASK, (1, 1)),
        Err(Error::ApiUnavailable { .. })
    ));
}

#[test]
fn a_field_nobody_reads_may_be_one_nobody_can() {
    let body = r#"{"success": true, "odd": 1e999, "data": {"x": ["\ud800", 1e999]}}"#;
    assert!(check_envelope(body, "SYNO.API.Info").is_ok());
    let read = r#"{"success": false, "error": {"code": 1e999}}"#;
    assert!(matches!(check_envelope(read, "SYNO.API.Info"), Err(Error::Parse(_))));
    let detail = r#"{"success": false, "error": {"code": 119, "errors": [[1e999]]}}"#;
    assert!(matches!(check_envelope(detail, "SYNO.API.Info"), Err(Error::Parse(_))));
}

#[test]
fn fields_without_names_are_read_in_their_order() {
    assert!(check_envelope("[true, null, null]", "SYNO.API.Info").is_ok());
    match check_envelope("[false, null, [119]]", "SYNO.API.Info") {
        Err(Error::Dsm { code, .. }) => assert_eq!(code, 119),
        other => panic!("{other:?}"),
    }
    assert!(matches!(check_envelope("[true, null]", "SYNO.API.Info"), Err(Error::Parse(_))));
    assert!(matches!(check_envelope("[true, null, null, 1]", "SYNO.API.Info"), Err(Error::Parse(_))));
    let map = ApiInfoMap::from_response(r#"[true, {"A": ["entry.cgi", 1, 2]}, null]"#)
        .expect("a discovery response");
    assert_eq!(map.get("A").expect("known").path, "entry.cgi");
}

#[test]
fn a_field_named_twice_is_refused_and_a_stranger_is_not() {
    let twice = r#"{"success": false, "success": true}"#;
    assert!(matches!(check_envelope(twice, "SYNO.API.Info"), Err(Error::Parse(_))));
    let stranger = r#"{"x": 1, "success": true, "x": 2}"#;
    assert!(check_envelope(stranger, "SYNO.API.Info").is_ok());
    let entry = r#"{"success": true, "data": {
        "A": {"path": "a.cgi", "path": "b.cgi", "minVersion": 1, "maxVersion": 2}}}"#;
    assert!(matches!(ApiInfoMap::from_response(entry), Err(Error::Parse(_))));
    // The names of the APIs are no fields: of two entries the later counts.
    let apis = r#"{"success": true, "data": {
        "A": {"path": "a.cgi", "minVersion": 1, "maxVersion": 2},
        "A": {"path": "b.cgi", "minVersion": 1, "maxVersion": 2}}}"#;
    let map = ApiInfoMap::from_response(apis).expect("a discovery response");
    assert_eq!(map.get("A").expect("known").path, "b.cgi");
}

#[test]
fn discovery_maps_are_equal_as_maps() {
    let info = |path: &str| ApiInfo { path: path.to_string(), min_version: 1, max_version: 2 };
    let one = ApiInfoMap::from_entries(vec![
        ("B".to_string(), info("b")),
        ("A".to_string(), info("a")),
    ]);
    let other = ApiInfoMap::from_entries(vec![
        ("A".to_string(), info("a")),
        ("B".to_string(), info("b")),
    ]);
    assert_eq!(one, other);
    assert_eq!(one.clone(), one);
    assert_ne!(one, ApiInfoMap::default());
}

#[test]
fn a_discovery_response_is_asked_for_and_adopted() {
    let mut client = offline_client();
    let (url, params) = client.discovery_request();
    assert_eq!(url, "https://nas.invalid:5001/webapi/query.cgi");
    assert_eq!(params.last(), Some(&("query", "all".to_string())));
    assert!(client.adopt_discovery("{}").is_err());
    assert!(client.endpoint(DS_TASK, (1, 3)).is_err());
    // A full discovery: hundreds of entries, and the one asked for among them.
    let mut entries: Vec<String> = (0..800)
        .map(|n| {
            format!("\"SYNO.Some.Api.Number{n}\": {{\"maxVersion\": 2, \"minVersion\": 1, \"path\": \"entry.cgi\", \"requestFormat\": \"JSON\"}}")
        })
        .collect();
    entries.push(format!("\"{DS_TASK}\": {{\"maxVersion\": 3, \"minVersion\": 1, \"path\": \"task.cgi\"}}"));
    let body = format!("{{\"data\": {{{}}}, \"success\": true}}", entries.join(", "));
    client.adopt_discovery(&body).expect("a discovery response");
    let endpoint = client.endpoint(DS_TASK, (1, 3)).expect("known");
    assert_eq!((endpoint.url.as_str(), endpoint.version), ("https://nas.invalid:5001/webapi/task.cgi", 3));
}

#[test]
fn a_logout_forgets_the_session_only_where_it_succeeded() {
    let mut client = offline_client().with_sid("cached");
    assert!(client.settle_logout(Err(Error::dsm(105, "SYNO.API.Auth"))).is_err());
    assert_eq!(client.sid(), Some("cached".to_string()));
    assert!(client.settle_logout(Ok(())).is_ok());
    assert_eq!(client.sid(), None);
}
