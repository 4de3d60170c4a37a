//! Download Station parameters and per-task results.

use syno_clean::api::client::parse_envelope;
use syno_clean::api::download_station::{
    build_delete_params, build_ds_id_params, build_getinfo_params, build_list_params,
    check_task_result, check_task_results, task_request, TaskMethod, TaskOpResult, DS_TASK_API,
    DS_TASK_SUPPORTED, LIST_ADDITIONAL,
};
use syno_clean::error::Error;

#[test]
fn list_params_encode_additional_as_a_comma_separated_string() {
    // Download Station v1 takes `a,b,c`; File Station would want a JSON array here.
    // Getting this wrong yields a task list with no detail blocks rather than an error.
    let params = build_list_params(0, None);
    assert_eq!(
        params,
        vec![
            ("additional", "detail,transfer,file".to_string()),
            ("offset", "0".to_string()),
            ("limit", "-1".to_string()),
        ]
    );
}

#[test]
fn an_explicit_limit_and_offset_are_passed_through() {
    assert_eq!(
        build_list_params(40, Some(20)),
        vec![
            ("additional", "detail,transfer,file".to_string()),
            ("offset", "40".to_string()),
            ("limit", "20".to_string()),
        ]
    );
}

#[test]
fn the_additional_set_is_exactly_what_the_model_needs() {
    assert_eq!(LIST_ADDITIONAL, ["detail", "transfer", "file"]);
}

#[test]
fn the_supported_version_is_pinned_to_v1() {
    // The v1 string statuses are what the model parses; v2/v3 return numeric codes and a
    // different `additional` shape.
    assert_eq!(DS_TASK_SUPPORTED, (1, 1));
}

fn ids(items: &[&str]) -> Vec<String> {
    items.iter().map(|id| (*id).to_string()).collect()
}

#[test]
fn ids_are_encoded_as_one_comma_separated_string() {
    assert_eq!(
        build_ds_id_params(&ids(&["dbid_001", "dbid_002", "dbid_003"])),
        vec![("id", "dbid_001,dbid_002,dbid_003".to_string())]
    );
}

#[test]
fn a_single_id_carries_no_separator() {
    assert_eq!(
        build_ds_id_params(&ids(&["dbid_001"])),
        vec![("id", "dbid_001".to_string())]
    );
}

#[test]
fn delete_never_asks_to_force_complete() {
    // `force_complete=true` marks an unfinished task complete and keeps what it
    // downloaded, the opposite of this program's job.
    let params = build_delete_params(&ids(&["dbid_001", "dbid_002"]));
    assert_eq!(
        params,
        vec![
            ("id", "dbid_001,dbid_002".to_string()),
            ("force_complete", "false".to_string()),
        ]
    );
}

#[test]
fn getinfo_asks_for_the_same_additional_blocks_the_list_does() {
    assert_eq!(
        build_getinfo_params(&ids(&["dbid_001"])),
        vec![
            ("id", "dbid_001".to_string()),
            ("additional", "detail,transfer,file".to_string()),
        ]
    );
}

#[test]
fn a_request_without_ids_is_not_made() {
    assert!(task_request(TaskMethod::Pause, &[]).is_none());
    let (method, params) = task_request(TaskMethod::Resume, &ids(&["a", "b"])).expect("a request");
    assert_eq!(method, "resume");
    assert_eq!(params, vec![("id", "a,b".to_string())]);
}

fn results(body: &str) -> Vec<TaskOpResult> {
    parse_envelope(body, DS_TASK_API).expect("a per-task result array")
}

#[test]
fn a_successful_delete_reports_zero_for_every_task() {
    let parsed = results(
        r#"{"success": true, "data": [
            {"id": "dbid_001", "error": 0},
            {"id": "dbid_002", "error": 0}
        ]}"#,
    );
    assert_eq!(parsed.len(), 2);
    assert_eq!(parsed[0].id, "dbid_001");
    check_task_results(&parsed).expect("all zero is success");
}

#[test]
fn a_per_task_error_is_a_failure_even_though_the_envelope_succeeded() {
    // The trap this whole result array exists to avoid: `success: true` with a task that
    // was not deleted.
    let parsed = results(
        r#"{"success": true, "data": [
            {"id": "dbid_001", "error": 0},
            {"id": "dbid_002", "error": 544}
        ]}"#,
    );
    let err = check_task_results(&parsed).expect_err("544 is a failure");
    assert!(
        matches!(err, Error::Dsm { code: 544, ref api } if api == DS_TASK_API),
        "{err:?}"
    );
}

#[test]
fn an_empty_result_array_says_nothing_about_the_task_that_was_asked_about() {
    let parsed = results(r#"{"success": true, "data": []}"#);
    assert!(parsed.is_empty());
    check_task_results(&parsed).expect("no non-zero code to find");

    let err = check_task_result("dbid_001", &parsed).expect_err("nothing was reported");
    assert!(err.message().contains("no result"), "{}", err.message());
}

#[test]
fn a_result_array_naming_other_tasks_is_a_failure_for_the_one_requested() {
    let parsed = results(r#"{"success": true, "data": [{"id": "dbid_999", "error": 0}]}"#);
    let err = check_task_result("dbid_001", &parsed).expect_err("wrong task");
    assert!(err.message().contains("no result"), "{}", err.message());
}

#[test]
fn the_matching_entry_is_the_one_that_decides() {
    let parsed = results(
        r#"{"success": true, "data": [
            {"id": "dbid_001", "error": 0},
            {"id": "dbid_002", "error": 544}
        ]}"#,
    );
    check_task_result("dbid_001", &parsed).expect("this one succeeded");
    let err = check_task_result("dbid_002", &parsed).expect_err("this one did not");
    assert!(matches!(err, Error::Dsm { code: 544, .. }), "{err:?}");
}
