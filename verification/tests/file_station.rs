//! File Station parameters and the reading of its answers.

use syno_clean::api::client::{parse_envelope, REQUEST_TIMEOUT_SECS};
use syno_clean::api::download_station::build_ds_id_params;
use syno_clean::api::file_station::{
    build_fs_delete_params, build_fs_delete_status_params, build_fs_path_params,
    build_list_share_params, classify_delete_status, classify_getinfo, delete_request,
    settle_delete_status, settle_path_info, volume_usage_from, DeleteProgress, DeleteStarted,
    DeleteStatus, DeleteStep, GetInfo, PathInfo, VolumeUsage, DELETE_POLL_INTERVAL_MS,
    DELETE_TIMEOUT_MS, FS_DELETE_API, FS_DELETE_SUPPORTED, FS_LIST_API, FS_LIST_SUPPORTED,
    FS_NO_SUCH_FILE, FS_PERMISSION_DENIED,
};
use syno_clean::error::{Error, IoErrorKind};

fn paths(items: &[&str]) -> Vec<String> {
    items.iter().map(|p| (*p).to_string()).collect()
}

#[test]
fn a_single_path_is_still_a_json_array() {
    assert_eq!(
        build_fs_path_params(&paths(&["/downloads/Some.Release"])),
        vec![("path", r#"["/downloads/Some.Release"]"#.to_string())]
    );
}

#[test]
fn several_paths_are_one_json_array() {
    assert_eq!(
        build_fs_path_params(&paths(&["/downloads/A", "/video/movies/B"])),
        vec![("path", r#"["/downloads/A","/video/movies/B"]"#.to_string())]
    );
}

#[test]
fn an_empty_list_encodes_as_an_empty_array() {
    assert_eq!(build_fs_path_params(&[]), vec![("path", "[]".to_string())]);
}

#[test]
fn a_path_with_json_metacharacters_is_escaped_not_broken() {
    // Scene names contain brackets and quotes constantly.
    let encoded = build_fs_path_params(&paths(&[r#"/downloads/He said "hi"\x"#]));
    let (_, value) = &encoded[0];
    let decoded: Vec<String> = serde_json::from_str(value).expect("valid JSON");
    assert_eq!(decoded, vec![r#"/downloads/He said "hi"\x"#.to_string()]);
}

#[test]
fn a_path_containing_a_comma_survives_the_json_encoding() {
    // The reason the two APIs cannot share one builder: this path would be two paths
    // under Download Station's comma-separated encoding.
    let encoded = build_fs_path_params(&paths(&["/downloads/Artist - A, B and C"]));
    let (_, value) = &encoded[0];
    let decoded: Vec<String> = serde_json::from_str(value).expect("valid JSON");
    assert_eq!(decoded.len(), 1);
}

#[test]
fn file_station_and_download_station_encode_lists_differently() {
    let values = paths(&["a", "b"]);
    assert_eq!(build_fs_path_params(&values)[0].1, r#"["a","b"]"#);
    assert_eq!(build_ds_id_params(&values)[0].1, "a,b");
    assert_eq!(build_fs_path_params(&values)[0].0, "path");
    assert_eq!(build_ds_id_params(&values)[0].0, "id");
}

#[test]
fn delete_start_params_are_recursive() {
    assert_eq!(
        build_fs_delete_params(&paths(&["/downloads/Some.Release"])),
        vec![
            ("path", r#"["/downloads/Some.Release"]"#.to_string()),
            ("recursive", "true".to_string()),
        ]
    );
}

#[test]
fn delete_status_params_carry_only_the_task_id() {
    assert_eq!(
        build_fs_delete_status_params("FileStation_51D8CE3CB4D89622"),
        vec![("taskid", "FileStation_51D8CE3CB4D89622".to_string())]
    );
}

fn getinfo(body: &str) -> GetInfo {
    parse_envelope(body, FS_LIST_API).expect("a getinfo payload")
}

#[test]
fn an_existing_directory_is_found() {
    let info = getinfo(
        r#"{"success": true, "data": {"files": [
            {"path": "/downloads/Some.Release", "name": "Some.Release", "isdir": true,
             "additional": {"size": 4096}}
        ]}}"#,
    );
    assert_eq!(
        classify_getinfo(&info, "/downloads/Some.Release"),
        PathInfo::Found { is_dir: true }
    );
}

#[test]
fn an_existing_file_is_found_too() {
    // A single-file torrent resolves to the file itself, not a directory.
    let info = getinfo(
        r#"{"success": true, "data": {"files": [
            {"path": "/downloads/arch.iso", "name": "arch.iso", "isdir": false}
        ]}}"#,
    );
    assert_eq!(
        classify_getinfo(&info, "/downloads/arch.iso"),
        PathInfo::Found { is_dir: false }
    );
}

#[test]
fn a_per_entry_408_means_the_path_is_gone() {
    let info = getinfo(
        r#"{"success": true, "data": {"files": [
            {"path": "/downloads/Gone", "name": "Gone", "code": 408}
        ]}}"#,
    );
    assert_eq!(
        classify_getinfo(&info, "/downloads/Gone"),
        PathInfo::Missing
    );
}

#[test]
fn an_entry_with_no_isdir_is_treated_as_gone() {
    // Some builds answer a failed stat with a bare entry. Assuming absence issues no
    // destructive call, which is the safe direction.
    let info = getinfo(
        r#"{"success": true, "data": {"files": [
            {"path": "/downloads/Gone", "name": "Gone"}
        ]}}"#,
    );
    assert_eq!(
        classify_getinfo(&info, "/downloads/Gone"),
        PathInfo::Missing
    );
}

#[test]
fn no_entry_at_all_is_unknown_never_gone() {
    let info = getinfo(r#"{"success": true, "data": {"files": []}}"#);
    assert_eq!(
        classify_getinfo(&info, "/downloads/Gone"),
        PathInfo::Unknown
    );
    assert_eq!(
        classify_getinfo(&GetInfo::default(), "/downloads/Gone"),
        PathInfo::Unknown
    );
    // A `data` object with no `files` key at all.
    let info = getinfo(r#"{"success": true, "data": {"total": 1}}"#);
    assert_eq!(
        classify_getinfo(&info, "/downloads/Gone"),
        PathInfo::Unknown
    );
}

#[test]
fn a_lone_entry_answers_for_the_one_path_that_was_asked_about() {
    // Exactly one path is ever requested, so a single entry is that path however DSM
    // chose to spell it back: a trailing slash here.
    let info = getinfo(
        r#"{"success": true, "data": {"files": [
            {"path": "/downloads/Some.Release/", "name": "Some.Release", "isdir": true}
        ]}}"#,
    );
    assert_eq!(
        classify_getinfo(&info, "/downloads/Some.Release"),
        PathInfo::Found { is_dir: true }
    );
}

#[test]
fn an_entry_for_a_different_path_never_authorizes_deleting_this_one() {
    let info = getinfo(
        r#"{"success": true, "data": {"files": [
            {"path": "/downloads/A", "name": "A", "isdir": true},
            {"path": "/downloads/B", "name": "B", "isdir": true}
        ]}}"#,
    );
    assert_eq!(
        classify_getinfo(&info, "/downloads/C"),
        PathInfo::Unknown,
        "an unmatched path among several entries must not borrow one of them"
    );
}

#[test]
fn a_permission_error_is_not_reported_as_absence() {
    let info = getinfo(
        r#"{"success": true, "data": {"files": [
            {"path": "/downloads/Locked", "name": "Locked", "code": 403}
        ]}}"#,
    );
    assert_eq!(
        classify_getinfo(&info, "/downloads/Locked"),
        PathInfo::Error(403)
    );
}

#[test]
fn a_zero_code_is_success_not_a_failure() {
    let info = getinfo(
        r#"{"success": true, "data": {"files": [
            {"path": "/downloads/X", "name": "X", "isdir": true, "code": 0}
        ]}}"#,
    );
    assert_eq!(
        classify_getinfo(&info, "/downloads/X"),
        PathInfo::Found { is_dir: true }
    );
}

#[test]
fn the_entry_matching_the_requested_path_is_the_one_read() {
    let info = getinfo(
        r#"{"success": true, "data": {"files": [
            {"path": "/downloads/A", "name": "A", "code": 408},
            {"path": "/downloads/B", "name": "B", "isdir": true}
        ]}}"#,
    );
    assert_eq!(classify_getinfo(&info, "/downloads/A"), PathInfo::Missing);
    assert_eq!(
        classify_getinfo(&info, "/downloads/B"),
        PathInfo::Found { is_dir: true }
    );
}

#[test]
fn an_absent_path_may_also_be_told_by_the_envelope() {
    let gone = settle_path_info(Err(Error::dsm(FS_NO_SUCH_FILE, FS_LIST_API)), "/downloads/X");
    assert_eq!(gone.expect("an absence"), PathInfo::Missing);
    let denied = settle_path_info(
        Err(Error::dsm(FS_PERMISSION_DENIED, FS_LIST_API)),
        "/downloads/X",
    );
    assert!(matches!(denied, Err(Error::Dsm { code: 403, .. })), "{denied:?}");
}

#[test]
fn a_start_response_yields_the_task_id() {
    let started: DeleteStarted = parse_envelope(
        r#"{"success": true, "data": {"taskid": "FileStation_1"}}"#,
        FS_DELETE_API,
    )
    .expect("a start payload");
    assert_eq!(started.taskid, "FileStation_1");
}

#[test]
fn an_unfinished_status_keeps_polling() {
    let status: DeleteStatus = parse_envelope(
        r#"{"success": true, "data": {
            "finished": false, "processed_num": 3, "total": 40,
            "processing_path": "/downloads/X/a.mkv", "progress": 0.07
        }}"#,
        FS_DELETE_API,
    )
    .expect("a status payload");
    assert_eq!(classify_delete_status(&status), DeleteProgress::Running);
    assert_eq!(
        status.processing_path.as_deref(),
        Some("/downloads/X/a.mkv")
    );
}

#[test]
fn a_finished_status_with_no_errors_is_success() {
    let status: DeleteStatus = parse_envelope(
        r#"{"success": true, "data": {
            "finished": true, "path_err_num": 0, "processed_num": 40, "total": 40
        }}"#,
        FS_DELETE_API,
    )
    .expect("a status payload");
    assert_eq!(classify_delete_status(&status), DeleteProgress::Finished);
}

#[test]
fn a_finished_status_with_path_errors_is_a_failure_not_a_success() {
    let status: DeleteStatus = parse_envelope(
        r#"{"success": true, "data": {"finished": true, "path_err_num": 2}}"#,
        FS_DELETE_API,
    )
    .expect("a status payload");
    assert_eq!(classify_delete_status(&status), DeleteProgress::Failed(2));
}

#[test]
fn a_status_payload_with_nothing_in_it_is_not_mistaken_for_done() {
    assert_eq!(
        classify_delete_status(&DeleteStatus::default()),
        DeleteProgress::Running
    );
}

#[test]
fn deleting_an_empty_list_of_paths_issues_no_request_at_all() {
    // The guard that makes an all-refused batch cost nothing.
    assert!(delete_request(&[]).is_none(), "no paths means no call");
    assert!(delete_request(&paths(&["/downloads/X"])).is_some());
}

#[test]
fn the_two_file_station_apis_require_v2_because_v1_cannot_parse_our_paths() {
    // `path` is sent as a JSON array, which version 1 does not accept.
    assert_eq!(FS_LIST_SUPPORTED, (2, 2));
    assert_eq!(FS_DELETE_SUPPORTED, (2, 2));
}

#[test]
fn a_real_nas_getinfo_response_deserializes() {
    // Captured verbatim from DSM 7 (`SYNO.FileStation.List` v2 `getinfo`).
    let file = r#"{"data":{"files":[{"isdir":false,"name":"a.mp4","path":"/video/a.mp4"}]},"success":true}"#;
    let dir =
        r#"{"data":{"files":[{"isdir":true,"name":"video","path":"/video"}]},"success":true}"#;
    let gone = r#"{"data":{"files":[{"code":408,"path":"/video/nope"}]},"success":true}"#;

    let parse = |body: &str| {
        parse_envelope::<GetInfo>(body, FS_LIST_API)
            .expect("a real NAS response must deserialize")
    };

    assert_eq!(
        classify_getinfo(&parse(file), "/video/a.mp4"),
        PathInfo::Found { is_dir: false }
    );
    assert_eq!(
        classify_getinfo(&parse(dir), "/video"),
        PathInfo::Found { is_dir: true }
    );
    assert_eq!(
        classify_getinfo(&parse(gone), "/video/nope"),
        PathInfo::Missing
    );
}

#[test]
fn a_file_station_error_code_reads_as_words_not_as_a_number() {
    let rendered = Error::dsm(403, FS_LIST_API).message();
    assert!(rendered.contains("permission denied"), "{rendered}");
    let rendered = Error::dsm(FS_NO_SUCH_FILE, FS_DELETE_API).message();
    assert!(rendered.contains("no such file"), "{rendered}");
}

#[test]
fn the_delete_wait_is_bounded_and_longer_than_one_poll() {
    assert!(DELETE_TIMEOUT_MS > DELETE_POLL_INTERVAL_MS);
    // A recursive delete is deliberately allowed to outlive the per-request HTTP
    // timeout: that is the entire reason for the polling form.
    assert!(DELETE_TIMEOUT_MS > REQUEST_TIMEOUT_SECS * 1000);
}

#[test]
fn a_delete_is_waited_for_until_it_finishes_fails_or_takes_too_long() {
    let running = DeleteStatus::default();
    let step = settle_delete_status("t", Ok(running.clone()), 0, 300_000, 300_000);
    assert!(matches!(step, DeleteStep::Wait(500)), "{step:?}");

    let step = settle_delete_status("t", Ok(running), 299_500, 300_000, 300_000);
    let DeleteStep::Over(Err(Error::Io(failure))) = step else {
        panic!("expected a timeout, got {step:?}");
    };
    assert_eq!(failure.kind, IoErrorKind::TimedOut);

    let done = DeleteStatus { finished: true, ..DeleteStatus::default() };
    let step = settle_delete_status("t", Ok(done), 0, 300_000, 300_000);
    assert!(matches!(step, DeleteStep::Over(Ok(()))), "{step:?}");

    let left = DeleteStatus { finished: true, path_err_num: 2, ..DeleteStatus::default() };
    let step = settle_delete_status("t", Ok(left), 0, 300_000, 300_000);
    assert!(matches!(step, DeleteStep::Over(Err(_))), "{step:?}");

    let failed = Error::dsm(900, FS_DELETE_API);
    let step = settle_delete_status("t", Err(failed), 0, 300_000, 300_000);
    assert!(
        matches!(step, DeleteStep::Over(Err(Error::Dsm { code: 900, .. }))),
        "{step:?}"
    );
}

#[test]
fn volumes_are_listed_once_however_many_shares_live_on_them() {
    let body = r#"{"success": true, "data": {"shares": [
        {"name": "video", "additional": {"real_path": "/volume2/video",
            "volume_status": {"freespace": 10, "totalspace": 100}}},
        {"name": "downloads", "additional": {"real_path": "/volume1/downloads",
            "volume_status": {"freespace": 30, "totalspace": 40}}},
        {"name": "music", "additional": {"real_path": "/volume2/music",
            "volume_status": {"freespace": 10, "totalspace": 100}}},
        {"name": "odd"}
    ]}}"#;
    let volumes = volume_usage_from(body).expect("volumes");
    assert_eq!(
        volumes,
        vec![
            VolumeUsage { name: "volume1".to_string(), total: 40, free: 30 },
            VolumeUsage { name: "volume2".to_string(), total: 100, free: 10 },
        ]
    );
    assert_eq!(volumes[0].used(), 10);
    assert_eq!(volumes[1].used(), 90);
}

#[test]
fn a_volume_with_more_free_than_total_uses_nothing() {
    let odd = VolumeUsage { name: "volume1".to_string(), total: 1, free: 5 };
    assert_eq!(odd.used(), 0);
}

#[test]
fn the_share_list_asks_for_what_the_storage_band_needs() {
    let params = build_list_share_params();
    assert!(params.iter().any(|(k, v)| *k == "additional" && v.contains("volume_status")));
}
