//! Tasks as DSM lists them.

use syno_clean::api::client::parse_envelope;
use syno_clean::error::Error;
use syno_clean::json::parse_json;
use syno_clean::model::{Task, TaskFile, TaskList, TaskStatus, TaskType};
use syno_clean::testutil::FIXTURE_JSON as FIXTURE;

const DS_TASK: &str = "SYNO.DownloadStation.Task";

fn fixture() -> TaskList {
    parse_envelope(FIXTURE, DS_TASK).expect("the fixture must parse")
}

fn task(id: &str) -> Task {
    fixture()
        .tasks
        .into_iter()
        .find(|t| t.id == id)
        .expect("a task of that id")
}

/// A task list outside its envelope.
fn list_from(json: &str) -> TaskList {
    TaskList::from_json(&parse_json(json).expect("valid JSON")).expect("a task list")
}

// ---- fixture shape ----------------------------------------------------

#[test]
fn the_fixture_still_carries_only_keys_a_real_nas_sends() {
    // The fixture's shape came from a real capture; its content did not.
    // This is the guard against drifting back to invented keys — the
    // previous fixture had three (`selected` on a file, `priority` on the
    // detail block, `status_extra` on the task), and `selected` was
    // deserialized by the model for the whole of the project's life without
    // ever matching a byte DSM sent.
    for invented in ["\"selected\"", "\"status_extra\""] {
        assert!(
            !FIXTURE.contains(invented),
            "{invented} is not a key any real DSM 7 response carries"
        );
    }
    // …and the real names that replaced them are present.
    for real in [
        "\"wanted\"",
        "\"index\"",
        "\"size_downloaded\"",
        "\"seedelapsed\"",
    ] {
        assert!(
            FIXTURE.contains(real),
            "{real} is a real key and should be modelled"
        );
    }
}

#[test]
fn the_whole_fixture_parses_into_a_task_list() {
    let list = fixture();
    assert_eq!(list.offset, 0);
    assert_eq!(list.total, 14);
    assert_eq!(list.tasks.len(), 14);
    assert_eq!(list.total as usize, list.tasks.len());
}

#[test]
fn task_ids_are_unique() {
    // Selection and the cursor are keyed by ID; duplicates would alias.
    let list = fixture();
    let mut ids: Vec<&str> = list.tasks.iter().map(|t| t.id.as_str()).collect();
    ids.sort_unstable();
    let count = ids.len();
    ids.dedup();
    assert_eq!(ids.len(), count, "duplicate task id in the fixture");
}

// ---- field mapping ----------------------------------------------------

#[test]
fn every_field_maps_out_of_the_nested_additional_blocks() {
    let task = task("dbid_001");
    assert_eq!(task.title, "Ubuntu.24.04.3.LTS.Desktop.amd64");
    assert_eq!(task.status, TaskStatus::Downloading);
    assert_eq!(task.size, 6_231_819_257);
    assert_eq!(task.downloaded, 2_429_550_592);
    assert_eq!(task.uploaded, 118_325_248);
    assert_eq!(task.download_speed, 8_912_896);
    assert_eq!(task.upload_speed, 524_288);
    assert_eq!(task.destination, "downloads");
    assert_eq!(task.seeders, 12);
    assert_eq!(task.leechers, 4);
    assert_eq!(task.create_time, Some(1_753_960_800));
    assert_eq!(task.files.len(), 3);
}

#[test]
fn file_entries_are_objects_with_a_relative_path() {
    let task = task("dbid_001");
    assert_eq!(
        task.files[0],
        TaskFile {
            filename: "Ubuntu.24.04.3.LTS.Desktop.amd64/ubuntu-24.04.3-desktop-amd64.iso"
                .to_string(),
            size: 6_231_818_240,
            priority: "normal".to_string(),
            wanted: true,
        }
    );
    // A deselected file is still listed, and says so.
    assert!(!task.files[2].wanted);
    assert_eq!(task.files[2].priority, "low");
}

#[test]
fn a_file_entry_without_selected_defaults_to_selected() {
    let task = task("dbid_011");
    assert_eq!(task.files.len(), 1);
    assert!(task.files[0].wanted);
}

#[test]
fn numeric_fields_parse_from_both_json_numbers_and_strings() {
    // dbid_001 sends file sizes as strings, dbid_002 as numbers.
    assert_eq!(task("dbid_001").files[1].size, 184);
    assert_eq!(task("dbid_002").files[1].size, 35_283);
    // `create_time` is a string of unix seconds on every task that has it.
    assert_eq!(task("dbid_002").create_time, Some(1_750_000_000));
}

#[test]
fn a_cjk_title_survives_parsing_intact() {
    // Also the fixture's display-width case for `format::truncate_ellipsis`.
    let task = task("dbid_006");
    assert_eq!(task.title, "千と千尋の神隠し.2001.1080p.日本語音声");
    assert_eq!(task.status, TaskStatus::Extracting);
    assert_eq!(task.destination, "video/movies");
}

#[test]
fn destinations_cover_flat_nested_and_absolute_forms() {
    assert_eq!(task("dbid_001").destination, "downloads");
    assert_eq!(task("dbid_009").destination, "video/tv");
    assert_eq!(task("dbid_008").destination, "downloads/incoming");
    // `delete.rs` is responsible for stripping the /volumeN prefix; the
    // model reports what DSM said.
    assert_eq!(task("dbid_014").destination, "/volume1/downloads");
}

// ---- statuses ---------------------------------------------------------

#[test]
fn the_fixture_exercises_every_known_status() {
    let list = fixture();
    for status in TaskStatus::KNOWN {
        assert!(
            list.tasks.iter().any(|t| t.status == status),
            "no fixture task has status {status:?}"
        );
    }
}

#[test]
fn an_unrecognized_status_is_kept_verbatim_and_does_not_drop_the_row() {
    let task = task("dbid_011");
    assert_eq!(task.status, TaskStatus::Unknown("captcha_needed".into()));
    assert_eq!(task.status.as_dsm_str(), "captcha_needed");
}

#[test]
fn every_status_string_round_trips() {
    for status in TaskStatus::KNOWN {
        assert_eq!(
            TaskStatus::from_dsm_str(status.as_dsm_str()),
            status,
            "{status:?}"
        );
    }
    let unknown = TaskStatus::Unknown("captcha_needed".into());
    assert_eq!(TaskStatus::from_dsm_str("captcha_needed"), unknown);
    assert_eq!(unknown.as_dsm_str(), "captcha_needed");
}

// ---- types ------------------------------------------------------------

#[test]
fn the_task_type_is_parsed_off_the_wire() {
    // Not decoration: `delete.rs` refuses a BitTorrent task whose file list
    // is missing, and can only tell which those are from this field.
    assert_eq!(task("dbid_001").task_type, TaskType::BitTorrent);
    assert_eq!(task("dbid_007").task_type, TaskType::Http);
    assert_eq!(task("dbid_010").task_type, TaskType::Nzb);
}

#[test]
fn every_type_string_round_trips() {
    for task_type in TaskType::KNOWN {
        assert_eq!(
            TaskType::from_dsm_str(task_type.as_dsm_str()),
            task_type,
            "{task_type:?}"
        );
    }
}

#[test]
fn an_unrecognized_type_is_kept_verbatim_rather_than_assumed_to_be_a_torrent() {
    // The direction matters: guessing BitTorrent for a type this client has
    // never seen would refuse every such task's delete.
    let invented = TaskType::from_dsm_str("magnet_v3");
    assert_eq!(invented, TaskType::Unknown("magnet_v3".into()));
    assert!(!invented.file_list_is_mandatory());
    assert_eq!(invented.as_dsm_str(), "magnet_v3");
}

#[test]
fn a_task_listed_with_no_type_parses_and_is_not_treated_as_a_torrent() {
    let task = task_from(r#"{"id": "x", "title": "t"}"#);
    assert_eq!(task.task_type, TaskType::default());
    assert!(!task.task_type.file_list_is_mandatory());
}

#[test]
fn only_bittorrent_must_have_a_file_list() {
    for task_type in TaskType::KNOWN {
        assert_eq!(
            task_type.file_list_is_mandatory(),
            task_type == TaskType::BitTorrent,
            "{task_type:?}"
        );
    }
}

#[test]
fn type_parsing_ignores_case_and_surrounding_whitespace() {
    assert_eq!(TaskType::from_dsm_str(" BT "), TaskType::BitTorrent);
    assert_eq!(TaskType::from_dsm_str("NZB"), TaskType::Nzb);
}

#[test]
fn status_parsing_ignores_case_and_surrounding_whitespace() {
    assert_eq!(
        TaskStatus::from_dsm_str("Downloading"),
        TaskStatus::Downloading
    );
    assert_eq!(
        TaskStatus::from_dsm_str(" HASH_CHECKING "),
        TaskStatus::HashChecking
    );
    // The raw text of an unknown status is trimmed but not case-folded.
    assert_eq!(
        TaskStatus::from_dsm_str("  Weird_State "),
        TaskStatus::Unknown("Weird_State".into())
    );
}

#[test]
fn a_task_with_no_status_field_is_unknown_rather_than_a_parse_error() {
    let list = list_from(r#"{"total": 1, "offset": 0, "tasks": [{"id": "x"}]}"#);
    assert_eq!(list.tasks[0].status, TaskStatus::default());
    assert!(matches!(list.tasks[0].status, TaskStatus::Unknown(_)));
}

// ---- missing / empty additional data ----------------------------------

#[test]
fn a_task_with_no_additional_block_parses_with_zeroed_counters() {
    let task = task("dbid_010");
    assert_eq!(task.status, TaskStatus::FilehostingWaiting);
    assert_eq!(task.size, 524_288_000);
    assert_eq!(task.destination, "");
    assert!(task.files.is_empty());
    assert_eq!(task.downloaded, 0);
    assert_eq!(task.uploaded, 0);
    assert_eq!(task.download_speed, 0);
    assert_eq!(task.upload_speed, 0);
    assert_eq!(task.seeders, 0);
    assert_eq!(task.leechers, 0);
    assert_eq!(task.create_time, None);
}

#[test]
fn a_partial_additional_block_only_zeroes_what_is_missing() {
    // dbid_011 has `file` but neither `detail` nor `transfer`.
    let task = task("dbid_011");
    assert_eq!(task.files.len(), 1);
    assert_eq!(task.destination, "");
    assert_eq!(task.downloaded, 0);
    assert_eq!(task.create_time, None);
}

#[test]
fn an_empty_file_list_is_empty_not_absent_data() {
    for id in ["dbid_008", "dbid_012"] {
        assert!(task(id).files.is_empty(), "{id}");
    }
    // A non-BT task simply has no `file` key at all.
    let http = task("dbid_007");
    assert!(http.files.is_empty());
    assert_eq!(http.destination, "downloads");
}

// ---- derived values ---------------------------------------------------

#[test]
fn a_zero_size_task_does_not_divide_by_zero() {
    let task = task("dbid_012");
    assert_eq!(task.size, 0);
    assert_eq!(task.downloaded, 0);
    assert_eq!(task.eta(), None);
}

#[test]
fn eta_is_remaining_over_speed_and_none_when_stalled() {
    let downloading = task("dbid_001");
    let remaining = downloading.size - downloading.downloaded;
    assert_eq!(
        downloading.eta(),
        Some(remaining.div_ceil(downloading.download_speed))
    );

    // Seeding: nothing left to download.
    assert_eq!(task("dbid_002").eta(), None);
    // Paused: no speed at all.
    assert_eq!(task("dbid_004").eta(), None);
}

#[test]
fn eta_is_none_when_more_was_downloaded_than_the_reported_size() {
    let task = Task {
        size: 100,
        downloaded: 250,
        download_speed: 10,
        ..task("dbid_001")
    };
    assert_eq!(task.eta(), None);
}

// ---- envelope integration ---------------------------------------------

#[test]
fn a_failed_list_response_is_a_dsm_error_not_an_empty_table() {
    let err =
        parse_envelope::<TaskList>(r#"{"success": false, "error": {"code": 105}}"#, DS_TASK)
            .expect_err("failed list");
    assert!(
        matches!(err, Error::Dsm { code: 105, .. }),
        "{err:?}"
    );
}

#[test]
fn an_empty_task_list_is_valid() {
    let list: TaskList = parse_envelope(
        r#"{"success": true, "data": {"total": 0, "offset": 0, "tasks": []}}"#,
        DS_TASK,
    )
    .expect("empty list");
    assert_eq!(list, TaskList::default());
}

// ---- the lenient number readers ----------------------------------------
//
// These decide what `size` is, and `size` is the number the confirmation
// dialog promises the user they will get back. Every collapse below is
// deliberate — DSM has been seen to send all of these forms — but each one
// is also a way for a real value to silently become `0`, so they are
// pinned rather than assumed.

/// One task parsed from a bare `transfer`/`detail`-less body.
fn task_from(json: &str) -> Task {
    Task::from_json(&parse_json(json).expect("valid JSON")).expect("a task")
}

#[test]
fn a_number_sent_as_a_string_is_read_as_the_number() {
    // DSM v1 quotes its 64-bit counts on some builds.
    let task = task_from(r#"{"id": "x", "title": "t", "size": "8589934592"}"#);
    assert_eq!(task.size, 8_589_934_592);
}

#[test]
fn a_negative_size_clamps_to_zero_rather_than_wrapping() {
    // `-1 as u64` would be 18 exabytes in the "to free" line.
    let task = task_from(r#"{"id": "x", "title": "t", "size": -1}"#);
    assert_eq!(task.size, 0);
    let task = task_from(r#"{"id": "x", "title": "t", "size": "-1"}"#);
    assert_eq!(task.size, 0);
}

#[test]
fn an_unparseable_number_collapses_to_zero_instead_of_failing_the_whole_list() {
    // The trade: one junk field must not cost the user their entire table.
    // The cost is that a real size can read as 0, which understates what a
    // delete frees — the safe direction for a number the dialog promises.
    let task = task_from(r#"{"id": "x", "title": "t", "size": "not a number"}"#);
    assert_eq!(task.size, 0);
    let task = task_from(r#"{"id": "x", "title": "t", "size": null}"#);
    assert_eq!(task.size, 0);
}

#[test]
fn a_fractional_number_truncates() {
    let task = task_from(r#"{"id": "x", "title": "t", "size": 1024.9}"#);
    assert_eq!(task.size, 1024);
    let task = task_from(r#"{"id": "x", "title": "t", "size": "2048.5"}"#);
    assert_eq!(task.size, 2048);
}

#[test]
fn a_peer_count_too_large_for_u32_saturates_rather_than_wrapping() {
    let list = list_from(r#"{"total": 99999999999, "tasks": []}"#);
    assert_eq!(list.total, u32::MAX);
    let list = list_from(r#"{"total": -5, "tasks": []}"#);
    assert_eq!(list.total, 0);
}

#[test]
fn a_zeroed_size_still_yields_finite_derived_numbers() {
    // The reason the clamps matter beyond the one field.
    let task = task_from(r#"{"id": "x", "title": "t", "size": "-1"}"#);
    assert_eq!(task.eta(), None);
}

#[test]
fn a_task_without_names_is_read_in_the_order_of_its_fields() {
    let task = |json: &str| Task::from_json(&parse_json(json).expect("valid JSON"));
    let read = task(
        r#"["x", "A title", "finished", "bt", "10",
            [["downloads", 1, 2, 3], [4, 5, 6, 7], [["a.bin", 8, "normal", false]]]]"#,
    )
    .expect("a task");
    assert_eq!((read.id.as_str(), read.size, read.seeders, read.leechers), ("x", 10, 1, 2));
    assert_eq!((read.downloaded, read.upload_speed, read.create_time), (4, 7, Some(3)));
    assert_eq!(read.destination, "downloads");
    assert!(!read.files[0].wanted);
    assert_eq!(task("[]").expect("a bare task").id, "");
    assert!(task(r#"["x", "A title", "finished", "bt", 10, [], 7]"#).is_none());
    assert!(task(r#"{"id": "x", "id": "x"}"#).is_none());
    assert!(task(r#"{"id": "x", "additional": {"detail": {}, "detail": {}}}"#).is_none());
    assert!(task(r#"{"id": "x", "odd": 1, "odd": 1e999}"#).is_some());
}
