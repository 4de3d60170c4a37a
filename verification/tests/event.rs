//! What background work reports and decides.

use std::sync::{Arc, Mutex};

use syno_clean::api::download_station::TaskOpResult;
use syno_clean::api::file_station::{
    PathInfo, VolumeUsage, FS_LIST_API, FS_PERMISSION_DENIED,
};
use syno_clean::delete::{self, DeletePlan, ExpectedKind, PayloadState};
use syno_clean::error::{Error, AUTH_API, OTP_REQUIRED_CODE, PERMISSION_DENIED_CODE};
use syno_clean::event::{
    batch_events, begin_storage, begin_task_op, decide_confirm_phase, decide_file_phase, is_permission_refusal,
    is_unavailable, pause_needed, payload_for_file_phase, settle_poll, settle_storage,
    settle_task_op, task_op_outcome, task_with_id, AppEvent, BatchReport, BatchTally,
    DeletedPaths, FileTarget, ItemOutcome, OpKind, OpOutcome, PauseRead, StorageSchedule, TaskOp,
    TaskOpStart, TaskRef, EVENT_CHANNEL_CAPACITY, PAUSE_CONFIRM_INTERVAL_MS,
    PAUSE_CONFIRM_TIMEOUT_MS, STORAGE_INTERVAL_MS,
};
use syno_clean::model::{Task, TaskFile, TaskStatus, TaskType};
use syno_clean::testutil;

/// Every task of the sample list.
fn fixture_tasks() -> Vec<Task> {
    testutil::fixture_tasks().expect("the fixture must parse")
}

/// One task of the sample list by id.
fn fixture_task(id: &str) -> Task {
    testutil::fixture_task(id)
        .expect("the fixture must parse")
        .expect("a task of that id")
}

fn result(id: &str, error: i32) -> TaskOpResult {
    TaskOpResult {
        id: id.to_string(),
        error,
    }
}

/// Task references with a title distinguishable from the id, so a progress
/// line that names the wrong one is visible.
fn task_refs(ids: &[&str]) -> Vec<TaskRef> {
    ids.iter()
        .map(|id| TaskRef {
            id: (*id).to_string(),
            title: format!("Title of {id}"),
        })
        .collect()
}

/// A path named from the file list, expected to be a directory — what a
/// multi-file torrent resolves to, and the ordinary shape.
fn dir_from_file_list() -> FileTarget {
    FileTarget {
        named: true,
        expected_kind: ExpectedKind::Dir,
    }
}

/// A task that has written some but not all of its payload.
fn partial(status: TaskStatus) -> PayloadState {
    PayloadState {
        status,
        downloaded: 512,
        size: 1024,
    }
}

/// The pre-delete decision for an incomplete task whose path came from its
/// file list — the ordinary case, with no memory of an earlier delete.
fn file_phase(info: PathInfo) -> OpOutcome {
    decide_file_phase(
        info,
        "/downloads/X",
        dir_from_file_list(),
        &partial(TaskStatus::Downloading),
        false,
    )
}

/// The shape rule 3 produces: a name taken from the display title, with no
/// metadata to say what kind of object to expect.
fn from_title() -> FileTarget {
    FileTarget {
        named: true,
        expected_kind: ExpectedKind::AnyFromTitle,
    }
}

/// The task DSM would answer a live `getinfo` with, given a status and how
/// much of the payload it has written.
fn live_task(id: &str, status: TaskStatus, downloaded: u64, size: u64) -> Task {
    Task {
        status,
        downloaded,
        size,
        ..fixture_task(id)
    }
}

#[test]
fn op_kinds_are_named_for_the_footer() {
    assert_eq!(OpKind::Delete.label(), "delete");
    assert_eq!(OpKind::Pause.label(), "pause");
    assert_eq!(OpKind::Resume.label(), "resume");
}

#[test]
fn each_outcome_reads_differently_in_the_footer() {
    // A skip and a failure must not be mistakable for one another, and
    // neither may be mistakable for a delete that happened.
    assert_eq!(ItemOutcome::done(OpKind::Delete).detail(), "deleted");
    assert_eq!(
        ItemOutcome::Skipped("the files were already gone".into()).detail(),
        "skipped — the files were already gone"
    );
    assert_eq!(
        ItemOutcome::Failed("could not pause it".into()).detail(),
        "FAILED — could not pause it"
    );
}

#[test]
fn the_pause_confirmation_is_bounded_and_polls_more_than_once() {
    assert!(PAUSE_CONFIRM_TIMEOUT_MS > PAUSE_CONFIRM_INTERVAL_MS * 2);
}

#[test]
fn an_operation_names_itself_in_the_past_tense_for_a_finished_item() {
    assert_eq!(OpKind::Delete.past_tense(), "deleted");
    assert_eq!(OpKind::Pause.past_tense(), "paused");
    assert_eq!(OpKind::Resume.past_tense(), "resumed");
}

#[test]
fn a_zero_result_is_the_task_actually_having_been_paused() {
    let results = [result("dbid_001", 0), result("dbid_002", 0)];
    assert_eq!(
        task_op_outcome(OpKind::Pause, "dbid_002", &results),
        ItemOutcome::done(OpKind::Pause)
    );
    assert_eq!(
        task_op_outcome(OpKind::Resume, "dbid_001", &results),
        ItemOutcome::done(OpKind::Resume)
    );
}

#[test]
fn a_per_task_error_code_is_a_failure_even_inside_a_successful_envelope() {
    // The trap: DSM answers `{"success": true, "data": [{"error": 544}]}`
    // for a task it did not touch. Reading only the envelope would report
    // this as a pause that happened.
    let results = [result("dbid_001", 0), result("dbid_002", 544)];
    let outcome = task_op_outcome(OpKind::Pause, "dbid_002", &results);
    assert!(
        matches!(&outcome, ItemOutcome::Failed(why) if why.contains("544")),
        "{outcome:?}"
    );
    assert_eq!(
        task_op_outcome(OpKind::Pause, "dbid_001", &results),
        ItemOutcome::done(OpKind::Pause),
        "one failing task must not condemn the rest of the batch"
    );
}

#[test]
fn a_task_the_nas_said_nothing_about_is_a_failure_not_a_success() {
    let outcome = task_op_outcome(OpKind::Resume, "dbid_009", &[result("dbid_001", 0)]);
    assert!(
        matches!(&outcome, ItemOutcome::Failed(why) if why.contains("no result")),
        "{outcome:?}"
    );
}

#[test]
fn a_path_deleted_by_this_run_is_remembered() {
    // What keeps the strict readings of an absent path from becoming a task nothing can
    // remove: the retry knows why the path is empty.
    let mut deleted = DeletedPaths::default();
    assert!(!deleted.contains("/downloads/X"));
    deleted.record("/downloads/X");
    assert!(deleted.contains("/downloads/X"));
    assert!(!deleted.contains("/downloads/Y"));

    // Shared between the batches of a run, so a retry in a *later* batch sees what the
    // first batch did.
    let deleted = Arc::new(Mutex::new(deleted));
    let clone = Arc::clone(&deleted);
    clone.lock().expect("unpoisoned").record("/downloads/Y");
    assert!(deleted.lock().expect("unpoisoned").contains("/downloads/Y"));
}

#[test]
fn a_path_that_is_there_is_deleted() {
    assert_eq!(
        file_phase(PathInfo::Found { is_dir: true }),
        OpOutcome::Done
    );
}

#[test]
fn a_file_where_the_task_wrote_a_directory_is_refused() {
    // The gap every "does the path exist" check leaves: the path exists,
    // but it is not the object the task resolved to. A multi-file torrent
    // wrote a *directory*; if a file of that name is what is there, the
    // resolution matched something else — and the delete that follows is
    // recursive.
    let outcome = decide_file_phase(
        PathInfo::Found { is_dir: false },
        "/downloads/X",
        dir_from_file_list(),
        &partial(TaskStatus::Seeding),
        false,
    );
    assert!(
        matches!(&outcome, OpOutcome::Failed(why)
            if why.contains("a file") && why.contains("a directory")
                && why.contains("--no-delete-files")),
        "{outcome:?}"
    );
}

#[test]
fn a_directory_where_the_task_wrote_a_file_is_refused() {
    // The other direction, and the one that costs the most: a single-file
    // torrent resolves to the file itself, so a *directory* of that name is
    // somebody else's folder about to be removed recursively.
    let outcome = decide_file_phase(
        PathInfo::Found { is_dir: true },
        "/downloads/X.iso",
        FileTarget {
            named: true,
            expected_kind: ExpectedKind::File,
        },
        &partial(TaskStatus::Finished),
        false,
    );
    assert!(
        matches!(&outcome, OpOutcome::Failed(why)
            if why.contains("a directory") && why.contains("a file")),
        "{outcome:?}"
    );
}

#[test]
fn a_matching_kind_is_deleted_in_both_directions() {
    assert_eq!(
        decide_file_phase(
            PathInfo::Found { is_dir: true },
            "/downloads/X",
            dir_from_file_list(),
            &partial(TaskStatus::Seeding),
            false,
        ),
        OpOutcome::Done
    );
    assert_eq!(
        decide_file_phase(
            PathInfo::Found { is_dir: false },
            "/downloads/X.iso",
            FileTarget {
                named: true,
                expected_kind: ExpectedKind::File,
            },
            &partial(TaskStatus::Seeding),
            false,
        ),
        OpOutcome::Done
    );
}

#[test]
fn a_title_named_path_accepts_either_kind() {
    // Rule 3 has no file list to say which kind to expect, and refusing on
    // a guess about DSM's unpack behaviour would strand every HTTP/NZB task
    // this fallback exists for. Deliberate, documented, and logged — not an
    // oversight. The strictness for these paths lives on the *absent*
    // branch instead — and there only for a task whose payload should be on
    // the volume; see the two tests below.
    for is_dir in [true, false] {
        assert_eq!(
            decide_file_phase(
                PathInfo::Found { is_dir },
                "/downloads/X",
                FileTarget {
                    named: true,
                    expected_kind: ExpectedKind::AnyFromTitle,
                },
                &partial(TaskStatus::Finished),
                false,
            ),
            OpOutcome::Done,
            "is_dir={is_dir}"
        );
    }
}

#[test]
fn a_file_list_that_does_not_determine_the_kind_refuses_whatever_is_there() {
    // The other half of "not knowable", and the opposite answer. A file
    // list naming the same flat entry twice was consulted and said
    // something that describes no payload — so unlike the title fallback
    // above, there *is* metadata and it is malformed. Accepting either kind
    // here let a self-contradictory answer authorize the recursive delete
    // the file list exists to constrain.
    for is_dir in [true, false] {
        let outcome = decide_file_phase(
            PathInfo::Found { is_dir },
            "/downloads/X",
            FileTarget {
                named: true,
                expected_kind: ExpectedKind::Indeterminate,
            },
            &partial(TaskStatus::Downloading),
            false,
        );
        assert!(
            matches!(&outcome, OpOutcome::Failed(why)
                if why.contains("does not say whether")
                    && why.contains("--no-delete-files")),
            "is_dir={is_dir}: {outcome:?}"
        );
    }
}

#[test]
fn a_task_with_an_undetermined_kind_is_resolved_to_one_end_to_end() {
    // The provenance the refusal above turns on is not hypothetical: this
    // is the shape `resolve_delete_target` produces for it, so a future
    // change that made the malformed list resolve to `AnyFromTitle` again
    // would be caught here rather than at the delete.
    let task = Task {
        id: "dbid_099".to_string(),
        title: "Odd.Release".to_string(),
        task_type: TaskType::BitTorrent,
        destination: "downloads".to_string(),
        files: vec![
            TaskFile {
                filename: "Odd.Release".to_string(),
                size: 512,
                priority: "normal".to_string(),
                wanted: true,
            },
            TaskFile {
                filename: "Odd.Release".to_string(),
                size: 512,
                priority: "normal".to_string(),
                wanted: true,
            },
        ],
        ..fixture_task("dbid_001")
    };
    let item = &DeletePlan::snapshot(&[&task]).items[0];
    assert!(item.named);
    // A multi-entry list means a container whatever the entries say, so a
    // malformed list no longer makes the expectation indeterminate — it
    // cannot mislead a path it does not name.
    assert_eq!(item.expected_kind, ExpectedKind::Dir);

    let outcome = decide_file_phase(
        PathInfo::Found { is_dir: true },
        item.path().expect("resolved"),
        FileTarget::of_item(item),
        &item.payload_state(),
        false,
    );
    assert_eq!(outcome, OpOutcome::Done, "a directory is what was expected");
}

#[test]
fn an_absent_path_from_an_incomplete_task_is_a_skip_that_still_removes_the_task() {
    // Download Station removes its own partial data, so an incomplete
    // task's path being empty really does mean somebody already tidied up.
    for status in [
        TaskStatus::Downloading,
        TaskStatus::Waiting,
        TaskStatus::Paused,
        TaskStatus::Error,
        TaskStatus::Finishing,
    ] {
        assert_eq!(
            decide_file_phase(
                PathInfo::Missing,
                "/downloads/X",
                dir_from_file_list(),
                &partial(status.clone()),
                false
            ),
            OpOutcome::NothingThere,
            "{status:?}"
        );
    }
}

#[test]
fn an_absent_path_on_a_finished_task_keeps_the_task() {
    // The orphaning route that goes through the *destination* rather than
    // the name: a task that finished had its payload on disk, so nothing
    // being at the resolved path says the path is wrong, not that the data
    // is gone — and deleting the row would leave that payload unreachable.
    for status in [
        TaskStatus::Finished,
        TaskStatus::Seeding,
        TaskStatus::Extracting,
    ] {
        let outcome = decide_file_phase(
            PathInfo::Missing,
            "/downloads/X",
            dir_from_file_list(),
            &partial(status.clone()),
            false,
        );
        assert!(
            matches!(&outcome, OpOutcome::Failed(why)
                if why.contains("finished") && why.contains("--no-delete-files")),
            "{status:?}: {outcome:?}"
        );
    }
}

#[test]
fn an_absent_path_on_a_fully_downloaded_task_keeps_the_task_whatever_its_status() {
    // Status alone is a poor proxy for "did the task write a payload": a
    // task paused at 100%, or one that errored after completing, has the
    // whole thing on disk. Reading the status set alone called both of
    // these benign and removed the task.
    for status in [TaskStatus::Paused, TaskStatus::Error] {
        let outcome = decide_file_phase(
            PathInfo::Missing,
            "/downloads/X",
            dir_from_file_list(),
            &PayloadState {
                status: status.clone(),
                downloaded: 1024,
                size: 1024,
            },
            false,
        );
        assert!(
            matches!(&outcome, OpOutcome::Failed(why) if why.contains("--no-delete-files")),
            "{status:?}: {outcome:?}"
        );
    }
}

#[test]
fn a_path_this_run_already_deleted_reads_as_gone_whatever_the_task_says() {
    // The retry after a post-delete check that could not be made: the files
    // went, this process knows it, and the strictness above must not turn
    // that into a task nothing can ever remove.
    {
        assert_eq!(
            decide_file_phase(
                PathInfo::Missing,
                "/downloads/X",
                FileTarget {
                    named: true,
                    expected_kind: ExpectedKind::Dir,
                },
                &partial(TaskStatus::Finished),
                true
            ),
            OpOutcome::NothingThere,
            "a path this run deleted reads as gone"
        );
    }
}

#[test]
fn an_absent_path_is_a_failure_when_the_payload_should_be_there() {
    // For a task whose payload demonstrably existed, an empty answer is at
    // least as likely to mean the resolved location is wrong as to mean the
    // data is gone — and deleting the task would destroy the only pointer
    // to a payload still sitting on the volume.
    //
    // This no longer turns on where the name came from: it is always the
    // title, and the title is what Download Station writes. The counters
    // are the whole question.
    let outcome = decide_file_phase(
        PathInfo::Missing,
        "/downloads/X",
        from_title(),
        &partial(TaskStatus::Finished),
        false,
    );
    assert!(
        matches!(&outcome, OpOutcome::Failed(why)
            if why.contains("more likely wrong") && why.contains("--no-delete-files")),
        "{outcome:?}"
    );

    // Status is not the only evidence: a task paused at 100% has its whole
    // payload on disk, so an absent path is worth refusing over there too.
    let outcome = decide_file_phase(
        PathInfo::Missing,
        "/downloads/X",
        from_title(),
        &PayloadState {
            status: TaskStatus::Paused,
            downloaded: 1024,
            size: 1024,
        },
        false,
    );
    assert!(
        matches!(&outcome, OpOutcome::Failed(why) if why.contains("more likely wrong")),
        "{outcome:?}"
    );
}

#[test]
fn an_absent_path_guessed_from_the_title_is_benign_when_no_payload_was_ever_written() {
    // The over-refusal this ordering exists to undo. Every non-BitTorrent
    // task resolves its name from the title, so hard-failing a missing path
    // on provenance alone made an HTTP/FTP/NZB task that downloaded nothing
    // — `waiting`, or errored on a bad URL — impossible to delete in the
    // normal flow: no payload to orphan, and yet the row survived every
    // retry.
    for status in [
        TaskStatus::Waiting,
        TaskStatus::Error,
        TaskStatus::Downloading,
        TaskStatus::Paused,
    ] {
        assert_eq!(
            decide_file_phase(
                PathInfo::Missing,
                "/downloads/empty-placeholder.bin",
                from_title(),
                &PayloadState {
                    status: status.clone(),
                    downloaded: 0,
                    size: 4 * 1024 * 1024,
                },
                false,
            ),
            OpOutcome::NothingThere,
            "{status:?}"
        );
    }

    // A partially written payload is the same answer: Download Station
    // cleans its own partial data up, which is what the file-list branch
    // has always relied on.
    assert_eq!(
        decide_file_phase(
            PathInfo::Missing,
            "/downloads/X",
            from_title(),
            &partial(TaskStatus::Downloading),
            false,
        ),
        OpOutcome::NothingThere
    );
}

#[test]
fn an_absent_path_with_no_provenance_at_all_is_refused_whatever_the_counters_say() {
    // A refused item resolves no path and never reaches the file phase, so
    // this is defence in depth: nothing named the path, so nothing
    // authorizes deleting the task off its absence.
    assert!(matches!(
        decide_file_phase(
            PathInfo::Missing,
            "/downloads/X",
            FileTarget {
                named: false,
                expected_kind: ExpectedKind::Indeterminate,
            },
            &partial(TaskStatus::Downloading),
            false
        ),
        OpOutcome::Failed(_)
    ));
}

#[test]
fn an_errored_http_download_that_wrote_nothing_can_be_deleted_end_to_end() {
    // The common real case, taken from the snapshot the dialog would build
    // rather than from a hand-made `FileTarget`: a bad URL, zero bytes
    // written, the name resolved from the title because an HTTP task has no
    // file list. Nothing was ever on the volume, so the missing path must
    // not strand the row.
    let task = Task {
        id: "dbid_098".to_string(),
        title: "broken-download.bin".to_string(),
        task_type: TaskType::Http,
        destination: "downloads".to_string(),
        status: TaskStatus::Error,
        size: 4 * 1024 * 1024,
        downloaded: 0,
        files: Vec::new(),
        ..fixture_task("dbid_007")
    };
    let item = &DeletePlan::snapshot(&[&task]).items[0];
    assert!(item.named);

    assert_eq!(
        decide_file_phase(
            PathInfo::Missing,
            item.path().expect("resolved"),
            FileTarget::of_item(item),
            &item.payload_state(),
            false,
        ),
        OpOutcome::NothingThere
    );
}

#[test]
fn a_live_read_beats_the_confirmation_snapshot() {
    // The staleness that deletes a task: the dialog opened while dbid_001
    // was downloading, the batch took minutes to reach it, and by the time
    // the pause phase looked it had finished. Judged from the snapshot an
    // absent payload is ordinary partial data and the row goes; judged from
    // the live read it is a resolution that missed, and the row stays.
    let item = &DeletePlan::snapshot(&[&fixture_task("dbid_001")]).items[0];
    assert_eq!(item.status, TaskStatus::Downloading);
    assert!(!delete::payload_should_exist(&item.payload_state()));

    let mut live = PauseRead::seeded_from(item);
    live.observe(Some(&live_task(
        "dbid_001",
        TaskStatus::Finished,
        item.size,
        item.size,
    )));
    let chosen = payload_for_file_phase(Some(&live), item);
    assert_eq!(chosen.status, TaskStatus::Finished);
    assert!(delete::payload_should_exist(&chosen));

    let outcome = decide_file_phase(
        PathInfo::Missing,
        "/downloads/X",
        FileTarget::of_item(item),
        &chosen,
        false,
    );
    assert!(
        matches!(&outcome, OpOutcome::Failed(why) if why.contains("--no-delete-files")),
        "{outcome:?}"
    );
}

#[test]
fn counters_that_complete_while_the_pause_takes_effect_keep_the_task() {
    // The window this program opens itself: the pause phase reads the task
    // (still downloading, half written), issues the pause, and by the time
    // DSM reports it stopped the download had finished. Taking only the
    // pre-pause read threw those counters away, and an absent path was then
    // judged from a half-written task — benign, task deleted, payload
    // orphaned. The counters are refreshed from the confirming read.
    let item = &DeletePlan::snapshot(&[&fixture_task("dbid_001")]).items[0];
    let size = item.size;

    let mut live = PauseRead::seeded_from(item);
    live.observe(Some(&live_task(
        "dbid_001",
        TaskStatus::Downloading,
        size / 2,
        size,
    )));
    assert!(!delete::payload_should_exist(&payload_for_file_phase(
        Some(&live),
        item
    )));

    // ...the confirming read, the one that ends the pause loop: it reports
    // the task stopped *and* that the download completed, and the loop
    // returns on it. Both halves of that read have to land.
    let still_active =
        live.observe(Some(&live_task("dbid_001", TaskStatus::Paused, size, size)));
    assert!(!still_active, "this is the read the pause loop returns on");
    let chosen = payload_for_file_phase(Some(&live), item);

    assert_eq!(
        chosen.downloaded, size,
        "the freshest counters, not the pre-pause ones"
    );
    assert_eq!(
        chosen.status,
        TaskStatus::Downloading,
        "`Paused` does not imply a payload, so it does not replace the status the ratchet \
         already holds — reporting our own pause back would defeat the check it feeds"
    );
    assert!(delete::payload_should_exist(&chosen));

    let outcome = decide_file_phase(
        PathInfo::Missing,
        "/downloads/X",
        FileTarget::of_item(item),
        &chosen,
        false,
    );
    assert!(
        matches!(&outcome, OpOutcome::Failed(why) if why.contains("--no-delete-files")),
        "{outcome:?}"
    );
}

#[test]
fn a_pause_never_lets_the_status_it_caused_be_used() {
    // The downgrade the ratchet exists to refuse: a seeding task's payload
    // must exist, and reading the status back after pausing it reports
    // `Paused` — which would turn "this payload must be there" into "its
    // absence is ordinary". `Paused` does not imply a payload, so it cannot
    // replace the `Seeding` already held.
    let item = &DeletePlan::snapshot(&[&fixture_task("dbid_001")]).items[0];
    let mut live = PauseRead::seeded_from(item);
    live.observe(Some(&live_task("dbid_001", TaskStatus::Seeding, 0, 0)));
    live.observe(Some(&live_task("dbid_001", TaskStatus::Paused, 0, 0)));

    let chosen = payload_for_file_phase(Some(&live), item);
    assert_eq!(chosen.status, TaskStatus::Seeding);
    assert!(delete::payload_should_exist(&chosen));
}

#[test]
fn a_snapshot_status_that_proved_the_payload_is_never_walked_back() {
    // The same walk-back one boundary earlier, and the one seeding the fold
    // with the snapshot exists for. A torrent with unselected files seeds at
    // `downloaded < size`, so only its *status* says the payload is on the
    // volume. Between the dialog opening and this item's turn in the queue
    // the task stopped — the user, a bandwidth schedule, a DSM restart — so
    // the pause phase's very first read reports `Paused` and needs no pause
    // at all. Composing the halves "live if present, else snapshot" let that
    // `Paused` overwrite the snapshot's `Seeding`: an absent path then looked
    // like ordinary partial data and the DSM task went, orphaning a payload
    // the snapshot had already proved must be there.
    let seeding = Task {
        status: TaskStatus::Seeding,
        ..fixture_task("dbid_001")
    };
    let item = &DeletePlan::snapshot(&[&seeding]).items[0];
    assert!(item.named);
    assert!(
        item.downloaded < item.size,
        "the counters must not be able to answer this on their own"
    );
    assert!(delete::payload_should_exist(&item.payload_state()));

    // The pre-pause read — the earliest live one, which used to be taken
    // whole rather than folded.
    let mut live = PauseRead::seeded_from(item);
    assert!(
        !live.observe(Some(&live_task(
            "dbid_001",
            TaskStatus::Paused,
            item.downloaded,
            item.size,
        ))),
        "an already-stopped task needs no pause, so this is the only live read"
    );

    let chosen = payload_for_file_phase(Some(&live), item);
    assert_eq!(
        chosen.status,
        TaskStatus::Seeding,
        "the snapshot seeds the ratchet, so a live `Paused` cannot weaken what it proved"
    );
    assert!(delete::payload_should_exist(&chosen));

    let outcome = decide_file_phase(
        PathInfo::Missing,
        "/downloads/X",
        FileTarget::of_item(item),
        &chosen,
        false,
    );
    assert!(
        matches!(&outcome, OpOutcome::Failed(why) if why.contains("--no-delete-files")),
        "{outcome:?}"
    );
}

#[test]
fn snapshot_counters_that_said_complete_are_never_walked_back() {
    // The counters half of the same boundary. This one already held — the
    // snapshot's counters were folded through `Counters::advance` — and the
    // seed keeps it holding now that the fold starts there.
    let complete = Task {
        downloaded: fixture_task("dbid_001").size,
        ..fixture_task("dbid_001")
    };
    let item = &DeletePlan::snapshot(&[&complete]).items[0];
    assert!(!delete::status_implies_payload(&item.status));
    assert!(delete::payload_should_exist(&item.payload_state()));

    let mut live = PauseRead::seeded_from(item);
    live.observe(Some(&live_task(
        "dbid_001",
        TaskStatus::Paused,
        0,
        item.size,
    )));

    let chosen = payload_for_file_phase(Some(&live), item);
    assert_eq!(chosen.downloaded, item.size);
    assert!(delete::payload_should_exist(&chosen));
}

#[test]
fn a_status_that_completes_while_the_pause_takes_effect_keeps_the_task() {
    // The upgrade the ratchet exists to keep, and the half the counters
    // cannot cover: a task with unselected files seeds at `downloaded <
    // size`, so it finishes without the counters ever reading complete. It
    // was downloading when the pause phase looked and seeding by the time
    // DSM reported it stopped. Holding the pre-pause status unconditionally
    // judged the absent path from `Downloading` — benign, task deleted,
    // payload orphaned.
    let item = &DeletePlan::snapshot(&[&fixture_task("dbid_001")]).items[0];
    let size = item.size;
    let selected = size / 2;

    let mut live = PauseRead::seeded_from(item);
    live.observe(Some(&live_task(
        "dbid_001",
        TaskStatus::Downloading,
        selected / 2,
        size,
    )));
    assert!(!delete::payload_should_exist(&payload_for_file_phase(
        Some(&live),
        item
    )));

    // The task completes its selected files mid-pause and starts seeding.
    // Still active, so the pause loop keeps polling...
    assert!(live.observe(Some(&live_task(
        "dbid_001",
        TaskStatus::Seeding,
        selected,
        size,
    ))));
    // ...and the read that ends the loop is our own pause landing, which
    // must not walk that upgrade back.
    assert!(!live.observe(Some(&live_task(
        "dbid_001",
        TaskStatus::Paused,
        selected,
        size,
    ))));

    let chosen = payload_for_file_phase(Some(&live), item);
    assert_eq!(
        chosen.status,
        TaskStatus::Seeding,
        "a read that says the payload must exist replaces the pre-pause status"
    );
    assert!(
        !chosen.fully_downloaded(),
        "the counters never complete here: this is the status half or nothing"
    );
    assert!(delete::payload_should_exist(&chosen));

    let outcome = decide_file_phase(
        PathInfo::Missing,
        "/downloads/X",
        FileTarget::of_item(item),
        &chosen,
        false,
    );
    assert!(
        matches!(&outcome, OpOutcome::Failed(why) if why.contains("--no-delete-files")),
        "{outcome:?}"
    );
}

#[test]
fn counters_that_said_complete_are_never_walked_back() {
    // Counters only ever move toward "the payload is on the volume", so a
    // later read that reports less is DSM being strange — and the reading
    // that keeps the task is the one to take.
    let item = &DeletePlan::snapshot(&[&fixture_task("dbid_001")]).items[0];
    let mut live = PauseRead::seeded_from(item);
    live.observe(Some(&live_task(
        "dbid_001",
        TaskStatus::Downloading,
        item.size,
        item.size,
    )));
    live.observe(Some(&live_task(
        "dbid_001",
        TaskStatus::Paused,
        0,
        item.size,
    )));

    let chosen = payload_for_file_phase(Some(&live), item);
    assert_eq!(chosen.downloaded, item.size);
    assert!(delete::payload_should_exist(&chosen));
}

#[test]
fn a_read_with_no_entry_for_the_id_leaves_the_fold_untouched() {
    // The fail-safe case: `getinfo` answered with nothing about this id, so
    // there is nothing to fold in and the seeded snapshot stands whole.
    let item = &DeletePlan::snapshot(&[&fixture_task("dbid_003")]).items[0];
    let mut live = PauseRead::seeded_from(item);
    assert!(
        live.observe(None),
        "an answer with no entry for the id is read as 'still active', never as idle"
    );
    assert!(live.observe(None));
    assert_eq!(
        payload_for_file_phase(Some(&live), item),
        item.payload_state()
    );
}

#[test]
fn the_snapshot_is_used_only_when_no_live_read_was_taken() {
    // A pause that failed before its first read, or a dry run: there is
    // nothing fresher to judge from, and the snapshot is still better than
    // nothing.
    let item = &DeletePlan::snapshot(&[&fixture_task("dbid_003")]).items[0];
    assert_eq!(
        payload_for_file_phase(None, item),
        item.payload_state(),
        "a missing live read falls back rather than assuming anything"
    );
}

#[test]
fn a_live_state_is_read_off_the_task_dsm_answered_with() {
    let task = fixture_task("dbid_001");
    assert_eq!(
        PayloadState::of_task(&task),
        PayloadState {
            status: task.status.clone(),
            downloaded: task.downloaded,
            size: task.size,
        }
    );
}

#[test]
fn a_lookup_error_is_never_read_as_absence() {
    // "I am not allowed to look" becoming "there is nothing to delete" is
    // how the task goes and the files stay.
    let outcome = file_phase(PathInfo::Error(403));
    assert!(
        matches!(&outcome, OpOutcome::Failed(why) if why.contains("403")),
        "{outcome:?}"
    );
}

#[test]
fn an_unreadable_getinfo_response_deletes_nothing() {
    // The whole-batch failure mode: a `getinfo` shape this client cannot
    // parse yields no entries, and calling that "already gone" would delete
    // every task in the batch while reclaiming nothing.
    let outcome = file_phase(PathInfo::Unknown);
    assert!(matches!(outcome, OpOutcome::Failed(_)), "{outcome:?}");
}

#[test]
fn a_path_still_there_after_the_delete_fails_the_item() {
    let outcome = decide_confirm_phase(PathInfo::Found { is_dir: true }, "/downloads/X");
    assert!(
        matches!(&outcome, OpOutcome::Failed(why) if why.contains("still there")),
        "{outcome:?}"
    );
    // The task survives, so the user needs the one flag that can still
    // remove it.
    assert!(matches!(
        &outcome,
        OpOutcome::Failed(why) if why.contains("--no-delete-files")
    ));
}

#[test]
fn a_path_confirmed_gone_completes_the_item() {
    assert_eq!(
        decide_confirm_phase(PathInfo::Missing, "/downloads/X"),
        OpOutcome::Done
    );
}

#[test]
fn an_unattributable_recheck_does_not_strand_the_task() {
    // The whole-run failure this replaced: on a DSM build that answers an
    // absent path with `{"files": []}` every item deleted its files, got
    // `Unknown` back, failed, and kept the task — a half-completed delete
    // on every single run, reported as FAILED.
    assert_eq!(
        decide_confirm_phase(PathInfo::Unknown, "/downloads/X"),
        OpOutcome::Done,
        "the delete reported itself finished and the path is not there"
    );
}

#[test]
fn a_recheck_that_answers_with_an_error_keeps_the_task() {
    // An error code is a *readable* answer, and what it says is "I could not
    // look" — which is not "the path is gone". The case that produces it is
    // a recursive delete of a directory holding one entry the account may
    // not remove: File Station reports the task finished, the directory
    // survives, and removing the DSM row would orphan it.
    let outcome = decide_confirm_phase(PathInfo::Error(403), "/downloads/X");
    assert!(
        matches!(&outcome, OpOutcome::Failed(why) if why.contains("403")),
        "{outcome:?}"
    );
}

#[test]
fn the_recheck_is_the_mirror_image_of_the_pre_check_only_for_unknown() {
    // The two directions in one place, because collapsing them into one
    // helper is the tempting simplification that reintroduces both bugs.
    // The relaxation covers `Unknown` and nothing else: that is the one
    // answer the previous phase's own `Found` proves this NAS can produce
    // for a path that has stopped being there.
    assert!(matches!(
        file_phase(PathInfo::Unknown),
        OpOutcome::Failed(_)
    ));
    assert_eq!(
        decide_confirm_phase(PathInfo::Unknown, "/downloads/X"),
        OpOutcome::Done
    );

    for info in [PathInfo::Error(403), PathInfo::Found { is_dir: true }] {
        assert!(
            matches!(file_phase(info), OpOutcome::Failed(_) | OpOutcome::Done),
            "{info:?}"
        );
        assert!(
            matches!(
                decide_confirm_phase(info, "/downloads/X"),
                OpOutcome::Failed(_)
            ),
            "{info:?} after a finished delete says nothing about the path being gone"
        );
    }
}

#[test]
fn a_task_the_status_read_says_nothing_about_is_paused_anyway() {
    // Fail-safe, not fail-open. `TaskList::tasks` is `#[serde(default)]`,
    // so a `getinfo` payload this client cannot read arrives as no entry at
    // all — and reading that as "idle" walks a recursive delete into a
    // directory Download Station may still be writing into.
    assert!(pause_needed(None));
}

#[test]
fn the_status_read_is_matched_to_the_id_that_was_asked_about() {
    // A build that ignored the `id` parameter would otherwise let some
    // other task's `paused` decide this one's fate.
    let tasks = fixture_tasks();
    let id = "dbid_004";
    assert!(matches!(task_with_id(&tasks, id), Some(task) if task.id == id));
    assert!(task_with_id(&tasks, "dbid_nonexistent").is_none());
    assert!(
        pause_needed(task_with_id(&tasks, "dbid_nonexistent")),
        "an answer that does not cover the id is not an answer"
    );
}

#[test]
fn the_live_status_decides_the_pause_not_the_snapshot() {
    // The bug this exists for: the snapshot said `paused` when the dialog
    // opened, DSM's bandwidth schedule resumed the task while the user was
    // reading, and File Station would then recurse through a directory
    // Download Station is writing into.
    let mut task = fixture_tasks()
        .into_iter()
        .find(|task| task.id == "dbid_004")
        .expect("a paused fixture task");
    assert_eq!(task.status, TaskStatus::Paused);
    assert!(!pause_needed(Some(&task)));

    task.status = TaskStatus::Downloading;
    assert!(pause_needed(Some(&task)));
}

#[test]
fn the_two_operations_this_path_accepts_report_themselves_correctly() {
    assert_eq!(TaskOp::Pause.kind(), OpKind::Pause);
    assert_eq!(TaskOp::Resume.kind(), OpKind::Resume);
    assert_eq!(TaskOp::Pause.label(), "pause");
    assert_eq!(TaskOp::Resume.label(), "resume");
}

#[test]
fn a_batch_tally_agrees_with_the_lines_that_produced_it() {
    let mut tally = BatchTally::default();
    tally.record(&ItemOutcome::done(OpKind::Delete));
    tally.record(&ItemOutcome::Done(
        "deleted — the files were already gone".into(),
    ));
    tally.record(&ItemOutcome::Skipped("dry run".into()));
    tally.record(&ItemOutcome::Failed("nope".into()));
    assert_eq!(
        tally.done_event(OpKind::Delete),
        AppEvent::OpDone {
            op: OpKind::Delete,
            // An item whose files were already gone still had its task
            // removed, so it is a success, not a skip.
            succeeded: 2,
            skipped: 1,
            failed: 1,
        }
    );
}

/// The events of a pause or resume that made its one call, or none.
fn run_task_op(
    op: TaskOp,
    tasks: Vec<TaskRef>,
    dry_run: bool,
    answer: Result<Vec<TaskOpResult>, Error>,
) -> (bool, Vec<AppEvent>) {
    match begin_task_op(op, &tasks, dry_run) {
        TaskOpStart::Nothing => (false, Vec::new()),
        TaskOpStart::Report(outcomes) => (false, batch_events(op.kind(), &tasks, &outcomes)),
        TaskOpStart::Call(ids) => {
            assert_eq!(ids.len(), tasks.len());
            let outcomes = settle_task_op(op, &tasks, &answer);
            (true, batch_events(op.kind(), &tasks, &outcomes))
        }
    }
}

#[test]
fn an_empty_batch_makes_no_call_and_reports_nothing() {
    // `p` on an empty table must not produce a phantom "0 succeeded" line.
    let (called, events) = run_task_op(TaskOp::Pause, Vec::new(), false, Ok(Vec::new()));
    assert!(!called);
    assert!(events.is_empty());
}

#[test]
fn a_dry_run_issues_no_call_and_counts_every_item_as_skipped() {
    let (called, events) = run_task_op(
        TaskOp::Pause,
        task_refs(&["dbid_001", "dbid_002"]),
        true,
        Ok(Vec::new()),
    );
    assert!(!called);
    // Two progress lines naming the dry run, then a summary with no successes: a dry run
    // must never read as "2 succeeded".
    for expected in 1..=2 {
        match &events[expected - 1] {
            AppEvent::OpProgress { op, done, item, .. } => {
                assert_eq!(*op, OpKind::Pause);
                assert_eq!(*done, expected);
                let detail = item.detail();
                assert!(detail.contains("dry run"), "{detail}");
            }
            other => panic!("expected progress, got {other:?}"),
        }
    }
    assert_eq!(
        events[2],
        AppEvent::OpDone {
            op: OpKind::Pause,
            succeeded: 0,
            skipped: 2,
            failed: 0,
        }
    );
}

#[test]
fn a_batch_call_that_fails_outright_condemns_every_item_and_no_more() {
    let (called, events) = run_task_op(
        TaskOp::Resume,
        task_refs(&["dbid_001", "dbid_002"]),
        false,
        Err(Error::api_missing("SYNO.DownloadStation.Task")),
    );
    assert!(called);
    assert_eq!(events.len(), 3, "{events:?}");
    for event in &events[..2] {
        assert!(
            matches!(event, AppEvent::OpProgress { item, .. } if item.detail().contains("FAILED")),
            "{event:?}"
        );
    }
    assert_eq!(
        events.last(),
        Some(&AppEvent::OpDone {
            op: OpKind::Resume,
            succeeded: 0,
            skipped: 0,
            failed: 2,
        })
    );
}

#[test]
fn a_progress_line_names_the_torrent_rather_than_its_dsm_handle() {
    // `dbid_042` means nothing to anyone reading the footer.
    let (_, events) = run_task_op(TaskOp::Pause, task_refs(&["dbid_007"]), true, Ok(Vec::new()));
    match &events[0] {
        AppEvent::OpProgress { item, .. } => {
            assert_eq!(item.title, "Title of dbid_007");
            assert!(item.detail().starts_with("Title of dbid_007:"), "{item:?}");
        }
        other => panic!("expected progress, got {other:?}"),
    }
}

#[test]
fn a_batch_names_every_task_in_its_one_call() {
    let TaskOpStart::Call(ids) =
        begin_task_op(TaskOp::Pause, &task_refs(&["dbid_001", "dbid_002"]), false)
    else {
        panic!("expected a call");
    };
    assert_eq!(ids, ["dbid_001", "dbid_002"]);
}

#[test]
fn a_failed_poll_becomes_a_banner_and_a_good_one_a_list() {
    let event = settle_poll(Err(Error::dsm(105, "SYNO.DownloadStation.Task")));
    assert!(
        matches!(&event, AppEvent::Error(text) if text.starts_with("refresh failed: ")),
        "{event:?}"
    );
    let tasks = fixture_tasks();
    assert_eq!(settle_poll(Ok(tasks.clone())), AppEvent::Tasks(tasks));
}

#[test]
fn the_first_storage_read_is_due_at_once_and_the_next_a_minute_later() {
    let mut schedule = StorageSchedule::new();
    assert!(schedule.due(false, 5));
    assert!(begin_storage(&mut schedule, false, 5));
    assert!(!begin_storage(&mut schedule, false, 5 + STORAGE_INTERVAL_MS - 1));
    assert!(schedule.due(false, 5 + STORAGE_INTERVAL_MS));
    assert!(schedule.due(true, 6), "an explicit refresh is not throttled");
}

#[test]
fn a_failed_storage_read_reports_nothing() {
    let mut schedule = StorageSchedule::new();
    let failed = Error::Http { message: "refused".to_string() };
    assert!(settle_storage(&mut schedule, Err(failed)).is_none());
    let volumes = vec![VolumeUsage { name: "volume1".to_string(), total: 2, free: 1 }];
    assert_eq!(
        settle_storage(&mut schedule, Ok(volumes.clone())),
        Some(AppEvent::Storage(volumes))
    );
}

#[test]
fn two_refusals_in_a_row_stop_the_storage_read_and_one_does_not() {
    let refused = || Err(Error::dsm(PERMISSION_DENIED_CODE, FS_LIST_API));
    let mut schedule = StorageSchedule::new();
    settle_storage(&mut schedule, refused());
    assert!(schedule.due(true, 0));
    // A dropped connection between them: not in a row.
    settle_storage(&mut schedule, Err(Error::Http { message: "reset".to_string() }));
    settle_storage(&mut schedule, refused());
    assert!(schedule.due(true, 0));
    settle_storage(&mut schedule, refused());
    assert!(!schedule.due(true, 0), "a standing refusal holds for a forced read too");
}

#[test]
fn a_missing_file_station_stops_the_storage_read_at_once() {
    let mut schedule = StorageSchedule::new();
    let missing = Error::api_missing(FS_LIST_API);
    assert!(is_unavailable(&missing));
    settle_storage(&mut schedule, Err(missing));
    assert!(schedule.given_up);
}

#[test]
fn only_the_storage_api_itself_can_refuse_the_storage_read() {
    assert!(is_permission_refusal(&Error::dsm(PERMISSION_DENIED_CODE, FS_LIST_API)));
    assert!(is_permission_refusal(&Error::dsm(FS_PERMISSION_DENIED, FS_LIST_API)));
    // 403 on the auth API asks for a one-time code.
    assert!(!is_permission_refusal(&Error::dsm(OTP_REQUIRED_CODE, AUTH_API)));
    assert!(!is_permission_refusal(&Error::dsm(408, FS_LIST_API)));
}

#[test]
fn a_batch_report_counts_what_it_reported() {
    let mut report = BatchReport::new(OpKind::Delete, 2);
    let event = report.item("A", ItemOutcome::done(OpKind::Delete));
    assert!(matches!(event, AppEvent::OpProgress { done: 1, total: 2, .. }), "{event:?}");
    report.item("B", ItemOutcome::Failed("no".to_string()));
    assert_eq!(
        report.end(),
        AppEvent::OpDone { op: OpKind::Delete, succeeded: 1, skipped: 0, failed: 1 }
    );
}

#[test]
fn the_event_queue_is_bounded() {
    assert_eq!(EVENT_CHANNEL_CAPACITY, 64);
}
