//! Deleting items phase by phase, against a scripted NAS.

use syno_clean::api::download_station::TaskOpResult;
use syno_clean::api::file_station::PathInfo;
use syno_clean::delete::{
    DeleteItem, DeleteOptions, DeletePlan, ExpectedKind, Target,
};
use syno_clean::error::Error;
use syno_clean::event::{AppEvent, BatchReport, DeletedPaths, ItemOutcome, OpKind};
use syno_clean::executor::{begin_item, continue_item, Action, Reply, Turn};
use syno_clean::model::{Task, TaskStatus};
use syno_clean::testutil;

/// Every task of the sample list.
fn fixture_tasks() -> Vec<Task> {
    testutil::fixture_tasks().expect("the fixture must parse")
}

/// One task of the sample list by id.
fn fixture_task(id: &str) -> Task {
    testutil::fixture_task(id)
        .expect("the fixture must parse")
        .expect("a task of that id")
}

/// Run one item against scripted replies, and list what was asked of the NAS.
fn drive(
    item: &DeleteItem,
    options: DeleteOptions,
    deleted: &mut DeletedPaths,
    replies: Vec<(Reply, u64)>,
) -> (Vec<Action>, ItemOutcome) {
    let mut asked = Vec::new();
    let mut replies = replies.into_iter();
    let mut turn = begin_item(item, options);
    loop {
        match turn {
            Turn::Over(outcome) => {
                assert!(replies.next().is_none(), "replies left over after {asked:?}");
                return (asked, outcome);
            }
            Turn::Asks(run, action) => {
                asked.push(action);
                let Some((reply, now)) = replies.next() else {
                    panic!("no reply to {asked:?}");
                };
                turn = continue_item(run, deleted, &reply, now);
            }
        }
    }
}

/// Run a plan that must not ask the NAS for anything, and list its events.
fn run_uncalled(plan: DeletePlan, options: DeleteOptions) -> Vec<AppEvent> {
    let mut report = BatchReport::new(OpKind::Delete, plan.len());
    let mut events = Vec::new();
    for item in &plan.items {
        match begin_item(item, options) {
            Turn::Over(outcome) => events.push(report.item(&item.title, outcome)),
            Turn::Asks(_, action) => panic!("{action:?} was asked for {}", item.id),
        }
    }
    events.push(report.end());
    events
}

fn item_of(task: &Task) -> DeleteItem {
    DeleteItem::for_task(task)
}

fn with_status(id: &str, status: TaskStatus) -> Task {
    Task { status, ..fixture_task(id) }
}

fn read(task: Task) -> Reply {
    Reply::Tasks(Ok(vec![task]))
}

fn acted(id: &str) -> Reply {
    Reply::Acted(Ok(vec![TaskOpResult { id: id.to_string(), error: 0 }]))
}

fn found(is_dir: bool) -> Reply {
    Reply::Found(Ok(PathInfo::Found { is_dir }))
}

const PATH: &str = "/downloads/Ubuntu.24.04.3.LTS.Desktop.amd64";

#[test]
fn a_dry_run_delete_issues_no_call_at_all_and_claims_no_successes() {
    let tasks = fixture_tasks();
    let refs: Vec<&Task> = tasks.iter().collect();
    let plan = DeletePlan::snapshot(&refs);
    let total = plan.len();
    assert!(total > 1);

    let mut done = None;
    for event in run_uncalled(plan, DeleteOptions::dry_run()) {
        match event {
            // Every item, including the ones that would really have been deleted, reports
            // what it *would* do, never that it did it.
            AppEvent::OpProgress { op, ref item, .. } => {
                assert_eq!(op, OpKind::Delete);
                let detail = item.detail();
                assert!(
                    detail.contains("dry run") || detail.contains("skipped"),
                    "{detail}"
                );
            }
            AppEvent::OpDone { .. } => done = Some(event),
            other => panic!("unexpected {other:?}"),
        }
    }
    assert_eq!(
        done,
        Some(AppEvent::OpDone {
            op: OpKind::Delete,
            succeeded: 0,
            skipped: total,
            failed: 0,
        }),
        "a dry run must report every item as skipped and nothing as done"
    );
}

#[test]
fn a_refused_item_reaches_the_nas_not_even_for_its_task_delete() {
    // Removing the task would orphan exactly the data whose location is in doubt. This is
    // a **real** run, not a dry one.
    let refused = fixture_task("dbid_010");
    let plan = DeletePlan::snapshot(&[&refused]);
    assert!(plan.items[0].is_refused());

    let events = run_uncalled(plan, DeleteOptions::default());
    assert!(matches!(
        events.first(),
        Some(AppEvent::OpProgress { item, .. }) if item.detail().contains("skipped")
    ));
    assert_eq!(
        events.last(),
        Some(&AppEvent::OpDone {
            op: OpKind::Delete,
            succeeded: 0,
            skipped: 1,
            failed: 0,
        })
    );
}

#[test]
fn no_delete_files_removes_a_refused_items_task_instead_of_skipping_it() {
    // The same task with the flag that makes its refusal meaningless: no path is used, so
    // there is nothing to be unsure about.
    let refused = fixture_task("dbid_010");
    let plan = DeletePlan::snapshot(&[&refused]);
    assert!(plan.items[0].is_refused());

    let events = run_uncalled(
        plan,
        DeleteOptions {
            delete_files: false,
            dry_run: true,
        },
    );
    let AppEvent::OpProgress { item, .. } = &events[0] else {
        panic!("expected progress, got {:?}", events[0]);
    };
    let detail = item.detail();
    assert!(
        detail.contains("would delete the DSM task"),
        "a refused item must still be removable with --no-delete-files: {detail}"
    );
    assert!(
        !detail.contains("share no single top-level directory"),
        "the refusal is about a path this run never uses: {detail}"
    );
}

#[test]
fn a_path_that_fails_re_validation_is_never_handed_to_file_station() {
    // The defence-in-depth check at the top of the file phase. It runs **before** the
    // dry-run early return.
    let item = DeleteItem {
        id: "dbid_001".to_string(),
        title: "Corrupted.Plan".to_string(),
        size: 1024,
        downloaded: 1024,
        status: TaskStatus::Finished,
        // A share root: resolution can never produce one.
        target: Target::Path("/downloads".to_string()),
        named: true,
        expected_kind: ExpectedKind::Dir,
    };
    let plan = DeletePlan { items: vec![item] };

    let events = run_uncalled(plan, DeleteOptions::dry_run());
    assert!(
        matches!(
            events.first(),
            Some(AppEvent::OpProgress { item, .. })
                if item.detail().contains("FAILED") && item.detail().contains("share root")
        ),
        "{events:?}"
    );
    assert_eq!(
        events.last(),
        Some(&AppEvent::OpDone {
            op: OpKind::Delete,
            succeeded: 0,
            skipped: 0,
            failed: 1,
        }),
        "an invalid path is a failure, never a skip that still deletes the task"
    );
}

#[test]
fn an_active_task_is_paused_its_files_deleted_and_the_task_removed_last() {
    let item = item_of(&fixture_task("dbid_001"));
    let mut deleted = DeletedPaths::default();
    let (asked, outcome) = drive(
        &item,
        DeleteOptions::default(),
        &mut deleted,
        vec![
            (read(with_status("dbid_001", TaskStatus::Downloading)), 0),
            (acted("dbid_001"), 10),
            (read(with_status("dbid_001", TaskStatus::Downloading)), 20),
            (Reply::Waited, 520),
            (read(with_status("dbid_001", TaskStatus::Paused)), 530),
            (found(true), 540),
            (Reply::Deleted(Ok(())), 550),
            (Reply::Found(Ok(PathInfo::Missing)), 560),
            (acted("dbid_001"), 570),
        ],
    );
    assert_eq!(
        asked,
        [
            Action::ReadTask,
            Action::PauseTask,
            Action::ReadTask,
            Action::Wait(500),
            Action::ReadTask,
            Action::LookUp(PATH.to_string()),
            Action::DeletePath(PATH.to_string()),
            Action::LookUp(PATH.to_string()),
            Action::DeleteTask,
        ]
    );
    assert_eq!(outcome, ItemOutcome::Done("deleted".to_string()));
    assert!(deleted.contains(PATH));
}

#[test]
fn an_idle_task_costs_one_read_and_no_pause() {
    let item = item_of(&with_status("dbid_001", TaskStatus::Paused));
    let mut deleted = DeletedPaths::default();
    let (asked, outcome) = drive(
        &item,
        DeleteOptions::default(),
        &mut deleted,
        vec![
            (read(with_status("dbid_001", TaskStatus::Paused)), 0),
            (Reply::Found(Ok(PathInfo::Missing)), 1),
            (acted("dbid_001"), 2),
        ],
    );
    assert_eq!(
        asked,
        [
            Action::ReadTask,
            Action::LookUp(PATH.to_string()),
            Action::DeleteTask,
        ]
    );
    assert_eq!(
        outcome,
        ItemOutcome::Done("deleted — the files were already gone".to_string())
    );
}

#[test]
fn without_files_only_the_task_goes() {
    let item = item_of(&fixture_task("dbid_001"));
    let mut deleted = DeletedPaths::default();
    let options = DeleteOptions { delete_files: false, dry_run: false };
    let (asked, outcome) = drive(&item, options, &mut deleted, vec![(acted("dbid_001"), 0)]);
    assert_eq!(asked, [Action::DeleteTask]);
    assert_eq!(outcome, ItemOutcome::Done("deleted".to_string()));
}

#[test]
fn a_pause_that_never_takes_effect_times_out_and_nothing_is_deleted() {
    let item = item_of(&fixture_task("dbid_001"));
    let mut deleted = DeletedPaths::default();
    let active = || read(with_status("dbid_001", TaskStatus::Seeding));
    let (asked, outcome) = drive(
        &item,
        DeleteOptions::default(),
        &mut deleted,
        vec![
            (active(), 0),
            (acted("dbid_001"), 1_000),
            (active(), 60_499),
            (Reply::Waited, 60_499),
            (active(), 60_500),
        ],
    );
    assert!(!asked.contains(&Action::DeleteTask));
    let ItemOutcome::Failed(why) = outcome else {
        panic!("expected a failure, got {outcome:?}");
    };
    assert!(why.starts_with("could not pause it: I/O error: "), "{why}");
    assert!(why.contains("still running 60s later"), "{why}");
}

#[test]
fn a_failed_phase_cancels_every_later_one() {
    let item = item_of(&with_status("dbid_001", TaskStatus::Paused));
    let idle = || read(with_status("dbid_001", TaskStatus::Paused));
    let denied = || Error::dsm(403, "SYNO.FileStation.List");

    let cases: Vec<(Vec<(Reply, u64)>, &str)> = vec![
        (
            vec![(Reply::Tasks(Err(denied())), 0)],
            "could not pause it: SYNO.FileStation.List failed: permission denied",
        ),
        (
            vec![(idle(), 0), (Reply::Found(Err(denied())), 0)],
            "could not check /downloads/Ubuntu",
        ),
        (
            vec![(idle(), 0), (found(false), 0)],
            "/downloads/Ubuntu.24.04.3.LTS.Desktop.amd64 is a file, but",
        ),
        (
            vec![(idle(), 0), (found(true), 0), (Reply::Deleted(Err(denied())), 0)],
            "could not delete /downloads/Ubuntu",
        ),
        (
            vec![
                (idle(), 0),
                (found(true), 0),
                (Reply::Deleted(Ok(())), 0),
                (found(true), 0),
            ],
            "File Station reported the delete of",
        ),
        (
            vec![
                (idle(), 0),
                (found(true), 0),
                (Reply::Deleted(Ok(())), 0),
                (Reply::Found(Err(denied())), 0),
            ],
            "File Station reported the delete of",
        ),
    ];
    for (replies, start) in cases {
        let mut deleted = DeletedPaths::default();
        let (asked, outcome) = drive(&item, DeleteOptions::default(), &mut deleted, replies);
        assert!(!asked.contains(&Action::DeleteTask), "{asked:?}");
        assert!(
            matches!(&outcome, ItemOutcome::Failed(why) if why.starts_with(start)),
            "{outcome:?}"
        );
    }
}

#[test]
fn a_task_that_survives_its_delete_is_a_failure() {
    let item = item_of(&fixture_task("dbid_001"));
    let options = DeleteOptions { delete_files: false, dry_run: false };
    let mut deleted = DeletedPaths::default();
    let survived = Reply::Acted(Ok(vec![TaskOpResult {
        id: "dbid_001".to_string(),
        error: 544,
    }]));
    let (_, outcome) = drive(&item, options, &mut deleted, vec![(survived, 0)]);
    assert!(
        matches!(&outcome, ItemOutcome::Failed(why)
            if why.starts_with("could not delete the task: ") && why.contains("544")),
        "{outcome:?}"
    );
    let silent = Reply::Acted(Ok(Vec::new()));
    let (_, outcome) = drive(&item, options, &mut deleted, vec![(silent, 0)]);
    assert!(
        matches!(&outcome, ItemOutcome::Failed(why) if why.contains("no result")),
        "{outcome:?}"
    );
}

#[test]
fn a_retry_after_an_unreadable_recheck_finishes_the_job() {
    let item = item_of(&with_status("dbid_001", TaskStatus::Finished));
    let idle = || read(with_status("dbid_001", TaskStatus::Finished));
    let mut deleted = DeletedPaths::default();
    let (_, outcome) = drive(
        &item,
        DeleteOptions::default(),
        &mut deleted,
        vec![
            (idle(), 0),
            (found(true), 0),
            (Reply::Deleted(Ok(())), 0),
            (
                Reply::Found(Err(Error::Http { message: "reset".to_string() })),
                0,
            ),
        ],
    );
    assert!(
        matches!(&outcome, ItemOutcome::Failed(why) if why.contains("retrying is safe")),
        "{outcome:?}"
    );

    // The payload of a finished task is missing, but this run removed it.
    let (asked, outcome) = drive(
        &item,
        DeleteOptions::default(),
        &mut deleted,
        vec![
            (idle(), 0),
            (Reply::Found(Ok(PathInfo::Missing)), 0),
            (acted("dbid_001"), 0),
        ],
    );
    assert_eq!(asked.last(), Some(&Action::DeleteTask));
    assert_eq!(
        outcome,
        ItemOutcome::Done("deleted — the files were already gone".to_string())
    );
}

#[test]
fn a_reply_to_something_that_was_not_asked_changes_nothing() {
    let item = item_of(&fixture_task("dbid_001"));
    let mut deleted = DeletedPaths::default();
    let Turn::Asks(run, first) = begin_item(&item, DeleteOptions::default()) else {
        panic!("expected a question");
    };
    assert_eq!(first, Action::ReadTask);
    let Turn::Asks(_, again) = continue_item(run, &mut deleted, &Reply::Waited, 0) else {
        panic!("expected the same question");
    };
    assert_eq!(again, Action::ReadTask);
}
