//! What is deleted: resolution, guards and plans.

use syno_clean::delete::{
    common_root, describe_ops, normalize_destination, ops_cancelled_by, plan_delete_ops,
    payload_should_exist, requires_pause, resolve_delete_path, status_implies_payload,
    validate_name, validate_path, will_act, DeleteItem, DeleteOptions, DeletePlan, ExpectedKind,
    Op, PayloadState,
};
use syno_clean::error::Error;
use syno_clean::model::{Task, TaskFile, TaskStatus, TaskType};
use syno_clean::testutil;

/// Every task of the sample list.
fn fixture_tasks() -> Vec<Task> {
    testutil::fixture_tasks().expect("the fixture must parse")
}

/// One task of the sample list by id.
fn task(id: &str) -> Task {
    testutil::fixture_task(id)
        .expect("the fixture must parse")
        .expect("a task of that id")
}

/// A minimal synthetic task; the fields each test cares about are
/// overwritten with struct-update syntax.
fn bare() -> Task {
    Task {
        id: "synthetic".to_string(),
        title: "Some.Release".to_string(),
        status: TaskStatus::Finished,
        task_type: TaskType::BitTorrent,
        size: 1024,
        downloaded: 1024,
        uploaded: 0,
        download_speed: 0,
        upload_speed: 0,
        destination: "downloads".to_string(),
        files: Vec::new(),
        seeders: 0,
        leechers: 0,
        create_time: None,
    }
}

fn file(filename: &str) -> TaskFile {
    TaskFile {
        filename: filename.to_string(),
        size: 1,
        priority: "normal".to_string(),
        wanted: true,
    }
}

/// Assert a refusal, and hand back the reason so the caller can check it
/// says something useful.
fn refusal(result: Result<String, Error>) -> String {
    match result {
        Ok(path) => panic!("expected a refusal, resolved to {path:?}"),
        Err(Error::UnsafePath { reason, .. }) => {
            assert!(!reason.is_empty(), "a refusal must explain itself");
            reason
        }
        Err(other) => panic!("expected Error::UnsafePath, got {other:?}"),
    }
}

fn rejected(path: &str) -> String {
    match validate_path(path) {
        Ok(()) => panic!("{path:?} should have been rejected"),
        Err(Error::UnsafePath { reason, .. }) => reason,
        Err(other) => panic!("expected Error::UnsafePath, got {other:?}"),
    }
}

// -----------------------------------------------------------------------
// common_root
// -----------------------------------------------------------------------

#[test]
fn a_multi_file_torrent_resolves_to_its_shared_directory() {
    let files = [
        file("Some.Release/a.mkv"),
        file("Some.Release/b.nfo"),
        file("Some.Release/subs/en.srt"),
    ];
    assert_eq!(common_root(&files).as_deref(), Some("Some.Release"));
}

#[test]
fn a_single_file_torrent_resolves_to_the_file_itself() {
    let files = [file("archlinux-2026.07.01-x86_64.iso")];
    assert_eq!(
        common_root(&files).as_deref(),
        Some("archlinux-2026.07.01-x86_64.iso")
    );
}

#[test]
fn entries_with_different_top_level_components_have_no_common_root() {
    let files = [file("Disc1/track01.flac"), file("Disc2/track01.flac")];
    assert_eq!(common_root(&files), None);
}

#[test]
fn a_loose_file_beside_a_directory_has_no_common_root() {
    let files = [file("Some.Release/a.mkv"), file("readme.nfo")];
    assert_eq!(common_root(&files), None);
}

#[test]
fn roots_differing_only_in_case_are_two_directories_not_one() {
    // The NAS filesystem is case-sensitive; folding here would pick one of
    // two real directories at random.
    let files = [file("Some.Release/a.mkv"), file("some.release/b.mkv")];
    assert_eq!(common_root(&files), None);
}

#[test]
fn an_empty_file_list_has_no_common_root() {
    assert_eq!(common_root(&[]), None);
}

#[test]
fn an_entry_with_an_empty_filename_makes_the_list_unusable() {
    let files = [file("Some.Release/a.mkv"), file("")];
    assert_eq!(common_root(&files), None);
}

#[test]
fn an_absolute_filename_never_reports_the_volume_as_the_root() {
    // Splitting "/volume1/downloads/X/a.mkv" naively yields "" or, worse,
    // "volume1". Neither is a torrent directory.
    let files = [file("/volume1/downloads/Some.Release/a.mkv")];
    assert_eq!(common_root(&files), None);
}

#[test]
fn a_deselected_file_still_counts_towards_the_common_root() {
    // Deliberate: `wanted` describes what was downloaded, not what is on
    // disk, and a list that disagrees with itself must refuse either way.
    let mut skipped = file("Other.Release/extra.mkv");
    skipped.wanted = false;
    let files = [file("Some.Release/a.mkv"), skipped];
    assert_eq!(common_root(&files), None);
}

// -----------------------------------------------------------------------
// normalize_destination
// -----------------------------------------------------------------------

#[test]
fn a_share_relative_destination_is_left_alone() {
    assert_eq!(normalize_destination("downloads"), "downloads");
    assert_eq!(normalize_destination("video/movies"), "video/movies");
}

#[test]
fn a_leading_volume_component_is_stripped() {
    assert_eq!(normalize_destination("/volume1/downloads"), "downloads");
    assert_eq!(
        normalize_destination("/volume12/video/movies"),
        "video/movies"
    );
    assert_eq!(normalize_destination("/volume2/downloads/"), "downloads");
}

#[test]
fn surrounding_slashes_are_trimmed() {
    assert_eq!(normalize_destination("/downloads"), "downloads");
    assert_eq!(normalize_destination("downloads/"), "downloads");
    assert_eq!(normalize_destination("///downloads///"), "downloads");
}

#[test]
fn a_volume_root_normalizes_to_nothing() {
    assert_eq!(normalize_destination("/volume1"), "");
    assert_eq!(normalize_destination("/volume1/"), "");
    assert_eq!(normalize_destination(""), "");
    assert_eq!(normalize_destination("/"), "");
}

#[test]
fn only_the_absolute_volume_form_is_stripped() {
    // A share may legally be named "volume1"; mangling a relative path is
    // how a delete lands one directory away from where it was aimed.
    assert_eq!(
        normalize_destination("volume1/downloads"),
        "volume1/downloads"
    );
    // Not /volumeN: neither is touched.
    assert_eq!(
        normalize_destination("/volumeUSB1/usbshare1"),
        "volumeUSB1/usbshare1"
    );
    assert_eq!(
        normalize_destination("/volume/downloads"),
        "volume/downloads"
    );
    assert_eq!(normalize_destination("/video/movies"), "video/movies");
}

// -----------------------------------------------------------------------
// resolve_delete_path — the happy paths, against the real fixture
// -----------------------------------------------------------------------

#[test]
fn a_multi_file_task_resolves_to_destination_plus_directory() {
    assert_eq!(
        resolve_delete_path(&task("dbid_001")).unwrap(),
        "/downloads/Ubuntu.24.04.3.LTS.Desktop.amd64"
    );
}

#[test]
fn a_single_file_task_resolves_to_the_file() {
    assert_eq!(
        resolve_delete_path(&task("dbid_003")).unwrap(),
        "/downloads/archlinux-2026.07.01-x86_64.iso"
    );
}

#[test]
fn a_nested_destination_is_preserved() {
    // dbid_002 also proves the file list wins over a differing title: the
    // title carries an emoji the on-disk directory does not.
    let task = task("dbid_002");
    assert_eq!(task.title, "Big.Buck.Bunny.2008.1080p.🐰.BluRay.x264");
    assert_eq!(
        resolve_delete_path(&task).unwrap(),
        "/video/movies/Big.Buck.Bunny.2008.1080p.BluRay.x264"
    );
}

#[test]
fn the_file_list_beats_a_title_that_disagrees_with_it() {
    // The whole point of rule 1: the display title has a suffix the actual
    // directory does not, and deleting by title would miss (or hit the
    // wrong thing).
    let task = task("dbid_006");
    assert_eq!(task.title, "千と千尋の神隠し.2001.1080p.日本語音声");
    let path = resolve_delete_path(&task).unwrap();
    assert_eq!(path, "/video/movies/千と千尋の神隠し.2001.1080p");
    assert!(
        !path.contains("日本語音声"),
        "resolved from the title: {path}"
    );
}

#[test]
fn an_absolute_volume_destination_resolves_share_relative() {
    let task = task("dbid_014");
    assert_eq!(task.destination, "/volume1/downloads");
    assert_eq!(
        resolve_delete_path(&task).unwrap(),
        "/downloads/Absolute.Destination.Sample"
    );
}

#[test]
fn an_empty_file_list_falls_back_to_the_title() {
    // dbid_008 has `"file": []` with a nested destination.
    let task = task("dbid_008");
    assert!(task.files.is_empty());
    assert_eq!(
        resolve_delete_path(&task).unwrap(),
        "/downloads/incoming/Sintel.2010.2160p.HDR"
    );
}

#[test]
fn a_non_bt_task_with_no_file_block_falls_back_to_the_title() {
    let task = task("dbid_007");
    assert!(task.files.is_empty());
    assert_eq!(
        resolve_delete_path(&task).unwrap(),
        "/downloads/syno-clean-0.1.0-x86_64-unknown-linux-gnu.tar.gz"
    );
}

#[test]
fn a_destination_wrapped_in_slashes_still_resolves() {
    let task = Task {
        destination: "/video/tv/".to_string(),
        ..bare()
    };
    assert_eq!(
        resolve_delete_path(&task).unwrap(),
        "/video/tv/Some.Release"
    );
}

#[test]
fn a_deeply_nested_destination_resolves() {
    let task = Task {
        destination: "video/tv/archive/2026".to_string(),
        ..bare()
    };
    assert_eq!(
        resolve_delete_path(&task).unwrap(),
        "/video/tv/archive/2026/Some.Release"
    );
}

// -----------------------------------------------------------------------
// resolve_delete_path — THE critical refusal
// -----------------------------------------------------------------------

#[test]
fn a_file_list_with_no_common_root_is_refused_and_never_guessed_from_the_title() {
    // The single most important test in this project. dbid_013's files are
    // "Disc1/…", "Disc2/…" and "readme.nfo": there is no directory that
    // holds exactly the data of dbid_013, and /video/tv/Mixed.Root.Release may
    // well be an unrelated folder that already exists.
    let task = task("dbid_013");
    assert_eq!(task.title, "Mixed.Root.Release");
    assert_eq!(task.destination, "video/tv");
    assert_eq!(task.files.len(), 3);

    let reason = refusal(resolve_delete_path(&task));
    assert!(
        reason.contains("no single top-level"),
        "unhelpful reason: {reason}"
    );
    // It must not have quietly resolved via the title by any other route.
    assert!(
        !reason.contains("/video/tv/Mixed.Root.Release"),
        "the title path leaked into the refusal: {reason}"
    );
}

#[test]
fn the_refusal_names_the_conflicting_roots() {
    let reason = refusal(resolve_delete_path(&task("dbid_013")));
    for root in ["Disc1", "Disc2", "readme.nfo"] {
        assert!(reason.contains(root), "{root} missing from: {reason}");
    }
}

#[test]
fn a_no_common_root_task_is_refused_even_when_the_title_would_be_valid() {
    // Same shape as dbid_013 but with a title that passes every guard, to
    // prove the refusal is about the file list and not about the title.
    let task = Task {
        title: "Perfectly.Fine.Name".to_string(),
        destination: "downloads".to_string(),
        files: vec![file("A/one.bin"), file("B/two.bin")],
        ..bare()
    };
    refusal(resolve_delete_path(&task));
}

// -----------------------------------------------------------------------
// resolve_delete_path — refusals from the destination and the name
// -----------------------------------------------------------------------

#[test]
fn a_task_with_no_destination_is_refused() {
    // dbid_010 has no `additional` block at all, so DSM told us nothing
    // about where its data lives. `/Hosted.Archive.Part1of3` would name a
    // share, not a task directory.
    let task = task("dbid_010");
    assert_eq!(task.destination, "");
    let reason = refusal(resolve_delete_path(&task));
    assert!(reason.contains("destination"), "{reason}");
}

#[test]
fn a_partial_additional_block_without_a_destination_is_refused() {
    // dbid_011 has a perfectly good single-root file list but no detail
    // block — a resolvable name is not enough on its own.
    let task = task("dbid_011");
    assert_eq!(
        common_root(&task.files).as_deref(),
        Some("Mystery.Task.With.Unrecognized.Status")
    );
    refusal(resolve_delete_path(&task));
}

#[test]
fn a_volume_root_destination_is_refused() {
    let task = Task {
        destination: "/volume1".to_string(),
        ..bare()
    };
    refusal(resolve_delete_path(&task));
}

#[test]
fn a_blank_destination_is_refused() {
    for destination in ["   ", "/   /", "\t"] {
        let task = Task {
            destination: destination.to_string(),
            ..bare()
        };
        refusal(resolve_delete_path(&task));
    }
}

#[test]
fn an_empty_title_with_no_file_list_is_refused() {
    let task = Task {
        title: String::new(),
        ..bare()
    };
    let reason = refusal(resolve_delete_path(&task));
    assert!(reason.contains("no usable on-disk name"), "{reason}");
}

#[test]
fn a_whitespace_only_title_is_refused() {
    let task = Task {
        title: "   ".to_string(),
        ..bare()
    };
    refusal(resolve_delete_path(&task));
}

#[test]
fn a_title_containing_a_path_separator_is_refused() {
    // "/downloads/Some/Release" is a level deeper than the task's own
    // directory and could easily be someone else's.
    let task = Task {
        title: "Some/Release".to_string(),
        ..bare()
    };
    let reason = refusal(resolve_delete_path(&task));
    assert!(reason.contains("path separator"), "{reason}");
}

#[test]
fn a_title_that_is_a_traversal_component_is_refused() {
    for title in ["..", ".", "../..", "../secret"] {
        let task = Task {
            title: title.to_string(),
            ..bare()
        };
        refusal(resolve_delete_path(&task));
    }
}

#[test]
fn a_traversal_in_the_destination_is_refused() {
    for destination in ["downloads/..", "../downloads", "downloads/../../etc", "."] {
        let task = Task {
            destination: destination.to_string(),
            ..bare()
        };
        refusal(resolve_delete_path(&task));
    }
}

#[test]
fn a_control_character_anywhere_is_refused() {
    let task = Task {
        title: "Some\0Release".to_string(),
        ..bare()
    };
    refusal(resolve_delete_path(&task));

    // The dangerous one: a NUL in the destination truncates the path in a
    // C consumer, turning "/downloads\0/x" into the share root.
    let task = Task {
        destination: "downloads\0".to_string(),
        ..bare()
    };
    refusal(resolve_delete_path(&task));

    let task = Task {
        destination: "down\nloads".to_string(),
        ..bare()
    };
    refusal(resolve_delete_path(&task));
}

#[test]
fn a_root_from_the_file_list_is_guarded_too() {
    // Not just the title fallback: a hostile or corrupt file list gets the
    // same treatment.
    let task = Task {
        files: vec![file("../a.mkv"), file("../b.mkv")],
        ..bare()
    };
    refusal(resolve_delete_path(&task));

    let task = Task {
        files: vec![file("./a.mkv")],
        ..bare()
    };
    refusal(resolve_delete_path(&task));
}

#[test]
fn every_fixture_task_either_resolves_safely_or_is_refused() {
    // No task may produce a path that fails the guards — resolution and
    // validation must not be able to disagree.
    for task in fixture_tasks() {
        if let Ok(path) = resolve_delete_path(&task) {
            validate_path(&path)
                .unwrap_or_else(|err| panic!("{} resolved to an invalid path: {err:?}", task.id));
            assert!(path.starts_with('/'), "{}: {path}", task.id);
        }
    }
}

// -----------------------------------------------------------------------
// validate_path
// -----------------------------------------------------------------------

#[test]
fn a_normal_task_path_passes() {
    for path in [
        "/downloads/Some.Release",
        "/video/movies/千と千尋の神隠し.2001.1080p",
        "/downloads/incoming/Sintel.2010.2160p.HDR",
        "/video/tv/archive/2026/Some.Show.S01",
        "/downloads/file with spaces.iso",
        "/downloads/Release [2026] (1080p)",
    ] {
        validate_path(path).unwrap_or_else(|err| panic!("{path:?} should pass: {err:?}"));
    }
}

#[test]
fn an_empty_path_is_rejected() {
    assert!(rejected("").contains("empty"));
}

#[test]
fn a_relative_path_is_rejected() {
    assert!(rejected("downloads/Some.Release").contains("absolute"));
    assert!(rejected("Some.Release").contains("absolute"));
}

#[test]
fn the_filesystem_root_is_rejected() {
    assert!(rejected("/").contains("root"));
}

#[test]
fn a_share_root_is_rejected() {
    // One component: "/downloads" is an entire share.
    assert!(rejected("/downloads").contains("share root"));
    // The plan's "" destination case: joining with no destination yields a
    // single-component path, which must never be deleted.
    assert!(rejected("/Some.Release").contains("share root"));
}

#[test]
fn a_trailing_slash_is_rejected() {
    // "/downloads/Some.Release/" has two non-empty components but would
    // also read as a share root once the trailing separator collapses.
    assert!(rejected("/downloads/Some.Release/").contains("component"));
    assert!(rejected("/downloads/").contains("component"));
}

#[test]
fn a_doubled_slash_is_rejected() {
    assert!(rejected("//Some.Release").contains("component"));
    assert!(rejected("/downloads//Some.Release").contains("component"));
}

#[test]
fn a_blank_component_is_rejected() {
    // Whitespace-only components are the trimming hazard: "/   /Release"
    // collapses to "/Release", a share root, if anything downstream trims.
    assert!(rejected("/   /Some.Release").contains("blank"));
    assert!(rejected("/downloads/   ").contains("blank"));
    assert!(rejected("/downloads/ /Some.Release").contains("blank"));
}

#[test]
fn a_parent_traversal_component_is_rejected() {
    for path in [
        "/downloads/..",
        "/downloads/../etc",
        "/../downloads/Some.Release",
        "/downloads/Some.Release/../../..",
        "/..",
    ] {
        assert!(rejected(path).contains(".."), "{path}");
    }
}

#[test]
fn a_current_directory_component_is_rejected() {
    for path in ["/downloads/.", "/./downloads/Some.Release", "/."] {
        rejected(path);
    }
}

#[test]
fn a_name_that_merely_starts_with_dots_is_still_allowed() {
    // ".." is a traversal; "..hidden" is just a file.
    validate_path("/downloads/..hidden").expect("..hidden is a legal name");
    validate_path("/downloads/.hidden").expect(".hidden is a legal name");
}

#[test]
fn a_control_character_is_rejected() {
    for path in [
        "/downloads/Some\0Release",
        "/downloads\0/Some.Release",
        "/downloads/Some.Release\n",
        "/downloads/Some\rRelease",
        "/downloads/Some\u{7f}Release",
    ] {
        assert!(rejected(path).contains("control"), "{path:?}");
    }
}

// -----------------------------------------------------------------------
// DeletePlan
// -----------------------------------------------------------------------

#[test]
fn a_plan_records_a_path_for_every_resolvable_task() {
    let tasks = [task("dbid_001"), task("dbid_003")];
    let plan = DeletePlan::snapshot(&tasks.iter().collect::<Vec<_>>());
    assert_eq!(plan.len(), 2);
    assert!(!plan.is_empty());
    assert_eq!(plan.refused().len(), 0);
    assert_eq!(
        plan.items[0].path(),
        Some("/downloads/Ubuntu.24.04.3.LTS.Desktop.amd64")
    );
    assert_eq!(plan.items[0].id, "dbid_001");
    assert_eq!(plan.items[0].status, TaskStatus::Downloading);
}

#[test]
fn an_unresolvable_task_is_a_per_item_skip_not_an_aborted_batch() {
    let tasks = [task("dbid_001"), task("dbid_013"), task("dbid_003")];
    let plan = DeletePlan::snapshot(&tasks.iter().collect::<Vec<_>>());

    assert_eq!(plan.len(), 3);
    assert_eq!(plan.deletable().len(), 2);
    assert_eq!(plan.refused().len(), 1);

    let skipped = plan.refused()[0];
    assert_eq!(skipped.id, "dbid_013");
    assert!(skipped.path().is_none(), "a refused item has no path");
    assert!(skipped.refusal().is_some_and(|r| !r.is_empty()));
    // Order is snapshot order, so the dialog lists rows as the user sees
    // them.
    assert_eq!(plan.items[1].id, "dbid_013");
}

#[test]
fn the_total_excludes_refused_items() {
    let resolvable = task("dbid_001");
    let refused = task("dbid_013");
    assert!(refused.size > 0, "the refused task must have a size");

    let plan = DeletePlan::snapshot(&[&resolvable, &refused]);
    assert_eq!(plan.total_size(), resolvable.size);
}

#[test]
fn an_empty_plan_has_nothing_to_confirm() {
    let plan = DeletePlan::snapshot(&[]);
    assert!(plan.is_empty());
    assert_eq!(plan.len(), 0);
    assert_eq!(plan.total_size(), 0);
    assert_eq!(plan, DeletePlan::default());
}

#[test]
fn a_plan_is_an_owned_snapshot_that_a_refresh_cannot_change() {
    // The reason `DeletePlan` copies rather than borrows: the poller may
    // hand `App` an entirely new task list while the dialog is open, and
    // what the user confirms must be what they read.
    let mut tasks = vec![task("dbid_001")];
    let plan = DeletePlan::snapshot(&tasks.iter().collect::<Vec<_>>());
    let before = plan.clone();

    tasks[0].destination = "totally/elsewhere".to_string();
    tasks[0].title = "Renamed".to_string();
    tasks[0].size = 0;
    tasks[0].files = vec![file("Different.Root/x.bin")];
    tasks.clear();

    assert_eq!(plan, before);
    assert_eq!(
        plan.items[0].path(),
        Some("/downloads/Ubuntu.24.04.3.LTS.Desktop.amd64")
    );
    assert_eq!(plan.items[0].title, "Ubuntu.24.04.3.LTS.Desktop.amd64");
    assert!(plan.total_size() > 0);
}

#[test]
fn a_plan_over_the_whole_fixture_resolves_what_it_can_and_refuses_the_rest() {
    let tasks = fixture_tasks();
    let plan = DeletePlan::snapshot(&tasks.iter().collect::<Vec<_>>());
    assert_eq!(plan.len(), tasks.len());

    let refused: Vec<&str> = plan.refused().iter().map(|item| item.id.as_str()).collect();
    // dbid_010 and dbid_011 have no destination; dbid_013 has no common
    // root. Everything else is unambiguous.
    assert_eq!(refused, ["dbid_010", "dbid_011", "dbid_013"]);

    for item in plan.deletable() {
        let path = item.path().expect("deletable items have a path");
        validate_path(path).unwrap_or_else(|err| panic!("{}: {err:?}", item.id));
    }
}

#[test]
fn a_refusal_reads_back_from_its_plan_item() {
    let item = DeleteItem::for_task(&task("dbid_013"));
    assert!(item.is_refused());
    assert!(!item.named);
    assert_eq!(item.expected_kind, ExpectedKind::Indeterminate);
}

#[test]
fn the_expected_kind_comes_from_the_file_list() {
    let kind = |task: &Task| DeleteItem::for_task(task).expected_kind;
    // Several entries, or one inside a directory: a directory. One bare entry: a file.
    assert_eq!(kind(&task("dbid_001")), ExpectedKind::Dir);
    assert_eq!(kind(&task("dbid_003")), ExpectedKind::File);
    assert_eq!(kind(&task("dbid_014")), ExpectedKind::Dir);
    // No list at all: whatever is there.
    assert_eq!(kind(&task("dbid_007")), ExpectedKind::AnyFromTitle);

    assert!(ExpectedKind::Dir.accepts(true) && !ExpectedKind::Dir.accepts(false));
    assert!(ExpectedKind::File.accepts(false) && !ExpectedKind::File.accepts(true));
    assert!(ExpectedKind::AnyFromTitle.accepts(true) && ExpectedKind::AnyFromTitle.accepts(false));
    assert!(!ExpectedKind::Indeterminate.accepts(true));
    assert!(!ExpectedKind::Indeterminate.accepts(false));
}

#[test]
fn the_phases_are_pause_files_task_in_that_order() {
    let item = DeleteItem::for_task(&task("dbid_003"));
    let ops = plan_delete_ops(&item, DeleteOptions::default());
    let path = "/downloads/archlinux-2026.07.01-x86_64.iso".to_string();
    assert_eq!(ops, [Op::Pause, Op::DeleteFiles(path), Op::DeleteTask]);
    assert_eq!(
        describe_ops(&ops),
        "pause the task, then recursively delete \
         /downloads/archlinux-2026.07.01-x86_64.iso, then delete the DSM task"
    );
    assert_eq!(ops_cancelled_by(&ops, 0).len(), 2);
    assert_eq!(ops_cancelled_by(&ops, 1), [Op::DeleteTask]);
    assert!(ops_cancelled_by(&ops, 2).is_empty());
}

#[test]
fn a_refused_item_has_no_phases_unless_its_files_are_to_stay() {
    let item = DeleteItem::for_task(&task("dbid_013"));
    assert!(plan_delete_ops(&item, DeleteOptions::default()).is_empty());
    assert!(!will_act(&item, DeleteOptions::default()));
    let keep_files = DeleteOptions { delete_files: false, dry_run: false };
    assert_eq!(plan_delete_ops(&item, keep_files), [Op::DeleteTask]);
    assert!(will_act(&item, keep_files));
}

#[test]
fn a_payload_is_expected_by_status_or_by_counters() {
    for status in [TaskStatus::Finished, TaskStatus::Seeding, TaskStatus::Extracting] {
        assert!(status_implies_payload(&status), "{status:?}");
    }
    assert!(!status_implies_payload(&TaskStatus::Paused));
    let state = |downloaded, size| PayloadState { status: TaskStatus::Paused, downloaded, size };
    assert!(payload_should_exist(&state(10, 10)));
    assert!(!payload_should_exist(&state(9, 10)));
    assert!(!payload_should_exist(&state(0, 0)), "nothing to have downloaded");
}

#[test]
fn only_a_task_that_stopped_needs_no_pause() {
    for status in [TaskStatus::Paused, TaskStatus::Finished, TaskStatus::Error] {
        assert!(!requires_pause(&status), "{status:?}");
    }
    for status in [
        TaskStatus::Downloading,
        TaskStatus::Seeding,
        TaskStatus::Unknown("odd".to_string()),
    ] {
        assert!(requires_pause(&status), "{status:?}");
    }
}

#[test]
fn a_name_is_one_component() {
    validate_name("Some.Release").expect("a plain name");
    for name in ["", "  ", ".", "..", "a/b", "a\0b"] {
        assert!(validate_name(name).is_err(), "{name:?}");
    }
}
