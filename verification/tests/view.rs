//! Sort, filter and search, and the window over the rows.

use syno_clean::model::{Task, TaskStatus};
use syno_clean::testutil;
use syno_clean::view::{
    scroll_offset, visible_indices, SortDir, SortKey, StatusFilter, TaskView,
};

/// Every task of the sample list.
fn fixture_tasks() -> Vec<Task> {
    testutil::fixture_tasks().expect("the fixture must parse")
}

fn ids(tasks: &Vec<Task>, view: &TaskView) -> Vec<String> {
    visible_indices(tasks, view)
        .into_iter()
        .map(|index| tasks[index].id.clone())
        .collect()
}

#[test]
fn rows_are_sorted_by_name_whatever_their_case() {
    let tasks = fixture_tasks();
    let shown = ids(&tasks, &TaskView::default());
    assert_eq!(shown.len(), 14);
    assert_eq!(&shown[..3], ["dbid_014", "dbid_003", "dbid_002"]);
    assert_eq!(shown[13], "dbid_006");
}

#[test]
fn every_sort_key_orders_ascending_and_its_reverse_descending() {
    let tasks = fixture_tasks();
    for sort_key in SortKey::ALL {
        let mut view = TaskView { sort_key, ..TaskView::default() };
        let up = visible_indices(&tasks, &view);
        view.toggle_dir();
        assert_eq!(view.sort_dir, SortDir::Desc);
        let down = visible_indices(&tasks, &view);
        assert_eq!(up.len(), down.len());
        let sizes = |rows: &Vec<usize>| -> Vec<u64> { rows.iter().map(|&i| tasks[i].size).collect() };
        if sort_key == SortKey::Size {
            assert!(sizes(&up).is_sorted());
            assert!(sizes(&down).iter().rev().is_sorted());
        }
        if sort_key == SortKey::Added {
            assert!(up.iter().map(|&i| tasks[i].create_time).is_sorted());
        }
        if sort_key == SortKey::UploadSpeed {
            assert!(up.iter().map(|&i| tasks[i].upload_speed).is_sorted());
        }
    }
}

#[test]
fn rows_with_equal_keys_keep_the_order_of_the_list_in_both_directions() {
    let tasks = fixture_tasks();
    let mut view = TaskView { sort_key: SortKey::DownloadSpeed, ..TaskView::default() };
    let idle = |rows: Vec<usize>| -> Vec<usize> {
        rows.into_iter().filter(|&i| tasks[i].download_speed == 0).collect()
    };
    let up = idle(visible_indices(&tasks, &view));
    view.toggle_dir();
    let down = idle(visible_indices(&tasks, &view));
    assert!(up.is_sorted());
    assert_eq!(up, down);
}

#[test]
fn progress_and_ratio_are_ordered_as_fractions() {
    let base = fixture_tasks().remove(0);
    let task = |id: &str, downloaded: u64, size: u64, uploaded: u64| Task {
        id: id.to_string(),
        downloaded,
        size,
        uploaded,
        ..base.clone()
    };
    let tasks = vec![
        task("two-thirds", 2, 3, 6),
        task("over", 9, 3, 1),
        task("half", 1, 2, 9),
        task("none", 0, 0, 5),
    ];
    let progress = TaskView { sort_key: SortKey::Progress, ..TaskView::default() };
    assert_eq!(ids(&tasks, &progress), ["none", "half", "two-thirds", "over"]);
    let ratio = TaskView { sort_key: SortKey::Ratio, ..TaskView::default() };
    assert_eq!(ids(&tasks, &ratio), ["none", "over", "two-thirds", "half"]);
}

#[test]
fn a_status_filter_shows_its_statuses_and_no_other() {
    let tasks = fixture_tasks();
    let count = |filter| {
        visible_indices(&tasks, &TaskView { filter, ..TaskView::default() }).len()
    };
    assert_eq!(count(StatusFilter::All), 14);
    assert_eq!(count(StatusFilter::Downloading), 7);
    assert_eq!(count(StatusFilter::Seeding), 2);
    assert_eq!(count(StatusFilter::Finished), 2);
    assert_eq!(count(StatusFilter::Paused), 1);
    assert_eq!(count(StatusFilter::Error), 1);
    // A status this client does not know is shown under no filter but `All`.
    let odd = TaskStatus::Unknown("captcha_needed".to_string());
    for filter in StatusFilter::ALL {
        assert_eq!(filter.matches(&odd), filter == StatusFilter::All);
    }
}

#[test]
fn a_search_ignores_case_beyond_ascii() {
    let mut tasks = fixture_tasks();
    tasks[0].title = "ÄRGER und Größe".to_string();
    for query in ["ärger", "ÄRGER", "gRÖSSE", "größe"] {
        let view = TaskView { search: query.to_string(), ..TaskView::default() };
        let expected = if query == "gRÖSSE" { 0 } else { 1 };
        assert_eq!(visible_indices(&tasks, &view).len(), expected, "{query}");
    }
}

#[test]
fn the_window_moves_only_when_the_cursor_would_leave_it() {
    assert_eq!(scroll_offset(0, 5, 100, 10), 0);
    assert_eq!(scroll_offset(0, 10, 100, 10), 1);
    assert_eq!(scroll_offset(20, 25, 100, 10), 20);
    assert_eq!(scroll_offset(20, 19, 100, 10), 19);
    // Nothing to scroll, a stale offset, a stale cursor, and no height at all.
    assert_eq!(scroll_offset(7, 3, 5, 10), 0);
    assert_eq!(scroll_offset(90, 10, 12, 10), 2);
    assert_eq!(scroll_offset(0, 99, 12, 10), 2);
    assert_eq!(scroll_offset(3, 3, 12, 0), 0);
}

#[test]
fn an_empty_search_hides_nothing() {
    let tasks = fixture_tasks();
    for filter in StatusFilter::ALL {
        let view = TaskView { filter, search: String::new(), ..TaskView::default() };
        let taken = tasks.iter().filter(|task| filter.matches(&task.status)).count();
        assert_eq!(visible_indices(&tasks, &view).len(), taken);
    }
}
