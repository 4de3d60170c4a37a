//! Which tasks are on screen, and in what order: sort, filter and search.
//!
//! The task list itself is never reordered. What is shown is a list of indices into
//! it: the rows that the filter and the search let through, by the sort key, rows with
//! equal keys in the order DSM listed them.

use vstd::prelude::*;
use crate::model::{Task, TaskStatus};
use crate::text::{
    comes_before, contains, found_at, holds, lemma_precedes_total, lemma_precedes_transitive, lowercase,
    lowercase_form, precedes,
};

verus! {

/// What the rows are sorted by.
#[derive(Debug, Clone, Copy, PartialEq, Eq, Structural)]
pub enum SortKey {
    Name,
    Status,
    Size,
    Progress,
    DownloadSpeed,
    UploadSpeed,
    Ratio,
    Added,
}

impl SortKey {
    /// Every key, in the order they are cycled through.
    pub const ALL: [SortKey; 8] = [
        SortKey::Name,
        SortKey::Status,
        SortKey::Size,
        SortKey::Progress,
        SortKey::DownloadSpeed,
        SortKey::UploadSpeed,
        SortKey::Ratio,
        SortKey::Added,
    ];

    /// The key after this one, the first after the last.
    pub open spec fn following(self) -> SortKey {
        match self {
            SortKey::Name => SortKey::Status,
            SortKey::Status => SortKey::Size,
            SortKey::Size => SortKey::Progress,
            SortKey::Progress => SortKey::DownloadSpeed,
            SortKey::DownloadSpeed => SortKey::UploadSpeed,
            SortKey::UploadSpeed => SortKey::Ratio,
            SortKey::Ratio => SortKey::Added,
            SortKey::Added => SortKey::Name,
        }
    }

    /// The key after this one, the first after the last.
    pub fn next(self) -> (key: SortKey)
        ensures
            key == self.following(),
    {
        match self {
            SortKey::Name => SortKey::Status,
            SortKey::Status => SortKey::Size,
            SortKey::Size => SortKey::Progress,
            SortKey::Progress => SortKey::DownloadSpeed,
            SortKey::DownloadSpeed => SortKey::UploadSpeed,
            SortKey::UploadSpeed => SortKey::Ratio,
            SortKey::Ratio => SortKey::Added,
            SortKey::Added => SortKey::Name,
        }
    }
}

/// Which end the sort starts at.
#[derive(Debug, Clone, Copy, PartialEq, Eq, Structural)]
pub enum SortDir {
    Asc,
    Desc,
}

/// Which statuses are shown.
#[derive(Debug, Clone, Copy, PartialEq, Eq, Structural)]
pub enum StatusFilter {
    All,
    /// Everything in progress.
    Downloading,
    Seeding,
    Finished,
    Paused,
    Error,
}

impl StatusFilter {
    /// Every filter, in the order they are cycled through.
    pub const ALL: [StatusFilter; 6] = [
        StatusFilter::All,
        StatusFilter::Downloading,
        StatusFilter::Seeding,
        StatusFilter::Finished,
        StatusFilter::Paused,
        StatusFilter::Error,
    ];

    /// The filter after this one, the first after the last.
    pub open spec fn following(self) -> StatusFilter {
        match self {
            StatusFilter::All => StatusFilter::Downloading,
            StatusFilter::Downloading => StatusFilter::Seeding,
            StatusFilter::Seeding => StatusFilter::Finished,
            StatusFilter::Finished => StatusFilter::Paused,
            StatusFilter::Paused => StatusFilter::Error,
            StatusFilter::Error => StatusFilter::All,
        }
    }

    /// The filter after this one, the first after the last.
    pub fn next(self) -> (filter: StatusFilter)
        ensures
            filter == self.following(),
    {
        match self {
            StatusFilter::All => StatusFilter::Downloading,
            StatusFilter::Downloading => StatusFilter::Seeding,
            StatusFilter::Seeding => StatusFilter::Finished,
            StatusFilter::Finished => StatusFilter::Paused,
            StatusFilter::Paused => StatusFilter::Error,
            StatusFilter::Error => StatusFilter::All,
        }
    }

    /// Whether a task of this status is shown. A status this client does not know is
    /// shown only under `All`.
    pub open spec fn takes(self, status: TaskStatus) -> bool {
        match self {
            StatusFilter::All => true,
            StatusFilter::Downloading => status is Downloading || status is Waiting
                || status is Finishing || status is HashChecking || status is Extracting
                || status is FilehostingWaiting,
            StatusFilter::Seeding => status is Seeding,
            StatusFilter::Finished => status is Finished,
            StatusFilter::Paused => status is Paused,
            StatusFilter::Error => status is Error,
        }
    }

    /// Whether a task of this status is shown.
    pub fn matches(self, status: &TaskStatus) -> (yes: bool)
        ensures
            yes == self.takes(*status),
    {
        match self {
            StatusFilter::All => true,
            StatusFilter::Downloading => match status {
                TaskStatus::Downloading => true,
                TaskStatus::Waiting => true,
                TaskStatus::Finishing => true,
                TaskStatus::HashChecking => true,
                TaskStatus::Extracting => true,
                TaskStatus::FilehostingWaiting => true,
                _ => false,
            },
            StatusFilter::Seeding => match status {
                TaskStatus::Seeding => true,
                _ => false,
            },
            StatusFilter::Finished => match status {
                TaskStatus::Finished => true,
                _ => false,
            },
            StatusFilter::Paused => match status {
                TaskStatus::Paused => true,
                _ => false,
            },
            StatusFilter::Error => match status {
                TaskStatus::Error => true,
                _ => false,
            },
        }
    }
}

/// Sort, filter and search state.
#[derive(Debug, Clone, PartialEq, Eq)]
pub struct TaskView {
    pub sort_key: SortKey,
    pub sort_dir: SortDir,
    pub filter: StatusFilter,
    /// What titles have to contain, whatever their case.
    pub search: String,
}

impl Default for TaskView {
    /// Everything, by name.
    fn default() -> (view: Self)
        ensures
            view.sort_key == SortKey::Name,
            view.sort_dir == SortDir::Asc,
            view.filter == StatusFilter::All,
            view.search@ == Seq::<char>::empty(),
    {
        TaskView {
            sort_key: SortKey::Name,
            sort_dir: SortDir::Asc,
            filter: StatusFilter::All,
            search: String::new(),
        }
    }
}

impl TaskView {
    /// Advance to the next sort key.
    pub fn cycle_sort(&mut self)
        ensures
            *final(self) == (TaskView { sort_key: old(self).sort_key.following(), ..*old(self) }),
    {
        self.sort_key = self.sort_key.next();
    }

    /// The opposite sort direction.
    pub open spec fn turned(dir: SortDir) -> SortDir {
        match dir {
            SortDir::Asc => SortDir::Desc,
            SortDir::Desc => SortDir::Asc,
        }
    }

    /// Reverse the sort direction.
    pub fn toggle_dir(&mut self)
        ensures
            *final(self) == (TaskView { sort_dir: TaskView::turned(old(self).sort_dir), ..*old(self) }),
    {
        self.sort_dir = match self.sort_dir {
            SortDir::Asc => SortDir::Desc,
            SortDir::Desc => SortDir::Asc,
        };
    }

    /// Advance to the next status filter.
    pub fn cycle_filter(&mut self)
        ensures
            *final(self) == (TaskView { filter: old(self).filter.following(), ..*old(self) }),
    {
        self.filter = self.filter.next();
    }
}

// ---------------------------------------------------------------------------
// Keys
// ---------------------------------------------------------------------------

/// The place of a status in DSM's order.
pub open spec fn status_rank(status: TaskStatus) -> int {
    match status {
        TaskStatus::Waiting => 0,
        TaskStatus::Downloading => 1,
        TaskStatus::Paused => 2,
        TaskStatus::Finishing => 3,
        TaskStatus::Finished => 4,
        TaskStatus::HashChecking => 5,
        TaskStatus::Seeding => 6,
        TaskStatus::FilehostingWaiting => 7,
        TaskStatus::Extracting => 8,
        TaskStatus::Error => 9,
        TaskStatus::Unknown(_) => 10,
    }
}

/// The place of a status in DSM's order.
fn rank_of(status: &TaskStatus) -> (rank: u8)
    ensures
        rank == status_rank(*status),
{
    match status {
        TaskStatus::Waiting => 0,
        TaskStatus::Downloading => 1,
        TaskStatus::Paused => 2,
        TaskStatus::Finishing => 3,
        TaskStatus::Finished => 4,
        TaskStatus::HashChecking => 5,
        TaskStatus::Seeding => 6,
        TaskStatus::FilehostingWaiting => 7,
        TaskStatus::Extracting => 8,
        TaskStatus::Error => 9,
        TaskStatus::Unknown(_) => 10,
    }
}

/// How much of a task is there, as a fraction: nothing of a task without a size, all
/// of one that downloaded more than its size.
pub open spec fn progress_fraction(task: Task) -> (int, int) {
    if task.size == 0 {
        (0, 1)
    } else if task.downloaded >= task.size {
        (task.size as int, task.size as int)
    } else {
        (task.downloaded as int, task.size as int)
    }
}

/// Uploaded over downloaded, as a fraction: zero where nothing was downloaded.
pub open spec fn ratio_fraction(task: Task) -> (int, int) {
    if task.downloaded == 0 {
        (0, 1)
    } else {
        (task.uploaded as int, task.downloaded as int)
    }
}

/// Whether one fraction is less than another.
pub open spec fn fraction_less(a: (int, int), b: (int, int)) -> bool {
    a.0 * b.1 < b.0 * a.1
}

/// Whether one task was added before another; one without a time before any with one.
pub open spec fn added_before(a: Option<i64>, b: Option<i64>) -> bool {
    match (a, b) {
        (None, Some(_)) => true,
        (Some(x), Some(y)) => x < y,
        _ => false,
    }
}

/// Whether a task comes before another by a key.
pub open spec fn key_before(key: SortKey, a: Task, b: Task) -> bool {
    match key {
        SortKey::Name => precedes(lowercase_form(a.title@), lowercase_form(b.title@)),
        SortKey::Status => status_rank(a.status) < status_rank(b.status) || (a.status is Unknown
            && b.status is Unknown && precedes(a.status.text(), b.status.text())),
        SortKey::Size => a.size < b.size,
        SortKey::Progress => fraction_less(progress_fraction(a), progress_fraction(b)),
        SortKey::DownloadSpeed => a.download_speed < b.download_speed,
        SortKey::UploadSpeed => a.upload_speed < b.upload_speed,
        SortKey::Ratio => fraction_less(ratio_fraction(a), ratio_fraction(b)),
        SortKey::Added => added_before(a.create_time, b.create_time),
    }
}

/// Whether row `i` is shown before row `j`: by the key in the direction asked for, rows
/// with equal keys in the order of the list.
pub open spec fn row_before(tasks: Seq<Task>, view: TaskView, i: int, j: int) -> bool {
    let (a, b) = match view.sort_dir {
        SortDir::Asc => (tasks[i], tasks[j]),
        SortDir::Desc => (tasks[j], tasks[i]),
    };
    key_before(view.sort_key, a, b) || (!key_before(view.sort_key, b, a) && i < j)
}

/// Whether the filter and the search let a task through.
pub open spec fn shows(view: TaskView, task: Task) -> bool {
    view.filter.takes(task.status) && (view.search@.len() == 0 || holds(
        lowercase_form(task.title@),
        lowercase_form(view.search@),
    ))
}

/// Whether `list` is what is shown: exactly the rows let through, each once, in order.
pub open spec fn is_shown(tasks: Seq<Task>, view: TaskView, list: Seq<usize>) -> bool {
    &&& forall|k: int|
        0 <= k < list.len() ==> (#[trigger] list[k]) < tasks.len() && shows(
            view,
            tasks[list[k] as int],
        )
    &&& forall|i: usize|
        i < tasks.len() && #[trigger] shows(view, tasks[i as int]) ==> list.contains(i)
    &&& in_row_order(tasks, view, list)
}

/// Whether rows are listed in the order they are shown in.
pub open spec fn in_row_order(tasks: Seq<Task>, view: TaskView, list: Seq<usize>) -> bool {
    forall|a: int, b: int|
        0 <= a < b < list.len() ==> row_before(
            tasks,
            view,
            #[trigger] list[a] as int,
            #[trigger] list[b] as int,
        )
}

/// The rows that are shown.
pub open spec fn rows_shown(tasks: Seq<Task>, view: TaskView) -> Seq<usize> {
    choose|list: Seq<usize>| is_shown(tasks, view, list)
}

// ---------------------------------------------------------------------------
// The order is an order
// ---------------------------------------------------------------------------

proof fn lemma_fraction_transitive(a: (int, int), b: (int, int), c: (int, int))
    requires
        a.1 > 0,
        b.1 > 0,
        c.1 > 0,
        !fraction_less(b, a),
        !fraction_less(c, b),
    ensures
        !fraction_less(c, a),
        fraction_less(a, b) || fraction_less(b, c) ==> fraction_less(a, c),
{
    let (p, q) = a;
    let (r, s) = b;
    let (t, u) = c;
    // p/q <= r/s <= t/u
    assert(p * s <= r * q);
    assert(r * u <= t * s);
    assert((p * u) * s <= (t * q) * s) by (nonlinear_arith)
        requires
            p * s <= r * q,
            r * u <= t * s,
            q > 0,
            s > 0,
            u > 0,
    ;
    assert(p * u <= t * q) by (nonlinear_arith)
        requires
            (p * u) * s <= (t * q) * s,
            s > 0,
    ;
    if fraction_less(a, b) || fraction_less(b, c) {
        assert((p * u) * s < (t * q) * s) by (nonlinear_arith)
            requires
                p * s <= r * q,
                r * u <= t * s,
                p * s < r * q || r * u < t * s,
                q > 0,
                s > 0,
                u > 0,
        ;
        assert(p * u < t * q) by (nonlinear_arith)
            requires
                (p * u) * s < (t * q) * s,
                s > 0,
        ;
    }
}

/// A key orders tasks: "not after" is transitive, strictly so where one step is strict,
/// and of two tasks at most one is before the other.
pub proof fn lemma_key_order(key: SortKey, a: Task, b: Task, c: Task)
    ensures
        key_before(key, a, b) ==> !key_before(key, b, a),
        !key_before(key, b, a) && !key_before(key, c, b) ==> !key_before(key, c, a),
        !key_before(key, b, a) && !key_before(key, c, b) && (key_before(key, a, b) || key_before(
            key,
            b,
            c,
        )) ==> key_before(key, a, c),
{
    match key {
        SortKey::Name => {
            lemma_text_order(
                lowercase_form(a.title@),
                lowercase_form(b.title@),
                lowercase_form(c.title@),
            );
        },
        SortKey::Status => {
            lemma_text_order(a.status.text(), b.status.text(), c.status.text());
        },
        SortKey::Progress => {
            let (x, y, z) = (progress_fraction(a), progress_fraction(b), progress_fraction(c));
            if !fraction_less(y, x) && !fraction_less(z, y) {
                lemma_fraction_transitive(x, y, z);
            }
        },
        SortKey::Ratio => {
            let (x, y, z) = (ratio_fraction(a), ratio_fraction(b), ratio_fraction(c));
            if !fraction_less(y, x) && !fraction_less(z, y) {
                lemma_fraction_transitive(x, y, z);
            }
        },
        _ => {},
    }
}

proof fn lemma_text_order(a: Seq<char>, b: Seq<char>, c: Seq<char>)
    ensures
        precedes(a, b) ==> !precedes(b, a),
        !precedes(b, a) && !precedes(c, b) ==> !precedes(c, a),
        !precedes(b, a) && !precedes(c, b) && (precedes(a, b) || precedes(b, c)) ==> precedes(a, c),
{
    lemma_precedes_total(a, b);
    lemma_precedes_total(b, c);
    lemma_precedes_total(a, c);
    if precedes(a, b) && precedes(b, c) {
        lemma_precedes_transitive(a, b, c);
    }
}

/// The order of the rows is a strict total order.
pub proof fn lemma_row_order(tasks: Seq<Task>, view: TaskView, i: int, j: int, k: int)
    ensures
        !row_before(tasks, view, i, i),
        row_before(tasks, view, i, j) ==> !row_before(tasks, view, j, i),
        i != j ==> row_before(tasks, view, i, j) || row_before(tasks, view, j, i),
        row_before(tasks, view, i, j) && row_before(tasks, view, j, k) ==> row_before(
            tasks,
            view,
            i,
            k,
        ),
{
    let key = view.sort_key;
    lemma_key_order(key, tasks[i], tasks[j], tasks[k]);
    lemma_key_order(key, tasks[k], tasks[j], tasks[i]);
    lemma_key_order(key, tasks[j], tasks[i], tasks[i]);
    lemma_key_order(key, tasks[i], tasks[i], tasks[i]);
    lemma_key_order(key, tasks[j], tasks[k], tasks[k]);
    lemma_key_order(key, tasks[k], tasks[j], tasks[j]);
}

proof fn lemma_order_is_unique(tasks: Seq<Task>, view: TaskView, a: Seq<usize>, b: Seq<usize>)
    requires
        in_row_order(tasks, view, a),
        in_row_order(tasks, view, b),
        forall|x: usize| #[trigger] a.contains(x) <==> b.contains(x),
    ensures
        a == b,
    decreases a.len(),
{
    if a.len() == 0 {
        if b.len() > 0 {
            assert(b.contains(b[0]));
            assert(a.contains(b[0]));
        }
        assert(a =~= b);
    } else {
        assert(a.contains(a[0]));
        assert(b.contains(a[0]));
        assert(b.contains(b[0]));
        assert(a.contains(b[0]));
        let k = choose|k: int| 0 <= k < b.len() && b[k] == a[0];
        let m = choose|m: int| 0 <= m < a.len() && a[m] == b[0];
        assert(a[0] == b[0]) by {
            if k > 0 && m > 0 {
                assert(row_before(tasks, view, b[0] as int, b[k] as int));
                assert(row_before(tasks, view, a[0] as int, a[m] as int));
                lemma_row_order(tasks, view, a[0] as int, b[0] as int, 0);
            }
        }
        let x = a.skip(1);
        let y = b.skip(1);
        assert(in_row_order(tasks, view, x)) by {
            assert forall|i: int, j: int| 0 <= i < j < x.len() implies row_before(
                tasks,
                view,
                #[trigger] x[i] as int,
                #[trigger] x[j] as int,
            ) by {
                assert(x[i] == a[i + 1] && x[j] == a[j + 1]);
            }
        }
        assert(in_row_order(tasks, view, y)) by {
            assert forall|i: int, j: int| 0 <= i < j < y.len() implies row_before(
                tasks,
                view,
                #[trigger] y[i] as int,
                #[trigger] y[j] as int,
            ) by {
                assert(y[i] == b[i + 1] && y[j] == b[j + 1]);
            }
        }
        assert forall|e: usize| #[trigger] x.contains(e) <==> y.contains(e) by {
            lemma_tail_members(tasks, view, a, e);
            lemma_tail_members(tasks, view, b, e);
            assert(a.contains(e) <==> b.contains(e));
        }
        lemma_order_is_unique(tasks, view, x, y);
        assert(a =~= seq![a[0]] + x);
        assert(b =~= seq![b[0]] + y);
    }
}

proof fn lemma_tail_members(tasks: Seq<Task>, view: TaskView, a: Seq<usize>, e: usize)
    requires
        a.len() > 0,
        in_row_order(tasks, view, a),
    ensures
        a.skip(1).contains(e) <==> a.contains(e) && e != a[0],
{
    let x = a.skip(1);
    if x.contains(e) {
        let i = choose|i: int| 0 <= i < x.len() && x[i] == e;
        assert(a[i + 1] == e);
        assert(row_before(tasks, view, a[0] as int, a[i + 1] as int));
        lemma_row_order(tasks, view, e as int, e as int, 0);
    }
    if a.contains(e) && e != a[0] {
        let i = choose|i: int| 0 <= i < a.len() && a[i] == e;
        assert(x[i - 1] == e);
    }
}

/// What is shown is determined: any two lists that show the same are the same.
pub proof fn law_what_is_shown_is_determined(
    tasks: Seq<Task>,
    view: TaskView,
    a: Seq<usize>,
    b: Seq<usize>,
)
    requires
        tasks.len() <= usize::MAX,
        is_shown(tasks, view, a),
        is_shown(tasks, view, b),
    ensures
        a == b,
        a == rows_shown(tasks, view),
{
    lemma_shown_same(tasks, view, a, b);
    lemma_shown_same(tasks, view, a, rows_shown(tasks, view));
}

proof fn lemma_shown_same(tasks: Seq<Task>, view: TaskView, a: Seq<usize>, b: Seq<usize>)
    requires
        is_shown(tasks, view, a),
        is_shown(tasks, view, b),
    ensures
        a == b,
{
    assert forall|x: usize| #[trigger] a.contains(x) <==> b.contains(x) by {
        if a.contains(x) {
            let k = choose|k: int| 0 <= k < a.len() && a[k] == x;
            assert(shows(view, tasks[a[k] as int]));
        }
        if b.contains(x) {
            let k = choose|k: int| 0 <= k < b.len() && b[k] == x;
            assert(shows(view, tasks[b[k] as int]));
        }
    }
    lemma_order_is_unique(tasks, view, a, b);
}

/// Whether `list` shows the first `n` tasks: exactly those let through, each once, in
/// order.
spec fn shows_first(tasks: Seq<Task>, view: TaskView, list: Seq<usize>, n: int) -> bool {
    &&& list.len() <= n
    &&& forall|k: int|
        0 <= k < list.len() ==> (#[trigger] list[k]) < n && shows(view, tasks[list[k] as int])
    &&& forall|i: usize| i < n && #[trigger] shows(view, tasks[i as int]) ==> list.contains(i)
    &&& in_row_order(tasks, view, list)
}

/// A row put where everything before it is shown before it, and what stands there is not,
/// is in order.
proof fn lemma_insert_row(tasks: Seq<Task>, view: TaskView, before: Seq<usize>, i: usize, at: int)
    requires
        i < tasks.len(),
        shows_first(tasks, view, before, i as int),
        shows(view, tasks[i as int]),
        0 <= at <= before.len(),
        forall|k: int|
            0 <= k < at ==> row_before(tasks, view, #[trigger] before[k] as int, i as int),
        at < before.len() ==> !row_before(tasks, view, before[at] as int, i as int),
    ensures
        shows_first(tasks, view, before.insert(at, i), i + 1),
{
    assert forall|k: int| at <= k < before.len() implies row_before(
        tasks,
        view,
        i as int,
        #[trigger] before[k] as int,
    ) by {
        lemma_row_order(tasks, view, i as int, before[at] as int, before[k] as int);
        if k > at {
            assert(row_before(tasks, view, before[at] as int, before[k] as int));
        }
    }
    let now = before.insert(at, i);
    assert(forall|k: int|
        0 <= k < now.len() ==> #[trigger] now[k] == (if k < at {
            before[k]
        } else if k == at {
            i
        } else {
            before[k - 1]
        }));
    assert(in_row_order(tasks, view, now)) by {
        assert forall|a: int, b: int| 0 <= a < b < now.len() implies row_before(
            tasks,
            view,
            #[trigger] now[a] as int,
            #[trigger] now[b] as int,
        ) by {
            if a == at {
                assert(now[b] == before[b - 1]);
            } else if b == at {
                assert(now[a] == before[a]);
            } else {
                let c = if a < at { a } else { a - 1 };
                let d = if b < at { b } else { b - 1 };
                assert(row_before(tasks, view, before[c] as int, before[d] as int));
            }
        }
    }
    assert forall|j: usize| j < i + 1 && #[trigger] shows(view, tasks[j as int]) implies now.contains(
        j,
    ) by {
        if j == i {
            assert(now[at] == j);
        } else {
            assert(before.contains(j));
            let c = choose|c: int| 0 <= c < before.len() && before[c] == j;
            let k = if c < at { c } else { c + 1 };
            assert(now[k] == j);
        }
    }
}

/// Where a row belongs in a list in order, at or after `from`.
proof fn lemma_place_of_row(tasks: Seq<Task>, view: TaskView, list: Seq<usize>, i: int, from: int) -> (
at: int)
    requires
        0 <= from <= list.len(),
        forall|k: int|
            0 <= k < from ==> row_before(tasks, view, #[trigger] list[k] as int, i),
    ensures
        from <= at <= list.len(),
        forall|k: int| 0 <= k < at ==> row_before(tasks, view, #[trigger] list[k] as int, i),
        at < list.len() ==> !row_before(tasks, view, list[at] as int, i),
    decreases list.len() - from,
{
    if from < list.len() && row_before(tasks, view, list[from] as int, i) {
        lemma_place_of_row(tasks, view, list, i, from + 1)
    } else {
        from
    }
}

proof fn lemma_shown_exists(tasks: Seq<Task>, view: TaskView, n: int) -> (list: Seq<usize>)
    requires
        0 <= n <= tasks.len(),
        tasks.len() <= usize::MAX,
    ensures
        shows_first(tasks, view, list, n),
    decreases n,
{
    if n == 0 {
        Seq::empty()
    } else {
        let before = lemma_shown_exists(tasks, view, n - 1);
        let i = (n - 1) as usize;
        if shows(view, tasks[i as int]) {
            let at = lemma_place_of_row(tasks, view, before, i as int, 0);
            lemma_insert_row(tasks, view, before, i, at);
            before.insert(at, i)
        } else {
            before
        }
    }
}

/// Some rows are always shown in order, no more than there are tasks.
pub proof fn law_rows_are_shown(tasks: Seq<Task>, view: TaskView)
    requires
        tasks.len() <= usize::MAX,
    ensures
        is_shown(tasks, view, rows_shown(tasks, view)),
        rows_shown(tasks, view).len() <= tasks.len(),
{
    let list = lemma_shown_exists(tasks, view, tasks.len() as int);
    assert(is_shown(tasks, view, list));
    law_what_is_shown_is_determined(tasks, view, list, list);
}

// ---------------------------------------------------------------------------
// The rows
// ---------------------------------------------------------------------------

/// Whether one fraction is less than another.
fn less_fraction(a: (u64, u64), b: (u64, u64)) -> (yes: bool)
    ensures
        yes == fraction_less((a.0 as int, a.1 as int), (b.0 as int, b.1 as int)),
{
    proof {
        assert(a.0 * b.1 <= 0xffff_ffff_ffff_ffff * 0xffff_ffff_ffff_ffff) by (nonlinear_arith)
            requires
                0 <= a.0 <= 0xffff_ffff_ffff_ffff,
                0 <= b.1 <= 0xffff_ffff_ffff_ffff,
        ;
        assert(b.0 * a.1 <= 0xffff_ffff_ffff_ffff * 0xffff_ffff_ffff_ffff) by (nonlinear_arith)
            requires
                0 <= b.0 <= 0xffff_ffff_ffff_ffff,
                0 <= a.1 <= 0xffff_ffff_ffff_ffff,
        ;
    }
    (a.0 as u128) * (b.1 as u128) < (b.0 as u128) * (a.1 as u128)
}

/// See [`progress_fraction`].
fn progress_of(task: &Task) -> (fraction: (u64, u64))
    ensures
        (fraction.0 as int, fraction.1 as int) == progress_fraction(*task),
{
    if task.size == 0 {
        (0, 1)
    } else if task.downloaded >= task.size {
        (task.size, task.size)
    } else {
        (task.downloaded, task.size)
    }
}

/// See [`ratio_fraction`].
fn ratio_of(task: &Task) -> (fraction: (u64, u64))
    ensures
        (fraction.0 as int, fraction.1 as int) == ratio_fraction(*task),
{
    if task.downloaded == 0 {
        (0, 1)
    } else {
        (task.uploaded, task.downloaded)
    }
}

/// Whether a task comes before another by a key, given their titles in lower case.
fn before_by_key(key: SortKey, a: &Task, a_name: &str, b: &Task, b_name: &str) -> (yes: bool)
    requires
        a_name@ == lowercase_form(a.title@),
        b_name@ == lowercase_form(b.title@),
    ensures
        yes == key_before(key, *a, *b),
{
    match key {
        SortKey::Name => comes_before(a_name, b_name),
        SortKey::Status => {
            let x: u8 = rank_of(&a.status);
            let y: u8 = rank_of(&b.status);
            x < y || (x == 10 && y == 10 && comes_before(
                a.status.as_dsm_str(),
                b.status.as_dsm_str(),
            ))
        },
        SortKey::Size => a.size < b.size,
        SortKey::Progress => less_fraction(progress_of(a), progress_of(b)),
        SortKey::DownloadSpeed => a.download_speed < b.download_speed,
        SortKey::UploadSpeed => a.upload_speed < b.upload_speed,
        SortKey::Ratio => less_fraction(ratio_of(a), ratio_of(b)),
        SortKey::Added => match (a.create_time, b.create_time) {
            (None, Some(_)) => true,
            (Some(x), Some(y)) => x < y,
            _ => false,
        },
    }
}

/// The titles of tasks in lower case.
fn lowered_titles(tasks: &Vec<Task>) -> (names: Vec<String>)
    ensures
        names@.len() == tasks@.len(),
        forall|i: int|
            0 <= i < tasks@.len() ==> (#[trigger] names@[i])@ == lowercase_form(tasks@[i].title@),
{
    let mut names: Vec<String> = Vec::new();
    let mut i: usize = 0;
    while i < tasks.len()
        invariant
            i <= tasks@.len(),
            names@.len() == i,
            forall|k: int|
                0 <= k < i ==> (#[trigger] names@[k])@ == lowercase_form(tasks@[k].title@),
        decreases tasks@.len() - i,
    {
        names.push(lowercase(tasks[i].title.as_str()));
        i += 1;
    }
    names
}

/// Whether row `i` is shown before row `j`.
fn shown_before(tasks: &Vec<Task>, names: &Vec<String>, view: &TaskView, i: usize, j: usize) -> (yes:
    bool)
    requires
        i < tasks@.len(),
        j < tasks@.len(),
        names@.len() == tasks@.len(),
        forall|k: int|
            0 <= k < tasks@.len() ==> (#[trigger] names@[k])@ == lowercase_form(tasks@[k].title@),
    ensures
        yes == row_before(tasks@, *view, i as int, j as int),
{
    let (a, b) = match view.sort_dir {
        SortDir::Asc => (i, j),
        SortDir::Desc => (j, i),
    };
    if before_by_key(
        view.sort_key,
        &tasks[a],
        names[a].as_str(),
        &tasks[b],
        names[b].as_str(),
    ) {
        return true;
    }
    i < j && !before_by_key(
        view.sort_key,
        &tasks[b],
        names[b].as_str(),
        &tasks[a],
        names[a].as_str(),
    )
}

/// Indices into `tasks` of the rows to display, in display order.
pub fn visible_indices(tasks: &Vec<Task>, view: &TaskView) -> (list: Vec<usize>)
    ensures
        is_shown(tasks@, *view, list@),
        list@ == rows_shown(tasks@, *view),
{
    let names = lowered_titles(tasks);
    let wanted = lowercase(view.search.as_str());
    let mut list: Vec<usize> = Vec::new();
    let mut i: usize = 0;
    while i < tasks.len()
        invariant
            i <= tasks@.len(),
            names@.len() == tasks@.len(),
            wanted@ == lowercase_form(view.search@),
            forall|k: int|
                0 <= k < tasks@.len() ==> (#[trigger] names@[k])@ == lowercase_form(
                    tasks@[k].title@,
                ),
            shows_first(tasks@, *view, list@, i as int),
        decreases tasks@.len() - i,
    {
        if view.filter.matches(&tasks[i].status) && (view.search.as_str().is_empty() || contains(
            names[i].as_str(),
            wanted.as_str(),
        )) {
            let ghost before = list@;
            let mut at: usize = 0;
            while at < list.len() && shown_before(tasks, &names, view, list[at], i)
                invariant
                    at <= list@.len(),
                    i < tasks@.len(),
                    list@ == before,
                    names@.len() == tasks@.len(),
                    forall|k: int|
                        0 <= k < tasks@.len() ==> (#[trigger] names@[k])@ == lowercase_form(
                            tasks@[k].title@,
                        ),
                    forall|k: int| 0 <= k < list@.len() ==> (#[trigger] list@[k]) < i,
                    forall|k: int|
                        0 <= k < at ==> row_before(
                            tasks@,
                            *view,
                            #[trigger] list@[k] as int,
                            i as int,
                        ),
                decreases list@.len() - at,
            {
                at += 1;
            }
            proof {
                lemma_insert_row(tasks@, *view, before, i, at as int);
            }
            list.insert(at, i);
        }
        i += 1;
    }
    proof {
        assert(is_shown(tasks@, *view, list@));
        law_what_is_shown_is_determined(tasks@, *view, list@, list@);
    }
    list
}

/// An empty search hides nothing: what is shown is what the filter takes.
pub proof fn law_an_empty_search_hides_nothing(view: TaskView, task: Task)
    requires
        view.search@.len() == 0,
    ensures
        shows(view, task) == view.filter.takes(task.status),
{
}

// ---------------------------------------------------------------------------
// The window
// ---------------------------------------------------------------------------

/// The first row of a window of `height` rows that holds the cursor: the stored one,
/// moved only as far as the cursor, the ends of the list and the height make it.
pub open spec fn window_start(stored: nat, cursor: nat, rows: nat, height: nat) -> nat {
    if height == 0 || rows <= height {
        0
    } else {
        let row = if cursor < rows {
            cursor
        } else {
            (rows - 1) as nat
        };
        let last = (rows - height) as nat;
        let kept = if stored > row {
            row
        } else if stored + height <= row {
            (row + 1 - height) as nat
        } else {
            stored
        };
        if kept > last {
            last
        } else {
            kept
        }
    }
}

/// The first table row to draw: the stored offset, re-clamped against the cursor, the
/// row count and the height of the window.
pub fn scroll_offset(stored: usize, cursor: usize, rows: usize, height: usize) -> (first: usize)
    ensures
        first == window_start(stored as nat, cursor as nat, rows as nat, height as nat),
{
    if height == 0 || rows <= height {
        return 0;
    }
    let row: usize = if cursor < rows {
        cursor
    } else {
        rows - 1
    };
    let last: usize = rows - height;
    let kept: usize = if stored > row {
        row
    } else if row - stored >= height {
        row - height + 1
    } else {
        stored
    };
    if kept > last {
        last
    } else {
        kept
    }
}

/// The cursor's row is always in the window, the window never runs past the list, and
/// a window that already shows the cursor does not move.
pub proof fn law_the_window_holds_the_cursor(stored: nat, cursor: nat, rows: nat, height: nat)
    requires
        height > 0,
        cursor < rows,
    ensures
        window_start(stored, cursor, rows, height) <= cursor,
        cursor < window_start(stored, cursor, rows, height) + height,
        rows >= height ==> window_start(stored, cursor, rows, height) + height <= rows,
        stored <= cursor < stored + height && stored + height <= rows ==> window_start(
            stored,
            cursor,
            rows,
            height,
        ) == stored,
{
}

// ---------------------------------------------------------------------------
// What the order and the filters mean
// ---------------------------------------------------------------------------

/// Whether `a` is not after `b` in the dictionary: they are the same, or at the first place
/// where they differ `a` has ended or has the smaller character.
pub open spec fn text_not_after(a: Seq<char>, b: Seq<char>) -> bool {
    a == b || exists|n: int|
        {
            &&& 0 <= n <= a.len()
            &&& n < b.len()
            &&& #[trigger] a.take(n) == b.take(n)
            &&& n == a.len() || a[n] < b[n]
        }
}

/// What comes before another text is not after it in the dictionary.
pub proof fn lemma_precedes_means(a: Seq<char>, b: Seq<char>)
    ensures
        precedes(a, b) ==> text_not_after(a, b),
    decreases a.len(),
{
    if precedes(a, b) {
        if a.len() == 0 || a[0] != b[0] {
            assert(a.take(0) =~= b.take(0));
        } else {
            let x = a.skip(1);
            let y = b.skip(1);
            lemma_precedes_means(x, y);
            lemma_precedes_total(x, y);
            let n = choose|n: int|
                {
                    &&& 0 <= n <= x.len()
                    &&& n < y.len()
                    &&& #[trigger] x.take(n) == y.take(n)
                    &&& n == x.len() || x[n] < y[n]
                };
            assert(a.take(n + 1) =~= seq![a[0]] + x.take(n));
            assert(b.take(n + 1) =~= seq![b[0]] + y.take(n));
        }
    }
}

proof fn lemma_not_preceded(a: Seq<char>, b: Seq<char>)
    requires
        !precedes(b, a),
    ensures
        text_not_after(a, b),
{
    lemma_precedes_total(a, b);
    lemma_precedes_means(a, b);
}

/// The statuses in DSM's order.
pub open spec fn dsm_order() -> Seq<TaskStatus> {
    seq![
        TaskStatus::Waiting,
        TaskStatus::Downloading,
        TaskStatus::Paused,
        TaskStatus::Finishing,
        TaskStatus::Finished,
        TaskStatus::HashChecking,
        TaskStatus::Seeding,
        TaskStatus::FilehostingWaiting,
        TaskStatus::Extracting,
        TaskStatus::Error,
    ]
}

/// Whether one status is not after another: by their places in DSM's order, one this client
/// does not know after those it does, two of that kind by their texts.
pub open spec fn status_not_after(a: TaskStatus, b: TaskStatus) -> bool {
    match (a, b) {
        (TaskStatus::Unknown(x), TaskStatus::Unknown(y)) => text_not_after(x@, y@),
        (TaskStatus::Unknown(_), _) => false,
        (_, TaskStatus::Unknown(_)) => true,
        _ => forall|i: int, j: int|
            0 <= i < 10 && 0 <= j < 10 && #[trigger] dsm_order()[i] == a && #[trigger] dsm_order()[j]
                == b ==> i <= j,
    }
}

/// The bytes of a task that are there, no more than its size.
pub open spec fn bytes_there(task: Task) -> int {
    if task.downloaded <= task.size {
        task.downloaded as int
    } else {
        task.size as int
    }
}

/// Whether the value of a key of one task is no greater than that of another.
pub open spec fn value_not_after(key: SortKey, a: Task, b: Task) -> bool {
    match key {
        SortKey::Name => text_not_after(lowercase_form(a.title@), lowercase_form(b.title@)),
        SortKey::Status => status_not_after(a.status, b.status),
        SortKey::Size => a.size <= b.size,
        // A task without a size has no progress.
        SortKey::Progress => a.size == 0 || (if b.size == 0 {
            a.downloaded == 0
        } else {
            bytes_there(a) * b.size <= bytes_there(b) * a.size
        }),
        SortKey::DownloadSpeed => a.download_speed <= b.download_speed,
        SortKey::UploadSpeed => a.upload_speed <= b.upload_speed,
        // A task that downloaded nothing has no ratio.
        SortKey::Ratio => a.downloaded == 0 || (if b.downloaded == 0 {
            a.uploaded == 0
        } else {
            a.uploaded * b.downloaded <= b.uploaded * a.downloaded
        }),
        SortKey::Added => a.create_time is None || (b.create_time is Some && a.create_time->0
            <= b.create_time->0),
    }
}

proof fn lemma_dsm_order()
    ensures
        forall|i: int| 0 <= i < 10 ==> status_rank(#[trigger] dsm_order()[i]) == i,
        forall|s: TaskStatus|
            !(s is Unknown) ==> dsm_order()[#[trigger] status_rank(s)] == s,
{
}

proof fn lemma_value_not_after(key: SortKey, a: Task, b: Task)
    requires
        !key_before(key, b, a),
    ensures
        value_not_after(key, a, b),
{
    match key {
        SortKey::Name => {
            lemma_not_preceded(lowercase_form(a.title@), lowercase_form(b.title@));
        },
        SortKey::Status => {
            match (a.status, b.status) {
                (TaskStatus::Unknown(x), TaskStatus::Unknown(y)) => {
                    lemma_not_preceded(x@, y@);
                },
                _ => {
                    lemma_dsm_order();
                },
            }
        },
        SortKey::Progress => {
            if a.size != 0 {
                let (x, y) = (progress_fraction(a), progress_fraction(b));
                assert(!fraction_less(y, x));
                assert(x == (bytes_there(a), a.size as int));
                if b.size == 0 {
                    assert(bytes_there(a) * 1 <= 0 * a.size);
                } else {
                    assert(y == (bytes_there(b), b.size as int));
                }
            }
        },
        SortKey::Ratio => {
            if a.downloaded != 0 && b.downloaded == 0 {
                assert(a.uploaded * 1 <= 0 * a.downloaded);
            }
        },
        _ => {},
    }
}

/// Rows come by their key: of two rows of what is shown, the one further up has the value
/// that is no greater, or no smaller where the direction is reversed. That is the title
/// without regard to case, the place of the status, the size, the share that is there, the
/// speeds, uploaded over downloaded, and the time it was added.
pub proof fn law_rows_are_sorted_by_value(
    tasks: Seq<Task>,
    view: TaskView,
    list: Seq<usize>,
    a: int,
    b: int,
)
    requires
        is_shown(tasks, view, list),
        0 <= a < b < list.len(),
    ensures
        match view.sort_dir {
            SortDir::Asc => value_not_after(
                view.sort_key,
                tasks[list[a] as int],
                tasks[list[b] as int],
            ),
            SortDir::Desc => value_not_after(
                view.sort_key,
                tasks[list[b] as int],
                tasks[list[a] as int],
            ),
        },
{
    let x = tasks[list[a] as int];
    let y = tasks[list[b] as int];
    let key = view.sort_key;
    assert(row_before(tasks, view, list[a] as int, list[b] as int));
    lemma_key_order(key, x, y, x);
    lemma_key_order(key, y, x, y);
    match view.sort_dir {
        SortDir::Asc => {
            lemma_value_not_after(key, x, y);
        },
        SortDir::Desc => {
            lemma_value_not_after(key, y, x);
        },
    }
}

proof fn lemma_text_both_ways(a: Seq<char>, b: Seq<char>)
    requires
        text_not_after(a, b),
        text_not_after(b, a),
    ensures
        a == b,
{
    if a != b {
        let n = choose|n: int|
            {
                &&& 0 <= n <= a.len()
                &&& n < b.len()
                &&& #[trigger] a.take(n) == b.take(n)
                &&& n == a.len() || a[n] < b[n]
            };
        let m = choose|m: int|
            {
                &&& 0 <= m <= b.len()
                &&& m < a.len()
                &&& #[trigger] b.take(m) == a.take(m)
                &&& m == b.len() || b[m] < a[m]
            };
        if n < m {
            assert(b.take(m)[n] == b[n] && a.take(m)[n] == a[n]);
        } else if m < n {
            assert(b.take(n)[m] == b[m] && a.take(n)[m] == a[m]);
        }
    }
}

proof fn lemma_same_value_same_place(key: SortKey, a: Task, b: Task)
    requires
        value_not_after(key, a, b),
        value_not_after(key, b, a),
    ensures
        !key_before(key, a, b),
{
    match key {
        SortKey::Name => {
            lemma_text_both_ways(lowercase_form(a.title@), lowercase_form(b.title@));
            lemma_precedes_total(lowercase_form(a.title@), lowercase_form(b.title@));
        },
        SortKey::Status => {
            lemma_dsm_order();
            match (a.status, b.status) {
                (TaskStatus::Unknown(x), TaskStatus::Unknown(y)) => {
                    lemma_text_both_ways(x@, y@);
                    lemma_precedes_total(x@, y@);
                },
                (TaskStatus::Unknown(_), _) => {},
                (_, TaskStatus::Unknown(_)) => {},
                _ => {
                    let i = status_rank(a.status);
                    let j = status_rank(b.status);
                    assert(dsm_order()[i] == a.status);
                    assert(dsm_order()[j] == b.status);
                },
            }
        },
        SortKey::Progress => {
            let (x, y) = (progress_fraction(a), progress_fraction(b));
            if a.size != 0 && b.size != 0 {
                assert(x == (bytes_there(a), a.size as int));
                assert(y == (bytes_there(b), b.size as int));
            } else if a.size != 0 {
                assert(x.0 == 0);
                assert(0 * y.1 == 0 && y.0 * x.1 == 0);
            } else if b.size != 0 {
                assert(y.0 == 0);
                assert(0 * x.1 == 0 && x.0 * y.1 == 0);
            }
        },
        SortKey::Ratio => {
            let (x, y) = (ratio_fraction(a), ratio_fraction(b));
            if a.downloaded == 0 || b.downloaded == 0 {
                assert(x.0 == 0 && y.0 == 0);
                assert(0 * y.1 == 0 && 0 * x.1 == 0);
            }
        },
        _ => {},
    }
}

/// Rows of one value stay in the order DSM listed them, in either direction.
pub proof fn law_equal_rows_keep_their_order(
    tasks: Seq<Task>,
    view: TaskView,
    list: Seq<usize>,
    a: int,
    b: int,
)
    requires
        is_shown(tasks, view, list),
        0 <= a < b < list.len(),
        value_not_after(view.sort_key, tasks[list[a] as int], tasks[list[b] as int]),
        value_not_after(view.sort_key, tasks[list[b] as int], tasks[list[a] as int]),
    ensures
        list[a] < list[b],
{
    let x = tasks[list[a] as int];
    let y = tasks[list[b] as int];
    assert(row_before(tasks, view, list[a] as int, list[b] as int));
    lemma_same_value_same_place(view.sort_key, x, y);
    lemma_same_value_same_place(view.sort_key, y, x);
}

/// A row is shown exactly where its status passes the filter and its title, without regard
/// to case, has the search text somewhere in it; and it is shown once.
pub proof fn law_what_is_shown(tasks: Seq<Task>, view: TaskView, list: Seq<usize>, i: usize)
    requires
        is_shown(tasks, view, list),
        i < tasks.len(),
    ensures
        list.contains(i) <==> view.filter.takes(tasks[i as int].status) && (view.search@.len() == 0
            || occurs(lowercase_form(view.search@), lowercase_form(tasks[i as int].title@))),
        forall|a: int, b: int|
            0 <= a < b < list.len() ==> #[trigger] list[a] != #[trigger] list[b],
{
    lemma_holds_means(lowercase_form(tasks[i as int].title@), lowercase_form(view.search@));
    if list.contains(i) {
        let k = choose|k: int| 0 <= k < list.len() && list[k] == i;
        assert(shows(view, tasks[list[k] as int]));
    }
    assert(shows(view, tasks[i as int]) ==> list.contains(i));
    assert forall|a: int, b: int| 0 <= a < b < list.len() implies #[trigger] list[a]
        != #[trigger] list[b] by {
        assert(row_before(tasks, view, list[a] as int, list[b] as int));
        lemma_row_order(tasks, view, list[a] as int, list[b] as int, 0);
    }
}

/// Whether `part` stands somewhere in `text`.
pub open spec fn occurs(part: Seq<char>, text: Seq<char>) -> bool {
    exists|k: int|
        0 <= k && k + part.len() <= text.len() && #[trigger] text.subrange(k, k + part.len()) == part
}

proof fn lemma_holds_means(text: Seq<char>, part: Seq<char>)
    ensures
        holds(text, part) == occurs(part, text),
{
    if holds(text, part) {
        let at = choose|at: int| found_at(text, part, at);
        assert(text.subrange(at, at + part.len()) =~= part);
    }
    if occurs(part, text) {
        let k = choose|k: int|
            0 <= k && k + part.len() <= text.len() && #[trigger] text.subrange(k, k + part.len())
                == part;
        assert(found_at(text, part, k));
    }
}

/// The filters beside `All` part the statuses this client knows: each filter takes the
/// status of its name, `Downloading` everything else that is in progress, and every known
/// status is taken by exactly one of them. What it does not know is shown under `All`
/// alone, and `All` hides nothing.
pub proof fn law_each_status_has_one_filter(status: TaskStatus)
    ensures
        StatusFilter::All.takes(status),
        status is Seeding ==> StatusFilter::Seeding.takes(status),
        status is Finished ==> StatusFilter::Finished.takes(status),
        status is Paused ==> StatusFilter::Paused.takes(status),
        status is Error ==> StatusFilter::Error.takes(status),
        status is Downloading ==> StatusFilter::Downloading.takes(status),
        !(status is Unknown) ==> exists|f: StatusFilter|
            f != StatusFilter::All && #[trigger] f.takes(status),
        forall|f: StatusFilter, g: StatusFilter|
            f != StatusFilter::All && g != StatusFilter::All && #[trigger] f.takes(status)
                && #[trigger] g.takes(status) ==> f == g,
        forall|f: StatusFilter| #[trigger]
            f.takes(status) && f != StatusFilter::All ==> !(status is Unknown),
        forall|f: StatusFilter| #[trigger]
            f.takes(status) && f != StatusFilter::All && f != StatusFilter::Downloading
                ==> status is Seeding || status is Finished || status is Paused || status is Error,
{
    if !(status is Unknown) {
        assert(StatusFilter::Downloading.takes(status) || StatusFilter::Seeding.takes(status)
            || StatusFilter::Finished.takes(status) || StatusFilter::Paused.takes(status)
            || StatusFilter::Error.takes(status));
    }
}

/// Each press goes to the next in the list, and from the last to the first: every sort key
/// and every filter comes up in turn.
pub proof fn law_every_key_and_filter_comes_up(i: int)
    ensures
        0 <= i < 8 ==> SortKey::ALL@[i].following() == SortKey::ALL@[(i + 1) % 8],
        0 <= i < 6 ==> StatusFilter::ALL@[i].following() == StatusFilter::ALL@[(i + 1) % 6],
        forall|key: SortKey| SortKey::ALL@.contains(key),
        forall|filter: StatusFilter| StatusFilter::ALL@.contains(filter),
        forall|a: int, b: int|
            0 <= a < b < 8 ==> #[trigger] SortKey::ALL@[a] != #[trigger] SortKey::ALL@[b],
        forall|a: int, b: int|
            0 <= a < b < 6 ==> #[trigger] StatusFilter::ALL@[a] != #[trigger] StatusFilter::ALL@[b],
{
    let keys = SortKey::ALL@;
    let filters = StatusFilter::ALL@;
    assert(keys[0] is Name && keys[1] is Status && keys[2] is Size && keys[3] is Progress && keys[4]
        is DownloadSpeed && keys[5] is UploadSpeed && keys[6] is Ratio && keys[7] is Added);
    assert(filters[0] is All && filters[1] is Downloading && filters[2] is Seeding && filters[3]
        is Finished && filters[4] is Paused && filters[5] is Error);
    assert forall|key: SortKey| keys.contains(key) by {
        match key {
            SortKey::Name => assert(keys[0] == key),
            SortKey::Status => assert(keys[1] == key),
            SortKey::Size => assert(keys[2] == key),
            SortKey::Progress => assert(keys[3] == key),
            SortKey::DownloadSpeed => assert(keys[4] == key),
            SortKey::UploadSpeed => assert(keys[5] == key),
            SortKey::Ratio => assert(keys[6] == key),
            SortKey::Added => assert(keys[7] == key),
        }
    }
    assert forall|filter: StatusFilter| filters.contains(filter) by {
        match filter {
            StatusFilter::All => assert(filters[0] == filter),
            StatusFilter::Downloading => assert(filters[1] == filter),
            StatusFilter::Seeding => assert(filters[2] == filter),
            StatusFilter::Finished => assert(filters[3] == filter),
            StatusFilter::Paused => assert(filters[4] == filter),
            StatusFilter::Error => assert(filters[5] == filter),
        }
    }
}

/// Reversing twice restores the direction, and once changes it.
pub proof fn law_reversing_twice_restores(dir: SortDir)
    ensures
        TaskView::turned(dir) != dir,
        TaskView::turned(TaskView::turned(dir)) == dir,
{
}

/// The window moves no further than it has to: to a cursor above it, which is then its first
/// row, or to one below it, which is then its last; and a list that fits is shown from its
/// first row.
pub proof fn law_the_window_moves_no_further_than_it_has_to(
    stored: nat,
    cursor: nat,
    rows: nat,
    height: nat,
)
    requires
        height > 0,
        cursor < rows,
    ensures
        rows <= height ==> window_start(stored, cursor, rows, height) == 0,
        stored + height <= rows && cursor < stored ==> window_start(stored, cursor, rows, height)
            == cursor,
        stored + height <= rows && cursor >= stored + height ==> window_start(
            stored,
            cursor,
            rows,
            height,
        ) + height == cursor + 1,
        stored + height > rows && rows > height && cursor >= rows - height ==> window_start(
            stored,
            cursor,
            rows,
            height,
        ) + height == rows,
{
}

} // verus!
