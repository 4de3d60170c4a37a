//! Application state and key handling.
//!
//! [`App`] holds *everything* the program knows. Every key press and every background
//! event is a `&mut App` transition; nothing here touches the network.
//!
//! * **The task list is never reordered for display.** What is visible, and in what
//!   order, is a list of indices into it.
//! * **Selection is keyed by task ID, not row index**, so a refresh that reorders or
//!   removes rows can never silently reassign what is selected. The cursor is a position
//!   in the *visible* list and is reconciled by ID.

use vstd::prelude::*;
use vstd::string::StringExecFns;
use crate::api::client::{parse_envelope, payload_answer};
use crate::api::download_station::DS_TASK_API;
use crate::delete::{snapshot_of, DeleteOptions, DeletePlan};
use crate::error::{prefixed, Error, IoError};
use crate::event::{
    task_by_id, task_seen, task_with_id, AppEvent, ItemReport, OpKind, TaskOp,
    TaskRef,
};
use crate::json::json_parsed;
use crate::keys::{Event, KeyCode, KeyEvent, KeyEventKind};
use crate::model::{Task, TaskList};
use crate::table::TextSet;
use crate::text::{
    chars_of, decimal, decimal_of, join, joined, opt_view, same_text, text_between, views,
};
use crate::view::{
    is_shown, law_rows_are_shown, rows_shown, scroll_offset, visible_indices, window_start, TaskView,
};

verus! {

/// Rows a `PageUp`/`PageDown` moves before the first frame has been drawn.
pub const DEFAULT_PAGE_SIZE: usize = 20;

/// What is said to a second batch.
pub const BUSY: &'static str =
    "an operation is still running — wait for it to finish before starting another";

/// What the UI is currently doing, and therefore which keys mean what.
#[derive(Debug, Clone, Copy, PartialEq, Eq, Hash, Structural)]
pub enum Mode {
    /// Browsing the table.
    Normal,
    /// Typing into the search box.
    Search,
    /// The delete confirmation modal is open. Refreshes are suspended in this mode so
    /// the plan on screen cannot go stale under the user.
    Confirm,
    /// The `?` help overlay is open. It binds nothing: **any** key closes it.
    Help,
    /// The results of the last finished batch are on screen. It scrolls, so it does not
    /// close on any key.
    Results,
}

impl Default for Mode {
    fn default() -> (mode: Self)
        ensures
            mode == Mode::Normal,
    {
        Mode::Normal
    }
}

/// Which button of the confirmation modal `Enter` will press.
#[derive(Debug, Clone, Copy, PartialEq, Eq, Hash, Structural)]
pub enum ConfirmFocus {
    Cancel,
    Delete,
}

impl Default for ConfirmFocus {
    /// **Cancel, and that is the whole point**: a dialog that opens with the destructive
    /// button primed turns a reflexive `Enter` into a recursive delete.
    fn default() -> (focus: Self)
        ensures
            focus == ConfirmFocus::Cancel,
    {
        ConfirmFocus::Cancel
    }
}

impl ConfirmFocus {
    /// The other button.
    pub open spec fn opposite(self) -> ConfirmFocus {
        match self {
            ConfirmFocus::Cancel => ConfirmFocus::Delete,
            ConfirmFocus::Delete => ConfirmFocus::Cancel,
        }
    }

    /// The other button.
    pub fn other(self) -> (focus: Self)
        ensures
            focus == self.opposite(),
    {
        match self {
            ConfirmFocus::Cancel => ConfirmFocus::Delete,
            ConfirmFocus::Delete => ConfirmFocus::Cancel,
        }
    }
}

/// A pause or resume the user asked for, waiting for the event loop to run it.
#[derive(Debug, Clone, PartialEq, Eq)]
pub struct TaskOpRequest {
    /// A delete goes through the confirmation dialog instead.
    pub op: TaskOp,
    pub tasks: Vec<TaskRef>,
}

/// Twice a number, or the largest there is.
pub open spec fn doubled(items: nat) -> nat {
    if 2 * items <= usize::MAX {
        2 * items
    } else {
        usize::MAX as nat
    }
}

/// The body lines of a modal that shows two for each item.
fn lines_of(items: usize) -> (lines: usize)
    ensures
        lines == doubled(items as nat),
{
    if items <= usize::MAX / 2 {
        2 * items
    } else {
        usize::MAX
    }
}

/// What one finished batch did, kept so the user can still read it afterwards.
/// Successes are **not** kept.
#[derive(Debug, Clone, PartialEq, Eq)]
pub struct OpReport {
    pub op: OpKind,
    pub succeeded: usize,
    pub skipped: usize,
    pub failed: usize,
    /// Every item that failed or was skipped, in batch order.
    pub problems: Vec<ItemReport>,
}

impl OpReport {
    /// Whether there is anything worth opening the modal for.
    pub fn has_problems(&self) -> (yes: bool)
        ensures
            yes == (self.problems@.len() > 0),
    {
        self.problems.len() > 0
    }

    /// Body lines the modal renders: a heading and a reason per problem.
    pub fn line_count(&self) -> (lines: usize)
        ensures
            lines == doubled(self.problems@.len()),
    {
        lines_of(self.problems.len())
    }
}

/// The whole of the application state.
#[derive(Debug, Clone)]
pub struct App {
    /// Every task DSM reported, in the order it reported them.
    pub tasks: Vec<Task>,
    /// Sort, filter and search state.
    pub view: TaskView,
    /// Cursor position **within the visible list**.
    pub cursor: usize,
    /// First visible table row. Never trusted raw: [`App::scroll_offset`] re-clamps it.
    pub scroll: usize,
    /// Task IDs the user has selected.
    pub selected: TextSet,
    pub mode: Mode,
    /// What a confirmed delete is allowed to do.
    pub delete_options: DeleteOptions,
    /// One line of feedback shown in the footer: the result of the last operation.
    pub status_message: Option<String>,
    /// Where this session is connected, as `user@host:port`.
    pub connection: Option<String>,
    /// Whether a task list has **ever** arrived.
    pub loaded: bool,
    /// A **non-fatal** failure banner, cleared by the next successful refresh.
    pub error: Option<String>,
    /// How far `PageUp`/`PageDown` jump: the height of the table body.
    pub page_size: usize,
    /// Set by `r`, cleared by the event loop.
    pub refresh_requested: bool,
    /// The query the view held when `/` was pressed, so `Esc` can put it back.
    pub search_backup: Option<String>,
    /// The snapshot the confirmation modal is showing.
    pub pending_delete: Option<DeletePlan>,
    /// Which modal button `Enter` presses.
    pub confirm_focus: ConfirmFocus,
    /// First body line the confirmation modal shows.
    pub confirm_scroll: usize,
    /// A pause or resume the user asked for, waiting to be picked up.
    pub requested_op: Option<TaskOpRequest>,
    /// A plan the user confirmed, waiting to be picked up.
    pub confirmed_delete: Option<DeletePlan>,
    /// Problems reported by the batch **currently running**.
    pub op_problems: Vec<ItemReport>,
    /// The last finished batch's report.
    pub op_report: Option<OpReport>,
    /// First body line the results modal shows.
    pub results_scroll: usize,
    /// Whether an operation batch the event loop started is still running.
    pub op_in_flight: bool,
    /// Set by `q` / `Ctrl-C`; the event loop owns the actual exit.
    pub quit: bool,
}

/// Whether this is the state over a task list that nothing was done in yet.
pub open spec fn is_fresh(app: App, tasks: Seq<Task>, loaded: bool) -> bool {
    &&& app.tasks@ == tasks
    &&& app.view.sort_key == crate::view::SortKey::Name
    &&& app.view.sort_dir == crate::view::SortDir::Asc
    &&& app.view.filter == crate::view::StatusFilter::All
    &&& app.view.search@ == Seq::<char>::empty()
    &&& app.cursor == 0
    &&& app.scroll == 0
    &&& app.selected@ == Set::<Seq<char>>::empty()
    &&& app.mode == Mode::Normal
    &&& app.delete_options == (DeleteOptions { delete_files: true, dry_run: false })
    &&& app.status_message is None
    &&& app.connection is None
    &&& app.loaded == loaded
    &&& app.error is None
    &&& app.page_size == DEFAULT_PAGE_SIZE
    &&& !app.refresh_requested
    &&& app.search_backup is None
    &&& app.pending_delete is None
    &&& app.confirm_focus == ConfirmFocus::Cancel
    &&& app.confirm_scroll == 0
    &&& app.requested_op is None
    &&& app.confirmed_delete is None
    &&& app.op_problems@.len() == 0
    &&& app.op_report is None
    &&& app.results_scroll == 0
    &&& !app.op_in_flight
    &&& !app.quit
}

impl Default for App {
    fn default() -> (app: Self)
        ensures
            is_fresh(app, Seq::empty(), false),
    {
        App {
            tasks: Vec::new(),
            view: TaskView::default(),
            cursor: 0,
            scroll: 0,
            selected: TextSet::new(),
            mode: Mode::Normal,
            delete_options: DeleteOptions::default(),
            status_message: None,
            connection: None,
            loaded: false,
            error: None,
            page_size: DEFAULT_PAGE_SIZE,
            refresh_requested: false,
            search_backup: None,
            pending_delete: None,
            confirm_focus: ConfirmFocus::Cancel,
            confirm_scroll: 0,
            requested_op: None,
            confirmed_delete: None,
            op_problems: Vec::new(),
            op_report: None,
            results_scroll: 0,
            op_in_flight: false,
            quit: false,
        }
    }
}

// ---------------------------------------------------------------------------
// What is on screen
// ---------------------------------------------------------------------------

/// Tasks without their references.
pub open spec fn seen(list: Seq<&Task>) -> Seq<Task> {
    Seq::new(list.len(), |i: int| *list[i])
}

/// The first row at or after `from` that shows the task of this id.
pub open spec fn row_with_id(tasks: Seq<Task>, rows: Seq<usize>, id: Seq<char>, from: int) -> Option<
    int,
>
    decreases rows.len() - from,
{
    if from >= rows.len() {
        None
    } else if tasks[rows[from] as int].id@ == id {
        Some(from)
    } else {
        row_with_id(tasks, rows, id, from + 1)
    }
}

/// A value moved by a signed step, kept between 0 and `max`. It does not wrap.
pub open spec fn shifted(value: int, delta: int, max: int) -> int {
    if value + delta < 0 {
        0
    } else if value + delta > max {
        max
    } else {
        value + delta
    }
}

/// Move `value` by a signed `delta`, saturating at `0` and at `max`.
pub fn shift(value: usize, delta: isize, max: usize) -> (moved: usize)
    ensures
        moved == shifted(value as int, delta as int, max as int),
{
    let moved: i128 = value as i128 + delta as i128;
    if moved < 0 {
        0
    } else if moved > max as i128 {
        max
    } else {
        moved as usize
    }
}

/// A page as a signed row count.
pub open spec fn page_step(page_size: int) -> int {
    if page_size <= isize::MAX {
        page_size
    } else {
        isize::MAX as int
    }
}

/// A page jump as a signed row count, saturating rather than wrapping.
pub fn page_delta(page_size: usize) -> (delta: isize)
    ensures
        delta == page_step(page_size as int),
{
    if page_size <= isize::MAX as usize {
        page_size as isize
    } else {
        isize::MAX
    }
}

impl App {
    /// The rows on screen: indices into the task list, in display order.
    pub open spec fn rows(self) -> Seq<usize> {
        rows_shown(self.tasks@, self.view)
    }

    /// The task under the cursor.
    pub open spec fn under_cursor(self) -> Option<Task> {
        if self.cursor < self.rows().len() {
            Some(self.tasks@[self.rows()[self.cursor as int] as int])
        } else {
            None
        }
    }

    /// The id of the task under the cursor.
    pub open spec fn cursor_id(self) -> Option<Seq<char>> {
        match self.under_cursor() {
            Some(task) => Some(task.id@),
            None => None,
        }
    }

    /// The state with the window moved to the cursor.
    pub open spec fn followed(self, rows: nat) -> App {
        App {
            scroll: window_start(
                self.scroll as nat,
                self.cursor as nat,
                rows,
                self.page_size as nat,
            ) as usize,
            ..self
        }
    }

    /// The state with the cursor inside the list, and the window moved to it.
    pub open spec fn settled(self, rows: nat) -> App {
        (App {
            cursor: if self.cursor < rows {
                self.cursor
            } else if rows == 0 {
                0
            } else {
                (rows - 1) as usize
            },
            ..self
        }).followed(rows)
    }

    /// The state with the cursor on the task of this id, where one is shown, and else
    /// where it is, inside the list.
    pub open spec fn reseated(self, id: Option<Seq<char>>) -> App {
        let cursor = match id {
            Some(i) => match row_with_id(self.tasks@, self.rows(), i, 0) {
                Some(row) => row as usize,
                None => self.cursor,
            },
            None => self.cursor,
        };
        (App { cursor, ..self }).settled(self.rows().len())
    }

    /// Indices into the task list of the rows to display, in display order. **Derived on
    /// every call, never stored.**
    pub fn visible(&self) -> (list: Vec<usize>)
        ensures
            list@ == self.rows(),
            is_shown(self.tasks@, self.view, list@),
    {
        visible_indices(&self.tasks, &self.view)
    }

    /// How many rows the current sort, filter and search leave on screen.
    pub fn visible_count(&self) -> (count: usize)
        ensures
            count == self.rows().len(),
    {
        self.visible().len()
    }

    /// The task under the cursor, if any row is visible at all.
    pub fn cursor_task(&self) -> (task: Option<&Task>)
        ensures
            task_seen(task) == self.under_cursor(),
    {
        let rows = self.visible();
        if self.cursor < rows.len() {
            let index: usize = rows[self.cursor];
            Some(&self.tasks[index])
        } else {
            None
        }
    }

    /// The id of the task under the cursor.
    fn cursor_task_id(&self) -> (id: Option<String>)
        ensures
            opt_view(id) == self.cursor_id(),
    {
        match self.cursor_task() {
            Some(task) => Some(task.id.clone()),
            None => None,
        }
    }

    /// The first table row to draw in a viewport `height` rows tall: the stored offset,
    /// re-clamped.
    pub fn scroll_offset(&self, height: usize) -> (first: usize)
        ensures
            first == window_start(
                self.scroll as nat,
                self.cursor as nat,
                self.rows().len(),
                height as nat,
            ),
    {
        self.scroll_offset_for(self.visible_count(), height)
    }

    /// As [`App::scroll_offset`], for a caller that already knows how many rows are
    /// visible.
    pub fn scroll_offset_for(&self, rows: usize, height: usize) -> (first: usize)
        ensures
            first == window_start(self.scroll as nat, self.cursor as nat, rows as nat, height as nat),
    {
        scroll_offset(self.scroll, self.cursor, rows, height)
    }

    /// Re-seat the window around the cursor, for a caller holding the row count.
    fn follow_cursor_in(&mut self, rows: usize)
        ensures
            *final(self) == old(self).followed(rows as nat),
    {
        self.scroll = self.scroll_offset_for(rows, self.page_size);
    }

    /// Re-seat the window around the cursor, in the height the last frame had.
    fn follow_cursor(&mut self)
        ensures
            *final(self) == old(self).followed(old(self).rows().len()),
    {
        let rows: usize = self.visible_count();
        self.follow_cursor_in(rows);
    }

    /// [`App::clamp_cursor`] for a caller holding the row count already.
    fn settle_cursor(&mut self, rows: usize)
        ensures
            *final(self) == old(self).settled(rows as nat),
    {
        if self.cursor >= rows {
            self.cursor = if rows == 0 {
                0
            } else {
                rows - 1
            };
        }
        self.follow_cursor_in(rows);
    }

    /// Pull the cursor back inside the visible list.
    pub fn clamp_cursor(&mut self)
        ensures
            *final(self) == old(self).settled(old(self).rows().len()),
    {
        let rows: usize = self.visible_count();
        self.settle_cursor(rows);
    }

    /// Put the cursor back on the task it was on, after a change of the list or the view.
    ///
    /// Following the task by **ID** is the only reconciliation that cannot alias; when
    /// the task is not on screen any more the *row number* is kept instead, and clamped
    /// into whatever is left.
    fn reseat(&mut self, id: Option<String>)
        ensures
            *final(self) == old(self).reseated(opt_view(id)),
    {
        let rows = self.visible();
        if let Some(id) = id {
            let mut row: usize = 0;
            let ghost before = *self;
            while row < rows.len() && !same_text(
                self.tasks[rows[row]].id.as_str(),
                id.as_str(),
            )
                invariant
                    row <= rows@.len(),
                    *self == before,
                    rows@ == self.rows(),
                    is_shown(self.tasks@, self.view, rows@),
                    row_with_id(self.tasks@, rows@, id@, 0) == row_with_id(
                        self.tasks@,
                        rows@,
                        id@,
                        row as int,
                    ),
                decreases rows@.len() - row,
            {
                row += 1;
            }
            if row < rows.len() {
                self.cursor = row;
            }
        }
        self.settle_cursor(rows.len());
    }

    // ---- cursor movement ---------------------------------------------------

    /// The state with the cursor moved by `delta` rows, clamped to the ends.
    pub open spec fn moved(self, delta: int) -> App {
        let rows = self.rows().len();
        if rows == 0 {
            App { cursor: 0, scroll: 0, ..self }
        } else {
            (App { cursor: shifted(self.cursor as int, delta, rows - 1) as usize, ..self }).followed(
                rows,
            )
        }
    }

    /// The state with the cursor on the first row.
    pub open spec fn moved_to_first(self) -> App {
        (App { cursor: 0, ..self }).followed(self.rows().len())
    }

    /// The state with the cursor on the last row.
    pub open spec fn moved_to_last(self) -> App {
        let rows = self.rows().len();
        (App {
            cursor: if rows == 0 {
                0
            } else {
                (rows - 1) as usize
            },
            ..self
        }).followed(rows)
    }

    /// Move the cursor by `delta` rows, clamped to the ends of the list. It does not
    /// wrap: holding `j` at the bottom of a long list and jumping back to the top is how
    /// the wrong row gets deleted.
    pub fn move_cursor(&mut self, delta: isize)
        ensures
            *final(self) == old(self).moved(delta as int),
    {
        let rows: usize = self.visible_count();
        if rows == 0 {
            self.cursor = 0;
            self.scroll = 0;
            return;
        }
        self.cursor = shift(self.cursor, delta, rows - 1);
        self.follow_cursor_in(rows);
    }

    /// Jump to the first visible row (`Home`, `g`).
    pub fn cursor_to_first(&mut self)
        ensures
            *final(self) == old(self).moved_to_first(),
    {
        self.cursor = 0;
        self.follow_cursor();
    }

    /// Jump to the last visible row (`End`, `G`).
    pub fn cursor_to_last(&mut self)
        ensures
            *final(self) == old(self).moved_to_last(),
    {
        let rows: usize = self.visible_count();
        self.cursor = if rows == 0 {
            0
        } else {
            rows - 1
        };
        self.follow_cursor_in(rows);
    }

    /// Up one screenful (`PageUp`).
    pub fn page_up(&mut self)
        ensures
            *final(self) == old(self).moved(-page_step(old(self).page_size as int)),
    {
        self.move_cursor(-page_delta(self.page_size));
    }

    /// Down one screenful (`PageDown`).
    pub fn page_down(&mut self)
        ensures
            *final(self) == old(self).moved(page_step(old(self).page_size as int)),
    {
        self.move_cursor(page_delta(self.page_size));
    }

    /// Tell the app how tall the table body is. Clamped to at least one row: a zero-row
    /// page would make the key silently dead.
    pub fn set_page_size(&mut self, rows: usize)
        ensures
            *final(self) == (App {
                page_size: if rows == 0 {
                    1
                } else {
                    rows
                },
                ..*old(self)
            }).followed(old(self).rows().len()),
    {
        self.page_size = if rows == 0 {
            1
        } else {
            rows
        };
        self.follow_cursor();
    }
}

// ---------------------------------------------------------------------------
// Construction, messages and flags
// ---------------------------------------------------------------------------

/// Whether tasks are what a captured `list` response holds, or why it holds none.
pub open spec fn fixture_answer(body: Seq<char>, result: Result<Vec<Task>, Error>) -> bool {
    match json_parsed(body) {
        Ok(json) => exists|list: Result<TaskList, Error>|
            {
                &&& #[trigger] payload_answer(json, DS_TASK_API@, list)
                &&& match list {
                    Ok(l) => result == Ok::<Vec<Task>, Error>(l.tasks),
                    Err(err) => result == Err::<Vec<Task>, Error>(err),
                }
            },
        Err(message) => result matches Err(Error::Parse(m)) && m@ == message,
    }
}

/// Read a captured DSM `list` response into tasks: deliberately the *same* path a live
/// response takes.
pub fn parse_fixture(body: &str) -> (result: Result<Vec<Task>, Error>)
    ensures
        fixture_answer(body@, result),
{
    let list: Result<TaskList, Error> = parse_envelope(body, DS_TASK_API);
    let ghost seen = list;
    proof {
        if let Ok(json) = json_parsed(body@) {
            assert(payload_answer(json, DS_TASK_API@, seen));
        }
    }
    match list {
        Ok(list) => Ok(list.tasks),
        Err(err) => Err(err),
    }
}

impl App {
    /// An app over a task list. An empty one is the normal startup state.
    pub fn new(tasks: Vec<Task>) -> (app: Self)
        ensures
            is_fresh(app, tasks@, tasks@.len() > 0),
            app.tasks == tasks,
    {
        let loaded = tasks.len() > 0;
        let mut app = App::default();
        app.loaded = loaded;
        app.tasks = tasks;
        app
    }

    /// An app over the text of a captured DSM `list` response, or the failure to read
    /// it. Whatever the file said *is* the list: an empty one is a loaded empty list.
    pub fn from_fixture(read: Result<String, IoError>) -> (result: Result<Self, Error>)
        ensures
            match read {
                Err(failure) => result == Err::<App, Error>(Error::Io(failure)),
                Ok(body) => exists|tasks: Result<Vec<Task>, Error>|
                    {
                        &&& #[trigger] fixture_answer(body@, tasks)
                        &&& match tasks {
                            Ok(list) => result matches Ok(app) && is_fresh(app, list@, true),
                            Err(err) => result == Err::<App, Error>(err),
                        }
                    },
            },
    {
        let body = match read {
            Ok(body) => body,
            Err(failure) => {
                return Err(Error::Io(failure));
            },
        };
        let tasks = parse_fixture(body.as_str());
        let ghost answer = tasks;
        proof {
            assert(fixture_answer(body@, answer));
        }
        match tasks {
            Ok(list) => {
                let mut app = App::new(list);
                app.loaded = true;
                Ok(app)
            },
            Err(err) => Err(err),
        }
    }

    /// Set what a confirmed delete may do.
    pub fn with_delete_options(self, options: DeleteOptions) -> (app: Self)
        ensures
            app == (App { delete_options: options, ..self }),
    {
        App { delete_options: options, ..self }
    }

    /// Record where this session is connected, for the title bar.
    pub fn with_connection(self, connection: &str) -> (app: Self)
        ensures
            opt_view(app.connection) == Some(connection@),
            app == (App { connection: app.connection, ..self }),
    {
        App { connection: Some(connection.to_owned()), ..self }
    }

    /// Whether `b` is `a` with this footer message.
    pub open spec fn says(a: App, b: App, text: Seq<char>) -> bool {
        opt_view(b.status_message) == Some(text) && b == (App {
            status_message: b.status_message,
            ..a
        })
    }

    /// Replace the footer message.
    pub fn set_status(&mut self, message: &str)
        ensures
            App::says(*old(self), *final(self), message@),
    {
        self.status_message = Some(message.to_owned());
    }

    /// Raise the non-fatal error banner. Nothing here ends the program.
    pub fn set_error(&mut self, message: &str)
        ensures
            opt_view(final(self).error) == Some(message@),
            *final(self) == (App { error: final(self).error, ..*old(self) }),
    {
        self.error = Some(message.to_owned());
    }

    /// Take the error banner down.
    pub fn clear_error(&mut self)
        ensures
            *final(self) == (App { error: None, ..*old(self) }),
    {
        self.error = None;
    }

    /// Tell the app whether an operation batch is still running on the NAS.
    pub fn set_op_in_flight(&mut self, running: bool)
        ensures
            *final(self) == (App { op_in_flight: running, ..*old(self) }),
    {
        self.op_in_flight = running;
    }

    /// Whether the loop reported an operation still running.
    pub fn op_in_flight(&self) -> (yes: bool)
        ensures
            yes == self.op_in_flight,
    {
        self.op_in_flight
    }

    /// Say no to a second batch, and report why. Returns whether it said no.
    fn refuse_while_busy(&mut self) -> (refused: bool)
        ensures
            refused == old(self).op_in_flight,
            if refused {
                App::says(*old(self), *final(self), BUSY@)
            } else {
                *final(self) == *old(self)
            },
    {
        if !self.op_in_flight {
            return false;
        }
        self.set_status(BUSY);
        true
    }

    /// Ask for an immediate refresh (`r`).
    pub fn request_refresh(&mut self)
        ensures
            *final(self) == (App { refresh_requested: true, ..*old(self) }),
    {
        self.refresh_requested = true;
    }

    /// Whether `r` was pressed since this was last asked, clearing the flag.
    pub fn take_refresh_request(&mut self) -> (requested: bool)
        ensures
            requested == old(self).refresh_requested,
            *final(self) == (App { refresh_requested: false, ..*old(self) }),
    {
        let requested = self.refresh_requested;
        self.refresh_requested = false;
        requested
    }

    /// Whether the event loop should stop.
    pub fn should_quit(&self) -> (yes: bool)
        ensures
            yes == self.quit,
    {
        self.quit
    }

    /// Ask the event loop to stop after this iteration.
    pub fn quit(&mut self)
        ensures
            *final(self) == (App { quit: true, ..*old(self) }),
    {
        self.quit = true;
    }

    /// Open the `?` overlay.
    pub fn show_help(&mut self)
        ensures
            *final(self) == (App { mode: Mode::Help, ..*old(self) }),
    {
        self.mode = Mode::Help;
    }

    /// Close the `?` overlay (any key).
    pub fn close_help(&mut self)
        ensures
            *final(self) == (App { mode: Mode::Normal, ..*old(self) }),
    {
        self.mode = Mode::Normal;
    }

    // ---- sort, filter and search -------------------------------------------
    //
    // Every one of these changes *which rows are on screen and in what order*, and none
    // of them may change **what is armed for deletion**.

    /// The state with another view, the cursor still on its task.
    pub open spec fn viewed(self, view: TaskView) -> App {
        (App { view, ..self }).reseated(self.cursor_id())
    }

    /// Advance to the next sort column (`s`).
    pub fn cycle_sort(&mut self)
        ensures
            *final(self) == old(self).viewed(
                TaskView { sort_key: old(self).view.sort_key.following(), ..old(self).view },
            ),
    {
        let id = self.cursor_task_id();
        self.view.cycle_sort();
        self.reseat(id);
    }

    /// Reverse the sort direction (`S`).
    pub fn toggle_sort_dir(&mut self)
        ensures
            *final(self) == old(self).viewed(
                TaskView { sort_dir: TaskView::turned(old(self).view.sort_dir), ..old(self).view },
            ),
    {
        let id = self.cursor_task_id();
        self.view.toggle_dir();
        self.reseat(id);
    }

    /// Advance to the next status filter (`f`).
    pub fn cycle_filter(&mut self)
        ensures
            *final(self) == old(self).viewed(
                TaskView { filter: old(self).view.filter.following(), ..old(self).view },
            ),
    {
        let id = self.cursor_task_id();
        self.view.cycle_filter();
        self.reseat(id);
    }

    /// The state once the search box is open.
    pub open spec fn searching(self) -> App {
        App { search_backup: Some(self.view.search), mode: Mode::Search, ..self }
    }

    /// Start editing the search query (`/`). The current query is kept, and stashed so
    /// that `Esc` can restore it.
    pub fn begin_search(&mut self)
        ensures
            *final(self) == old(self).searching(),
    {
        self.search_backup = Some(self.view.search.clone());
        self.mode = Mode::Search;
    }

    /// Accept the query as typed and leave search mode (`Enter`).
    pub fn commit_search(&mut self)
        ensures
            *final(self) == (App { search_backup: None, mode: Mode::Normal, ..*old(self) }),
    {
        self.search_backup = None;
        self.mode = Mode::Normal;
    }

    /// The state once the search was abandoned: the query is the stashed one again.
    pub open spec fn unsearched(self) -> App {
        match self.search_backup {
            Some(previous) => App {
                mode: Mode::Normal,
                ..(App { search_backup: None, ..self }).viewed(
                    TaskView { search: previous, ..self.view },
                )
            },
            None => App { mode: Mode::Normal, ..self },
        }
    }

    /// Abandon the edit and restore the query `/` was pressed on (`Esc`).
    pub fn cancel_search(&mut self)
        ensures
            *final(self) == old(self).unsearched(),
    {
        if let Some(previous) = self.search_backup.take() {
            let id = self.cursor_task_id();
            self.view.search = previous;
            self.reseat(id);
        }
        self.mode = Mode::Normal;
    }

    /// Whether `b` is `a` with this query, the cursor still on its task.
    pub open spec fn queries(a: App, b: App, query: Seq<char>) -> bool {
        &&& b.view.search@ == query
        &&& b == a.viewed(TaskView { search: b.view.search, ..a.view })
    }

    /// Append one typed character to the query.
    pub fn search_push(&mut self, c: char)
        ensures
            App::queries(*old(self), *final(self), old(self).view.search@.push(c)),
    {
        let id = self.cursor_task_id();
        self.view.search.push(c);
        self.reseat(id);
    }

    /// A query without its last character.
    pub open spec fn popped(query: Seq<char>) -> Seq<char> {
        if query.len() == 0 {
            query
        } else {
            query.drop_last()
        }
    }

    /// Delete the last character of the query (`Backspace`). Backspacing past the start
    /// is a no-op rather than an exit.
    pub fn search_pop(&mut self)
        ensures
            App::queries(*old(self), *final(self), App::popped(old(self).view.search@)),
    {
        let id = self.cursor_task_id();
        let chars = chars_of(self.view.search.as_str());
        if chars.len() > 0 {
            self.view.search = text_between(chars.as_slice(), 0, chars.len() - 1);
            proof {
                assert(self.view.search@ =~= App::popped(old(self).view.search@));
            }
        }
        self.reseat(id);
    }
}

// ---------------------------------------------------------------------------
// Selection
// ---------------------------------------------------------------------------

/// The bytes of tasks.
pub open spec fn size_of_tasks(tasks: Seq<Task>) -> nat
    decreases tasks.len(),
{
    if tasks.len() == 0 {
        0
    } else {
        size_of_tasks(tasks.drop_last()) + tasks.last().size as nat
    }
}

/// Fewer tasks have no more bytes.
proof fn lemma_size_monotone(tasks: Seq<Task>, i: int)
    requires
        0 <= i <= tasks.len(),
    ensures
        size_of_tasks(tasks.take(i)) <= size_of_tasks(tasks),
    decreases tasks.len() - i,
{
    if i < tasks.len() {
        assert(tasks.take(i + 1).drop_last() =~= tasks.take(i));
        lemma_size_monotone(tasks, i + 1);
    } else {
        assert(tasks.take(i) =~= tasks);
    }
}

/// Whether a list holds a task of this id.
fn holds_id(list: &Vec<&Task>, id: &str) -> (yes: bool)
    ensures
        yes == (task_by_id(seen(list@), id@) is Some),
{
    let mut i: usize = 0;
    proof {
        assert(seen(list@).skip(0) =~= seen(list@));
    }
    while i < list.len()
        invariant
            i <= list@.len(),
            task_by_id(seen(list@), id@) == task_by_id(seen(list@).skip(i as int), id@),
        decreases list@.len() - i,
    {
        proof {
            assert(seen(list@).skip(i as int)[0] == *list@[i as int]);
            assert(seen(list@).skip(i as int).skip(1) =~= seen(list@).skip(i + 1));
        }
        if same_text(list[i].id.as_str(), id) {
            return true;
        }
        i += 1;
    }
    false
}

impl App {
    /// Whether `id` is in the selection set.
    pub fn is_selected(&self, id: &str) -> (yes: bool)
        ensures
            yes == self.selected@.contains(id@),
    {
        self.selected.contains(id)
    }

    /// The selected tasks that exist, in the order of the task list.
    pub open spec fn chosen(self) -> Seq<Task> {
        self.tasks@.filter(|task: Task| self.selected@.contains(task.id@))
    }

    /// The selected tasks that still exist, in the order of the task list.
    pub fn selected_tasks(&self) -> (list: Vec<&Task>)
        ensures
            seen(list@) == self.chosen(),
    {
        let mut list: Vec<&Task> = Vec::new();
        let mut i: usize = 0;
        let ghost keep = |task: Task| self.selected@.contains(task.id@);
        proof {
            reveal(Seq::filter);
            assert(self.tasks@.take(0) =~= Seq::<Task>::empty());
            assert(seen(list@) =~= self.tasks@.take(0).filter(keep));
        }
        while i < self.tasks.len()
            invariant
                i <= self.tasks@.len(),
                keep == (|task: Task| self.selected@.contains(task.id@)),
                seen(list@) == self.tasks@.take(i as int).filter(keep),
            decreases self.tasks@.len() - i,
        {
            let ghost before = seen(list@);
            proof {
                reveal(Seq::filter);
                assert(self.tasks@.take(i + 1).drop_last() =~= self.tasks@.take(i as int));
                assert(self.tasks@.take(i + 1).last() == self.tasks@[i as int]);
            }
            if self.selected.contains(self.tasks[i].id.as_str()) {
                list.push(&self.tasks[i]);
                proof {
                    assert(seen(list@) =~= before.push(self.tasks@[i as int]));
                }
            }
            i += 1;
        }
        proof {
            assert(self.tasks@.take(i as int) =~= self.tasks@);
        }
        list
    }

    /// How many existing tasks are selected.
    pub fn selected_count(&self) -> (count: usize)
        ensures
            count == self.chosen().len(),
    {
        let list = self.selected_tasks();
        proof {
            assert(seen(list@).len() == list@.len());
        }
        list.len()
    }

    /// Total size of the selected tasks: the space a delete would free.
    pub fn selected_size(&self) -> (total: u64)
        requires
            size_of_tasks(self.chosen()) <= u64::MAX,
        ensures
            total == size_of_tasks(self.chosen()),
    {
        let list = self.selected_tasks();
        let ghost whole = self.chosen();
        let mut total: u64 = 0;
        let mut i: usize = 0;
        while i < list.len()
            invariant
                i <= list@.len(),
                whole == seen(list@),
                size_of_tasks(whole) <= u64::MAX,
                total == size_of_tasks(whole.take(i as int)),
            decreases list@.len() - i,
        {
            proof {
                assert(whole.take(i + 1).drop_last() =~= whole.take(i as int));
                lemma_size_monotone(whole, i + 1);
            }
            total += list[i].size;
            i += 1;
        }
        proof {
            assert(whole.take(i as int) =~= whole);
        }
        total
    }

    /// Whether `b` is `a` with the row under the cursor toggled.
    pub open spec fn toggles(a: App, b: App) -> bool {
        match a.cursor_id() {
            None => b == a,
            Some(id) => {
                &&& b == (App { selected: b.selected, ..a })
                &&& b.selected@ == if a.selected@.contains(id) {
                    a.selected@.remove(id)
                } else {
                    a.selected@.insert(id)
                }
            },
        }
    }

    /// Toggle the row under the cursor (`Space`). A no-op when nothing is visible.
    pub fn toggle_selection(&mut self)
        ensures
            App::toggles(*old(self), *final(self)),
    {
        let id = match self.cursor_task_id() {
            Some(id) => id,
            None => {
                return ;
            },
        };
        if !self.selected.remove(id.as_str()) {
            self.selected.insert(id);
            proof {
                assert(old(self).selected@.remove(id@) =~= old(self).selected@);
            }
        }
    }

    /// Whether some row on screen shows the task of this id.
    pub open spec fn on_screen(self, id: Seq<char>) -> bool {
        exists|k: int|
            0 <= k < self.rows().len() && self.tasks@[(#[trigger] self.rows()[k]) as int].id@ == id
    }

    /// Whether every row on screen is selected.
    pub open spec fn all_selected(self) -> bool {
        forall|k: int|
            0 <= k < self.rows().len() ==> self.selected@.contains(
                self.tasks@[(#[trigger] self.rows()[k]) as int].id@,
            )
    }

    /// Whether `b` is `a` with the visible rows deselected, where all of them were
    /// selected, and else selected.
    pub open spec fn toggles_all(a: App, b: App) -> bool {
        &&& b == (App { selected: b.selected, ..a })
        &&& forall|id: Seq<char>| #[trigger]
            b.selected@.contains(id) <==> if a.on_screen(id) {
                !a.all_selected()
            } else {
                a.selected@.contains(id)
            }
    }

    /// Toggle select-all over the **currently visible rows only** (`a`).
    ///
    /// Hidden tasks are never touched in either direction. Selecting is the default; the
    /// whole visible set already being selected is what turns the key into a deselect.
    pub fn toggle_select_all_visible(&mut self)
        ensures
            App::toggles_all(*old(self), *final(self)),
    {
        let rows = self.visible();
        let ghost before = *self;
        let mut all = true;
        let mut i: usize = 0;
        while i < rows.len()
            invariant
                i <= rows@.len(),
                *self == before,
                rows@ == before.rows(),
                is_shown(before.tasks@, before.view, rows@),
                all == forall|k: int|
                    0 <= k < i ==> before.selected@.contains(
                        before.tasks@[(#[trigger] rows@[k]) as int].id@,
                    ),
            decreases rows@.len() - i,
        {
            if !self.selected.contains(self.tasks[rows[i]].id.as_str()) {
                all = false;
                proof {
                    assert(!before.selected@.contains(before.tasks@[rows@[i as int] as int].id@));
                }
            }
            i += 1;
        }
        proof {
            assert(all == before.all_selected());
        }
        let mut k: usize = 0;
        while k < rows.len()
            invariant
                k <= rows@.len(),
                rows@ == before.rows(),
                is_shown(before.tasks@, before.view, rows@),
                *self == (App { selected: self.selected, ..before }),
                forall|id: Seq<char>| #[trigger]
                    self.selected@.contains(id) <==> if exists|m: int|
                        0 <= m < k && before.tasks@[(#[trigger] rows@[m]) as int].id@ == id {
                        !all
                    } else {
                        before.selected@.contains(id)
                    },
            decreases rows@.len() - k,
        {
            let id = self.tasks[rows[k]].id.clone();
            let ghost was = self.selected@;
            let ghost added = id@;
            if all {
                self.selected.remove(id.as_str());
            } else {
                self.selected.insert(id);
            }
            proof {
                assert(before.tasks@[rows@[k as int] as int].id@ == added);
                assert forall|id: Seq<char>| #[trigger] self.selected@.contains(id) <==> if exists|
                    m: int,
                |
                    0 <= m < k + 1 && before.tasks@[(#[trigger] rows@[m]) as int].id@ == id {
                    !all
                } else {
                    before.selected@.contains(id)
                } by {
                    if id != added {
                        assert(self.selected@.contains(id) == was.contains(id));
                        if exists|m: int|
                            0 <= m < k + 1 && before.tasks@[(#[trigger] rows@[m]) as int].id@
                                == id {
                            let m = choose|m: int|
                                0 <= m < k + 1 && before.tasks@[(#[trigger] rows@[m]) as int].id@
                                    == id;
                            assert(m < k);
                        }
                    }
                }
            }
            k += 1;
        }
    }

    /// Whether `b` is `a` without a selection.
    pub open spec fn unselects(a: App, b: App) -> bool {
        b == (App { selected: b.selected, ..a }) && b.selected@ == Set::<Seq<char>>::empty()
    }

    /// Drop the whole selection (`Esc`), including anything currently hidden: `Esc` is
    /// the "I am not sure what is armed" key.
    pub fn clear_selection(&mut self)
        ensures
            App::unselects(*old(self), *final(self)),
    {
        self.selected = TextSet::new();
    }

    /// The selected tasks on screen, in display order.
    pub open spec fn chosen_shown(self) -> Seq<Task> {
        self.rows().map_values(|index: usize| self.tasks@[index as int]).filter(
            |task: Task| self.selected@.contains(task.id@),
        )
    }

    /// The selected tasks that are not on screen, in the order of the task list.
    pub open spec fn chosen_hidden(self) -> Seq<Task> {
        self.chosen().filter(|task: Task| task_by_id(self.chosen_shown(), task.id@) is None)
    }

    /// The tasks an operation acts on: the selection when there is one, those on screen
    /// first and in display order; the row under the cursor otherwise.
    pub open spec fn targets(self) -> Seq<Task> {
        if self.chosen().len() == 0 {
            match self.under_cursor() {
                Some(task) => seq![task],
                None => Seq::empty(),
            }
        } else {
            self.chosen_shown() + self.chosen_hidden()
        }
    }

    /// The selected tasks on screen, in display order.
    fn shown_targets(&self) -> (list: Vec<&Task>)
        ensures
            seen(list@) == self.chosen_shown(),
    {
        let rows = self.visible();
        let mut list: Vec<&Task> = Vec::new();
        let mut i: usize = 0;
        let ghost keep = |task: Task| self.selected@.contains(task.id@);
        let ghost whole = self.rows().map_values(|index: usize| self.tasks@[index as int]);
        proof {
            reveal(Seq::filter);
            assert(whole.take(0) =~= Seq::<Task>::empty());
            assert(seen(list@) =~= whole.take(0).filter(keep));
        }
        while i < rows.len()
            invariant
                i <= rows@.len(),
                rows@ == self.rows(),
                is_shown(self.tasks@, self.view, rows@),
                keep == (|task: Task| self.selected@.contains(task.id@)),
                whole == self.rows().map_values(|index: usize| self.tasks@[index as int]),
                seen(list@) == whole.take(i as int).filter(keep),
            decreases rows@.len() - i,
        {
            let ghost before = seen(list@);
            let index: usize = rows[i];
            proof {
                reveal(Seq::filter);
                assert(whole.take(i + 1).drop_last() =~= whole.take(i as int));
                assert(whole.take(i + 1).last() == self.tasks@[index as int]);
            }
            if self.selected.contains(self.tasks[index].id.as_str()) {
                list.push(&self.tasks[index]);
                proof {
                    assert(seen(list@) =~= before.push(self.tasks@[index as int]));
                }
            }
            i += 1;
        }
        proof {
            assert(whole.take(i as int) =~= whole);
        }
        list
    }

    /// The tasks an operation acts on: **the selection when there is one, the row under
    /// the cursor otherwise, and nothing at all when the table is empty.** One
    /// definition, shared by `d`, `p` and `u`. **Order is on-screen order**; selected
    /// rows a filter is hiding follow, in the order of the task list.
    pub fn target_tasks(&self) -> (list: Vec<&Task>)
        ensures
            seen(list@) == self.targets(),
    {
        let chosen = self.selected_tasks();
        proof {
            assert(seen(chosen@).len() == chosen@.len());
        }
        if chosen.len() == 0 {
            let mut list: Vec<&Task> = Vec::new();
            if let Some(task) = self.cursor_task() {
                list.push(task);
            }
            proof {
                assert(seen(list@) =~= self.targets());
            }
            return list;
        }
        let shown = self.shown_targets();
        let mut list: Vec<&Task> = self.shown_targets();
        let ghost head = self.chosen_shown();
        let ghost keep = |task: Task| task_by_id(self.chosen_shown(), task.id@) is None;
        let ghost whole = self.chosen();
        let mut i: usize = 0;
        proof {
            reveal(Seq::filter);
            assert(whole.take(0) =~= Seq::<Task>::empty());
            assert(seen(list@) =~= head + whole.take(0).filter(keep));
        }
        while i < chosen.len()
            invariant
                i <= chosen@.len(),
                whole == seen(chosen@),
                head == self.chosen_shown(),
                head == seen(shown@),
                keep == (|task: Task| task_by_id(self.chosen_shown(), task.id@) is None),
                seen(list@) == head + whole.take(i as int).filter(keep),
            decreases chosen@.len() - i,
        {
            let ghost before = seen(list@);
            proof {
                reveal(Seq::filter);
                assert(whole.take(i + 1).drop_last() =~= whole.take(i as int));
                assert(whole.take(i + 1).last() == whole[i as int]);
            }
            if !holds_id(&shown, chosen[i].id.as_str()) {
                list.push(chosen[i]);
                proof {
                    assert(seen(list@) =~= before.push(whole[i as int]));
                    assert(before.push(whole[i as int]) =~= head + whole.take(i as int).filter(
                        keep,
                    ).push(whole[i as int]));
                }
            }
            i += 1;
        }
        proof {
            assert(whole.take(i as int) =~= whole);
        }
        list
    }
}

// ---------------------------------------------------------------------------
// The delete confirmation
// ---------------------------------------------------------------------------
//
// `d` never deletes. It takes a **snapshot** and opens a modal describing it; only `y`,
// or `Enter` on a deliberately re-focused Delete button, records the intent. Even then
// nothing here touches the network.

/// Whether a plan is the snapshot of these tasks.
pub open spec fn plans(plan: DeletePlan, tasks: Seq<Task>) -> bool {
    &&& plan.items@.len() == tasks.len()
    &&& forall|i: int| 0 <= i < tasks.len() ==> snapshot_of(tasks[i], #[trigger] plan.items@[i])
}

/// The last line of a modal of `lines` lines.
pub open spec fn last_line(lines: nat) -> int {
    if lines == 0 {
        0
    } else {
        lines - 1
    }
}

impl App {
    /// Whether `b` is `a` once a delete was asked for.
    pub open spec fn begins_delete(a: App, b: App) -> bool {
        if a.op_in_flight {
            App::says(a, b, BUSY@)
        } else if a.targets().len() == 0 {
            App::says(a, b, "nothing to delete"@)
        } else {
            &&& b.pending_delete matches Some(plan)
            &&& plans(plan, a.targets())
            &&& b == (App {
                pending_delete: b.pending_delete,
                confirm_focus: ConfirmFocus::Cancel,
                confirm_scroll: 0,
                mode: Mode::Confirm,
                ..a
            })
        }
    }

    /// Open the confirmation modal for the current target (`d`).
    ///
    /// A plan with no items opens no dialog at all. Every open starts on Cancel.
    pub fn begin_delete(&mut self)
        ensures
            App::begins_delete(*old(self), *final(self)),
    {
        if self.refuse_while_busy() {
            return ;
        }
        let targets = self.target_tasks();
        let ghost tasks = seen(targets@);
        let plan = DeletePlan::snapshot(targets.as_slice());
        proof {
            assert forall|i: int| 0 <= i < tasks.len() implies snapshot_of(
                tasks[i],
                #[trigger] plan.items@[i],
            ) by {
                assert(tasks[i] == *targets@[i]);
            }
        }
        if plan.is_empty() {
            self.set_status("nothing to delete");
            return ;
        }
        self.pending_delete = Some(plan);
        self.confirm_focus = ConfirmFocus::Cancel;
        self.confirm_scroll = 0;
        self.mode = Mode::Confirm;
    }

    /// The plan the modal is displaying, if it is open.
    pub fn pending_delete(&self) -> (plan: Option<&DeletePlan>)
        ensures
            match self.pending_delete {
                Some(p) => plan == Some(&p),
                None => plan is None,
            },
    {
        self.pending_delete.as_ref()
    }

    /// Which modal button `Enter` would press.
    pub fn confirm_focus(&self) -> (focus: ConfirmFocus)
        ensures
            focus == self.confirm_focus,
    {
        self.confirm_focus
    }

    /// First body line the modal should show.
    pub fn confirm_scroll(&self) -> (line: usize)
        ensures
            line == self.confirm_scroll,
    {
        self.confirm_scroll
    }

    /// Move the focus between Cancel and Delete (`Tab`, `←`/`→`, `h`/`l`).
    pub fn toggle_confirm_focus(&mut self)
        ensures
            *final(self) == (App {
                confirm_focus: old(self).confirm_focus.opposite(),
                ..*old(self)
            }),
    {
        self.confirm_focus = self.confirm_focus.other();
    }

    /// How many body lines the open plan renders to: two for each item.
    pub open spec fn confirm_lines(self) -> nat {
        match self.pending_delete {
            Some(plan) => doubled(plan.items@.len()),
            None => 0,
        }
    }

    /// How many body lines the open plan renders to.
    pub fn confirm_line_count(&self) -> (lines: usize)
        ensures
            lines == self.confirm_lines(),
    {
        match &self.pending_delete {
            Some(plan) => lines_of(plan.len()),
            None => 0,
        }
    }

    /// The state with the modal body scrolled.
    pub open spec fn confirm_scrolled(self, delta: int) -> App {
        App {
            confirm_scroll: shifted(
                self.confirm_scroll as int,
                delta,
                last_line(self.confirm_lines()),
            ) as usize,
            ..self
        }
    }

    /// The state with the modal body at a line, or at its last one.
    pub open spec fn confirm_scrolled_to(self, line: int) -> App {
        App {
            confirm_scroll: (if line <= last_line(self.confirm_lines()) {
                line
            } else {
                last_line(self.confirm_lines())
            }) as usize,
            ..self
        }
    }

    /// Scroll the modal body, clamped to the lines there are.
    pub fn scroll_confirm(&mut self, delta: isize)
        ensures
            *final(self) == old(self).confirm_scrolled(delta as int),
    {
        let last: usize = self.confirm_line_count().saturating_sub(1);
        self.confirm_scroll = shift(self.confirm_scroll, delta, last);
    }

    /// Jump the modal body to a line, or to its last one.
    pub fn scroll_confirm_to(&mut self, line: usize)
        ensures
            *final(self) == old(self).confirm_scrolled_to(line as int),
    {
        let last: usize = self.confirm_line_count().saturating_sub(1);
        self.confirm_scroll = if line <= last {
            line
        } else {
            last
        };
    }

    /// The state with the modal closed, nothing confirmed.
    pub open spec fn delete_cancelled(self) -> App {
        App {
            pending_delete: None,
            confirm_scroll: 0,
            confirm_focus: ConfirmFocus::Cancel,
            mode: Mode::Normal,
            ..self
        }
    }

    /// Close the modal without deleting anything (`n`, `Esc`, `q`, or `Enter` on the
    /// default focus).
    pub fn cancel_delete(&mut self)
        ensures
            *final(self) == old(self).delete_cancelled(),
    {
        self.pending_delete = None;
        self.confirm_scroll = 0;
        self.confirm_focus = ConfirmFocus::Cancel;
        self.mode = Mode::Normal;
    }

    /// The state with the modal closed and its plan, where there is one, handed over.
    pub open spec fn delete_confirmed(self) -> App {
        App {
            confirmed_delete: match self.pending_delete {
                Some(plan) => Some(plan),
                None => self.confirmed_delete,
            },
            ..self.delete_cancelled()
        }
    }

    /// Accept the plan on screen (`y`, or `Enter` with the Delete button focused). **This
    /// performs no I/O.**
    pub fn confirm_delete(&mut self)
        ensures
            *final(self) == old(self).delete_confirmed(),
    {
        if let Some(plan) = self.pending_delete.take() {
            self.confirmed_delete = Some(plan);
        }
        self.confirm_scroll = 0;
        self.confirm_focus = ConfirmFocus::Cancel;
        self.mode = Mode::Normal;
    }

    /// Take the confirmed plan, if the user confirmed one since the last call.
    pub fn take_confirmed_delete(&mut self) -> (plan: Option<DeletePlan>)
        ensures
            plan == old(self).confirmed_delete,
            *final(self) == (App { confirmed_delete: None, ..*old(self) }),
    {
        self.confirmed_delete.take()
    }
}

// ---------------------------------------------------------------------------
// Pause and resume
// ---------------------------------------------------------------------------

/// What is said of a requested operation.
pub open spec fn requested_text(op: TaskOp, count: nat) -> Seq<char> {
    op.reported().name() + " requested for "@ + decimal(count) + " "@ + if count == 1 {
        "task"@
    } else {
        "tasks"@
    }
}

/// Whether these references name these tasks.
pub open spec fn names_tasks(refs: Seq<TaskRef>, tasks: Seq<Task>) -> bool {
    &&& refs.len() == tasks.len()
    &&& forall|i: int|
        0 <= i < tasks.len() ==> (#[trigger] refs[i]).id@ == tasks[i].id@ && refs[i].title@
            == tasks[i].title@
}

impl App {
    /// Whether `b` is `a` once an operation was asked for.
    pub open spec fn requests(a: App, b: App, op: TaskOp) -> bool {
        if a.op_in_flight {
            App::says(a, b, BUSY@)
        } else if a.targets().len() == 0 {
            App::says(a, b, "nothing to "@ + op.reported().name())
        } else {
            &&& b.requested_op matches Some(request)
            &&& request.op == op
            &&& names_tasks(request.tasks@, a.targets())
            &&& App::says(
                App { requested_op: b.requested_op, ..a },
                b,
                requested_text(op, a.targets().len()),
            )
        }
    }

    /// Pause the current target (`p`).
    pub fn pause_target(&mut self)
        ensures
            App::requests(*old(self), *final(self), TaskOp::Pause),
    {
        self.request_task_op(TaskOp::Pause);
    }

    /// Resume the current target (`u`).
    pub fn resume_target(&mut self)
        ensures
            App::requests(*old(self), *final(self), TaskOp::Resume),
    {
        self.request_task_op(TaskOp::Resume);
    }

    /// References to the tasks an operation acts on.
    fn target_refs(&self) -> (refs: Vec<TaskRef>)
        ensures
            names_tasks(refs@, self.targets()),
    {
        let targets = self.target_tasks();
        let ghost tasks = seen(targets@);
        let mut refs: Vec<TaskRef> = Vec::new();
        let mut i: usize = 0;
        while i < targets.len()
            invariant
                i <= targets@.len(),
                tasks == seen(targets@),
                refs@.len() == i,
                forall|k: int|
                    0 <= k < i ==> (#[trigger] refs@[k]).id@ == tasks[k].id@ && refs@[k].title@
                        == tasks[k].title@,
            decreases targets@.len() - i,
        {
            proof {
                assert(tasks[i as int] == *targets@[i as int]);
            }
            refs.push(
                TaskRef { id: targets[i].id.clone(), title: targets[i].title.clone() },
            );
            i += 1;
        }
        refs
    }

    /// Record a pause or resume for the event loop to run. An empty target is a **no-op
    /// with a message**, never an empty batch.
    fn request_task_op(&mut self, op: TaskOp)
        ensures
            App::requests(*old(self), *final(self), op),
    {
        if self.refuse_while_busy() {
            return ;
        }
        let tasks = self.target_refs();
        if tasks.len() == 0 {
            let text = prefixed("nothing to ", op.label());
            self.set_status(text.as_str());
            return ;
        }
        let mut text = prefixed(op.label(), " requested for ");
        let count = decimal_of(tasks.len() as u64);
        text.append(count.as_str());
        text.append(" ");
        text.append(
            if tasks.len() == 1 {
                "task"
            } else {
                "tasks"
            },
        );
        self.set_status(text.as_str());
        self.requested_op = Some(TaskOpRequest { op, tasks });
    }

    /// Take the pause or resume the user asked for, if there is one.
    pub fn take_requested_op(&mut self) -> (request: Option<TaskOpRequest>)
        ensures
            request == old(self).requested_op,
            *final(self) == (App { requested_op: None, ..*old(self) }),
    {
        self.requested_op.take()
    }
}

// ---------------------------------------------------------------------------
// Results
// ---------------------------------------------------------------------------

/// A count and what was counted, where there is any.
pub open spec fn counted(count: nat, what: Seq<char>) -> Seq<Seq<char>> {
    if count > 0 {
        seq![decimal(count) + what]
    } else {
        Seq::empty()
    }
}

/// The categories of a finished operation that happened.
pub open spec fn summary_parts(succeeded: nat, skipped: nat, failed: nat) -> Seq<Seq<char>> {
    if succeeded == 0 && skipped == 0 && failed == 0 {
        seq!["nothing to do"@]
    } else {
        counted(succeeded, " succeeded"@) + counted(skipped, " skipped"@) + counted(
            failed,
            " failed"@,
        )
    }
}

/// The one-line report of a finished operation.
pub open spec fn summary_text(op: OpKind, succeeded: nat, skipped: nat, failed: nat) -> Seq<char> {
    (if failed > 0 {
        "⚠ "@
    } else {
        Seq::empty()
    }) + op.name() + " finished: "@ + joined(summary_parts(succeeded, skipped, failed), ", "@)
}

/// Add a count to a list of parts, where there is any.
fn add_count(parts: &mut Vec<String>, count: usize, what: &str)
    ensures
        views(final(parts)@) == views(old(parts)@) + counted(count as nat, what@),
{
    if count > 0 {
        let number = decimal_of(count as u64);
        let text = prefixed(number.as_str(), what);
        let ghost added = text@;
        parts.push(text);
        proof {
            assert(views(parts@) =~= views(old(parts)@).push(added));
            assert(views(parts@) =~= views(old(parts)@) + counted(count as nat, what@));
        }
    } else {
        proof {
            assert(views(parts@) =~= views(old(parts)@) + counted(count as nat, what@));
        }
    }
}

/// The one-line footer report of a finished background operation.
///
/// **Only non-zero categories are named**, and **any failure is marked**.
pub fn op_summary(op: OpKind, succeeded: usize, skipped: usize, failed: usize) -> (text: String)
    ensures
        text@ == summary_text(op, succeeded as nat, skipped as nat, failed as nat),
{
    let mut parts: Vec<String> = Vec::new();
    proof {
        assert(views(parts@) =~= Seq::<Seq<char>>::empty());
    }
    add_count(&mut parts, succeeded, " succeeded");
    add_count(&mut parts, skipped, " skipped");
    add_count(&mut parts, failed, " failed");
    if parts.len() == 0 {
        proof {
            assert(views(parts@).len() == 0);
        }
        parts.push("nothing to do".to_owned());
        proof {
            assert(views(parts@) =~= seq!["nothing to do"@]);
        }
    }
    proof {
        assert(views(parts@).len() == parts@.len());
        assert(views(parts@) =~= summary_parts(succeeded as nat, skipped as nat, failed as nat));
        reveal_strlit("");
        assert(""@ =~= Seq::<char>::empty());
    }
    let list = join(parts.as_slice(), ", ");
    let mut text = (if failed > 0 {
        "⚠ "
    } else {
        ""
    }).to_owned();
    text.append(op.label());
    text.append(" finished: ");
    text.append(list.as_str());
    text
}

/// The one-line report of a finished operation and, when there is something to read, the
/// key that reaches it.
pub open spec fn hinted_summary(report: OpReport) -> Seq<char> {
    let summary = summary_text(
        report.op,
        report.succeeded as nat,
        report.skipped as nat,
        report.failed as nat,
    );
    if report.problems@.len() > 0 {
        summary + " · v for the reasons"@
    } else {
        summary
    }
}

/// [`op_summary`] plus, when there is something to read, the key that reaches it.
pub fn summary_with_hint(report: &OpReport) -> (text: String)
    ensures
        text@ == hinted_summary(*report),
{
    let mut summary = op_summary(report.op, report.succeeded, report.skipped, report.failed);
    if report.has_problems() {
        summary.append(" · v for the reasons");
    }
    summary
}

impl App {
    /// The last finished batch's report, if there has been one.
    pub fn last_op_report(&self) -> (report: Option<&OpReport>)
        ensures
            match self.op_report {
                Some(r) => report == Some(&r),
                None => report is None,
            },
    {
        self.op_report.as_ref()
    }

    /// First body line the results modal should show.
    pub fn results_scroll(&self) -> (line: usize)
        ensures
            line == self.results_scroll,
    {
        self.results_scroll
    }

    /// Whether `b` is `a` once the results were asked for.
    pub open spec fn shows_results(a: App, b: App) -> bool {
        match a.op_report {
            Some(report) => if report.problems@.len() > 0 {
                b == (App { results_scroll: 0, mode: Mode::Results, ..a })
            } else {
                App::says(a, b, "the last operation finished with nothing to report"@)
            },
            None => App::says(a, b, "no operation has finished yet"@),
        }
    }

    /// Open the results modal (`v`, and automatically after a batch with anything to
    /// report). Says so in the footer rather than opening an empty box.
    pub fn show_results(&mut self)
        ensures
            App::shows_results(*old(self), *final(self)),
    {
        let problems: Option<bool> = match &self.op_report {
            Some(report) => Some(report.has_problems()),
            None => None,
        };
        match problems {
            Some(true) => {
                self.results_scroll = 0;
                self.mode = Mode::Results;
            },
            Some(false) => {
                self.set_status("the last operation finished with nothing to report");
            },
            None => {
                self.set_status("no operation has finished yet");
            },
        }
    }

    /// Dismiss the results modal. The report itself is kept.
    pub fn close_results(&mut self)
        ensures
            *final(self) == (App { results_scroll: 0, mode: Mode::Normal, ..*old(self) }),
    {
        self.results_scroll = 0;
        self.mode = Mode::Normal;
    }

    /// How many body lines the last report renders to.
    pub open spec fn results_lines(self) -> nat {
        match self.op_report {
            Some(report) => doubled(report.problems@.len()),
            None => 0,
        }
    }

    /// How many body lines the last report renders to.
    pub fn results_line_count(&self) -> (lines: usize)
        ensures
            lines == self.results_lines(),
    {
        match &self.op_report {
            Some(report) => report.line_count(),
            None => 0,
        }
    }

    /// The state with the results scrolled.
    pub open spec fn results_scrolled(self, delta: int) -> App {
        App {
            results_scroll: shifted(
                self.results_scroll as int,
                delta,
                last_line(self.results_lines()),
            ) as usize,
            ..self
        }
    }

    /// The state with the results at a line, or at their last one.
    pub open spec fn results_scrolled_to(self, line: int) -> App {
        App {
            results_scroll: (if line <= last_line(self.results_lines()) {
                line
            } else {
                last_line(self.results_lines())
            }) as usize,
            ..self
        }
    }

    /// Scroll the results modal, clamped to the lines there are.
    pub fn scroll_results(&mut self, delta: isize)
        ensures
            *final(self) == old(self).results_scrolled(delta as int),
    {
        let last: usize = self.results_line_count().saturating_sub(1);
        self.results_scroll = shift(self.results_scroll, delta, last);
    }

    /// Jump the results modal to a line, or to its last one.
    pub fn scroll_results_to(&mut self, line: usize)
        ensures
            *final(self) == old(self).results_scrolled_to(line as int),
    {
        let last: usize = self.results_line_count().saturating_sub(1);
        self.results_scroll = if line <= last {
            line
        } else {
            last
        };
    }
}

// ---------------------------------------------------------------------------
// Background events
// ---------------------------------------------------------------------------

/// A selection without the ids that name no task.
pub open spec fn still_selected(selected: Set<Seq<char>>, tasks: Seq<Task>) -> Set<Seq<char>> {
    selected.filter(|id: Seq<char>| task_by_id(tasks, id) is Some)
}

/// Drop the ids that name no task.
fn prune(selected: &mut TextSet, tasks: &Vec<Task>)
    ensures
        final(selected)@ == still_selected(old(selected)@, tasks@),
{
    let ids = selected.texts();
    let ghost texts = views(ids@);
    let ghost before = selected@;
    let mut i: usize = 0;
    while i < ids.len()
        invariant
            i <= ids@.len(),
            texts == views(ids@),
            forall|id: Seq<char>| #[trigger]
                selected@.contains(id) <==> before.contains(id) && (texts.take(i as int).contains(
                    id,
                ) ==> task_by_id(tasks@, id) is Some),
        decreases ids@.len() - i,
    {
        let ghost here = ids@[i as int]@;
        proof {
            let shorter = texts.take(i as int);
            let longer = texts.take(i + 1);
            assert(longer =~= shorter.push(here));
            assert forall|id: Seq<char>| longer.contains(id) <==> shorter.contains(id) || id
                == here by {
                if shorter.contains(id) {
                    let k = choose|k: int| 0 <= k < shorter.len() && shorter[k] == id;
                    assert(longer[k] == id);
                }
                if id == here {
                    assert(longer[i as int] == id);
                }
            }
        }
        if task_with_id(tasks.as_slice(), ids[i].as_str()).is_none() {
            selected.remove(ids[i].as_str());
        }
        i += 1;
    }
    proof {
        assert(texts.take(i as int) =~= texts);
        assert(selected@ =~= still_selected(before, tasks@));
    }
}

impl App {
    /// Whether `b` is `a` after a refresh brought these tasks.
    pub open spec fn refreshes(a: App, b: App, tasks: Vec<Task>) -> bool {
        if a.mode == Mode::Confirm {
            b == a
        } else {
            &&& b.selected@ == still_selected(a.selected@, tasks@)
            &&& b == (App {
                loaded: true,
                error: None,
                ..(App { tasks, selected: b.selected, ..a }).reseated(a.cursor_id())
            })
        }
    }

    /// Reconcile a freshly fetched task list into the app.
    ///
    /// 1. **The cursor follows its task, by ID**; where that task is gone, the *position*
    ///    is kept and clamped into the new list.
    /// 2. **Selections for tasks that no longer exist are dropped.**
    /// 3. **A refresh arriving while the confirmation modal is open is ignored
    ///    outright**: the plan on screen is a snapshot, and the user is reading it.
    pub fn apply_tasks(&mut self, tasks: Vec<Task>)
        ensures
            App::refreshes(*old(self), *final(self), tasks),
    {
        if self.mode == Mode::Confirm {
            return ;
        }
        let id = self.cursor_task_id();
        prune(&mut self.selected, &tasks);
        self.tasks = tasks;
        self.reseat(id);
        self.loaded = true;
        self.clear_error();
    }

    /// What is said of one finished item.
    pub open spec fn progress_text(op: OpKind, done: nat, total: nat, item: ItemReport) -> Seq<char> {
        op.name() + " "@ + decimal(done) + "/"@ + decimal(total) + " · "@ + item.text()
    }

    /// The problems of a running batch after one more item.
    pub open spec fn problems_after(problems: Seq<ItemReport>, done: nat, item: ItemReport) -> Seq<
        ItemReport,
    > {
        let current = if done <= 1 {
            Seq::empty()
        } else {
            problems
        };
        if item.outcome is Done {
            current
        } else {
            current.push(item)
        }
    }

    /// Whether `b` is `a` after a batch finished with this report.
    pub open spec fn ends_batch(
        a: App,
        b: App,
        op: OpKind,
        succeeded: usize,
        skipped: usize,
        failed: usize,
    ) -> bool {
        &&& b.op_report matches Some(report)
        &&& report.op == op
        &&& report.succeeded == succeeded
        &&& report.skipped == skipped
        &&& report.failed == failed
        &&& report.problems@ == a.op_problems@
        &&& b.op_problems@ == Seq::<ItemReport>::empty()
        &&& opt_view(b.status_message) == Some(hinted_summary(report))
        &&& b == (App {
            op_report: b.op_report,
            op_problems: b.op_problems,
            status_message: b.status_message,
            results_scroll: if report.problems@.len() > 0 && a.mode == Mode::Normal {
                0
            } else {
                a.results_scroll
            },
            mode: if report.problems@.len() > 0 && a.mode == Mode::Normal {
                Mode::Results
            } else {
                a.mode
            },
            ..a
        })
    }

    /// Whether `b` is `a` after an event.
    pub open spec fn applies(a: App, b: App, event: AppEvent) -> bool {
        match event {
            AppEvent::Tasks(tasks) => App::refreshes(a, b, tasks),
            AppEvent::Error(message) => opt_view(b.error) == Some(message@) && b == (App {
                error: b.error,
                ..a
            }),
            AppEvent::Storage(_) => b == a,
            AppEvent::OpProgress { op, done, total, item } => {
                &&& b.op_problems@ == App::problems_after(a.op_problems@, done as nat, item)
                &&& App::says(
                    App { op_problems: b.op_problems, ..a },
                    b,
                    App::progress_text(op, done as nat, total as nat, item),
                )
            },
            AppEvent::OpDone { op, succeeded, skipped, failed } => App::ends_batch(
                a,
                b,
                op,
                succeeded,
                skipped,
                failed,
            ),
        }
    }

    /// Take one finished item of a batch: its line in the footer, and its problem.
    fn apply_progress(&mut self, op: OpKind, done: usize, total: usize, item: ItemReport)
        ensures
            App::applies(*old(self), *final(self), AppEvent::OpProgress { op, done, total, item }),
    {
        if done <= 1 {
            self.op_problems = Vec::new();
        }
        let mut text = prefixed(op.label(), " ");
        let so_far = decimal_of(done as u64);
        let of = decimal_of(total as u64);
        let what = item.detail();
        text.append(so_far.as_str());
        text.append("/");
        text.append(of.as_str());
        text.append(" · ");
        text.append(what.as_str());
        self.set_status(text.as_str());
        if item.outcome.problem().is_some() {
            self.op_problems.push(item);
        }
    }

    /// Take the end of a batch: its summary, its report, and the modal where there is
    /// anything to read. A modal that the user is reading is never replaced.
    fn apply_end(&mut self, op: OpKind, succeeded: usize, skipped: usize, failed: usize)
        ensures
            App::ends_batch(*old(self), *final(self), op, succeeded, skipped, failed),
    {
        let mut problems: Vec<ItemReport> = Vec::new();
        std::mem::swap(&mut self.op_problems, &mut problems);
        let report = OpReport { op, succeeded, skipped, failed, problems };
        let text = summary_with_hint(&report);
        self.set_status(text.as_str());
        let worth_showing = report.has_problems();
        self.op_report = Some(report);
        if worth_showing && self.mode == Mode::Normal {
            self.show_results();
        }
    }

    /// Apply one [`AppEvent`] from the poller or a running operation.
    pub fn apply_event(&mut self, event: AppEvent)
        ensures
            App::applies(*old(self), *final(self), event),
    {
        match event {
            AppEvent::Tasks(tasks) => self.apply_tasks(tasks),
            AppEvent::Error(message) => self.set_error(message.as_str()),
            AppEvent::Storage(_) => {},
            AppEvent::OpProgress { op, done, total, item } => self.apply_progress(
                op,
                done,
                total,
                item,
            ),
            AppEvent::OpDone { op, succeeded, skipped, failed } => self.apply_end(
                op,
                succeeded,
                skipped,
                failed,
            ),
        }
    }
}

// ---------------------------------------------------------------------------
// Keys
// ---------------------------------------------------------------------------

impl App {
    /// Whether `b` is `a` after a letter while browsing the table.
    pub open spec fn does_letter(a: App, b: App, c: char) -> bool {
        if c == 'q' {
            b == (App { quit: true, ..a })
        } else if c == 'k' {
            b == a.moved(-1)
        } else if c == 'j' {
            b == a.moved(1)
        } else if c == 'g' {
            b == a.moved_to_first()
        } else if c == 'G' {
            b == a.moved_to_last()
        } else if c == ' ' {
            App::toggles(a, b)
        } else if c == 'a' {
            App::toggles_all(a, b)
        } else if c == 'r' {
            b == (App { refresh_requested: true, ..a })
        } else if c == 's' {
            b == a.viewed(TaskView { sort_key: a.view.sort_key.following(), ..a.view })
        } else if c == 'S' {
            b == a.viewed(TaskView { sort_dir: TaskView::turned(a.view.sort_dir), ..a.view })
        } else if c == 'f' {
            b == a.viewed(TaskView { filter: a.view.filter.following(), ..a.view })
        } else if c == 'd' {
            App::begins_delete(a, b)
        } else if c == 'p' {
            App::requests(a, b, TaskOp::Pause)
        } else if c == 'u' {
            App::requests(a, b, TaskOp::Resume)
        } else if c == '/' {
            b == a.searching()
        } else if c == 'v' {
            App::shows_results(a, b)
        } else if c == '?' {
            b == (App { mode: Mode::Help, ..a })
        } else {
            b == a
        }
    }

    /// Whether `b` is `a` after a key while browsing the table.
    pub open spec fn does_normal(a: App, b: App, code: KeyCode) -> bool {
        match code {
            KeyCode::Char(c) => App::does_letter(a, b, c),
            KeyCode::Up => b == a.moved(-1),
            KeyCode::Down => b == a.moved(1),
            KeyCode::PageUp => b == a.moved(-page_step(a.page_size as int)),
            KeyCode::PageDown => b == a.moved(page_step(a.page_size as int)),
            KeyCode::Home => b == a.moved_to_first(),
            KeyCode::End => b == a.moved_to_last(),
            KeyCode::Esc => App::unselects(a, b),
            _ => b == a,
        }
    }

    /// A letter while browsing the table.
    fn handle_letter(&mut self, c: char)
        ensures
            App::does_letter(*old(self), *final(self), c),
    {
        if c == 'q' {
            self.quit();
        } else if c == 'k' {
            self.move_cursor(-1);
        } else if c == 'j' {
            self.move_cursor(1);
        } else if c == 'g' {
            self.cursor_to_first();
        } else if c == 'G' {
            self.cursor_to_last();
        } else if c == ' ' {
            self.toggle_selection();
        } else if c == 'a' {
            self.toggle_select_all_visible();
        } else if c == 'r' {
            self.request_refresh();
        } else if c == 's' {
            self.cycle_sort();
        } else if c == 'S' {
            self.toggle_sort_dir();
        } else if c == 'f' {
            self.cycle_filter();
        } else if c == 'd' {
            self.begin_delete();
        } else if c == 'p' {
            self.pause_target();
        } else if c == 'u' {
            self.resume_target();
        } else if c == '/' {
            self.begin_search();
        } else if c == 'v' {
            self.show_results();
        } else if c == '?' {
            self.show_help();
        }
    }

    /// Keys while browsing the table. No key here touches the network.
    fn handle_normal_key(&mut self, key: KeyEvent)
        ensures
            App::does_normal(*old(self), *final(self), key.code),
    {
        match key.code {
            KeyCode::Char(c) => self.handle_letter(c),
            KeyCode::Up => self.move_cursor(-1),
            KeyCode::Down => self.move_cursor(1),
            KeyCode::PageUp => self.page_up(),
            KeyCode::PageDown => self.page_down(),
            KeyCode::Home => self.cursor_to_first(),
            KeyCode::End => self.cursor_to_last(),
            KeyCode::Esc => self.clear_selection(),
            _ => {},
        }
    }

    /// The state after a key while the confirmation modal is open.
    pub open spec fn after_confirm_key(self, code: KeyCode) -> App {
        match code {
            KeyCode::Char(c) => if c == 'y' || c == 'Y' {
                self.delete_confirmed()
            } else if c == 'n' || c == 'N' || c == 'q' {
                self.delete_cancelled()
            } else if c == 'h' || c == 'l' {
                App { confirm_focus: self.confirm_focus.opposite(), ..self }
            } else if c == 'k' {
                self.confirm_scrolled(-1)
            } else if c == 'j' {
                self.confirm_scrolled(1)
            } else {
                self
            },
            KeyCode::Esc => self.delete_cancelled(),
            KeyCode::Enter => match self.confirm_focus {
                ConfirmFocus::Cancel => self.delete_cancelled(),
                ConfirmFocus::Delete => self.delete_confirmed(),
            },
            KeyCode::Tab | KeyCode::BackTab | KeyCode::Left | KeyCode::Right => App {
                confirm_focus: self.confirm_focus.opposite(),
                ..self
            },
            KeyCode::Up => self.confirm_scrolled(-1),
            KeyCode::Down => self.confirm_scrolled(1),
            KeyCode::PageUp => self.confirm_scrolled(-page_step(self.page_size as int)),
            KeyCode::PageDown => self.confirm_scrolled(page_step(self.page_size as int)),
            KeyCode::Home => self.confirm_scrolled_to(0),
            KeyCode::End => self.confirm_scrolled_to(usize::MAX as int),
            _ => self,
        }
    }

    /// Keys while the confirmation modal is open.
    ///
    /// * **`Enter` presses the focused button**, and the focus starts on Cancel.
    /// * **`q` closes the dialog rather than the program.**
    /// * **Every unrecognized key does nothing at all.**
    fn handle_confirm_key(&mut self, key: KeyEvent)
        ensures
            *final(self) == old(self).after_confirm_key(key.code),
    {
        match key.code {
            KeyCode::Char(c) => {
                if c == 'y' || c == 'Y' {
                    self.confirm_delete();
                } else if c == 'n' || c == 'N' || c == 'q' {
                    self.cancel_delete();
                } else if c == 'h' || c == 'l' {
                    self.toggle_confirm_focus();
                } else if c == 'k' {
                    self.scroll_confirm(-1);
                } else if c == 'j' {
                    self.scroll_confirm(1);
                }
            },
            KeyCode::Esc => self.cancel_delete(),
            KeyCode::Enter => match self.confirm_focus {
                ConfirmFocus::Cancel => self.cancel_delete(),
                ConfirmFocus::Delete => self.confirm_delete(),
            },
            KeyCode::Tab | KeyCode::BackTab | KeyCode::Left | KeyCode::Right => {
                self.toggle_confirm_focus();
            },
            KeyCode::Up => self.scroll_confirm(-1),
            KeyCode::Down => self.scroll_confirm(1),
            KeyCode::PageUp => self.scroll_confirm(-page_delta(self.page_size)),
            KeyCode::PageDown => self.scroll_confirm(page_delta(self.page_size)),
            KeyCode::Home => self.scroll_confirm_to(0),
            KeyCode::End => self.scroll_confirm_to(usize::MAX),
            _ => {},
        }
    }

    /// The state after a key while the results modal is open.
    pub open spec fn after_results_key(self, code: KeyCode) -> App {
        match code {
            KeyCode::Char(c) => if c == 'q' || c == 'v' || c == ' ' {
                App { results_scroll: 0, mode: Mode::Normal, ..self }
            } else if c == 'k' {
                self.results_scrolled(-1)
            } else if c == 'j' {
                self.results_scrolled(1)
            } else {
                self
            },
            KeyCode::Esc | KeyCode::Enter => App {
                results_scroll: 0,
                mode: Mode::Normal,
                ..self
            },
            KeyCode::Up => self.results_scrolled(-1),
            KeyCode::Down => self.results_scrolled(1),
            KeyCode::PageUp => self.results_scrolled(-page_step(self.page_size as int)),
            KeyCode::PageDown => self.results_scrolled(page_step(self.page_size as int)),
            KeyCode::Home => self.results_scrolled_to(0),
            KeyCode::End => self.results_scrolled_to(usize::MAX as int),
            _ => self,
        }
    }

    /// Keys while the results modal is open. It scrolls, so an unrecognized key does
    /// nothing rather than dismissing the only place the reasons are legible.
    fn handle_results_key(&mut self, key: KeyEvent)
        ensures
            *final(self) == old(self).after_results_key(key.code),
    {
        match key.code {
            KeyCode::Char(c) => {
                if c == 'q' || c == 'v' || c == ' ' {
                    self.close_results();
                } else if c == 'k' {
                    self.scroll_results(-1);
                } else if c == 'j' {
                    self.scroll_results(1);
                }
            },
            KeyCode::Esc | KeyCode::Enter => self.close_results(),
            KeyCode::Up => self.scroll_results(-1),
            KeyCode::Down => self.scroll_results(1),
            KeyCode::PageUp => self.scroll_results(-page_delta(self.page_size)),
            KeyCode::PageDown => self.scroll_results(page_delta(self.page_size)),
            KeyCode::Home => self.scroll_results_to(0),
            KeyCode::End => self.scroll_results_to(usize::MAX),
            _ => {},
        }
    }

    /// Whether `b` is `a` after a key while the search box has focus.
    pub open spec fn does_search(a: App, b: App, key: KeyEvent) -> bool {
        match key.code {
            KeyCode::Enter => b == (App { search_backup: None, mode: Mode::Normal, ..a }),
            KeyCode::Esc => b == a.unsearched(),
            KeyCode::Backspace => App::queries(a, b, App::popped(a.view.search@)),
            KeyCode::Char(c) => if key.modifiers.control || key.modifiers.alt {
                b == a
            } else {
                App::queries(a, b, a.view.search@.push(c))
            },
            _ => b == a,
        }
    }

    /// Keys while the search box has focus. Everything printable is **text**, not a
    /// command; a character with Control or Alt held is a command aimed elsewhere.
    fn handle_search_key(&mut self, key: KeyEvent)
        ensures
            App::does_search(*old(self), *final(self), key),
    {
        match key.code {
            KeyCode::Enter => self.commit_search(),
            KeyCode::Esc => self.cancel_search(),
            KeyCode::Backspace => self.search_pop(),
            KeyCode::Char(c) => {
                if !key.modifiers.control && !key.modifiers.alt {
                    self.search_push(c);
                }
            },
            _ => {},
        }
    }

    /// Whether a keystroke is `Ctrl-C`.
    pub open spec fn is_interrupt(key: KeyEvent) -> bool {
        key.code == KeyCode::Char('c') && key.modifiers.control
    }

    /// Whether `b` is `a` after a keystroke.
    pub open spec fn does(a: App, b: App, key: KeyEvent) -> bool {
        if key.kind != KeyEventKind::Press {
            b == a
        } else if App::is_interrupt(key) {
            b == (App { quit: true, ..a })
        } else {
            match a.mode {
                Mode::Normal => App::does_normal(a, b, key.code),
                Mode::Search => App::does_search(a, b, key),
                Mode::Confirm => b == a.after_confirm_key(key.code),
                Mode::Help => b == (App { mode: Mode::Normal, ..a }),
                Mode::Results => b == a.after_results_key(key.code),
            }
        }
    }

    /// Feed one keystroke to the state machine. Only presses count; `Ctrl-C` is
    /// unconditional.
    pub fn handle_key(&mut self, key: KeyEvent)
        ensures
            App::does(*old(self), *final(self), key),
    {
        if key.kind != KeyEventKind::Press {
            return ;
        }
        if key.code == KeyCode::Char('c') && key.modifiers.control {
            self.quit();
            return ;
        }
        match self.mode {
            Mode::Normal => self.handle_normal_key(key),
            Mode::Search => self.handle_search_key(key),
            Mode::Confirm => self.handle_confirm_key(key),
            Mode::Help => self.close_help(),
            Mode::Results => self.handle_results_key(key),
        }
    }

    /// Feed one terminal event to the state machine. Resize and focus events need no
    /// state change: the next draw measures the terminal again.
    pub fn handle_event(&mut self, event: Event)
        ensures
            match event {
                Event::Key(key) => App::does(*old(self), *final(self), key),
                _ => *final(self) == *old(self),
            },
    {
        if let Event::Key(key) = event {
            self.handle_key(key);
        }
    }
}

// ---------------------------------------------------------------------------
// Laws
// ---------------------------------------------------------------------------

/// `Ctrl-C` quits from every mode, and changes nothing else.
pub proof fn law_ctrl_c_quits_from_every_mode(a: App, b: App, key: KeyEvent)
    requires
        key.kind == KeyEventKind::Press,
        App::is_interrupt(key),
        App::does(a, b, key),
    ensures
        b == (App { quit: true, ..a }),
{
}

/// The first row of an id holds it.
proof fn lemma_row_with_id(tasks: Seq<Task>, rows: Seq<usize>, id: Seq<char>, from: int)
    requires
        0 <= from,
    ensures
        match row_with_id(tasks, rows, id, from) {
            Some(row) => from <= row < rows.len() && tasks[rows[row] as int].id@ == id,
            None => forall|k: int|
                from <= k < rows.len() ==> tasks[(#[trigger] rows[k]) as int].id@ != id,
        },
    decreases rows.len() - from,
{
    if from < rows.len() && tasks[rows[from] as int].id@ != id {
        lemma_row_with_id(tasks, rows, id, from + 1);
    }
}

/// Whether the cursor is on a row, where there is one.
pub open spec fn cursor_in_range(app: App) -> bool {
    app.cursor < app.rows().len() || (app.rows().len() == 0 && app.cursor == 0)
}

/// What a change of the view or the list leaves: the cursor is in range, and on the task
/// it was on wherever a row still shows that task.
pub proof fn law_the_cursor_follows_its_task(changed: App, id: Option<Seq<char>>)
    ensures
        cursor_in_range(changed.reseated(id)),
        id matches Some(i) ==> changed.on_screen(i) ==> changed.reseated(id).cursor_id() == Some(i),
        changed.reseated(id).selected == changed.selected,
        changed.reseated(id).tasks == changed.tasks,
{
    let b = changed.reseated(id);
    assert(changed.tasks@.len() == changed.tasks.len());
    law_rows_are_shown(changed.tasks@, changed.view);
    assert(b.rows() == changed.rows());
    if let Some(i) = id {
        lemma_row_with_id(changed.tasks@, changed.rows(), i, 0);
    }
}

/// A sort, a filter or a search changes neither what is selected nor the task list, and
/// leaves the cursor on its task where that is still on screen.
pub proof fn law_a_view_change_arms_nothing(a: App, view: TaskView)
    ensures
        a.viewed(view).selected == a.selected,
        a.viewed(view).tasks == a.tasks,
        cursor_in_range(a.viewed(view)),
        a.cursor_id() matches Some(id) ==> (App { view, ..a }).on_screen(id) ==> a.viewed(
            view,
        ).cursor_id() == Some(id),
{
    law_the_cursor_follows_its_task(App { view, ..a }, a.cursor_id());
}

/// A refresh keeps the cursor on its task where that is still on screen, drops the
/// selections that name no task and adds none, and takes the error banner down.
pub proof fn law_a_refresh_keeps_cursor_and_selection(a: App, b: App, tasks: Vec<Task>)
    requires
        a.mode != Mode::Confirm,
        App::refreshes(a, b, tasks),
    ensures
        b.tasks == tasks,
        cursor_in_range(b),
        a.cursor_id() matches Some(id) ==> b.on_screen(id) ==> b.cursor_id() == Some(id),
        forall|id: Seq<char>| #[trigger]
            b.selected@.contains(id) <==> a.selected@.contains(id) && task_by_id(tasks@, id) is Some,
        b.error is None,
        b.view == a.view,
        b.mode == a.mode,
{
    let mid = App { tasks, selected: b.selected, ..a };
    assert(b.rows() == mid.rows());
    law_the_cursor_follows_its_task(mid, a.cursor_id());
}

/// A refresh that comes while the confirmation is open changes nothing at all.
pub proof fn law_a_refresh_is_ignored_in_the_dialog(a: App, b: App, tasks: Vec<Task>)
    requires
        a.mode == Mode::Confirm,
        App::applies(a, b, AppEvent::Tasks(tasks)),
    ensures
        b == a,
{
}

/// Select-all never touches a task that is not on screen.
pub proof fn law_select_all_never_touches_a_hidden_task(a: App, b: App, id: Seq<char>)
    requires
        App::toggles_all(a, b),
        !a.on_screen(id),
    ensures
        b.selected@.contains(id) <==> a.selected@.contains(id),
{
}

/// Pressing `a` twice deselects every row on screen, where there was one unselected.
pub proof fn law_select_all_twice_deselects(a: App, b: App, c: App, id: Seq<char>)
    requires
        App::toggles_all(a, b),
        App::toggles_all(b, c),
        !a.all_selected(),
        a.on_screen(id),
    ensures
        b.selected@.contains(id),
        !c.selected@.contains(id),
{
    assert(b.rows() == a.rows());
    assert(b.all_selected()) by {
        assert forall|k: int| 0 <= k < b.rows().len() implies b.selected@.contains(
            b.tasks@[(#[trigger] b.rows()[k]) as int].id@,
        ) by {
            assert(a.on_screen(a.tasks@[a.rows()[k] as int].id@));
        }
    }
    assert(b.on_screen(id));
}

/// `Space` twice on the same row leaves the selection as it was.
pub proof fn law_space_twice_undoes_itself(a: App, b: App, c: App)
    requires
        App::toggles(a, b),
        App::toggles(b, c),
    ensures
        c.selected@ == a.selected@,
{
    assert(b.rows() == a.rows());
    if let Some(id) = a.cursor_id() {
        assert(b.cursor_id() == Some(id));
        assert(c.selected@ =~= a.selected@);
    }
}

/// The dialog opens on Cancel: an `Enter` right after `d` deletes nothing. The state is
/// as before but for the dialog's own settings.
pub proof fn law_enter_on_a_fresh_dialog_cancels(a: App, b: App, c: App, d: KeyEvent, enter: KeyEvent)
    requires
        a.mode == Mode::Normal,
        a.pending_delete is None,
        d == (KeyEvent { code: KeyCode::Char('d'), modifiers: d.modifiers, kind: KeyEventKind::Press }),
        enter == (KeyEvent {
            code: KeyCode::Enter,
            modifiers: enter.modifiers,
            kind: KeyEventKind::Press,
        }),
        App::does(a, b, d),
        b.mode == Mode::Confirm,
        App::does(b, c, enter),
    ensures
        c == (App { confirm_scroll: 0, confirm_focus: ConfirmFocus::Cancel, ..a }),
        c.confirmed_delete == a.confirmed_delete,
{
}

/// Cancelling the dialog, whichever key does it, leaves everything as it was before `d`
/// but for the dialog's own settings.
pub proof fn law_cancelling_leaves_everything(a: App, b: App, code: KeyCode)
    requires
        a.mode == Mode::Normal,
        a.pending_delete is None,
        App::begins_delete(a, b),
        b.mode == Mode::Confirm,
        code == KeyCode::Esc || code == KeyCode::Char('n') || code == KeyCode::Char('N') || code
            == KeyCode::Char('q') || code == KeyCode::Enter,
    ensures
        b.after_confirm_key(code) == (App {
            confirm_scroll: 0,
            confirm_focus: ConfirmFocus::Cancel,
            ..a
        }),
{
}

/// A finished batch never replaces a modal that the user is reading, and its report is
/// kept all the same.
pub proof fn law_a_finished_batch_replaces_no_modal(
    a: App,
    b: App,
    op: OpKind,
    succeeded: usize,
    skipped: usize,
    failed: usize,
)
    requires
        a.mode != Mode::Normal,
        App::applies(a, b, AppEvent::OpDone { op, succeeded, skipped, failed }),
    ensures
        b.mode == a.mode,
        b.pending_delete == a.pending_delete,
        b.op_report matches Some(report) && report.problems@ == a.op_problems@,
{
}

/// A report never touches the task list, the selection or the cursor.
pub proof fn law_a_report_changes_no_row(a: App, b: App, event: AppEvent)
    requires
        !(event is Tasks),
        App::applies(a, b, event),
    ensures
        b.tasks == a.tasks,
        b.view == a.view,
        b.selected == a.selected,
        b.cursor == a.cursor,
        b.scroll == a.scroll,
{
}

/// Wherever a movement leads, the cursor stays on a row of the list, and never wraps.
pub proof fn law_no_movement_leaves_the_list(app: App, delta: int)
    ensures
        cursor_in_range(app.moved(delta)),
        cursor_in_range(app.moved_to_first()),
        cursor_in_range(app.moved_to_last()),
        delta >= 0 && app.cursor < app.rows().len() ==> app.moved(delta).cursor >= app.cursor,
        delta <= 0 ==> app.moved(delta).cursor <= app.cursor,
{
    assert(app.tasks@.len() == app.tasks.len());
    law_rows_are_shown(app.tasks@, app.view);
    assert(app.moved(delta).rows() == app.rows());
    assert(app.moved_to_first().rows() == app.rows());
    assert(app.moved_to_last().rows() == app.rows());
}

/// A plan is confirmed by `y`, or by `Enter` on the Delete button, and by no other
/// keystroke in any mode.
pub proof fn law_only_y_or_a_focused_enter_confirms(a: App, b: App, key: KeyEvent)
    requires
        App::does(a, b, key),
        b.confirmed_delete != a.confirmed_delete,
    ensures
        a.mode == Mode::Confirm,
        b.confirmed_delete == a.pending_delete,
        key.code == KeyCode::Char('y') || key.code == KeyCode::Char('Y') || (key.code
            == KeyCode::Enter && a.confirm_focus == ConfirmFocus::Delete),
{
}

/// While a batch is running, no letter opens a confirmation or requests an operation.
proof fn lemma_busy_letter(a: App, b: App, c: char)
    requires
        App::does_letter(a, b, c),
        a.op_in_flight,
        a.mode == Mode::Normal,
    ensures
        b.requested_op == a.requested_op,
        b.mode != Mode::Confirm,
        b.pending_delete == a.pending_delete,
{
    if c == 'd' {
        assert(App::says(a, b, BUSY@));
    } else if c == 'p' {
        assert(App::says(a, b, BUSY@));
    } else if c == 'u' {
        assert(App::says(a, b, BUSY@));
    }
}

/// While a batch is running, no keystroke opens a confirmation or requests an operation.
pub proof fn law_one_batch_at_a_time(a: App, b: App, key: KeyEvent)
    requires
        App::does(a, b, key),
        a.op_in_flight,
    ensures
        b.requested_op == a.requested_op,
        b.mode == Mode::Confirm ==> a.mode == Mode::Confirm,
        b.pending_delete == a.pending_delete || b.pending_delete is None,
{
    if key.kind == KeyEventKind::Press && !App::is_interrupt(key) && a.mode == Mode::Normal {
        if let KeyCode::Char(c) = key.code {
            lemma_busy_letter(a, b, c);
        }
    }
}

/// `Esc` in the search box puts the query back that `/` was pressed on.
pub proof fn law_esc_restores_the_query(a: App, b: App, typed: TaskView)
    requires
        b == a.searching().viewed(typed),
        typed.sort_key == a.view.sort_key,
        typed.sort_dir == a.view.sort_dir,
        typed.filter == a.view.filter,
    ensures
        b.unsearched().view == a.view,
        b.unsearched().mode == Mode::Normal,
        b.unsearched().selected == a.selected,
        b.unsearched().tasks == a.tasks,
{
}

/// The selection is what is armed: every selected task that exists is acted on, and
/// nothing that is not selected.
pub proof fn law_the_target_is_the_selection(app: App, task: Task)
    requires
        app.chosen().len() > 0,
    ensures
        app.targets().contains(task) ==> app.chosen().contains(task),
        app.chosen().contains(task) ==> task_by_id(app.targets(), task.id@) is Some,
{
    assert(app.tasks@.len() == app.tasks.len());
    law_rows_are_shown(app.tasks@, app.view);
    let all = app.rows().map_values(|index: usize| app.tasks@[index as int]);
    let keep = |t: Task| app.selected@.contains(t.id@);
    let hide = |t: Task| task_by_id(app.chosen_shown(), t.id@) is None;
    lemma_filtered(all, keep, task);
    lemma_filtered(app.tasks@, keep, task);
    lemma_filtered(app.chosen(), hide, task);
    if app.targets().contains(task) {
        let k = choose|k: int| 0 <= k < app.targets().len() && app.targets()[k] == task;
        if k < app.chosen_shown().len() {
            assert(app.chosen_shown()[k] == task);
            assert(app.chosen_shown().contains(task));
            let m = choose|m: int| 0 <= m < all.len() && all[m] == task;
            assert(app.tasks@[app.rows()[m] as int] == task);
            assert(app.tasks@.contains(task));
        } else {
            assert(app.chosen_hidden()[k - app.chosen_shown().len()] == task);
            assert(app.chosen_hidden().contains(task));
        }
    }
    if app.chosen().contains(task) {
        if task_by_id(app.chosen_shown(), task.id@) is Some {
            lemma_found_in_more(app.chosen_shown(), app.chosen_hidden(), task.id@);
        } else {
            assert(app.chosen_hidden().contains(task));
            let k = choose|k: int| 0 <= k < app.chosen_hidden().len() && app.chosen_hidden()[k] == task;
            assert(app.targets()[app.chosen_shown().len() + k] == task);
            lemma_found(app.targets(), app.chosen_shown().len() + k);
        }
    }
}

/// What a filter keeps: the members that pass.
proof fn lemma_filtered(list: Seq<Task>, keep: spec_fn(Task) -> bool, task: Task)
    ensures
        list.filter(keep).contains(task) <==> list.contains(task) && keep(task),
    decreases list.len(),
{
    reveal(Seq::filter);
    if list.len() > 0 {
        let init = list.drop_last();
        lemma_filtered(init, keep, task);
        assert(list.contains(task) <==> init.contains(task) || task == list.last()) by {
            if init.contains(task) {
                let k = choose|k: int| 0 <= k < init.len() && init[k] == task;
                assert(list[k] == task);
            }
            if task == list.last() {
                assert(list[list.len() - 1] == task);
            }
            if list.contains(task) && task != list.last() {
                let k = choose|k: int| 0 <= k < list.len() && list[k] == task;
                assert(init[k] == task);
            }
        }
        let kept = init.filter(keep);
        if keep(list.last()) {
            let more = kept.push(list.last());
            assert(more.contains(task) <==> kept.contains(task) || task == list.last()) by {
                if kept.contains(task) {
                    let k = choose|k: int| 0 <= k < kept.len() && kept[k] == task;
                    assert(more[k] == task);
                }
                assert(more[more.len() - 1] == list.last());
                if more.contains(task) && task != list.last() {
                    let k = choose|k: int| 0 <= k < more.len() && more[k] == task;
                    assert(kept[k] == task);
                }
            }
        }
    }
}

/// A listed task is found by its id.
proof fn lemma_found(list: Seq<Task>, k: int)
    requires
        0 <= k < list.len(),
    ensures
        task_by_id(list, list[k].id@) is Some,
    decreases k,
{
    if list[0].id@ != list[k].id@ {
        assert(list.skip(1)[k - 1] == list[k]);
        lemma_found(list.skip(1), k - 1);
    }
}

/// What is found in a list is found in a longer one.
proof fn lemma_found_in_more(list: Seq<Task>, more: Seq<Task>, id: Seq<char>)
    requires
        task_by_id(list, id) is Some,
    ensures
        task_by_id(list + more, id) is Some,
    decreases list.len(),
{
    if list[0].id@ != id {
        assert((list + more).skip(1) =~= list.skip(1) + more);
        lemma_found_in_more(list.skip(1), more, id);
    }
}

/// Whether a keystroke is a press of this key, and no `Ctrl-C`.
pub open spec fn pressed(key: KeyEvent, code: KeyCode) -> bool {
    key.kind == KeyEventKind::Press && key.code == code && !(key.modifiers.control && code
        == KeyCode::Char('c'))
}

/// The row that is so many rows further down, or up, and never beyond the ends of a list of
/// `rows` rows.
pub open spec fn row_reached(from: int, by: int, rows: int) -> int {
    if from + by >= rows {
        rows - 1
    } else if from + by <= 0 {
        0
    } else {
        from + by
    }
}

/// The movement keys: up and down by a row, by a screenful, to the first row and to the
/// last. Nothing but the cursor and the window moves.
pub proof fn law_where_the_cursor_goes(a: App, b: App, key: KeyEvent)
    requires
        a.mode == Mode::Normal,
        a.rows().len() > 0,
        a.page_size <= isize::MAX,
        key.kind == KeyEventKind::Press,
        !key.modifiers.control,
        App::does(a, b, key),
    ensures
        ({
            let rows = a.rows().len() as int;
            let from = a.cursor as int;
            let page = a.page_size as int;
            let code = key.code;
            let down = code == KeyCode::Down || code == KeyCode::Char('j');
            let up = code == KeyCode::Up || code == KeyCode::Char('k');
            let first = code == KeyCode::Home || code == KeyCode::Char('g');
            let last = code == KeyCode::End || code == KeyCode::Char('G');
            &&& down ==> b.cursor == row_reached(from, 1, rows)
            &&& up ==> b.cursor == row_reached(from, -1, rows)
            &&& code == KeyCode::PageDown ==> b.cursor == row_reached(from, page, rows)
            &&& code == KeyCode::PageUp ==> b.cursor == row_reached(from, -page, rows)
            &&& first ==> b.cursor == 0
            &&& last ==> b.cursor == rows - 1
            &&& down || up || first || last || code == KeyCode::PageDown || code == KeyCode::PageUp
                ==> b == (App { cursor: b.cursor, scroll: b.scroll, ..a })
        }),
{
    assert(a.tasks@.len() == a.tasks.len());
    law_rows_are_shown(a.tasks@, a.view);
}

/// The selection keys: `Space` turns the task under the cursor and no other, `a` selects
/// every task on screen, or none of them where all were, and no other; `Esc` clears it all.
pub proof fn law_what_the_selection_keys_do(a: App, b: App, key: KeyEvent, id: Seq<char>)
    requires
        a.mode == Mode::Normal,
        App::does(a, b, key),
    ensures
        pressed(key, KeyCode::Char(' ')) && a.cursor < a.rows().len() ==> (b.selected@.contains(id)
            <==> (a.selected@.contains(id) != (a.tasks@[a.rows()[a.cursor as int] as int].id@
            == id))),
        pressed(key, KeyCode::Char('a')) ==> (b.selected@.contains(id) <==> if (exists|k: int|
            0 <= k < a.rows().len() && a.tasks@[(#[trigger] a.rows()[k]) as int].id@ == id) {
            exists|k: int|
                0 <= k < a.rows().len() && !a.selected@.contains(
                    a.tasks@[(#[trigger] a.rows()[k]) as int].id@,
                )
        } else {
            a.selected@.contains(id)
        }),
        pressed(key, KeyCode::Esc) ==> !b.selected@.contains(id),
        pressed(key, KeyCode::Char(' ')) || pressed(key, KeyCode::Char('a')) || pressed(
            key,
            KeyCode::Esc,
        ) ==> b == (App { selected: b.selected, ..a }),
{
}

/// What an operation acts on: every task that is selected, wherever it stands in the list,
/// and no other; where none is, the task under the cursor alone.
pub proof fn law_what_an_operation_acts_on(app: App, k: int)
    requires
        0 <= k < app.tasks@.len(),
    ensures
        (exists|i: int|
            0 <= i < app.tasks@.len() && app.selected@.contains((#[trigger] app.tasks@[i]).id@))
            ==> (app.selected@.contains(app.tasks@[k].id@) <==> exists|j: int|
            0 <= j < app.targets().len() && (#[trigger] app.targets()[j]).id@
                == app.tasks@[k].id@),
        (forall|i: int|
            0 <= i < app.tasks@.len() ==> !app.selected@.contains((#[trigger] app.tasks@[i]).id@))
            ==> app.targets() == if app.cursor < app.rows().len() {
            seq![app.tasks@[app.rows()[app.cursor as int] as int]]
        } else {
            Seq::empty()
        },
{
    let keep = |t: Task| app.selected@.contains(t.id@);
    let task = app.tasks@[k];
    lemma_filtered(app.tasks@, keep, task);
    assert(app.tasks@.contains(task));
    if exists|i: int|
        0 <= i < app.tasks@.len() && app.selected@.contains((#[trigger] app.tasks@[i]).id@) {
        let i = choose|i: int|
            0 <= i < app.tasks@.len() && app.selected@.contains((#[trigger] app.tasks@[i]).id@);
        lemma_filtered(app.tasks@, keep, app.tasks@[i]);
        assert(app.tasks@.contains(app.tasks@[i]));
        assert(app.chosen().contains(app.tasks@[i]));
        assert(app.chosen().len() > 0);
        if app.selected@.contains(task.id@) {
            law_the_target_is_the_selection(app, task);
            lemma_found_has_the_id(app.targets(), task.id@);
        }
        if exists|j: int|
            0 <= j < app.targets().len() && (#[trigger] app.targets()[j]).id@ == task.id@ {
            let j = choose|j: int|
                0 <= j < app.targets().len() && (#[trigger] app.targets()[j]).id@ == task.id@;
            let other = app.targets()[j];
            law_the_target_is_the_selection(app, other);
            lemma_filtered(app.tasks@, keep, other);
        }
    }
    if forall|i: int|
        0 <= i < app.tasks@.len() ==> !app.selected@.contains((#[trigger] app.tasks@[i]).id@) {
        assert(app.chosen().len() == 0) by {
            if app.chosen().len() > 0 {
                let first = app.chosen()[0];
                assert(app.chosen().contains(first));
                lemma_filtered(app.tasks@, keep, first);
                let i = choose|i: int| 0 <= i < app.tasks@.len() && app.tasks@[i] == first;
                assert(!app.selected@.contains(app.tasks@[i].id@));
            }
        }
    }
}

/// A task found by its id has it.
proof fn lemma_found_has_the_id(tasks: Seq<Task>, id: Seq<char>)
    requires
        task_by_id(tasks, id) is Some,
    ensures
        exists|j: int| 0 <= j < tasks.len() && (#[trigger] tasks[j]).id@ == id,
    decreases tasks.len(),
{
    if tasks.len() > 0 {
        if tasks[0].id@ != id {
            let rest = tasks.skip(1);
            lemma_found_has_the_id(rest, id);
            let j = choose|j: int| 0 <= j < rest.len() && (#[trigger] rest[j]).id@ == id;
            assert(tasks[j + 1] == rest[j]);
        }
    }
}

/// The other keys of the table: each does what it is there for and leaves the task list and
/// the selection alone.
pub proof fn law_what_the_table_keys_do(a: App, b: App, key: KeyEvent)
    requires
        a.mode == Mode::Normal,
        App::does(a, b, key),
    ensures
        b.quit && !a.quit ==> key.code == KeyCode::Char('q') || App::is_interrupt(key),
        pressed(key, KeyCode::Char('q')) ==> b.quit && b.mode == a.mode,
        pressed(key, KeyCode::Char('r')) ==> b.refresh_requested,
        pressed(key, KeyCode::Char('?')) ==> b.mode == Mode::Help,
        pressed(key, KeyCode::Char('/')) ==> b.mode == Mode::Search && b.view == a.view,
        pressed(key, KeyCode::Char('s')) ==> b.view == (TaskView {
            sort_key: a.view.sort_key.following(),
            ..a.view
        }),
        pressed(key, KeyCode::Char('S')) ==> b.view == (TaskView {
            sort_dir: TaskView::turned(a.view.sort_dir),
            ..a.view
        }),
        pressed(key, KeyCode::Char('f')) ==> b.view == (TaskView {
            filter: a.view.filter.following(),
            ..a.view
        }),
        pressed(key, KeyCode::Char('d')) && !a.op_in_flight && a.targets().len() > 0 ==> b.mode
            == Mode::Confirm && b.pending_delete is Some && b.confirm_focus == ConfirmFocus::Cancel,
        pressed(key, KeyCode::Char('p')) && !a.op_in_flight && a.targets().len() > 0 ==> (
        b.requested_op matches Some(request) && request.op == TaskOp::Pause),
        pressed(key, KeyCode::Char('u')) && !a.op_in_flight && a.targets().len() > 0 ==> (
        b.requested_op matches Some(request) && request.op == TaskOp::Resume),
        b.tasks == a.tasks,
        b.selected@ != a.selected@ ==> key.code == KeyCode::Char(' ') || key.code == KeyCode::Char(
            'a',
        ) || key.code == KeyCode::Esc,
{
}

/// Any key closes the help overlay, and does nothing else.
pub proof fn law_any_key_closes_the_help(a: App, b: App, key: KeyEvent)
    requires
        a.mode == Mode::Help,
        key.kind == KeyEventKind::Press,
        !(key.modifiers.control && key.code == KeyCode::Char('c')),
        App::does(a, b, key),
    ensures
        b == (App { mode: Mode::Normal, ..a }),
{
}

/// In the search box every printable key is text, the last character of which `Backspace`
/// takes away; `Enter` keeps the query. None of them touches the task list, the selection,
/// the sort or the filter.
pub proof fn law_typing_edits_the_query(a: App, b: App, key: KeyEvent, c: char)
    requires
        a.mode == Mode::Search,
        App::does(a, b, key),
        !key.modifiers.control && !key.modifiers.alt,
    ensures
        pressed(key, KeyCode::Char(c)) ==> b.view.search@ == a.view.search@.push(c) && b.mode
            == Mode::Search,
        pressed(key, KeyCode::Backspace) && a.view.search@.len() > 0 ==> b.view.search@
            == a.view.search@.drop_last() && b.mode == Mode::Search,
        pressed(key, KeyCode::Enter) ==> b.view.search@ == a.view.search@ && b.mode
            == Mode::Normal,
        b.tasks == a.tasks,
        b.selected == a.selected,
        b.view.sort_key == a.view.sort_key,
        b.view.sort_dir == a.view.sort_dir,
        b.view.filter == a.view.filter,
        !b.quit || a.quit,
{
}

/// In the dialog `Tab`, the arrows sideways and their letters change the button in focus and
/// nothing else, and twice changes it back.
pub proof fn law_what_the_focus_keys_do(a: App, code: KeyCode)
    requires
        code == KeyCode::Tab || code == KeyCode::Left || code == KeyCode::Right || code
            == KeyCode::Char('h') || code == KeyCode::Char('l'),
    ensures
        a.after_confirm_key(code).confirm_focus != a.confirm_focus,
        a.after_confirm_key(code).after_confirm_key(code).confirm_focus == a.confirm_focus,
        a.after_confirm_key(code) == (App {
            confirm_focus: a.after_confirm_key(code).confirm_focus,
            ..a
        }),
{
}

/// `y`, and `Enter` on the Delete button, hand over the plan on screen and close the dialog.
pub proof fn law_a_confirmed_plan_is_the_one_on_screen(a: App, code: KeyCode)
    requires
        code == KeyCode::Char('y') || (code == KeyCode::Enter && a.confirm_focus
            == ConfirmFocus::Delete),
        a.pending_delete is Some,
    ensures
        a.after_confirm_key(code).mode == Mode::Normal,
        a.after_confirm_key(code).confirmed_delete == a.pending_delete,
        a.after_confirm_key(code).pending_delete is None,
        a.after_confirm_key(code).tasks == a.tasks,
        a.after_confirm_key(code).selected == a.selected,
{
}

/// The dialog scrolls a line at a time, to its first line and to its last, and never beyond
/// the two lines that each item has.
pub proof fn law_the_dialog_scrolls_within_its_lines(a: App, plan: DeletePlan)
    requires
        a.pending_delete == Some(plan),
        0 < 2 * plan.items@.len() <= usize::MAX,
        a.confirm_scroll < 2 * plan.items@.len(),
    ensures
        ({
            let lines = 2 * plan.items@.len() as int;
            let at = a.confirm_scroll as int;
            &&& a.after_confirm_key(KeyCode::Down).confirm_scroll == row_reached(at, 1, lines)
            &&& a.after_confirm_key(KeyCode::Char('j')).confirm_scroll == row_reached(at, 1, lines)
            &&& a.after_confirm_key(KeyCode::Up).confirm_scroll == row_reached(at, -1, lines)
            &&& a.after_confirm_key(KeyCode::Char('k')).confirm_scroll == row_reached(at, -1, lines)
            &&& a.after_confirm_key(KeyCode::Home).confirm_scroll == 0
            &&& a.after_confirm_key(KeyCode::End).confirm_scroll == lines - 1
            &&& a.after_confirm_key(KeyCode::PageDown).confirm_scroll < lines
            &&& a.after_confirm_key(KeyCode::PageUp).confirm_scroll <= at
        }),
{
    assert(a.confirm_lines() == 2 * plan.items@.len());
}

/// A batch keeps the items that did not go through, all of them and in order: one that did
/// adds nothing, one that did not is the last of them, and the first item of a batch starts
/// anew.
pub proof fn law_problems_are_kept(
    a: App,
    b: App,
    op: OpKind,
    done: usize,
    total: usize,
    item: ItemReport,
)
    requires
        App::applies(a, b, AppEvent::OpProgress { op, done, total, item }),
    ensures
        done > 1 && item.outcome is Done ==> b.op_problems@ == a.op_problems@,
        done > 1 && !(item.outcome is Done) ==> b.op_problems@ == a.op_problems@.push(item),
        done <= 1 && item.outcome is Done ==> b.op_problems@.len() == 0,
        done <= 1 && !(item.outcome is Done) ==> b.op_problems@ == seq![item],
{
}

/// What a batch reports is what it was told: the counts, and the problems of its items.
pub proof fn law_a_report_says_what_happened(
    a: App,
    b: App,
    op: OpKind,
    succeeded: usize,
    skipped: usize,
    failed: usize,
)
    requires
        App::applies(a, b, AppEvent::OpDone { op, succeeded, skipped, failed }),
    ensures
        b.op_report matches Some(report) && report.op == op && report.succeeded == succeeded
            && report.skipped == skipped && report.failed == failed && report.problems@
            == a.op_problems@,
        a.mode == Mode::Normal && a.op_problems@.len() > 0 ==> b.mode == Mode::Results,
        a.op_problems@.len() == 0 ==> b.mode == a.mode,
{
}

/// The sizes of tasks add up: those of two lists together are those of each, and that of one
/// is its size.
pub proof fn law_sizes_add_up(a: Seq<Task>, b: Seq<Task>, task: Task)
    ensures
        size_of_tasks(a + b) == size_of_tasks(a) + size_of_tasks(b),
        size_of_tasks(seq![task]) == task.size,
    decreases b.len(),
{
    reveal_with_fuel(size_of_tasks, 2);
    assert(seq![task].drop_last() =~= Seq::<Task>::empty());
    if b.len() == 0 {
        assert(a + b =~= a);
    } else {
        law_sizes_add_up(a, b.drop_last(), task);
        assert((a + b).drop_last() =~= a + b.drop_last());
    }
}

/// A failed refresh is shown and changes nothing else: the list stays as it was read last.
pub proof fn law_a_failed_refresh_keeps_the_list(a: App, b: App, message: String)
    requires
        App::applies(a, b, AppEvent::Error(message)),
    ensures
        b.error matches Some(text) && text@ == message@,
        b == (App { error: b.error, ..a }),
{
}

/// A cursor whose task is gone keeps its place, or goes to the last row where the list has
/// become too short for that.
pub proof fn law_a_lost_cursor_keeps_its_place(changed: App, id: Option<Seq<char>>)
    requires
        id is Some ==> !changed.on_screen(id->0),
        changed.rows().len() > 0,
    ensures
        changed.cursor < changed.rows().len() ==> changed.reseated(id).cursor == changed.cursor,
        changed.cursor >= changed.rows().len() ==> changed.reseated(id).cursor
            == changed.rows().len() - 1,
{
    assert(changed.tasks@.len() == changed.tasks.len());
    law_rows_are_shown(changed.tasks@, changed.view);
    if let Some(i) = id {
        lemma_row_with_id(changed.tasks@, changed.rows(), i, 0);
    }
}

/// What is asked for is what the target says: the plan of a delete has one item for each
/// task of the target, in order, and a pause or a resume names each of them.
pub proof fn law_a_request_covers_the_target(a: App, b: App, key: KeyEvent, i: int)
    requires
        a.mode == Mode::Normal,
        !a.op_in_flight,
        0 <= i < a.targets().len(),
        App::does(a, b, key),
    ensures
        pressed(key, KeyCode::Char('d')) ==> b.pending_delete is Some
            && b.pending_delete->0.items@.len() == a.targets().len()
            && b.pending_delete->0.items@[i].id@ == a.targets()[i].id@ && snapshot_of(
            a.targets()[i],
            b.pending_delete->0.items@[i],
        ),
        pressed(key, KeyCode::Char('p')) || pressed(key, KeyCode::Char('u')) ==> b.requested_op
            is Some && b.requested_op->0.tasks@.len() == a.targets().len()
            && b.requested_op->0.tasks@[i].id@ == a.targets()[i].id@
            && b.requested_op->0.tasks@[i].title@ == a.targets()[i].title@,
{
    if pressed(key, KeyCode::Char('d')) {
        assert(snapshot_of(a.targets()[i], b.pending_delete->0.items@[i]));
    }
    if pressed(key, KeyCode::Char('p')) || pressed(key, KeyCode::Char('u')) {
        assert(b.requested_op->0.tasks@[i].id@ == a.targets()[i].id@);
    }
}

/// The results modal: `q`, `v`, `Space`, `Esc` and `Enter` close it and keep the report; it
/// scrolls a line at a time, to its first line and to its last, and never beyond the two
/// lines that each problem has. No key of it touches anything else.
pub proof fn law_what_the_results_keys_do(a: App, b: App, report: OpReport, key: KeyEvent)
    requires
        a.mode == Mode::Results,
        a.op_report == Some(report),
        0 < 2 * report.problems@.len() <= usize::MAX,
        a.results_scroll < 2 * report.problems@.len(),
        key.kind == KeyEventKind::Press,
        !key.modifiers.control,
        App::does(a, b, key),
    ensures
        ({
            let code = key.code;
            let lines = 2 * report.problems@.len() as int;
            let at = a.results_scroll as int;
            let closing = code == KeyCode::Char('q') || code == KeyCode::Char('v') || code
                == KeyCode::Char(' ') || code == KeyCode::Esc || code == KeyCode::Enter;
            &&& closing <==> b.mode == Mode::Normal
            &&& !closing ==> b.mode == Mode::Results
            &&& code == KeyCode::Down || code == KeyCode::Char('j') ==> b.results_scroll
                == row_reached(at, 1, lines)
            &&& code == KeyCode::Up || code == KeyCode::Char('k') ==> b.results_scroll
                == row_reached(at, -1, lines)
            &&& code == KeyCode::Home ==> b.results_scroll == 0
            &&& code == KeyCode::End ==> b.results_scroll == lines - 1
            &&& b.results_scroll < lines
            &&& b == (App { mode: b.mode, results_scroll: b.results_scroll, ..a })
        }),
{
    assert(a.results_lines() == 2 * report.problems@.len());
}

/// A summary names each kind of outcome that there was, with its number, in a fixed order,
/// and no other; and it is marked where anything failed, and only there.
pub proof fn law_a_summary_names_what_there_was(
    op: OpKind,
    succeeded: nat,
    skipped: nat,
    failed: nat,
)
    ensures
        ({
            let parts = summary_parts(succeeded, skipped, failed);
            let text = summary_text(op, succeeded, skipped, failed);
            let rest = op.name() + " finished: "@ + joined(parts, ", "@);
            &&& succeeded > 0 <==> parts.contains(decimal(succeeded) + " succeeded"@)
            &&& skipped > 0 <==> parts.contains(decimal(skipped) + " skipped"@)
            &&& failed > 0 <==> parts.contains(decimal(failed) + " failed"@)
            &&& parts.len() == 1 || parts.len() == (if succeeded > 0 {
                1int
            } else {
                0
            }) + (if skipped > 0 {
                1int
            } else {
                0
            }) + (if failed > 0 {
                1int
            } else {
                0
            })
            &&& failed == 0 ==> text == rest
            &&& failed > 0 ==> text == "⚠ "@ + rest
        }),
{
    let parts = summary_parts(succeeded, skipped, failed);
    let first = decimal(succeeded) + " succeeded"@;
    let second = decimal(skipped) + " skipped"@;
    let third = decimal(failed) + " failed"@;
    reveal_strlit(" succeeded");
    reveal_strlit(" skipped");
    reveal_strlit(" failed");
    reveal_strlit("nothing to do");
    let none = "nothing to do"@;
    assert(first[first.len() - 3] == 'd');
    assert(second[second.len() - 3] == 'p');
    assert(third[third.len() - 3] == 'l');
    assert(none[none.len() - 1] == 'o');
    assert(first.last() == 'd' && second.last() == 'd' && third.last() == 'd');
    let n: int = if succeeded > 0 {
        1
    } else {
        0
    };
    let m: int = if skipped > 0 {
        n + 1
    } else {
        n
    };
    if succeeded > 0 {
        assert(parts[0] == first);
    }
    if skipped > 0 {
        assert(parts[n] == second);
    }
    if failed > 0 {
        assert(parts[m] == third);
    }
    assert(Seq::<char>::empty() + op.name() =~= op.name());
    let text = summary_text(op, succeeded, skipped, failed);
    let rest = op.name() + " finished: "@ + joined(parts, ", "@);
    if failed > 0 {
        assert(text =~= "⚠ "@ + rest);
    }
}

} // verus!
