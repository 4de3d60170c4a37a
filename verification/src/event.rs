//! What background work reports back, and the decisions it makes on the way.
//!
//! * **The poller is non-fatal.** A failed task poll is reported as
//!   [`AppEvent::Error`]; the next successful one clears the banner.
//! * **The storage half of a poll reports nothing when it fails**, see
//!   [`settle_storage`].
//! * Operations report one [`AppEvent::OpProgress`] per item and one
//!   [`AppEvent::OpDone`] at the end.

use vstd::prelude::*;
use vstd::string::StringExecFns;
use crate::api::download_station::{
    check_task_result, law_a_task_is_judged_by_its_own_entry, task_trouble, TaskOpResult,
};
use crate::api::file_station::{
    PathInfo, VolumeUsage, FS_LIST_API, FS_PERMISSION_DENIED,
};
use crate::delete::{
    counters_full, implies_payload, pause_required, payload_expected, payload_should_exist,
    requires_pause, status_implies_payload, DeleteItem, ExpectedKind, PayloadState,
};
use crate::error::{dsm_text, prefixed, Error, PERMISSION_DENIED_CODE};
use crate::model::{Task, TaskStatus};
use crate::table::TextSet;
use crate::text::{decimal_int, same_text};

verus! {

/// How many events may queue before a sender has to wait.
pub const EVENT_CHANNEL_CAPACITY: usize = 64;

/// How often the poller may ask the NAS how full its volumes are, in milliseconds.
pub const STORAGE_INTERVAL_MS: u64 = 60000;

/// Permission-shaped refusals in a row it takes to stop asking for the rest of the run.
pub const STORAGE_REFUSALS_BEFORE_GIVING_UP: u8 = 2;

/// How long a paused task is given to actually report itself paused, in milliseconds.
pub const PAUSE_CONFIRM_TIMEOUT_MS: u64 = 60000;

/// How often the pause is re-checked, in milliseconds.
pub const PAUSE_CONFIRM_INTERVAL_MS: u64 = 500;

// ---------------------------------------------------------------------------
// Operations and their outcomes
// ---------------------------------------------------------------------------

/// Which long-running operation an event is talking about.
#[derive(Debug, Clone, Copy, PartialEq, Eq, Hash, Structural)]
pub enum OpKind {
    Delete,
    Pause,
    Resume,
}

impl OpKind {
    /// How the operation is named.
    pub open spec fn name(self) -> Seq<char> {
        match self {
            OpKind::Delete => "delete"@,
            OpKind::Pause => "pause"@,
            OpKind::Resume => "resume"@,
        }
    }

    /// How one finished item of the operation reads.
    pub open spec fn past(self) -> Seq<char> {
        match self {
            OpKind::Delete => "deleted"@,
            OpKind::Pause => "paused"@,
            OpKind::Resume => "resumed"@,
        }
    }

    /// How the operation is named in the footer.
    pub fn label(self) -> (text: &'static str)
        ensures
            text@ == self.name(),
    {
        match self {
            OpKind::Delete => "delete",
            OpKind::Pause => "pause",
            OpKind::Resume => "resume",
        }
    }

    /// How one *finished* item of the operation reads.
    pub fn past_tense(self) -> (text: &'static str)
        ensures
            text@ == self.past(),
    {
        match self {
            OpKind::Delete => "deleted",
            OpKind::Pause => "paused",
            OpKind::Resume => "resumed",
        }
    }
}

/// The operations that act on tasks without a plan. A delete carries an ordering and
/// has no variant here.
#[derive(Debug, Clone, Copy, PartialEq, Eq, Structural)]
pub enum TaskOp {
    Pause,
    Resume,
}

impl TaskOp {
    /// The operation as it is reported.
    pub open spec fn reported(self) -> OpKind {
        match self {
            TaskOp::Pause => OpKind::Pause,
            TaskOp::Resume => OpKind::Resume,
        }
    }

    /// How the operation is reported to the user.
    pub fn kind(self) -> (kind: OpKind)
        ensures
            kind == self.reported(),
    {
        match self {
            TaskOp::Pause => OpKind::Pause,
            TaskOp::Resume => OpKind::Resume,
        }
    }

    /// How the operation is named in a message.
    pub fn label(self) -> (text: &'static str)
        ensures
            text@ == self.reported().name(),
    {
        self.kind().label()
    }
}

/// Just enough of a task to act on it and to say which one it was.
#[derive(Debug, Clone, PartialEq, Eq)]
pub struct TaskRef {
    pub id: String,
    pub title: String,
}

/// What happened to one item of a batch.
#[derive(Debug, Clone, PartialEq, Eq)]
pub enum ItemOutcome {
    /// Everything the operation asked for was done.
    Done(String),
    /// Deliberately not acted on. **Nothing was changed on the NAS.**
    Skipped(String),
    /// A phase failed; every later phase for this item was cancelled.
    Failed(String),
}

impl ItemOutcome {
    /// How the outcome reads.
    pub open spec fn text(self) -> Seq<char> {
        match self {
            ItemOutcome::Done(what) => what@,
            ItemOutcome::Skipped(why) => "skipped — "@ + why@,
            ItemOutcome::Failed(why) => "FAILED — "@ + why@,
        }
    }

    /// A plain success in the operation's past tense.
    pub fn done(op: OpKind) -> (outcome: Self)
        ensures
            outcome matches ItemOutcome::Done(what) && what@ == op.past(),
    {
        ItemOutcome::Done(op.past_tense().to_owned())
    }

    /// How the outcome reads in the footer.
    pub fn detail(&self) -> (text: String)
        ensures
            text@ == self.text(),
    {
        match self {
            ItemOutcome::Done(what) => what.clone(),
            ItemOutcome::Skipped(why) => prefixed("skipped — ", why.as_str()),
            ItemOutcome::Failed(why) => prefixed("FAILED — ", why.as_str()),
        }
    }

    /// Why this item did not plainly succeed, or `None` when it did.
    pub fn problem(&self) -> (why: Option<&str>)
        ensures
            match self {
                ItemOutcome::Done(_) => why is None,
                ItemOutcome::Skipped(text) => why matches Some(w) && w@ == text@,
                ItemOutcome::Failed(text) => why matches Some(w) && w@ == text@,
            },
    {
        match self {
            ItemOutcome::Done(_) => None,
            ItemOutcome::Skipped(why) => Some(why.as_str()),
            ItemOutcome::Failed(why) => Some(why.as_str()),
        }
    }

    /// Whether this is a failure rather than a deliberate skip.
    pub fn is_failure(&self) -> (yes: bool)
        ensures
            yes == (*self is Failed),
    {
        match self {
            ItemOutcome::Failed(_) => true,
            _ => false,
        }
    }

    /// The same outcome again.
    pub fn copy(&self) -> (outcome: ItemOutcome)
        ensures
            outcome == *self,
    {
        match self {
            ItemOutcome::Done(what) => ItemOutcome::Done(what.clone()),
            ItemOutcome::Skipped(why) => ItemOutcome::Skipped(why.clone()),
            ItemOutcome::Failed(why) => ItemOutcome::Failed(why.clone()),
        }
    }
}

/// One finished item of a batch: which task, and what became of it.
#[derive(Debug, Clone, PartialEq, Eq)]
pub struct ItemReport {
    pub title: String,
    pub outcome: ItemOutcome,
}

impl ItemReport {
    pub fn new(title: &str, outcome: ItemOutcome) -> (report: Self)
        ensures
            report.title@ == title@,
            report.outcome == outcome,
    {
        ItemReport { title: title.to_owned(), outcome }
    }

    /// What it was, then what happened to it.
    pub open spec fn text(self) -> Seq<char> {
        self.title@ + ": "@ + self.outcome.text()
    }

    /// The one-line footer form: what it was, then what happened to it.
    pub fn detail(&self) -> (text: String)
        ensures
            text@ == self.text(),
    {
        let mut text = self.title.clone();
        let what = self.outcome.detail();
        text.append(": ");
        text.append(what.as_str());
        text
    }
}

/// Anything that happens to the application other than a key press.
#[derive(Debug, Clone, PartialEq, Eq)]
pub enum AppEvent {
    /// A fresh task list from the poller or a manual refresh.
    Tasks(Vec<Task>),
    /// A non-fatal failure to report in the footer.
    Error(String),
    /// One step of a multi-task operation finished.
    OpProgress {
        op: OpKind,
        /// How many items of the batch are done.
        done: usize,
        /// How many items the batch has.
        total: usize,
        /// Which item finished and what happened to it.
        item: ItemReport,
    },
    /// How full the NAS's volumes are. Display only, and never fatal.
    Storage(Vec<VolumeUsage>),
    /// A whole operation finished.
    OpDone { op: OpKind, succeeded: usize, skipped: usize, failed: usize },
}

// ---------------------------------------------------------------------------
// Counting a batch
// ---------------------------------------------------------------------------

/// How many outcomes of a list were done.
pub open spec fn count_done(list: Seq<ItemOutcome>) -> nat
    decreases list.len(),
{
    if list.len() == 0 {
        0
    } else {
        count_done(list.drop_last()) + if list.last() is Done {
            1nat
        } else {
            0
        }
    }
}

/// How many outcomes of a list were skipped.
pub open spec fn count_skipped(list: Seq<ItemOutcome>) -> nat
    decreases list.len(),
{
    if list.len() == 0 {
        0
    } else {
        count_skipped(list.drop_last()) + if list.last() is Skipped {
            1nat
        } else {
            0
        }
    }
}

/// How many outcomes of a list failed.
pub open spec fn count_failed(list: Seq<ItemOutcome>) -> nat
    decreases list.len(),
{
    if list.len() == 0 {
        0
    } else {
        count_failed(list.drop_last()) + if list.last() is Failed {
            1nat
        } else {
            0
        }
    }
}

/// Every outcome is counted once.
pub proof fn law_every_outcome_is_counted_once(list: Seq<ItemOutcome>)
    ensures
        count_done(list) + count_skipped(list) + count_failed(list) == list.len(),
    decreases list.len(),
{
    if list.len() > 0 {
        law_every_outcome_is_counted_once(list.drop_last());
    }
}

/// The running counts of a batch, so that the summary cannot disagree with the per-item
/// lines that produced it.
#[derive(Debug, Clone, Copy, PartialEq, Eq)]
pub struct BatchTally {
    pub succeeded: usize,
    pub skipped: usize,
    pub failed: usize,
}

impl Default for BatchTally {
    /// Nothing counted yet.
    fn default() -> (tally: Self)
        ensures
            tally == (BatchTally { succeeded: 0, skipped: 0, failed: 0 }),
    {
        BatchTally { succeeded: 0, skipped: 0, failed: 0 }
    }
}

impl BatchTally {
    /// Whether the counts are those of a list of outcomes.
    pub open spec fn counts(self, list: Seq<ItemOutcome>) -> bool {
        &&& self.succeeded == count_done(list)
        &&& self.skipped == count_skipped(list)
        &&& self.failed == count_failed(list)
    }

    /// Count one item.
    pub fn record(&mut self, outcome: &ItemOutcome)
        requires
            old(self).succeeded < usize::MAX,
            old(self).skipped < usize::MAX,
            old(self).failed < usize::MAX,
        ensures
            *final(self) == (match outcome {
                ItemOutcome::Done(_) => BatchTally {
                    succeeded: (old(self).succeeded + 1) as usize,
                    ..*old(self)
                },
                ItemOutcome::Skipped(_) => BatchTally {
                    skipped: (old(self).skipped + 1) as usize,
                    ..*old(self)
                },
                ItemOutcome::Failed(_) => BatchTally {
                    failed: (old(self).failed + 1) as usize,
                    ..*old(self)
                },
            }),
            forall|list: Seq<ItemOutcome>| #[trigger]
                old(self).counts(list) ==> final(self).counts(list.push(*outcome)),
    {
        match outcome {
            ItemOutcome::Done(_) => {
                self.succeeded += 1;
            },
            ItemOutcome::Skipped(_) => {
                self.skipped += 1;
            },
            ItemOutcome::Failed(_) => {
                self.failed += 1;
            },
        }
        proof {
            assert forall|list: Seq<ItemOutcome>| #[trigger] old(self).counts(list) implies self.counts(
                list.push(*outcome),
            ) by {
                assert(list.push(*outcome).drop_last() =~= list);
            }
        }
    }

    /// The summary event for a finished batch.
    pub fn done_event(self, op: OpKind) -> (event: AppEvent)
        ensures
            event == (AppEvent::OpDone {
                op,
                succeeded: self.succeeded,
                skipped: self.skipped,
                failed: self.failed,
            }),
    {
        AppEvent::OpDone {
            op,
            succeeded: self.succeeded,
            skipped: self.skipped,
            failed: self.failed,
        }
    }
}

/// Whether an event reports item `i` of a batch.
pub open spec fn reports_item(
    op: OpKind,
    i: int,
    total: int,
    title: Seq<char>,
    outcome: ItemOutcome,
    event: AppEvent,
) -> bool {
    event matches AppEvent::OpProgress { op: o, done, total: t, item } && o == op && done == i + 1
        && t == total && item.title@ == title && item.outcome == outcome
}

/// Whether an event reports the end of a batch that came to these outcomes.
pub open spec fn reports_end(op: OpKind, outcomes: Seq<ItemOutcome>, event: AppEvent) -> bool {
    event matches AppEvent::OpDone { op: o, succeeded, skipped, failed } && o == op && succeeded
        == count_done(outcomes) && skipped == count_skipped(outcomes) && failed == count_failed(
        outcomes,
    )
}

/// Reports a batch as it goes: one event per finished item, then the summary.
#[derive(Debug, Clone, Copy, PartialEq, Eq)]
pub struct BatchReport {
    pub op: OpKind,
    /// How many items the batch has.
    pub total: usize,
    /// How many were reported.
    pub done: usize,
    pub tally: BatchTally,
}

impl BatchReport {
    /// Whether as many items were counted as were reported.
    pub open spec fn wf(self) -> bool {
        self.tally.succeeded + self.tally.skipped + self.tally.failed == self.done
            && self.done <= self.total
    }

    /// Whether exactly these outcomes were reported so far.
    pub open spec fn covers(self, outcomes: Seq<ItemOutcome>) -> bool {
        &&& self.done == outcomes.len()
        &&& self.done <= self.total
        &&& self.tally.counts(outcomes)
    }

    /// A batch of `total` items, none of them finished.
    pub fn new(op: OpKind, total: usize) -> (report: Self)
        ensures
            report.op == op,
            report.total == total,
            report.wf(),
            report.covers(Seq::empty()),
    {
        BatchReport { op, total, done: 0, tally: BatchTally::default() }
    }

    /// Report one finished item.
    pub fn item(&mut self, title: &str, outcome: ItemOutcome) -> (event: AppEvent)
        requires
            old(self).wf(),
            old(self).done < old(self).total,
        ensures
            final(self).wf(),
            final(self).done == old(self).done + 1,
            final(self).op == old(self).op,
            final(self).total == old(self).total,
            forall|outcomes: Seq<ItemOutcome>| #[trigger]
                old(self).covers(outcomes) ==> final(self).covers(outcomes.push(outcome)),
            reports_item(
                old(self).op,
                old(self).done as int,
                old(self).total as int,
                title@,
                outcome,
                event,
            ),
    {
        self.tally.record(&outcome);
        self.done += 1;
        AppEvent::OpProgress {
            op: self.op,
            done: self.done,
            total: self.total,
            item: ItemReport::new(title, outcome),
        }
    }

    /// Report the end of the batch.
    pub fn end(self) -> (event: AppEvent)
        ensures
            forall|outcomes: Seq<ItemOutcome>| #[trigger]
                self.covers(outcomes) ==> reports_end(self.op, outcomes, event),
    {
        self.tally.done_event(self.op)
    }
}

/// The events that report a finished batch: one per item, in order, then the summary.
pub open spec fn reports_batch(
    op: OpKind,
    tasks: Seq<TaskRef>,
    outcomes: Seq<ItemOutcome>,
    events: Seq<AppEvent>,
) -> bool {
    &&& events.len() == tasks.len() + 1
    &&& forall|i: int|
        0 <= i < tasks.len() ==> reports_item(
            op,
            i,
            tasks.len() as int,
            tasks[i].title@,
            outcomes[i],
            #[trigger] events[i],
        )
    &&& reports_end(op, outcomes, events.last())
}

/// The events that report a finished batch.
pub fn batch_events(op: OpKind, tasks: &Vec<TaskRef>, outcomes: &Vec<ItemOutcome>) -> (events: Vec<
    AppEvent,
>)
    requires
        tasks@.len() == outcomes@.len(),
    ensures
        reports_batch(op, tasks@, outcomes@, events@),
{
    let total: usize = tasks.len();
    let mut report = BatchReport::new(op, total);
    let mut events: Vec<AppEvent> = Vec::new();
    let mut i: usize = 0;
    proof {
        assert(outcomes@.take(0) =~= Seq::<ItemOutcome>::empty());
    }
    while i < total
        invariant
            i <= total,
            total == tasks@.len(),
            total == outcomes@.len(),
            events@.len() == i,
            report.op == op,
            report.total == total,
            report.wf(),
            report.covers(outcomes@.take(i as int)),
            forall|k: int|
                0 <= k < i ==> reports_item(
                    op,
                    k,
                    total as int,
                    tasks@[k].title@,
                    outcomes@[k],
                    #[trigger] events@[k],
                ),
        decreases total - i,
    {
        proof {
            assert(outcomes@.take(i + 1) =~= outcomes@.take(i as int).push(outcomes@[i as int]));
        }
        let event = report.item(tasks[i].title.as_str(), outcomes[i].copy());
        events.push(event);
        i += 1;
    }
    proof {
        assert(outcomes@.take(i as int) =~= outcomes@);
    }
    events.push(report.end());
    events
}

// ---------------------------------------------------------------------------
// Pause and resume
// ---------------------------------------------------------------------------

/// Whether an outcome is what a result array says of one task.
pub open spec fn outcome_of_results(
    op: OpKind,
    id: Seq<char>,
    results: Seq<TaskOpResult>,
    outcome: ItemOutcome,
) -> bool {
    match task_trouble(id, results) {
        None => outcome matches ItemOutcome::Done(what) && what@ == op.past(),
        Some(trouble) => outcome matches ItemOutcome::Failed(why) && why@ == trouble,
    }
}

/// What one task's entry in a `pause` / `resume` result array means. An id the NAS
/// reported nothing for is a failure.
pub fn task_op_outcome(op: OpKind, id: &str, results: &[TaskOpResult]) -> (outcome: ItemOutcome)
    ensures
        outcome_of_results(op, id@, results@, outcome),
{
    match check_task_result(id, results) {
        Ok(()) => ItemOutcome::done(op),
        Err(err) => ItemOutcome::Failed(err.message()),
    }
}

/// What a pause or resume does first.
#[derive(Debug, Clone, PartialEq, Eq)]
pub enum TaskOpStart {
    /// Nothing: there is no task to act on.
    Nothing,
    /// Report these outcomes without asking the NAS for anything.
    Report(Vec<ItemOutcome>),
    /// One call for these ids.
    Call(Vec<String>),
}

/// What a dry run of an operation says of an item.
pub open spec fn dry_run_text(op: TaskOp) -> Seq<char> {
    "dry run — would "@ + op.reported().name() + " this"@ + " task"@
}

/// What a pause or resume does first: an empty batch makes no call and reports nothing,
/// a dry run reports every item skipped, and anything else is **one round trip for the
/// whole batch**.
pub fn begin_task_op(op: TaskOp, tasks: &Vec<TaskRef>, dry_run: bool) -> (start: TaskOpStart)
    ensures
        if tasks@.len() == 0 {
            start is Nothing
        } else if dry_run {
            start matches TaskOpStart::Report(outcomes) && outcomes@.len() == tasks@.len()
                && forall|i: int|
                0 <= i < outcomes@.len() ==> (#[trigger] outcomes@[i] matches ItemOutcome::Skipped(why)
                    && why@ == dry_run_text(op))
        } else {
            start matches TaskOpStart::Call(ids) && ids@.len() == tasks@.len() && forall|i: int|
                0 <= i < ids@.len() ==> (#[trigger] ids@[i])@ == tasks@[i].id@
        },
{
    if tasks.len() == 0 {
        return TaskOpStart::Nothing;
    }
    if dry_run {
        let mut outcomes: Vec<ItemOutcome> = Vec::new();
        let mut i: usize = 0;
        while i < tasks.len()
            invariant
                i <= tasks@.len(),
                outcomes@.len() == i,
                forall|k: int|
                    0 <= k < i ==> (#[trigger] outcomes@[k] matches ItemOutcome::Skipped(why)
                        && why@ == dry_run_text(op)),
            decreases tasks@.len() - i,
        {
            let mut why = prefixed("dry run — would ", op.label());
            why.append(" this");
            why.append(" task");
            outcomes.push(ItemOutcome::Skipped(why));
            i += 1;
        }
        return TaskOpStart::Report(outcomes);
    }
    let mut ids: Vec<String> = Vec::new();
    let mut i: usize = 0;
    while i < tasks.len()
        invariant
            i <= tasks@.len(),
            ids@.len() == i,
            forall|k: int| 0 <= k < i ==> (#[trigger] ids@[k])@ == tasks@[k].id@,
        decreases tasks@.len() - i,
    {
        ids.push(tasks[i].id.clone());
        i += 1;
    }
    TaskOpStart::Call(ids)
}

/// Whether outcomes are what the one call of a batch comes to: each task's own result,
/// or, where the call itself failed, that failure for every one.
pub open spec fn outcomes_of_call(
    op: TaskOp,
    tasks: Seq<TaskRef>,
    answer: Result<Vec<TaskOpResult>, Error>,
    outcomes: Seq<ItemOutcome>,
) -> bool {
    &&& outcomes.len() == tasks.len()
    &&& forall|i: int|
        0 <= i < tasks.len() ==> match answer {
            Ok(results) => outcome_of_results(
                op.reported(),
                tasks[i].id@,
                results@,
                #[trigger] outcomes[i],
            ),
            Err(err) => outcomes[i] matches ItemOutcome::Failed(why) && why@ == err.text(),
        }
}

/// What the one call of a batch comes to, item by item.
pub fn settle_task_op(op: TaskOp, tasks: &Vec<TaskRef>, answer: &Result<Vec<TaskOpResult>, Error>) -> (
outcomes: Vec<ItemOutcome>)
    ensures
        outcomes_of_call(op, tasks@, *answer, outcomes@),
{
    let mut outcomes: Vec<ItemOutcome> = Vec::new();
    let mut i: usize = 0;
    while i < tasks.len()
        invariant
            i <= tasks@.len(),
            outcomes@.len() == i,
            forall|k: int|
                0 <= k < i ==> match *answer {
                    Ok(results) => outcome_of_results(
                        op.reported(),
                        tasks@[k].id@,
                        results@,
                        #[trigger] outcomes@[k],
                    ),
                    Err(err) => outcomes@[k] matches ItemOutcome::Failed(why) && why@ == err.text(),
                },
        decreases tasks@.len() - i,
    {
        let outcome = match answer {
            Ok(results) => task_op_outcome(op.kind(), tasks[i].id.as_str(), results.as_slice()),
            Err(err) => ItemOutcome::Failed(err.message()),
        };
        outcomes.push(outcome);
        i += 1;
    }
    outcomes
}

// ---------------------------------------------------------------------------
// The poller
// ---------------------------------------------------------------------------

/// Whether an event is what a task poll comes to. Failure is data, not control flow.
pub open spec fn poll_event(answer: Result<Vec<Task>, Error>, event: AppEvent) -> bool {
    match answer {
        Ok(tasks) => event == AppEvent::Tasks(tasks),
        Err(err) => event matches AppEvent::Error(m) && m@ == "refresh failed: "@ + err.text(),
    }
}

/// What a task poll comes to.
pub fn settle_poll(answer: Result<Vec<Task>, Error>) -> (event: AppEvent)
    ensures
        poll_event(answer, event),
{
    match answer {
        Ok(tasks) => AppEvent::Tasks(tasks),
        Err(err) => {
            let text = err.message();
            AppEvent::Error(prefixed("refresh failed: ", text.as_str()))
        },
    }
}

/// The storage read's own clock, and its off switch. Times are milliseconds on one
/// clock.
#[derive(Debug, Clone, Copy, PartialEq, Eq)]
pub struct StorageSchedule {
    /// When a storage read was last **attempted**, successful or not.
    pub last_attempt: Option<u64>,
    /// Consecutive permission-shaped refusals.
    pub refusals: u8,
    /// Set once the read is given up for the rest of the run.
    pub given_up: bool,
}

impl StorageSchedule {
    pub fn new() -> (schedule: Self)
        ensures
            schedule == (StorageSchedule { last_attempt: None, refusals: 0, given_up: false }),
    {
        StorageSchedule { last_attempt: None, refusals: 0, given_up: false }
    }

    /// Whether a poll should read storage.
    pub open spec fn is_due(self, forced: bool, now: u64) -> bool {
        !self.given_up && (forced || match self.last_attempt {
            None => true,
            Some(at) => now - at >= STORAGE_INTERVAL_MS,
        })
    }

    /// Whether this poll should read storage. A forced one, which is an explicit
    /// refresh, skips the throttle but not the give-up.
    pub fn due(&self, forced: bool, now: u64) -> (yes: bool)
        ensures
            yes == self.is_due(forced, now),
    {
        !self.given_up && (forced || match self.last_attempt {
            None => true,
            Some(at) => now >= at && now - at >= STORAGE_INTERVAL_MS,
        })
    }

    /// Stamp the throttle. Called on **every** attempt, before its result is known.
    pub fn attempted(&mut self, now: u64)
        ensures
            *final(self) == (StorageSchedule { last_attempt: Some(now), ..*old(self) }),
    {
        self.last_attempt = Some(now);
    }

    /// The schedule after one more refusal.
    pub open spec fn after_refusal(self) -> StorageSchedule {
        let refusals: u8 = if self.refusals == u8::MAX {
            u8::MAX
        } else {
            (self.refusals + 1) as u8
        };
        StorageSchedule {
            refusals,
            given_up: refusals >= STORAGE_REFUSALS_BEFORE_GIVING_UP,
            ..self
        }
    }

    /// Record a permission-shaped refusal, and report whether that was the one that
    /// stops the storage read for the rest of this run.
    pub fn refused(&mut self) -> (stopped: bool)
        ensures
            *final(self) == old(self).after_refusal(),
            stopped == final(self).given_up,
    {
        self.refusals = if self.refusals == u8::MAX {
            u8::MAX
        } else {
            self.refusals + 1
        };
        self.given_up = self.refusals >= STORAGE_REFUSALS_BEFORE_GIVING_UP;
        self.given_up
    }

    /// Stop asking outright, without spending a refusal.
    pub fn give_up(&mut self)
        ensures
            *final(self) == (StorageSchedule { given_up: true, ..*old(self) }),
    {
        self.given_up = true;
    }

    /// A read that came back as anything other than a refusal. The count is of refusals
    /// **in a row**, so every other answer clears it.
    pub fn not_refused(&mut self)
        ensures
            *final(self) == (StorageSchedule { refusals: 0, ..*old(self) }),
    {
        self.refusals = 0;
    }
}

/// Whether a storage failure is a refusal about *who is asking*, sent by the storage
/// read's own API. The 400 range means something else on another API.
pub open spec fn refuses_storage(err: Error) -> bool {
    err matches Error::Dsm { code, api } && api@ == FS_LIST_API@ && (code == PERMISSION_DENIED_CODE
        || code == FS_PERMISSION_DENIED)
}

/// Whether a storage failure is a refusal about *who is asking*.
pub fn is_permission_refusal(err: &Error) -> (yes: bool)
    ensures
        yes == refuses_storage(*err),
{
    match err {
        Error::Dsm { code, api } => same_text(api.as_str(), FS_LIST_API) && (*code
            == PERMISSION_DENIED_CODE || *code == FS_PERMISSION_DENIED),
        _ => false,
    }
}

/// Whether a storage failure means the read can never succeed in this process.
pub fn is_unavailable(err: &Error) -> (yes: bool)
    ensures
        yes == (*err is ApiUnavailable),
{
    match err {
        Error::ApiUnavailable { .. } => true,
        _ => false,
    }
}

/// The schedule after a storage read that came to this.
pub open spec fn schedule_after(
    schedule: StorageSchedule,
    answer: Result<Vec<VolumeUsage>, Error>,
) -> StorageSchedule {
    match answer {
        Ok(_) => StorageSchedule { refusals: 0, ..schedule },
        Err(err) => if err is ApiUnavailable {
            StorageSchedule { given_up: true, ..schedule }
        } else if refuses_storage(err) {
            schedule.after_refusal()
        } else {
            StorageSchedule { refusals: 0, ..schedule }
        },
    }
}

/// What a storage read comes to: its volumes, or **nothing at all** where it failed. A
/// cosmetic read never raises the banner that says the NAS is unreachable.
///
/// A missing API gives up at once; a refusal gives up once it came twice in a row;
/// anything else is simply tried again.
pub fn settle_storage(schedule: &mut StorageSchedule, answer: Result<Vec<VolumeUsage>, Error>) -> (
event: Option<AppEvent>)
    ensures
        *final(schedule) == schedule_after(*old(schedule), answer),
        match answer {
            Ok(volumes) => event == Some(AppEvent::Storage(volumes)),
            Err(_) => event is None,
        },
{
    match answer {
        Ok(volumes) => {
            schedule.not_refused();
            Some(AppEvent::Storage(volumes))
        },
        Err(err) => {
            if is_unavailable(&err) {
                schedule.give_up();
            } else if is_permission_refusal(&err) {
                schedule.refused();
            } else {
                schedule.not_refused();
            }
            None
        },
    }
}

/// Whether a poll reads storage; where it does, the clock is stamped **before** the
/// result is known, so that a failure costs the same as a success.
pub fn begin_storage(schedule: &mut StorageSchedule, forced: bool, now: u64) -> (go: bool)
    ensures
        go == old(schedule).is_due(forced, now),
        *final(schedule) == if go {
            StorageSchedule { last_attempt: Some(now), ..*old(schedule) }
        } else {
            *old(schedule)
        },
{
    if !schedule.due(forced, now) {
        return false;
    }
    schedule.attempted(now);
    true
}

/// One storage read throttles the next, whatever came of it: until the interval has
/// passed, only an explicit refresh reads again.
pub proof fn law_a_read_throttles_the_next(
    schedule: StorageSchedule,
    now: u64,
    answer: Result<Vec<VolumeUsage>, Error>,
    later: u64,
)
    requires
        schedule.last_attempt == Some(now),
        later - now < STORAGE_INTERVAL_MS,
    ensures
        !schedule_after(schedule, answer).is_due(false, later),
{
}

/// Giving up is for good: no answer and no refresh brings the storage read back.
pub proof fn law_giving_up_is_for_good(
    schedule: StorageSchedule,
    answer: Result<Vec<VolumeUsage>, Error>,
    forced: bool,
    now: u64,
)
    requires
        schedule.given_up,
        schedule.refusals >= STORAGE_REFUSALS_BEFORE_GIVING_UP || !(answer matches Err(err)
            && refuses_storage(err)),
    ensures
        !schedule.is_due(forced, now),
        schedule_after(schedule, answer).given_up,
{
}

/// Only refusals in a row add up: after any other answer it takes as many again.
pub proof fn law_refusals_add_up_only_in_a_row(
    schedule: StorageSchedule,
    answer: Result<Vec<VolumeUsage>, Error>,
    refusal: Error,
)
    requires
        !schedule.given_up,
        !(answer matches Err(err) && (refuses_storage(err) || err is ApiUnavailable)),
        refuses_storage(refusal),
    ensures
        !schedule_after(schedule_after(schedule, answer), Err(refusal)).given_up,
        schedule_after(
            schedule_after(schedule_after(schedule, answer), Err(refusal)),
            Err(refusal),
        ).given_up,
{
}

// ---------------------------------------------------------------------------
// What this run deleted
// ---------------------------------------------------------------------------

/// The paths File Station has reported as **successfully deleted** during this run of
/// the program.
///
/// This is the memory that lets a *retry* tell "the files are gone because I removed
/// them a moment ago" from "the files were never where I am looking".
#[derive(Debug, PartialEq, Eq)]
pub struct DeletedPaths {
    paths: TextSet,
}

impl View for DeletedPaths {
    type V = Set<Seq<char>>;

    closed spec fn view(&self) -> Set<Seq<char>> {
        self.paths@
    }
}

impl Default for DeletedPaths {
    /// Nothing was deleted yet.
    fn default() -> (deleted: Self)
        ensures
            deleted@ == Set::<Seq<char>>::empty(),
    {
        DeletedPaths { paths: TextSet::new() }
    }
}

impl DeletedPaths {
    /// Remember that `path` was deleted, successfully, by this process.
    pub fn record(&mut self, path: &str)
        ensures
            final(self)@ == old(self)@.insert(path@),
    {
        self.paths.insert(path.to_owned());
    }

    /// Whether this process already deleted `path`.
    pub fn contains(&self, path: &str) -> (yes: bool)
        ensures
            yes == self@.contains(path@),
    {
        self.paths.contains(path)
    }
}

// ---------------------------------------------------------------------------
// The file phase
// ---------------------------------------------------------------------------

/// The result of one phase, as far as the ordering rule cares.
#[derive(Debug, Clone, PartialEq, Eq)]
pub enum OpOutcome {
    Done,
    /// The file phase found nothing at the resolved path. Not a failure: the later
    /// phases still run.
    NothingThere,
    Failed(String),
}

/// How a phase ended, without its representation.
pub enum Ending {
    Done,
    NothingThere,
    Failed(Seq<char>),
}

/// How a phase ended.
pub open spec fn ending(outcome: OpOutcome) -> Ending {
    match outcome {
        OpOutcome::Done => Ending::Done,
        OpOutcome::NothingThere => Ending::NothingThere,
        OpOutcome::Failed(why) => Ending::Failed(why@),
    }
}

/// What resolution worked out about the path being checked: whether anything named it,
/// and what should be found there.
#[derive(Debug, Clone, Copy, PartialEq, Eq)]
pub struct FileTarget {
    pub named: bool,
    pub expected_kind: ExpectedKind,
}

impl FileTarget {
    /// What the snapshot resolved for this item.
    pub fn of_item(item: &DeleteItem) -> (target: Self)
        ensures
            target == (FileTarget { named: item.named, expected_kind: item.expected_kind }),
    {
        FileTarget { named: item.named, expected_kind: item.expected_kind }
    }
}

/// How an object of this kind reads.
pub open spec fn object_text(is_dir: bool) -> Seq<char> {
    if is_dir {
        "a directory"@
    } else {
        "a file"@
    }
}

/// The text of a File Station code.
pub open spec fn list_error_text(code: i32) -> Seq<char> {
    FS_LIST_API@ + " failed: "@ + dsm_text(code, FS_LIST_API@) + " (DSM error "@ + decimal_int(
        code as int,
    ) + ")"@
}

/// The refusal of an object whose kind nothing determines.
pub open spec fn undetermined_text(path: Seq<char>) -> Seq<char> {
    "something is at "@ + path
        + ", but this"@ + " task's file list does not say whether its payload is a file or a directory — it names the same top-level entry more than once — so there is nothing to check what is there against; refusing to delete it recursively (use --no-delete-files to remove the task without touching the volume)"@
}

/// The refusal of an object of the wrong kind.
pub open spec fn wrong_kind_text(path: Seq<char>, is_dir: bool, kind: ExpectedKind) -> Seq<char> {
    path + " is "@ + object_text(is_dir) + ", but this"@ + " task's files say it should be "@ + kind.text()
        + " — the path is not this"@ + " task's payload, and deleting it recursively would remove something else; refusing (use --no-delete-files to remove the task without touching the volume)"@
}

/// The refusal of an absent path that nothing named.
pub open spec fn unnamed_text(path: Seq<char>) -> Seq<char> {
    "nothing at "@ + path
        + ", and nothing in the task names that path; refusing to delete the task (use --no-delete-files to remove the task anyway)"@
}

/// The refusal of an absent path whose payload should be there.
pub open spec fn misplaced_text(path: Seq<char>) -> Seq<char> {
    "nothing at "@ + path
        + ", but this"@ + " task has finished downloading, so its data should be there — the resolved location is more likely wrong than the files already gone; refusing to delete the task, which would leave no pointer to the payload (use --no-delete-files to remove the task anyway)"@
}

/// The failure of a lookup that answered with a code.
pub open spec fn unchecked_text(path: Seq<char>, code: i32) -> Seq<char> {
    "could not check "@ + path + ": "@ + list_error_text(code)
}

/// The failure of a lookup that could not be attributed.
pub open spec fn unattributed_text(path: Seq<char>) -> Seq<char> {
    "the NAS answered the existence check for "@ + path
        + " with nothing this client could attribute to that path; refusing to delete anything on a lookup it could not read"@
}

/// What the pre-delete existence check means for the file phase: go on and delete, the
/// benign absence of a payload, or a refusal with its reason.
pub open spec fn file_phase(
    info: PathInfo,
    path: Seq<char>,
    target: FileTarget,
    payload: PayloadState,
    already_deleted: bool,
) -> Ending {
    match info {
        PathInfo::Found { is_dir } => if target.expected_kind == ExpectedKind::Indeterminate {
            Ending::Failed(undetermined_text(path))
        } else if target.expected_kind.takes(is_dir) {
            Ending::Done
        } else {
            Ending::Failed(wrong_kind_text(path, is_dir, target.expected_kind))
        },
        PathInfo::Missing => if already_deleted {
            Ending::NothingThere
        } else if !target.named {
            Ending::Failed(unnamed_text(path))
        } else if !payload_expected(payload) {
            Ending::NothingThere
        } else {
            Ending::Failed(misplaced_text(path))
        },
        PathInfo::Error(code) => Ending::Failed(unchecked_text(path, code)),
        PathInfo::Unknown => Ending::Failed(unattributed_text(path)),
    }
}

/// The text of a File Station code.
fn list_error(code: i32) -> (text: String)
    ensures
        text@ == list_error_text(code),
{
    let err = Error::dsm(code, FS_LIST_API);
    err.message()
}

/// What the pre-delete existence check means for the file phase.
///
/// **An absent path is only benign when something explains the absence**: this run
/// already deleted that exact path, or the task's own counters say there is no payload
/// to have missed. **A path that exists is not automatically the right path**: an object
/// of another kind than the task resolved to is not its payload. **An error or an
/// unattributable answer is never read as absence.**
pub fn decide_file_phase(
    info: PathInfo,
    path: &str,
    target: FileTarget,
    payload: &PayloadState,
    already_deleted: bool,
) -> (outcome: OpOutcome)
    ensures
        ending(outcome) == file_phase(info, path@, target, *payload, already_deleted),
{
    match info {
        PathInfo::Found { is_dir } => {
            if target.expected_kind == ExpectedKind::Indeterminate {
                let mut why = prefixed("something is at ", path);
                why.append(", but this");
                why.append(" task's file list does not say whether its payload is a file or a directory — it names the same top-level entry more than once — so there is nothing to check what is there against; refusing to delete it recursively (use --no-delete-files to remove the task without touching the volume)");
                OpOutcome::Failed(why)
            } else if target.expected_kind.accepts(is_dir) {
                OpOutcome::Done
            } else {
                let mut why = prefixed(path, " is ");
                why.append(
                    if is_dir {
                        "a directory"
                    } else {
                        "a file"
                    },
                );
                why.append(", but this");
                why.append(" task's files say it should be ");
                why.append(target.expected_kind.label());
                why.append(" — the path is not this");
                why.append(" task's payload, and deleting it recursively would remove something else; refusing (use --no-delete-files to remove the task without touching the volume)");
                OpOutcome::Failed(why)
            }
        },
        PathInfo::Missing => {
            if already_deleted {
                OpOutcome::NothingThere
            } else if !target.named {
                let mut why = prefixed("nothing at ", path);
                why.append(
                    ", and nothing in the task names that path; refusing to delete the task (use --no-delete-files to remove the task anyway)",
                );
                OpOutcome::Failed(why)
            } else if !payload_should_exist(payload) {
                OpOutcome::NothingThere
            } else {
                let mut why = prefixed("nothing at ", path);
                why.append(", but this");
                why.append(" task has finished downloading, so its data should be there — the resolved location is more likely wrong than the files already gone; refusing to delete the task, which would leave no pointer to the payload (use --no-delete-files to remove the task anyway)");
                OpOutcome::Failed(why)
            }
        },
        PathInfo::Error(code) => {
            let mut why = prefixed("could not check ", path);
            let text = list_error(code);
            why.append(": ");
            why.append(text.as_str());
            OpOutcome::Failed(why)
        },
        PathInfo::Unknown => {
            let mut why = prefixed("the NAS answered the existence check for ", path);
            why.append(
                " with nothing this client could attribute to that path; refusing to delete anything on a lookup it could not read",
            );
            OpOutcome::Failed(why)
        },
    }
}

/// The failure of a delete that left its path there.
pub open spec fn still_there_text(path: Seq<char>) -> Seq<char> {
    "File Station reported the delete of "@ + path
        + " as finished but the path is still there — leaving the task in place (use --no-delete-files to remove the task without touching the files)"@
}

/// The failure of a re-check that answered with a code.
pub open spec fn recheck_error_text(path: Seq<char>, code: i32) -> Seq<char> {
    "File Station reported the delete of "@ + path
        + " as finished but the re-check answered with an error rather than an absence ("@
        + list_error_text(code)
        + ") — keeping the task, since that answer does not say the path is gone"@
}

/// What the post-delete re-check means.
pub open spec fn confirm_phase(info: PathInfo, path: Seq<char>) -> Ending {
    match info {
        PathInfo::Found { .. } => Ending::Failed(still_there_text(path)),
        PathInfo::Missing => Ending::Done,
        PathInfo::Error(code) => Ending::Failed(recheck_error_text(path, code)),
        PathInfo::Unknown => Ending::Done,
    }
}

/// What the post-delete re-check means. The **asymmetric twin** of
/// [`decide_file_phase`]: after a delete that reported itself finished, an answer that
/// stopped being attributable is a path that stopped being there. Still found, or an
/// error code, is the failure.
pub fn decide_confirm_phase(info: PathInfo, path: &str) -> (outcome: OpOutcome)
    ensures
        ending(outcome) == confirm_phase(info, path@),
{
    match info {
        PathInfo::Found { .. } => {
            let mut why = prefixed("File Station reported the delete of ", path);
            why.append(
                " as finished but the path is still there — leaving the task in place (use --no-delete-files to remove the task without touching the files)",
            );
            OpOutcome::Failed(why)
        },
        PathInfo::Missing => OpOutcome::Done,
        PathInfo::Error(code) => {
            let mut why = prefixed("File Station reported the delete of ", path);
            let text = list_error(code);
            why.append(
                " as finished but the re-check answered with an error rather than an absence (",
            );
            why.append(text.as_str());
            why.append(") — keeping the task, since that answer does not say the path is gone");
            OpOutcome::Failed(why)
        },
        PathInfo::Unknown => OpOutcome::Done,
    }
}

// ---------------------------------------------------------------------------
// What the pause phase learns
// ---------------------------------------------------------------------------

/// How much of its payload DSM said a task had written, at one moment.
#[derive(Debug, Clone, Copy, PartialEq, Eq)]
pub struct Counters {
    pub downloaded: u64,
    pub size: u64,
}

impl Counters {
    pub fn of_task(task: &Task) -> (counters: Self)
        ensures
            counters == (Counters { downloaded: task.downloaded, size: task.size }),
    {
        Counters { downloaded: task.downloaded, size: task.size }
    }

    pub fn of_item(item: &DeleteItem) -> (counters: Self)
        ensures
            counters == (Counters { downloaded: item.downloaded, size: item.size }),
    {
        Counters { downloaded: item.downloaded, size: item.size }
    }

    /// Whether everything was downloaded.
    pub open spec fn full(self) -> bool {
        counters_full(self.downloaded, self.size)
    }

    /// Whether everything was downloaded.
    pub fn complete(self) -> (yes: bool)
        ensures
            yes == self.full(),
    {
        self.size > 0 && self.downloaded >= self.size
    }

    /// A later read folded in: the later wins, unless only the earlier was complete.
    pub open spec fn advanced(self, later: Counters) -> Counters {
        if self.full() && !later.full() {
            self
        } else {
            later
        }
    }

    /// Fold in a **later** read of the same task. A read that said the payload was
    /// complete is never replaced by one that says it is not.
    pub fn advance(self, later: Counters) -> (counters: Counters)
        ensures
            counters == self.advanced(later),
    {
        if self.complete() && !later.complete() {
            self
        } else {
            later
        }
    }
}

/// Whether a pause is needed, given what DSM says about the task right now: an answer
/// without the task says nothing, and is never read as "it is idle".
pub open spec fn needs_pause(current: Option<Task>) -> bool {
    match current {
        Some(task) => pause_required(task.status),
        None => true,
    }
}

/// An optional task without its reference.
pub open spec fn task_seen(task: Option<&Task>) -> Option<Task> {
    match task {
        Some(t) => Some(*t),
        None => None,
    }
}

/// Whether a pause has to be issued at all, given what DSM says about the task **right
/// now**.
pub fn pause_needed(current: Option<&Task>) -> (yes: bool)
    ensures
        yes == needs_pause(task_seen(current)),
{
    match current {
        Some(task) => requires_pause(&task.status),
        None => true,
    }
}

/// The first task of this id.
pub open spec fn task_by_id(tasks: Seq<Task>, id: Seq<char>) -> Option<Task>
    decreases tasks.len(),
{
    if tasks.len() == 0 {
        None
    } else if tasks[0].id@ == id {
        Some(tasks[0])
    } else {
        task_by_id(tasks.skip(1), id)
    }
}

/// The entry for the id that was asked about, **never merely the first one**.
pub fn task_with_id<'a>(tasks: &'a [Task], id: &str) -> (found: Option<&'a Task>)
    ensures
        task_seen(found) == task_by_id(tasks@, id@),
{
    let mut i: usize = 0;
    proof {
        assert(tasks@.skip(0) =~= tasks@);
    }
    while i < tasks.len()
        invariant
            i <= tasks@.len(),
            task_by_id(tasks@, id@) == task_by_id(tasks@.skip(i as int), id@),
        decreases tasks@.len() - i,
    {
        proof {
            assert(tasks@.skip(i as int)[0] == tasks@[i as int]);
            assert(tasks@.skip(i as int).skip(1) =~= tasks@.skip(i + 1));
        }
        if same_text(tasks[i].id.as_str(), id) {
            return Some(&tasks[i]);
        }
        i += 1;
    }
    None
}

/// Everything known about the task by the time the file phase asks, in **two halves that
/// each ratchet toward "the payload must exist"**: the strongest status any read
/// reported, and the most complete counters.
#[derive(Debug, Clone, PartialEq, Eq)]
pub struct PauseRead {
    pub status: TaskStatus,
    pub counters: Counters,
}

impl PauseRead {
    /// The reading a confirmation snapshot starts from.
    pub open spec fn seed(item: DeleteItem) -> PauseRead {
        PauseRead {
            status: item.status,
            counters: Counters { downloaded: item.downloaded, size: item.size },
        }
    }

    /// Start the fold from the confirmation snapshot.
    pub fn seeded_from(item: &DeleteItem) -> (read: Self)
        ensures
            read == PauseRead::seed(*item),
    {
        PauseRead { status: item.status.copy(), counters: Counters::of_item(item) }
    }

    /// One read of the task folded in. A read without the task contributes nothing.
    pub open spec fn folded(self, task: Option<Task>) -> PauseRead {
        match task {
            Some(t) => PauseRead {
                status: if implies_payload(t.status) {
                    t.status
                } else {
                    self.status
                },
                counters: self.counters.advanced(
                    Counters { downloaded: t.downloaded, size: t.size },
                ),
            },
            None => self,
        }
    }

    /// Fold in one read of the task, and answer whether it is still active.
    ///
    /// Recording and asking are one operation deliberately: the read that finally
    /// reports the task stopped is also the freshest word on what it wrote.
    pub fn observe(&mut self, task: Option<&Task>) -> (active: bool)
        ensures
            *final(self) == old(self).folded(task_seen(task)),
            active == needs_pause(task_seen(task)),
    {
        if let Some(task) = task {
            if status_implies_payload(&task.status) {
                self.status = task.status.copy();
            }
            self.counters = self.counters.advance(Counters::of_task(task));
        }
        pause_needed(task)
    }

    /// What the folded reading says of the payload.
    pub open spec fn state(self) -> PayloadState {
        PayloadState {
            status: self.status,
            downloaded: self.counters.downloaded,
            size: self.counters.size,
        }
    }

    /// The folded answer, in the shape the file phase asks its question of.
    pub fn payload(&self) -> (state: PayloadState)
        ensures
            state == self.state(),
    {
        PayloadState {
            status: self.status.copy(),
            downloaded: self.counters.downloaded,
            size: self.counters.size,
        }
    }

    /// The same reading again.
    pub fn copy(&self) -> (read: PauseRead)
        ensures
            read == *self,
    {
        PauseRead { status: self.status.copy(), counters: self.counters }
    }
}

/// What the file phase asks "should the payload be there" of.
pub open spec fn payload_used(live: Option<PauseRead>, item: DeleteItem) -> PayloadState {
    match live {
        Some(read) => read.state(),
        None => PayloadState { status: item.status, downloaded: item.downloaded, size: item.size },
    }
}

/// Which read of the task the file phase asks "should the payload be there": the
/// ratcheted one, where a pause phase ran.
pub fn payload_for_file_phase(live: Option<&PauseRead>, item: &DeleteItem) -> (state: PayloadState)
    ensures
        state == payload_used(
            match live {
                Some(read) => Some(*read),
                None => None,
            },
            *item,
        ),
{
    match live {
        Some(read) => read.payload(),
        None => item.payload_state(),
    }
}

// ---------------------------------------------------------------------------
// Laws
// ---------------------------------------------------------------------------

/// The ratchet: once a reading says that the payload must exist, no later reading of the
/// task takes that back.
pub proof fn law_a_proven_payload_stays_proven(read: PauseRead, task: Option<Task>)
    requires
        payload_expected(read.state()),
    ensures
        payload_expected(read.folded(task).state()),
{
}

/// A reading that proves the payload counts, whatever was known before.
pub proof fn law_a_proof_of_the_payload_counts(read: PauseRead, task: Task)
    requires
        implies_payload(task.status) || counters_full(task.downloaded, task.size),
    ensures
        payload_expected(read.folded(Some(task)).state()),
{
}

/// Anything but a found object of an accepted kind keeps the recursive delete from being
/// sent.
pub proof fn law_only_an_accepted_object_is_deleted(
    info: PathInfo,
    path: Seq<char>,
    target: FileTarget,
    payload: PayloadState,
    already_deleted: bool,
)
    ensures
        file_phase(info, path, target, payload, already_deleted) is Done <==> (
        info matches PathInfo::Found { is_dir } && target.expected_kind.takes(is_dir)),
{
}

/// A payload that demonstrably existed and is not where it was looked for keeps its task,
/// unless this run deleted it.
pub proof fn law_an_unexplained_absence_keeps_the_task(
    path: Seq<char>,
    target: FileTarget,
    payload: PayloadState,
)
    requires
        payload_expected(payload) || !target.named,
    ensures
        file_phase(PathInfo::Missing, path, target, payload, false) is Failed,
{
}

/// Neither before nor after a delete is an error code read as absence.
pub proof fn law_an_error_code_is_never_absence(
    code: i32,
    path: Seq<char>,
    target: FileTarget,
    payload: PayloadState,
    already_deleted: bool,
)
    ensures
        file_phase(PathInfo::Error(code), path, target, payload, already_deleted) is Failed,
        confirm_phase(PathInfo::Error(code), path) is Failed,
{
}

/// An answer without an entry for the path fails the item before a delete, and confirms
/// the delete after one that reported itself finished.
pub proof fn law_silence_fails_before_and_confirms_after(
    path: Seq<char>,
    target: FileTarget,
    payload: PayloadState,
    already_deleted: bool,
)
    ensures
        file_phase(PathInfo::Unknown, path, target, payload, already_deleted) is Failed,
        confirm_phase(PathInfo::Unknown, path) is Done,
{
}

/// Nothing at the path: the task still goes where this run deleted the path itself, or
/// where something named it and neither its status nor its counters say that there was a
/// payload. Otherwise it stays.
pub proof fn law_when_an_absence_is_benign(
    path: Seq<char>,
    target: FileTarget,
    payload: PayloadState,
    already_deleted: bool,
)
    ensures
        ({
            let existed = payload.status is Finished || payload.status is Seeding || payload.status
                is Extracting || (payload.size > 0 && payload.downloaded >= payload.size);
            let end = file_phase(PathInfo::Missing, path, target, payload, already_deleted);
            &&& already_deleted || (target.named && !existed) ==> end is NothingThere
            &&& !already_deleted && (existed || !target.named) ==> end is Failed
        }),
{
}

/// What was found is deleted only where it is what was expected: a directory where one was
/// expected, a file where one was, either where nothing was said, and nothing where that
/// could not be told.
pub proof fn law_what_was_found_must_be_what_was_expected(
    path: Seq<char>,
    target: FileTarget,
    payload: PayloadState,
    already_deleted: bool,
    is_dir: bool,
)
    ensures
        ({
            let end = file_phase(PathInfo::Found { is_dir }, path, target, payload, already_deleted);
            &&& target.expected_kind == ExpectedKind::Dir ==> (end is Done <==> is_dir)
            &&& target.expected_kind == ExpectedKind::File ==> (end is Done <==> !is_dir)
            &&& target.expected_kind == ExpectedKind::AnyFromTitle ==> end is Done
            &&& target.expected_kind == ExpectedKind::Indeterminate ==> end is Failed
            &&& !(end is Done) ==> end is Failed
        }),
{
}

/// After a delete, a path that is still there keeps its task, and one that is gone lets it
/// go.
pub proof fn law_a_delete_is_confirmed_by_absence(path: Seq<char>, is_dir: bool)
    ensures
        confirm_phase(PathInfo::Found { is_dir }, path) is Failed,
        confirm_phase(PathInfo::Missing, path) is Done,
{
}

/// Each outcome is counted as what it is: the counts of two lists together are those of
/// each, and one outcome counts for its own kind alone.
pub proof fn law_outcomes_are_counted_by_kind(
    a: Seq<ItemOutcome>,
    b: Seq<ItemOutcome>,
    outcome: ItemOutcome,
)
    ensures
        count_done(a + b) == count_done(a) + count_done(b),
        count_skipped(a + b) == count_skipped(a) + count_skipped(b),
        count_failed(a + b) == count_failed(a) + count_failed(b),
        count_done(seq![outcome]) == (if outcome is Done {
            1nat
        } else {
            0
        }),
        count_skipped(seq![outcome]) == (if outcome is Skipped {
            1nat
        } else {
            0
        }),
        count_failed(seq![outcome]) == (if outcome is Failed {
            1nat
        } else {
            0
        }),
    decreases b.len(),
{
    reveal_with_fuel(count_done, 2);
    reveal_with_fuel(count_skipped, 2);
    reveal_with_fuel(count_failed, 2);
    assert(seq![outcome].drop_last() =~= Seq::<ItemOutcome>::empty());
    if b.len() == 0 {
        assert(a + b =~= a);
    } else {
        law_outcomes_are_counted_by_kind(a, b.drop_last(), outcome);
        assert((a + b).drop_last() =~= a + b.drop_last());
    }
}

/// A batch is reported item by item, each by its own title and with its own outcome, and
/// then as a whole.
pub proof fn law_every_item_is_reported(
    op: OpKind,
    tasks: Seq<TaskRef>,
    outcomes: Seq<ItemOutcome>,
    events: Seq<AppEvent>,
    i: int,
)
    requires
        reports_batch(op, tasks, outcomes, events),
        0 <= i < tasks.len(),
    ensures
        events.len() == tasks.len() + 1,
        match events[i] {
            AppEvent::OpProgress { op: o, done, total, item } => o == op && done == i + 1 && total
                == tasks.len() && item.title@ == tasks[i].title@ && item.outcome == outcomes[i],
            _ => false,
        },
        match events[tasks.len() as int] {
            AppEvent::OpDone { op: o, succeeded, skipped, failed } => o == op && succeeded
                == count_done(outcomes) && skipped == count_skipped(outcomes) && failed
                == count_failed(outcomes),
            _ => false,
        },
{
    assert(reports_item(op, i, tasks.len() as int, tasks[i].title@, outcomes[i], events[i]));
}

/// Whether a result array first speaks of a task at `k`.
pub open spec fn first_entry(id: Seq<char>, results: Seq<TaskOpResult>, k: int) -> bool {
    &&& 0 <= k < results.len()
    &&& results[k].id@ == id
    &&& forall|j: int| 0 <= j < k ==> (#[trigger] results[j]).id@ != id
}

/// A task was paused or resumed exactly where its own entry in the answer says so; where the
/// call itself failed, no task was.
pub proof fn law_each_task_has_its_own_outcome(
    op: TaskOp,
    tasks: Seq<TaskRef>,
    answer: Result<Vec<TaskOpResult>, Error>,
    outcomes: Seq<ItemOutcome>,
    i: int,
    k: int,
)
    requires
        outcomes_of_call(op, tasks, answer, outcomes),
        0 <= i < tasks.len(),
        answer is Ok ==> first_entry(tasks[i].id@, answer->Ok_0@, k),
    ensures
        answer is Err ==> outcomes[i] is Failed,
        answer is Ok ==> (outcomes[i] is Done <==> answer->Ok_0@[k].error == 0),
        !(outcomes[i] is Skipped),
{
    let outcome = outcomes[i];
    if let Ok(results) = answer {
        law_a_task_is_judged_by_its_own_entry(tasks[i].id@, results@, k);
        assert(outcome_of_results(op.reported(), tasks[i].id@, results@, outcome));
    }
}

/// When storage is read: not after it was given up; else on every explicit refresh, the
/// first time, and once a minute has passed since the last attempt.
pub proof fn law_when_storage_is_read(schedule: StorageSchedule, forced: bool, now: u64)
    ensures
        schedule.given_up ==> !schedule.is_due(forced, now),
        !schedule.given_up && forced ==> schedule.is_due(forced, now),
        !schedule.given_up && schedule.last_attempt is None ==> schedule.is_due(forced, now),
        !schedule.given_up && !forced && schedule.last_attempt is Some ==> (schedule.is_due(
            forced,
            now,
        ) <==> now >= schedule.last_attempt->0 + 60000),
{
}

/// Storage is given up where the API is not there, and on the second refusal in a row by
/// File Station's own listing, of permission in general or of the path; any other failure is
/// tried again.
pub proof fn law_when_storage_is_given_up(
    schedule: StorageSchedule,
    err: Error,
)
    requires
        !schedule.given_up,
        schedule.refusals < 2,
    ensures
        err is ApiUnavailable ==> schedule_after(schedule, Err(err)).given_up,
        !(err is ApiUnavailable) && !(err is Dsm) ==> !schedule_after(schedule, Err(err)).given_up,
        match err {
            Error::Dsm { code, api } => schedule_after(schedule, Err(err)).given_up <==> (code
                == 105 || code == 403) && api@ == "SYNO.FileStation.List"@
                && schedule.refusals == 1,
            _ => true,
        },
        schedule_after(schedule, Err(err)).last_attempt == schedule.last_attempt,
{
}

/// Of two reads of a task the later counts, unless only the earlier one had everything
/// downloaded: something, and no less than the task's size.
pub proof fn law_the_later_read_counts(earlier: Counters, later: Counters)
    ensures
        earlier.size > 0 && earlier.downloaded >= earlier.size && (later.size == 0
            || later.downloaded < later.size) ==> earlier.advanced(later) == earlier,
        earlier.size == 0 || earlier.downloaded < earlier.size ==> earlier.advanced(later) == later,
        later.size > 0 && later.downloaded >= later.size ==> earlier.advanced(later) == later,
{
}

} // verus!
