//! Deleting one item, phase by phase.
//!
//! The phases of an item alternate calls to the NAS with decisions. The decisions stand
//! here: an [`ItemRun`] says what to ask the NAS next, takes what came of it, and ends
//! with an outcome. Whoever drives it performs the [`Action`]s.
//!
//! **The files go before the task, and a failure cancels everything after it**: a task
//! whose files could not be deleted stays, so that something still points at them.

use vstd::prelude::*;
use vstd::string::StringExecFns;
use crate::api::download_station::{
    check_task_result, law_a_task_is_judged_by_its_own_entry, task_trouble, TaskOpResult,
};
use crate::api::file_station::PathInfo;
use crate::delete::{
    describe_ops, ops_planned, ops_text, path_refusal, payload_expected, plan_delete_ops,
    validate_path, DeleteItem, DeleteOptions, Op, Target,
};
use crate::error::{prefixed, Error};
use crate::event::{
    confirm_phase, decide_confirm_phase, decide_file_phase, ending, file_phase, first_entry,
    needs_pause, payload_for_file_phase, payload_used, task_by_id, task_with_id, DeletedPaths,
    Ending, FileTarget, ItemOutcome, OpKind, OpOutcome, PauseRead, PAUSE_CONFIRM_INTERVAL_MS,
    PAUSE_CONFIRM_TIMEOUT_MS,
};
use crate::model::{Task, TaskStatus};
use crate::text::debug_form;

verus! {

// ---------------------------------------------------------------------------
// What is asked of the NAS, and what came of it
// ---------------------------------------------------------------------------

/// What to do next for an item.
#[derive(Debug, PartialEq, Eq)]
pub enum Action {
    /// Read the task's current state.
    ReadTask,
    /// Pause the task.
    PauseTask,
    /// Let this many milliseconds pass.
    Wait(u64),
    /// Look this path up.
    LookUp(String),
    /// Recursively delete this path.
    DeletePath(String),
    /// Delete the Download Station task.
    DeleteTask,
}

/// An [`Action`] without its representation.
pub enum Asked {
    ReadTask,
    PauseTask,
    Wait(int),
    LookUp(Seq<char>),
    DeletePath(Seq<char>),
    DeleteTask,
}

impl View for Action {
    type V = Asked;

    open spec fn view(&self) -> Asked {
        match self {
            Action::ReadTask => Asked::ReadTask,
            Action::PauseTask => Asked::PauseTask,
            Action::Wait(ms) => Asked::Wait(*ms as int),
            Action::LookUp(path) => Asked::LookUp(path@),
            Action::DeletePath(path) => Asked::DeletePath(path@),
            Action::DeleteTask => Asked::DeleteTask,
        }
    }
}

/// What came of an action.
pub enum Reply {
    /// The task list that a read of the task came back with.
    Tasks(Result<Vec<Task>, Error>),
    /// The per-task results of a pause or of a delete.
    Acted(Result<Vec<TaskOpResult>, Error>),
    /// The time passed.
    Waited,
    /// What a lookup found.
    Found(Result<PathInfo, Error>),
    /// Whether a recursive delete finished.
    Deleted(Result<(), Error>),
}

/// Where a phase stands: what was asked last.
#[derive(Debug, Clone, PartialEq, Eq)]
pub enum Phase {
    /// Pause: the task was read, to see whether a pause is needed.
    Reading,
    /// Pause: it was sent; what was read before it is kept.
    Pausing { read: PauseRead },
    /// Pause: it was accepted at `started`, and the task was read again.
    Rereading { read: PauseRead, started: u64 },
    /// Pause: it has not taken effect yet, and some time is left to pass.
    Settling { read: PauseRead, started: u64 },
    /// Files: the path was looked up.
    Checking,
    /// Files: the path was sent to be deleted.
    Deleting,
    /// Files: the path was looked up once more.
    Rechecking,
    /// Task: it was sent to be deleted.
    Removing,
}

/// One turn of a phase, without its representation: it ended, or something is asked.
pub enum Moved {
    Ended(Ending),
    Asks(Asked, Phase),
}

/// One turn of a phase.
pub enum OpTurn {
    /// The phase is over.
    Ended(OpOutcome),
    /// Something is asked of the NAS.
    Asks(Action, Phase),
}

impl View for OpTurn {
    type V = Moved;

    open spec fn view(&self) -> Moved {
        match self {
            OpTurn::Ended(outcome) => Moved::Ended(ending(*outcome)),
            OpTurn::Asks(action, phase) => Moved::Asks(action@, *phase),
        }
    }
}

// ---------------------------------------------------------------------------
// Beginning a phase
// ---------------------------------------------------------------------------

/// The text of the guard's refusal of a path.
pub open spec fn unsafe_text(path: Seq<char>, reason: Seq<char>) -> Seq<char> {
    "refusing unsafe path "@ + debug_form(path) + ": "@ + reason
}

/// How a phase begins. A dry run asks nothing. The path is held to the guard once more.
pub open spec fn op_begun(op: Op, dry_run: bool) -> Moved {
    match op {
        Op::Pause => if dry_run {
            Moved::Ended(Ending::Done)
        } else {
            Moved::Asks(Asked::ReadTask, Phase::Reading)
        },
        Op::DeleteFiles(path) => match path_refusal(path@) {
            Some(reason) => Moved::Ended(Ending::Failed(unsafe_text(path@, reason))),
            None => if dry_run {
                Moved::Ended(Ending::Done)
            } else {
                Moved::Asks(Asked::LookUp(path@), Phase::Checking)
            },
        },
        Op::DeleteTask => if dry_run {
            Moved::Ended(Ending::Done)
        } else {
            Moved::Asks(Asked::DeleteTask, Phase::Removing)
        },
    }
}

/// Begin one phase.
///
/// The guard ran when the snapshot was taken; it runs again here, before the call with
/// no undo.
pub fn begin_op(op: &Op, dry_run: bool) -> (turn: OpTurn)
    ensures
        turn@ == op_begun(*op, dry_run),
{
    match op {
        Op::Pause => {
            if dry_run {
                return OpTurn::Ended(OpOutcome::Done);
            }
            OpTurn::Asks(Action::ReadTask, Phase::Reading)
        },
        Op::DeleteFiles(path) => {
            if let Err(err) = validate_path(path.as_str()) {
                return OpTurn::Ended(OpOutcome::Failed(err.message()));
            }
            if dry_run {
                return OpTurn::Ended(OpOutcome::Done);
            }
            OpTurn::Asks(Action::LookUp(path.clone()), Phase::Checking)
        },
        Op::DeleteTask => {
            if dry_run {
                return OpTurn::Ended(OpOutcome::Done);
            }
            OpTurn::Asks(Action::DeleteTask, Phase::Removing)
        },
    }
}

// ---------------------------------------------------------------------------
// The pause phase
// ---------------------------------------------------------------------------

/// The failure of a pause.
pub open spec fn unpaused(why: Seq<char>) -> Moved {
    Moved::Ended(Ending::Failed("could not pause it: "@ + why))
}

/// The failure of a pause.
fn pause_failed(err: &Error) -> (turn: OpTurn)
    ensures
        turn@ == unpaused(err.text()),
{
    let why = err.message();
    OpTurn::Ended(OpOutcome::Failed(prefixed("could not pause it: ", why.as_str())))
}

/// What is said of a pause that did not take effect in time.
pub open spec fn slow_pause_text(id: Seq<char>) -> Seq<char> {
    "Download Station accepted the pause for task "@ + id
        + " but it was still running 60s later. Nothing was deleted. Stopping a seeding torrent makes it announce to its tracker, which can hang on a slow one — trying again usually works, and pausing it yourself first (p) makes the delete skip this step"@
}

/// Whether waiting once more would reach the end of the time a pause is given.
pub open spec fn pause_overdue(started: int, now: int) -> bool {
    now + PAUSE_CONFIRM_INTERVAL_MS >= started + PAUSE_CONFIRM_TIMEOUT_MS
}

/// The reading once a read of the task is folded in.
pub open spec fn reread(read: PauseRead, id: Seq<char>, tasks: Seq<Task>) -> PauseRead {
    read.folded(task_by_id(tasks, id))
}

/// What the first read of the task comes to: no pause is needed, or it is sent.
pub open spec fn first_read(item: DeleteItem, answer: Result<Vec<Task>, Error>) -> (
    Moved,
    Option<PauseRead>,
) {
    match answer {
        Err(err) => (unpaused(err.text()), None),
        Ok(tasks) => {
            let read = reread(PauseRead::seed(item), item.id@, tasks@);
            if needs_pause(task_by_id(tasks@, item.id@)) {
                (Moved::Asks(Asked::PauseTask, Phase::Pausing { read }), None)
            } else {
                (Moved::Ended(Ending::Done), Some(read))
            }
        },
    }
}

/// Take the first read of the task: the decision to pause is made from it, not from the
/// snapshot.
pub fn settle_first_read(item: &DeleteItem, answer: &Result<Vec<Task>, Error>) -> (next: (
    OpTurn,
    Option<PauseRead>,
))
    ensures
        (next.0@, next.1) == first_read(*item, *answer),
{
    match answer {
        Err(err) => (pause_failed(err), None),
        Ok(tasks) => {
            let mut read = PauseRead::seeded_from(item);
            if read.observe(task_with_id(tasks.as_slice(), item.id.as_str())) {
                (OpTurn::Asks(Action::PauseTask, Phase::Pausing { read }), None)
            } else {
                (OpTurn::Ended(OpOutcome::Done), Some(read))
            }
        },
    }
}

/// What a sent pause comes to: it was accepted, and the task is read again.
pub open spec fn pause_sent(
    id: Seq<char>,
    read: PauseRead,
    answer: Result<Vec<TaskOpResult>, Error>,
    now: u64,
) -> Moved {
    match answer {
        Err(err) => unpaused(err.text()),
        Ok(results) => match task_trouble(id, results@) {
            Some(why) => unpaused(why),
            None => Moved::Asks(Asked::ReadTask, Phase::Rereading { read, started: now }),
        },
    }
}

/// Take the answer to a sent pause. Its acceptance is not the same as the task having
/// stopped.
pub fn settle_pause(
    item: &DeleteItem,
    read: PauseRead,
    answer: &Result<Vec<TaskOpResult>, Error>,
    now: u64,
) -> (turn: OpTurn)
    ensures
        turn@ == pause_sent(item.id@, read, *answer, now),
{
    match answer {
        Err(err) => pause_failed(err),
        Ok(results) => match check_task_result(item.id.as_str(), results.as_slice()) {
            Err(err) => pause_failed(&err),
            Ok(()) => OpTurn::Asks(Action::ReadTask, Phase::Rereading { read, started: now }),
        },
    }
}

/// What a later read of the task comes to: it stopped, it is given more time, or the
/// time is up.
pub open spec fn later_read(
    id: Seq<char>,
    read: PauseRead,
    started: u64,
    answer: Result<Vec<Task>, Error>,
    now: u64,
) -> (Moved, Option<PauseRead>) {
    match answer {
        Err(err) => (unpaused(err.text()), None),
        Ok(tasks) => {
            let read = reread(read, id, tasks@);
            if !needs_pause(task_by_id(tasks@, id)) {
                (Moved::Ended(Ending::Done), Some(read))
            } else if pause_overdue(started as int, now as int) {
                (unpaused("I/O error: "@ + slow_pause_text(id)), None)
            } else {
                (
                    Moved::Asks(
                        Asked::Wait(PAUSE_CONFIRM_INTERVAL_MS as int),
                        Phase::Settling { read, started },
                    ),
                    None,
                )
            }
        },
    }
}

/// Take a later read of the task.
pub fn settle_later_read(
    item: &DeleteItem,
    read: PauseRead,
    started: u64,
    answer: &Result<Vec<Task>, Error>,
    now: u64,
) -> (next: (OpTurn, Option<PauseRead>))
    ensures
        (next.0@, next.1) == later_read(item.id@, read, started, *answer, now),
{
    match answer {
        Err(err) => (pause_failed(err), None),
        Ok(tasks) => {
            let mut read = read;
            if !read.observe(task_with_id(tasks.as_slice(), item.id.as_str())) {
                return (OpTurn::Ended(OpOutcome::Done), Some(read));
            }
            if now as u128 + PAUSE_CONFIRM_INTERVAL_MS as u128 >= started as u128
                + PAUSE_CONFIRM_TIMEOUT_MS as u128 {
                let mut why = prefixed(
                    "Download Station accepted the pause for task ",
                    item.id.as_str(),
                );
                why.append(
                    " but it was still running 60s later. Nothing was deleted. Stopping a seeding torrent makes it announce to its tracker, which can hang on a slow one — trying again usually works, and pausing it yourself first (p) makes the delete skip this step",
                );
                let err = Error::timed_out(why.as_str());
                return (pause_failed(&err), None);
            }
            (
                OpTurn::Asks(
                    Action::Wait(PAUSE_CONFIRM_INTERVAL_MS),
                    Phase::Settling { read, started },
                ),
                None,
            )
        },
    }
}

// ---------------------------------------------------------------------------
// The file phase
// ---------------------------------------------------------------------------

/// What was resolved for an item.
pub open spec fn target_of(item: DeleteItem) -> FileTarget {
    FileTarget { named: item.named, expected_kind: item.expected_kind }
}

/// What the lookup before a delete comes to.
pub open spec fn looked_up(
    item: DeleteItem,
    path: Seq<char>,
    live: Option<PauseRead>,
    already_deleted: bool,
    answer: Result<PathInfo, Error>,
) -> Moved {
    match answer {
        Err(err) => Moved::Ended(
            Ending::Failed("could not check "@ + path + ": "@ + err.text()),
        ),
        Ok(info) => {
            let end = file_phase(
                info,
                path,
                target_of(item),
                payload_used(live, item),
                already_deleted,
            );
            if end is Done {
                Moved::Asks(Asked::DeletePath(path), Phase::Deleting)
            } else {
                Moved::Ended(end)
            }
        },
    }
}

/// `head`, the path, a colon and what went wrong.
fn path_failure(head: &str, path: &str, err: &Error) -> (outcome: OpOutcome)
    ensures
        ending(outcome) == Ending::Failed(head@ + path@ + ": "@ + err.text()),
{
    let mut why = prefixed(head, path);
    let text = err.message();
    why.append(": ");
    why.append(text.as_str());
    OpOutcome::Failed(why)
}

/// Take the lookup before a delete: only a found object of the right kind is deleted.
pub fn settle_lookup(
    item: &DeleteItem,
    path: &str,
    live: Option<&PauseRead>,
    already_deleted: bool,
    answer: &Result<PathInfo, Error>,
) -> (turn: OpTurn)
    ensures
        turn@ == looked_up(
            *item,
            path@,
            match live {
                Some(read) => Some(*read),
                None => None,
            },
            already_deleted,
            *answer,
        ),
{
    match answer {
        Err(err) => OpTurn::Ended(path_failure("could not check ", path, err)),
        Ok(info) => {
            let payload = payload_for_file_phase(live, item);
            let outcome = decide_file_phase(
                *info,
                path,
                FileTarget::of_item(item),
                &payload,
                already_deleted,
            );
            match outcome {
                OpOutcome::Done => OpTurn::Asks(
                    Action::DeletePath(path.to_owned()),
                    Phase::Deleting,
                ),
                other => OpTurn::Ended(other),
            }
        },
    }
}

/// What a recursive delete comes to: a failure, or the path is looked up once more.
pub open spec fn deleted_path(path: Seq<char>, answer: Result<(), Error>) -> Moved {
    match answer {
        Err(err) => Moved::Ended(
            Ending::Failed("could not delete "@ + path + ": "@ + err.text()),
        ),
        Ok(()) => Moved::Asks(Asked::LookUp(path), Phase::Rechecking),
    }
}

/// Take the answer to a recursive delete. A delete that finished is remembered *before*
/// it is confirmed: it is exactly the confirmation failing that makes the memory worth
/// having.
pub fn settle_delete(path: &str, answer: &Result<(), Error>, deleted: &mut DeletedPaths) -> (turn:
    OpTurn)
    ensures
        turn@ == deleted_path(path@, *answer),
        final(deleted)@ == if *answer is Ok {
            old(deleted)@.insert(path@)
        } else {
            old(deleted)@
        },
{
    match answer {
        Err(err) => OpTurn::Ended(path_failure("could not delete ", path, err)),
        Ok(()) => {
            deleted.record(path);
            OpTurn::Asks(Action::LookUp(path.to_owned()), Phase::Rechecking)
        },
    }
}

/// The failure of a re-check that could not be made.
pub open spec fn unrechecked_text(path: Seq<char>, why: Seq<char>) -> Seq<char> {
    "File Station reported the delete of "@ + path
        + " as finished but the re-check could not be made ("@ + why
        + ") — keeping the task rather than removing it on an answer that never came; retrying is safe"@
}

/// What the lookup after a delete comes to.
pub open spec fn looked_up_again(path: Seq<char>, answer: Result<PathInfo, Error>) -> Ending {
    match answer {
        Err(err) => Ending::Failed(unrechecked_text(path, err.text())),
        Ok(info) => confirm_phase(info, path),
    }
}

/// Take the lookup after a delete. **A lookup that did not answer at all is a failure**:
/// keeping a task whose files are gone is the recoverable way to be wrong.
pub fn settle_recheck(path: &str, answer: &Result<PathInfo, Error>) -> (outcome: OpOutcome)
    ensures
        ending(outcome) == looked_up_again(path@, *answer),
{
    match answer {
        Err(err) => {
            let mut why = prefixed("File Station reported the delete of ", path);
            let text = err.message();
            why.append(" as finished but the re-check could not be made (");
            why.append(text.as_str());
            why.append(
                ") — keeping the task rather than removing it on an answer that never came; retrying is safe",
            );
            OpOutcome::Failed(why)
        },
        Ok(info) => decide_confirm_phase(*info, path),
    }
}

// ---------------------------------------------------------------------------
// The task phase
// ---------------------------------------------------------------------------

/// What deleting the task comes to.
pub open spec fn removed_task(id: Seq<char>, answer: Result<Vec<TaskOpResult>, Error>) -> Ending {
    match answer {
        Err(err) => Ending::Failed("could not delete the task: "@ + err.text()),
        Ok(results) => match task_trouble(id, results@) {
            Some(why) => Ending::Failed("could not delete the task: "@ + why),
            None => Ending::Done,
        },
    }
}

/// Take the answer to deleting the task. A per-task error code, **and an id the NAS said
/// nothing about**, is a failure.
pub fn settle_removal(item: &DeleteItem, answer: &Result<Vec<TaskOpResult>, Error>) -> (outcome:
    OpOutcome)
    ensures
        ending(outcome) == removed_task(item.id@, *answer),
{
    let trouble = match answer {
        Err(err) => err.message(),
        Ok(results) => match check_task_result(item.id.as_str(), results.as_slice()) {
            Ok(()) => {
                return OpOutcome::Done;
            },
            Err(err) => err.message(),
        },
    };
    OpOutcome::Failed(prefixed("could not delete the task: ", trouble.as_str()))
}

// ---------------------------------------------------------------------------
// One turn of a phase
// ---------------------------------------------------------------------------

/// The path of a file phase.
pub open spec fn op_path(op: Op) -> Seq<char> {
    match op {
        Op::DeleteFiles(path) => path@,
        _ => Seq::empty(),
    }
}

/// What one turn of a phase changes.
pub struct Turned {
    pub moved: Moved,
    /// What a pause phase that ended has read.
    pub live: Option<PauseRead>,
    /// What this run has deleted.
    pub deleted: Set<Seq<char>>,
}

/// What was asked last in a phase, asked again.
pub open spec fn asked_again(op: Op, phase: Phase) -> Moved {
    Moved::Asks(
        match phase {
            Phase::Reading => Asked::ReadTask,
            Phase::Pausing { .. } => Asked::PauseTask,
            Phase::Rereading { .. } => Asked::ReadTask,
            Phase::Settling { .. } => Asked::Wait(PAUSE_CONFIRM_INTERVAL_MS as int),
            Phase::Checking => Asked::LookUp(op_path(op)),
            Phase::Deleting => Asked::DeletePath(op_path(op)),
            Phase::Rechecking => Asked::LookUp(op_path(op)),
            Phase::Removing => Asked::DeleteTask,
        },
        phase,
    )
}

/// What a reply comes to in a phase. A reply to something that was not asked changes
/// nothing, and the same is asked again.
pub open spec fn op_turned(
    item: DeleteItem,
    op: Op,
    phase: Phase,
    live: Option<PauseRead>,
    deleted: Set<Seq<char>>,
    reply: Reply,
    now: u64,
) -> Turned {
    let path = op_path(op);
    match (phase, reply) {
        (Phase::Reading, Reply::Tasks(answer)) => {
            let next = first_read(item, answer);
            Turned {
                moved: next.0,
                live: if next.1 is Some {
                    next.1
                } else {
                    live
                },
                deleted,
            }
        },
        (Phase::Pausing { read }, Reply::Acted(answer)) => Turned {
            moved: pause_sent(item.id@, read, answer, now),
            live,
            deleted,
        },
        (Phase::Rereading { read, started }, Reply::Tasks(answer)) => {
            let next = later_read(item.id@, read, started, answer, now);
            Turned {
                moved: next.0,
                live: if next.1 is Some {
                    next.1
                } else {
                    live
                },
                deleted,
            }
        },
        (Phase::Settling { read, started }, Reply::Waited) => Turned {
            moved: Moved::Asks(Asked::ReadTask, Phase::Rereading { read, started }),
            live,
            deleted,
        },
        (Phase::Checking, Reply::Found(answer)) => Turned {
            moved: looked_up(item, path, live, deleted.contains(path), answer),
            live,
            deleted,
        },
        (Phase::Deleting, Reply::Deleted(answer)) => Turned {
            moved: deleted_path(path, answer),
            live,
            deleted: if answer is Ok {
                deleted.insert(path)
            } else {
                deleted
            },
        },
        (Phase::Rechecking, Reply::Found(answer)) => Turned {
            moved: Moved::Ended(looked_up_again(path, answer)),
            live,
            deleted,
        },
        (Phase::Removing, Reply::Acted(answer)) => Turned {
            moved: Moved::Ended(removed_task(item.id@, answer)),
            live,
            deleted,
        },
        _ => Turned { moved: asked_again(op, phase), live, deleted },
    }
}

/// What was asked last in a phase, asked again.
fn ask_again(path: &str, op: &Op, phase: Phase) -> (turn: OpTurn)
    requires
        path@ == op_path(*op),
    ensures
        turn@ == asked_again(*op, phase),
{
    let action = match &phase {
        Phase::Reading => Action::ReadTask,
        Phase::Pausing { .. } => Action::PauseTask,
        Phase::Rereading { .. } => Action::ReadTask,
        Phase::Settling { .. } => Action::Wait(PAUSE_CONFIRM_INTERVAL_MS),
        Phase::Checking => Action::LookUp(path.to_owned()),
        Phase::Deleting => Action::DeletePath(path.to_owned()),
        Phase::Rechecking => Action::LookUp(path.to_owned()),
        Phase::Removing => Action::DeleteTask,
    };
    OpTurn::Asks(action, phase)
}

/// Take a reply in a phase: go on with it, or end it.
pub fn continue_op(
    item: &DeleteItem,
    op: &Op,
    phase: Phase,
    live: &mut Option<PauseRead>,
    deleted: &mut DeletedPaths,
    reply: &Reply,
    now: u64,
) -> (turn: OpTurn)
    ensures
        op_turned(*item, *op, phase, *old(live), old(deleted)@, *reply, now) == (Turned {
            moved: turn@,
            live: *final(live),
            deleted: final(deleted)@,
        }),
{
    let path: &str = match op {
        Op::DeleteFiles(path) => path.as_str(),
        _ => "",
    };
    proof {
        reveal_strlit("");
        assert(path@ =~= op_path(*op));
    }
    match (phase, reply) {
        (Phase::Reading, Reply::Tasks(answer)) => {
            let (turn, read) = settle_first_read(item, answer);
            if read.is_some() {
                *live = read;
            }
            turn
        },
        (Phase::Pausing { read }, Reply::Acted(answer)) => settle_pause(item, read, answer, now),
        (Phase::Rereading { read, started }, Reply::Tasks(answer)) => {
            let (turn, read) = settle_later_read(item, read, started, answer, now);
            if read.is_some() {
                *live = read;
            }
            turn
        },
        (Phase::Settling { read, started }, Reply::Waited) => OpTurn::Asks(
            Action::ReadTask,
            Phase::Rereading { read, started },
        ),
        (Phase::Checking, Reply::Found(answer)) => {
            let known = deleted.contains(path);
            settle_lookup(item, path, live.as_ref(), known, answer)
        },
        (Phase::Deleting, Reply::Deleted(answer)) => settle_delete(path, answer, deleted),
        (Phase::Rechecking, Reply::Found(answer)) => OpTurn::Ended(settle_recheck(path, answer)),
        (Phase::Removing, Reply::Acted(answer)) => OpTurn::Ended(settle_removal(item, answer)),
        (other, _) => ask_again(path, op, other),
    }
}

// ---------------------------------------------------------------------------
// One item, from its first phase to its outcome
// ---------------------------------------------------------------------------

/// An outcome without its representation.
pub enum Verdict {
    Done(Seq<char>),
    Skipped(Seq<char>),
    Failed(Seq<char>),
}

/// An outcome without its representation.
pub open spec fn verdict(outcome: ItemOutcome) -> Verdict {
    match outcome {
        ItemOutcome::Done(what) => Verdict::Done(what@),
        ItemOutcome::Skipped(why) => Verdict::Skipped(why@),
        ItemOutcome::Failed(why) => Verdict::Failed(why@),
    }
}

/// What is said of an item that has no phases.
pub open spec fn idle_text(target: Target) -> Seq<char> {
    match target {
        Target::Refused(reason) => reason@,
        Target::Path(_) => "there is nothing to do for this"@ + " task"@,
    }
}

/// The outcome of an item whose phases all went well.
pub open spec fn finished(ops: Seq<Op>, dry_run: bool, gone: bool) -> Verdict {
    if dry_run {
        Verdict::Skipped("dry run — would "@ + ops_text(ops))
    } else if gone {
        Verdict::Done("deleted — the files were already gone"@)
    } else {
        Verdict::Done(OpKind::Delete.past())
    }
}

/// Where an item stands, without its representation.
pub enum Progress {
    /// This is asked, in this phase of the op at `index`; `gone` says whether the file
    /// phase found nothing.
    Asks { asked: Asked, phase: Phase, index: int, gone: bool },
    /// The item is over.
    Over(Verdict),
}

/// Where an item stands once everything before op `index` is done: ops that end at once
/// are passed over, a failed one ends the item.
pub open spec fn carried_on(ops: Seq<Op>, dry_run: bool, index: int, gone: bool) -> Progress
    decreases ops.len() - index,
{
    if index >= ops.len() {
        Progress::Over(finished(ops, dry_run, gone))
    } else {
        after_turn(ops, dry_run, index, gone, op_begun(ops[index], dry_run))
    }
}

/// Where an item stands after a turn of op `index`.
pub open spec fn after_turn(
    ops: Seq<Op>,
    dry_run: bool,
    index: int,
    gone: bool,
    moved: Moved,
) -> Progress
    decreases ops.len() - index, 0int,
{
    if index >= ops.len() {
        Progress::Over(finished(ops, dry_run, gone))
    } else {
        match moved {
            Moved::Asks(asked, phase) => Progress::Asks { asked, phase, index, gone },
            Moved::Ended(Ending::Failed(why)) => Progress::Over(Verdict::Failed(why)),
            Moved::Ended(Ending::NothingThere) => carried_on(ops, dry_run, index + 1, true),
            Moved::Ended(Ending::Done) => carried_on(ops, dry_run, index + 1, gone),
        }
    }
}

/// One item of a delete under way.
#[derive(Debug, PartialEq, Eq)]
pub struct ItemRun<'a> {
    pub item: &'a DeleteItem,
    pub options: DeleteOptions,
    /// The phases of the item, in order.
    pub ops: Vec<Op>,
    /// Which of them is under way.
    pub index: usize,
    /// Where that one stands.
    pub phase: Phase,
    /// What the pause phase has read, once it ended.
    pub live: Option<PauseRead>,
    /// Whether the file phase found nothing.
    pub gone: bool,
}

/// One turn of an item.
#[derive(Debug, PartialEq, Eq)]
pub enum Turn<'a> {
    /// This is asked of the NAS.
    Asks(ItemRun<'a>, Action),
    /// The item is over.
    Over(ItemOutcome),
}

impl<'a> Turn<'a> {
    /// Where the item stands after this turn.
    pub open spec fn progress(self) -> Progress {
        match self {
            Turn::Asks(run, action) => Progress::Asks {
                asked: action@,
                phase: run.phase,
                index: run.index as int,
                gone: run.gone,
            },
            Turn::Over(outcome) => Progress::Over(verdict(outcome)),
        }
    }
}

/// Whether a phase is one of this op.
pub open spec fn phase_of(op: Op, phase: Phase) -> bool {
    match op {
        Op::Pause => phase is Reading || phase is Pausing || phase is Rereading || phase is Settling,
        Op::DeleteFiles(path) => path_refusal(path@) is None && (phase is Checking || phase is Deleting
            || phase is Rechecking),
        Op::DeleteTask => phase is Removing,
    }
}

impl<'a> ItemRun<'a> {
    /// The phases are the planned ones, one of them is under way, and this is no dry run.
    pub open spec fn wf(self) -> bool {
        &&& self.ops@ == ops_planned(self.item.target, self.options.delete_files)
        &&& self.index < self.ops@.len()
        &&& phase_of(self.ops@[self.index as int], self.phase)
        &&& !self.options.dry_run
    }
}

/// How an item begins.
pub open spec fn item_begun(item: DeleteItem, options: DeleteOptions) -> Progress {
    let ops = ops_planned(item.target, options.delete_files);
    if ops.len() == 0 {
        Progress::Over(Verdict::Skipped(idle_text(item.target)))
    } else {
        carried_on(ops, options.dry_run, 0, false)
    }
}

/// Go on from op `index`, everything before which is done.
fn carry_on<'a>(
    item: &'a DeleteItem,
    options: DeleteOptions,
    ops: Vec<Op>,
    index: usize,
    live: Option<PauseRead>,
    gone: bool,
) -> (turn: Turn<'a>)
    requires
        index <= ops@.len(),
        ops@ == ops_planned(item.target, options.delete_files),
    ensures
        turn.progress() == carried_on(ops@, options.dry_run, index as int, gone),
        turn matches Turn::Asks(run, _) ==> run.wf() && *run.item == *item && run.options == options
            && run.live == live,
{
    let mut at: usize = index;
    while at < ops.len()
        invariant
            at <= ops@.len(),
            ops@ == ops_planned(item.target, options.delete_files),
            carried_on(ops@, options.dry_run, index as int, gone) == carried_on(
                ops@,
                options.dry_run,
                at as int,
                gone,
            ),
        decreases ops@.len() - at,
    {
        proof {
            reveal_with_fuel(carried_on, 2);
            reveal_with_fuel(after_turn, 2);
        }
        match begin_op(&ops[at], options.dry_run) {
            OpTurn::Asks(action, phase) => {
                return Turn::Asks(
                    ItemRun { item, options, ops, index: at, phase, live, gone },
                    action,
                );
            },
            OpTurn::Ended(OpOutcome::Failed(why)) => {
                return Turn::Over(ItemOutcome::Failed(why));
            },
            OpTurn::Ended(_) => {
                at += 1;
            },
        }
    }
    let outcome = if options.dry_run {
        let what = describe_ops(ops.as_slice());
        ItemOutcome::Skipped(prefixed("dry run — would ", what.as_str()))
    } else if gone {
        ItemOutcome::Done("deleted — the files were already gone".to_owned())
    } else {
        ItemOutcome::done(OpKind::Delete)
    };
    Turn::Over(outcome)
}

/// Begin one item.
///
/// A refused item, while files are being deleted, is skipped whole: nothing of it, the
/// task included, is touched.
pub fn begin_item<'a>(item: &'a DeleteItem, options: DeleteOptions) -> (turn: Turn<'a>)
    ensures
        turn.progress() == item_begun(*item, options),
        turn matches Turn::Asks(run, _) ==> run.wf() && *run.item == *item && run.options == options
            && run.live is None,
{
    let ops = plan_delete_ops(item, options);
    if ops.len() == 0 {
        let why = match item.refusal() {
            Some(reason) => reason.to_owned(),
            None => prefixed("there is nothing to do for this", " task"),
        };
        return Turn::Over(ItemOutcome::Skipped(why));
    }
    carry_on(item, options, ops, 0, None, false)
}

/// Where an item stands after a reply.
pub open spec fn item_turned(
    run: ItemRun<'_>,
    deleted: Set<Seq<char>>,
    reply: Reply,
    now: u64,
) -> (Turned, Progress) {
    let turned = op_turned(
        *run.item,
        run.ops@[run.index as int],
        run.phase,
        run.live,
        deleted,
        reply,
        now,
    );
    (
        turned,
        after_turn(
            run.ops@,
            run.options.dry_run,
            run.index as int,
            run.gone,
            turned.moved,
        ),
    )
}

/// Take a reply: ask the next thing, or end the item. The first failed phase ends it, and
/// cancels every later one.
pub fn continue_item<'a>(
    run: ItemRun<'a>,
    deleted: &mut DeletedPaths,
    reply: &Reply,
    now: u64,
) -> (turn: Turn<'a>)
    requires
        run.wf(),
    ensures
        turn.progress() == item_turned(run, old(deleted)@, *reply, now).1,
        final(deleted)@ == item_turned(run, old(deleted)@, *reply, now).0.deleted,
        turn matches Turn::Asks(next, _) ==> next.wf() && *next.item == *run.item && next.options
            == run.options && next.live == item_turned(run, old(deleted)@, *reply, now).0.live,
{
    let ItemRun { item, options, ops, index, phase, live, gone } = run;
    let mut live = live;
    match continue_op(item, &ops[index], phase, &mut live, deleted, reply, now) {
        OpTurn::Asks(action, phase) => Turn::Asks(
            ItemRun { item, options, ops, index, phase, live, gone },
            action,
        ),
        OpTurn::Ended(OpOutcome::Failed(why)) => Turn::Over(ItemOutcome::Failed(why)),
        OpTurn::Ended(OpOutcome::NothingThere) => carry_on(
            item,
            options,
            ops,
            index + 1,
            live,
            true,
        ),
        OpTurn::Ended(OpOutcome::Done) => carry_on(item, options, ops, index + 1, live, gone),
    }
}

// ---------------------------------------------------------------------------
// Laws
// ---------------------------------------------------------------------------

/// A dry run asks the NAS for nothing, and where the path passes the guard, the item is
/// reported as skipped.
pub proof fn law_a_dry_run_asks_nothing(item: DeleteItem, options: DeleteOptions)
    requires
        options.dry_run,
    ensures
        item_begun(item, options) is Over,
        (item.target matches Target::Path(path) ==> path_refusal(path@) is None) ==> (
        item_begun(item, options) matches Progress::Over(end) && end is Skipped),
{
    reveal_with_fuel(carried_on, 9);
    reveal_with_fuel(after_turn, 9);
}

/// A refused item is left alone while files are being deleted: nothing is asked, and the
/// item is skipped for the reason it was refused for.
pub proof fn law_a_refused_item_is_left_alone(item: DeleteItem, options: DeleteOptions)
    requires
        options.delete_files,
        item.target is Refused,
    ensures
        item_begun(item, options) == Progress::Over(Verdict::Skipped(idle_text(item.target))),
{
}

/// An item whose files are to go begins with a read of its task; one whose files are to
/// stay, with the task itself.
pub proof fn law_how_an_item_begins(item: DeleteItem, options: DeleteOptions)
    requires
        !options.dry_run,
    ensures
        options.delete_files && item.target is Path ==> item_begun(item, options)
            == (Progress::Asks {
            asked: Asked::ReadTask,
            phase: Phase::Reading,
            index: 0,
            gone: false,
        }) && keeps_proof(item, Phase::Reading, None),
        !options.delete_files ==> item_begun(item, options) == (Progress::Asks {
            asked: Asked::DeleteTask,
            phase: Phase::Removing,
            index: 0,
            gone: false,
        }),
{
    reveal_with_fuel(carried_on, 2);
    reveal_with_fuel(after_turn, 2);
}

/// Whether a path is sent to File Station.
pub open spec fn sends(progress: Progress, path: Seq<char>) -> bool {
    progress matches Progress::Asks { asked, .. } && (asked == Asked::LookUp(path) || asked
        == Asked::DeletePath(path))
}

/// Only the item's own path is ever sent to File Station, and only where it passes the
/// guard.
pub proof fn law_only_the_guarded_path_is_sent(
    run: ItemRun<'_>,
    deleted: Set<Seq<char>>,
    reply: Reply,
    now: u64,
    path: Seq<char>,
)
    requires
        run.wf(),
        sends(item_turned(run, deleted, reply, now).1, path),
    ensures
        path_refusal(path) is None,
        run.options.delete_files,
        run.item.target matches Target::Path(own) && own@ == path,
{
    reveal_with_fuel(carried_on, 3);
    reveal_with_fuel(after_turn, 3);
}

/// Whether the file phase of a run just ended well: the delete was confirmed, or the
/// absence of the path explained.
pub open spec fn files_settled(run: ItemRun<'_>, deleted: Set<Seq<char>>, reply: Reply) -> bool {
    let path = op_path(run.ops@[run.index as int]);
    ||| (run.phase is Rechecking && (reply matches Reply::Found(Ok(info)) && confirm_phase(
        info,
        path,
    ) is Done))
    ||| (run.phase is Checking && (reply matches Reply::Found(Ok(info)) && file_phase(
        info,
        path,
        target_of(*run.item),
        payload_used(run.live, *run.item),
        deleted.contains(path),
    ) is NothingThere))
}

/// The task goes after its files: where the files are to go, the task is first asked to
/// be deleted at the moment its file phase ended well.
pub proof fn law_the_task_goes_after_its_files(
    run: ItemRun<'_>,
    deleted: Set<Seq<char>>,
    reply: Reply,
    now: u64,
)
    requires
        run.wf(),
        run.options.delete_files,
        !(run.phase is Removing),
        item_turned(run, deleted, reply, now).1 matches Progress::Asks { asked, .. } && asked
            is DeleteTask,
    ensures
        files_settled(run, deleted, reply),
{
    reveal_with_fuel(carried_on, 3);
    reveal_with_fuel(after_turn, 3);
}

/// A failed phase is the last: whatever was planned after it is cancelled.
pub proof fn law_a_failed_phase_is_the_last(
    run: ItemRun<'_>,
    deleted: Set<Seq<char>>,
    reply: Reply,
    now: u64,
    why: Seq<char>,
)
    requires
        run.wf(),
        item_turned(run, deleted, reply, now).0.moved == Moved::Ended(Ending::Failed(why)),
    ensures
        item_turned(run, deleted, reply, now).1 == Progress::Over(Verdict::Failed(why)),
{
}

/// A recursive delete follows a lookup that found an object of the expected kind, and
/// nothing else.
pub proof fn law_a_delete_follows_a_found_object(
    run: ItemRun<'_>,
    deleted: Set<Seq<char>>,
    reply: Reply,
    now: u64,
)
    requires
        run.wf(),
        !(run.phase is Deleting),
        item_turned(run, deleted, reply, now).1 matches Progress::Asks { asked, .. } && asked
            is DeletePath,
    ensures
        run.phase is Checking,
        reply matches Reply::Found(Ok(PathInfo::Found { is_dir }))
            && run.item.expected_kind.takes(is_dir),
{
    reveal_with_fuel(carried_on, 3);
    reveal_with_fuel(after_turn, 3);
}

/// An item is reported as deleted exactly when the NAS said that its task went.
pub proof fn law_success_means_the_task_went(
    run: ItemRun<'_>,
    deleted: Set<Seq<char>>,
    reply: Reply,
    now: u64,
)
    requires
        run.wf(),
    ensures
        (item_turned(run, deleted, reply, now).1 matches Progress::Over(end) && end is Done) <==> (
        run.phase is Removing && (reply matches Reply::Acted(Ok(results)) && task_trouble(
            run.item.id@,
            results@,
        ) is None)),
{
    reveal_with_fuel(carried_on, 3);
    reveal_with_fuel(after_turn, 3);
}

/// An item that something was asked of is never reported as skipped: skipped means that
/// nothing was changed.
pub proof fn law_a_skipped_item_was_not_touched(
    run: ItemRun<'_>,
    deleted: Set<Seq<char>>,
    reply: Reply,
    now: u64,
)
    requires
        run.wf(),
    ensures
        !(item_turned(run, deleted, reply, now).1 matches Progress::Over(end) && end is Skipped),
{
    reveal_with_fuel(carried_on, 3);
    reveal_with_fuel(after_turn, 3);
}

/// A delete that finished and could not be confirmed does not strand its task: on a
/// retry in the same run, the absence of the path goes on to the task.
pub proof fn law_a_retry_finishes_the_job(
    first: ItemRun<'_>,
    retry: ItemRun<'_>,
    deleted: Set<Seq<char>>,
    now: u64,
    later: u64,
)
    requires
        first.wf(),
        retry.wf(),
        first.phase is Deleting,
        retry.phase is Checking,
        retry.item.target == first.item.target,
    ensures
        ({
            let remembered = item_turned(first, deleted, Reply::Deleted(Ok(())), now).0.deleted;
            item_turned(retry, remembered, Reply::Found(Ok(PathInfo::Missing)), later).1
                == Progress::Asks {
                asked: Asked::DeleteTask,
                phase: Phase::Removing,
                index: retry.index + 1,
                gone: true,
            }
        }),
{
    reveal_with_fuel(carried_on, 3);
    reveal_with_fuel(after_turn, 3);
}

/// The wait for a pause is bounded: it is only gone on with while less than the whole
/// time has passed since the pause was accepted.
pub proof fn law_the_pause_wait_is_bounded(
    run: ItemRun<'_>,
    deleted: Set<Seq<char>>,
    reply: Reply,
    now: u64,
)
    requires
        run.wf(),
        !(run.phase is Settling),
        item_turned(run, deleted, reply, now).1 matches Progress::Asks { asked, .. } && asked
            is Wait,
    ensures
        run.phase matches Phase::Rereading { started, .. } && now + PAUSE_CONFIRM_INTERVAL_MS
            < started + PAUSE_CONFIRM_TIMEOUT_MS,
{
    reveal_with_fuel(carried_on, 3);
    reveal_with_fuel(after_turn, 3);
}

/// Whether everything read of an item agrees that its payload must exist, if its
/// snapshot said so.
pub open spec fn keeps_proof(item: DeleteItem, phase: Phase, live: Option<PauseRead>) -> bool {
    payload_expected(PauseRead::seed(item).state()) ==> {
        &&& phase matches Phase::Pausing { read } ==> payload_expected(read.state())
        &&& phase matches Phase::Rereading { read, .. } ==> payload_expected(read.state())
        &&& phase matches Phase::Settling { read, .. } ==> payload_expected(read.state())
        &&& payload_expected(payload_used(live, item))
    }
}

/// A payload that the snapshot proves to exist stays proven through every reply, up to
/// the file phase: pausing a task cannot make its absence look ordinary.
pub proof fn law_the_pause_keeps_the_proof(
    run: ItemRun<'_>,
    deleted: Set<Seq<char>>,
    reply: Reply,
    now: u64,
)
    requires
        run.wf(),
        keeps_proof(*run.item, run.phase, run.live),
    ensures
        item_turned(run, deleted, reply, now).1 matches Progress::Asks { phase, .. } ==> keeps_proof(
            *run.item,
            phase,
            item_turned(run, deleted, reply, now).0.live,
        ),
{
    reveal_with_fuel(carried_on, 3);
    reveal_with_fuel(after_turn, 3);
}

/// Whether `task` is the entry for this id in a list: the first that has it.
pub open spec fn is_entry(tasks: Seq<Task>, id: Seq<char>, task: Task) -> bool {
    exists|k: int|
        {
            &&& 0 <= k < tasks.len()
            &&& #[trigger] tasks[k] == task
            &&& task.id@ == id
            &&& forall|j: int| 0 <= j < k ==> (#[trigger] tasks[j]).id@ != id
        }
}

proof fn lemma_task_by_id(tasks: Seq<Task>, id: Seq<char>)
    ensures
        match task_by_id(tasks, id) {
            Some(task) => is_entry(tasks, id, task),
            None => forall|k: int| 0 <= k < tasks.len() ==> (#[trigger] tasks[k]).id@ != id,
        },
        forall|task: Task| #[trigger] is_entry(tasks, id, task) ==> task_by_id(tasks, id) == Some(task),
    decreases tasks.len(),
{
    if tasks.len() > 0 {
        let rest = tasks.skip(1);
        lemma_task_by_id(rest, id);
        assert(forall|k: int| 0 <= k < rest.len() ==> #[trigger] rest[k] == tasks[k + 1]);
        if tasks[0].id@ != id {
            if let Some(task) = task_by_id(rest, id) {
                let k = choose|k: int|
                    {
                        &&& 0 <= k < rest.len()
                        &&& #[trigger] rest[k] == task
                        &&& task.id@ == id
                        &&& forall|j: int| 0 <= j < k ==> (#[trigger] rest[j]).id@ != id
                    };
                assert(tasks[k + 1] == task);
                assert forall|j: int| 0 <= j < k + 1 implies (#[trigger] tasks[j]).id@ != id by {
                    if j > 0 {
                        assert(rest[j - 1] == tasks[j]);
                    }
                }
            } else {
                assert forall|k: int| 0 <= k < tasks.len() implies (#[trigger] tasks[k]).id@
                    != id by {
                    if k > 0 {
                        assert(rest[k - 1] == tasks[k]);
                    }
                }
            }
        } else {
            assert(tasks[0] == tasks[0]);
        }
        assert forall|task: Task| #[trigger] is_entry(tasks, id, task) implies task_by_id(tasks, id)
            == Some(task) by {
            let k = choose|k: int|
                {
                    &&& 0 <= k < tasks.len()
                    &&& #[trigger] tasks[k] == task
                    &&& task.id@ == id
                    &&& forall|j: int| 0 <= j < k ==> (#[trigger] tasks[j]).id@ != id
                };
            if k > 0 {
                assert(tasks[0].id@ != id);
                assert(rest[k - 1] == task);
                assert forall|j: int| 0 <= j < k - 1 implies (#[trigger] rest[j]).id@ != id by {
                    assert(tasks[j + 1].id@ != id);
                }
                assert(is_entry(rest, id, task));
            }
        }
    }
}

/// Whether no entry of a list is for this id.
pub open spec fn unreported(tasks: Seq<Task>, id: Seq<char>) -> bool {
    forall|k: int| 0 <= k < tasks.len() ==> (#[trigger] tasks[k]).id@ != id
}

/// The statuses under which Download Station is, or may be, writing.
pub open spec fn may_write(status: TaskStatus) -> bool {
    match status {
        TaskStatus::Waiting => true,
        TaskStatus::Downloading => true,
        TaskStatus::Finishing => true,
        TaskStatus::HashChecking => true,
        TaskStatus::Seeding => true,
        TaskStatus::FilehostingWaiting => true,
        TaskStatus::Extracting => true,
        TaskStatus::Unknown(_) => true,
        TaskStatus::Paused => false,
        TaskStatus::Finished => false,
        TaskStatus::Error => false,
    }
}

/// The statuses of a task that stands still.
pub open spec fn at_rest(status: TaskStatus) -> bool {
    status is Paused || status is Finished || status is Error
}

/// Whether exactly this is asked.
pub open spec fn asks(progress: Progress, what: Asked) -> bool {
    match progress {
        Progress::Asks { asked, .. } => asked == what,
        Progress::Over(_) => false,
    }
}

/// A task that is, or may be, writing is paused before anything else: where the first read
/// reports it waiting, downloading, finishing, hash checking, seeding, waiting for a file
/// host, extracting or something this client does not know, or does not report it at all,
/// a pause is asked for.
pub proof fn law_an_active_task_is_paused_first(
    run: ItemRun<'_>,
    deleted: Set<Seq<char>>,
    tasks: Vec<Task>,
    task: Task,
    now: u64,
)
    requires
        run.wf(),
        run.phase is Reading,
        is_entry(tasks@, run.item.id@, task) ==> may_write(task.status),
        !is_entry(tasks@, run.item.id@, task) ==> unreported(tasks@, run.item.id@),
    ensures
        asks(item_turned(run, deleted, Reply::Tasks(Ok(tasks)), now).1, Asked::PauseTask),
{
    lemma_task_by_id(tasks@, run.item.id@);
    reveal_with_fuel(carried_on, 2);
    reveal_with_fuel(after_turn, 2);
}

/// A task that is paused, finished or in error is not paused: its files are looked up at
/// once.
pub proof fn law_an_idle_task_is_not_paused(
    run: ItemRun<'_>,
    deleted: Set<Seq<char>>,
    tasks: Vec<Task>,
    task: Task,
    now: u64,
)
    requires
        run.wf(),
        run.phase is Reading,
        run.item.target matches Target::Path(path) && path_refusal(path@) is None,
        is_entry(tasks@, run.item.id@, task),
        at_rest(task.status),
    ensures
        asks(
            item_turned(run, deleted, Reply::Tasks(Ok(tasks)), now).1,
            Asked::LookUp(run.item.target->Path_0@),
        ),
{
    lemma_task_by_id(tasks@, run.item.id@);
    reveal_with_fuel(carried_on, 3);
    reveal_with_fuel(after_turn, 3);
}

/// One turn of an item as it was driven: where it stood, and what came of what it asked.
pub struct Driven<'a> {
    pub run: ItemRun<'a>,
    pub deleted: Set<Seq<char>>,
    pub reply: Reply,
    pub now: u64,
}

/// Whether a run stands where an item was said to stand.
pub open spec fn stands_at(run: ItemRun<'_>, progress: Progress) -> bool {
    match progress {
        Progress::Asks { phase, index, gone, .. } => run.phase == phase && run.index == index
            && run.gone == gone,
        Progress::Over(_) => false,
    }
}

/// Whether these are the turns of one item, from its beginning on, each standing where the
/// one before it left off.
pub open spec fn drives(steps: Seq<Driven<'_>>, item: DeleteItem, options: DeleteOptions) -> bool {
    &&& steps.len() > 0 ==> stands_at(steps[0].run, item_begun(item, options))
    &&& forall|n: int|
        0 <= n < steps.len() ==> {
            &&& (#[trigger] steps[n]).run.wf()
            &&& *steps[n].run.item == item
            &&& steps[n].run.options == options
        }
    &&& forall|n: int| 0 < n < steps.len() ==> #[trigger] linked(steps, n)
}

/// Whether a turn stands where the one before it left off.
pub open spec fn linked(steps: Seq<Driven<'_>>, n: int) -> bool {
    let last = steps[n - 1];
    stands_at(steps[n].run, item_turned(last.run, last.deleted, last.reply, last.now).1)
}

/// Whether a step is the answer to a read of the task.
pub open spec fn reads_the_task(step: Driven<'_>) -> bool {
    (step.run.phase is Reading || step.run.phase is Rereading) && step.reply is Tasks
}

/// Whether a step read the task as paused, finished or in error.
pub open spec fn read_as_idle(step: Driven<'_>) -> bool {
    &&& reads_the_task(step)
    &&& step.reply matches Reply::Tasks(Ok(tasks))
    &&& exists|task: Task| #[trigger]
        is_entry(tasks@, step.run.item.id@, task) && at_rest(task.status)
}

/// Whether the latest read of the task among the first `n` steps found it idle.
pub open spec fn last_read_idle(steps: Seq<Driven<'_>>, n: int) -> bool {
    exists|k: int|
        {
            &&& 0 <= k < n
            &&& read_as_idle(#[trigger] steps[k])
            &&& forall|j: int| k < j < n ==> !reads_the_task(#[trigger] steps[j])
        }
}

/// Whether an item goes on in an op after its first.
spec fn past_the_first(progress: Progress) -> bool {
    match progress {
        Progress::Asks { index, .. } => index > 0,
        Progress::Over(_) => false,
    }
}

proof fn lemma_begins_with_the_first(item: DeleteItem, options: DeleteOptions)
    requires
        options.delete_files,
        !options.dry_run,
    ensures
        !past_the_first(item_begun(item, options)),
{
    reveal_with_fuel(carried_on, 2);
    reveal_with_fuel(after_turn, 2);
}

proof fn lemma_leaving_the_pause(step: Driven<'_>)
    requires
        step.run.wf(),
        step.run.options.delete_files,
        step.run.index == 0,
        past_the_first(item_turned(step.run, step.deleted, step.reply, step.now).1),
    ensures
        read_as_idle(step),
{
    reveal_with_fuel(carried_on, 2);
    reveal_with_fuel(after_turn, 2);
    let id = step.run.item.id@;
    assert(step.run.phase is Reading || step.run.phase is Rereading);
    if let Reply::Tasks(Ok(tasks)) = step.reply {
        lemma_task_by_id(tasks@, id);
        let task = task_by_id(tasks@, id)->0;
        assert(is_entry(tasks@, id, task));
        assert(at_rest(task.status));
    }
}

proof fn lemma_only_the_file_op_deletes(step: Driven<'_>, path: Seq<char>)
    requires
        step.run.wf(),
        asks(
            item_turned(step.run, step.deleted, step.reply, step.now).1,
            Asked::DeletePath(path),
        ),
    ensures
        step.run.options.delete_files,
        step.run.index == 1,
{
    reveal_with_fuel(carried_on, 3);
    reveal_with_fuel(after_turn, 3);
}

proof fn lemma_later_ops_read_nothing(step: Driven<'_>)
    requires
        step.run.wf(),
        step.run.options.delete_files,
        step.run.index > 0,
    ensures
        !reads_the_task(step),
{
}

proof fn lemma_past_the_pause(
    steps: Seq<Driven<'_>>,
    item: DeleteItem,
    options: DeleteOptions,
    n: int,
)
    requires
        drives(steps, item, options),
        options.delete_files,
        0 <= n < steps.len(),
        steps[n].run.index > 0,
    ensures
        last_read_idle(steps, n),
    decreases n,
{
    assert(steps[n].run.wf());
    if n > 0 {
        let last = steps[n - 1];
        assert(last.run.wf() && last.run.options == options);
        if last.run.index > 0 {
            lemma_past_the_pause(steps, item, options, n - 1);
            let k = choose|k: int|
                {
                    &&& 0 <= k < n - 1
                    &&& read_as_idle(#[trigger] steps[k])
                    &&& forall|j: int| k < j < n - 1 ==> !reads_the_task(#[trigger] steps[j])
                };
            lemma_later_ops_read_nothing(last);
            assert(read_as_idle(steps[k]));
        } else {
            assert(linked(steps, n));
            lemma_leaving_the_pause(last);
            assert(read_as_idle(steps[n - 1]));
        }
    } else {
        lemma_begins_with_the_first(item, options);
    }
}

/// Nothing is deleted under a task that is still writing: however an item is driven, by
/// the time its path is asked to be deleted, the latest read of the task reported it
/// paused, finished or in error.
pub proof fn law_no_delete_under_a_running_task(
    steps: Seq<Driven<'_>>,
    item: DeleteItem,
    options: DeleteOptions,
    n: int,
    path: Seq<char>,
)
    requires
        drives(steps, item, options),
        0 <= n < steps.len(),
        asks(
            item_turned(steps[n].run, steps[n].deleted, steps[n].reply, steps[n].now).1,
            Asked::DeletePath(path),
        ),
    ensures
        last_read_idle(steps, n),
{
    assert(steps[n].run.wf());
    lemma_only_the_file_op_deletes(steps[n], path);
    lemma_past_the_pause(steps, item, options, n);
}

/// A pause that was accepted is given a minute to take effect: a task that still runs is
/// looked at again every half second until then, one that stopped ends the wait at once,
/// and one that still runs at the end fails the phase.
pub proof fn law_a_pause_is_given_its_time(
    id: Seq<char>,
    read: PauseRead,
    started: u64,
    tasks: Vec<Task>,
    task: Task,
    now: u64,
)
    requires
        is_entry(tasks@, id, task),
    ensures
        ({
            let next = later_read(id, read, started, Ok(tasks), now);
            &&& at_rest(task.status) ==> next.0 == Moved::Ended(Ending::Done) && next.1 is Some
            &&& may_write(task.status) && now + 500 < started + 60000 ==> waits(next.0, 500)
                && next.1 is None
            &&& may_write(task.status) && now + 500 >= started + 60000 ==> fails(next.0)
                && next.1 is None
        }),
{
    lemma_task_by_id(tasks@, id);
}

/// Whether a phase goes on after this many milliseconds.
pub open spec fn waits(moved: Moved, ms: int) -> bool {
    moved matches Moved::Asks(Asked::Wait(t), _) && t == ms
}

/// Whether a phase failed.
pub open spec fn fails(moved: Moved) -> bool {
    moved matches Moved::Ended(end) && end is Failed
}

/// A pause was accepted, and a task removed, exactly where the entry for that task in the
/// answer carries no error; an answer that never came is a failure of either.
pub proof fn law_each_step_is_judged_by_the_tasks_own_entry(
    id: Seq<char>,
    read: PauseRead,
    answer: Result<Vec<TaskOpResult>, Error>,
    k: int,
    now: u64,
)
    requires
        answer is Ok ==> first_entry(id, answer->Ok_0@, k),
    ensures
        answer is Err ==> removed_task(id, answer) is Failed && fails(
            pause_sent(id, read, answer, now),
        ),
        answer is Ok && answer->Ok_0@[k].error == 0 ==> removed_task(id, answer) is Done
            && pause_sent(id, read, answer, now) == Moved::Asks(
            Asked::ReadTask,
            Phase::Rereading { read, started: now },
        ),
        answer is Ok && answer->Ok_0@[k].error != 0 ==> removed_task(id, answer) is Failed && fails(
            pause_sent(id, read, answer, now),
        ),
{
    if let Ok(results) = answer {
        law_a_task_is_judged_by_its_own_entry(id, results@, k);
    }
}

/// After a delete of files that finished the path is remembered and looked up once more;
/// after one that failed neither happens, and the phase is over.
pub proof fn law_a_finished_delete_is_remembered_and_checked(
    item: DeleteItem,
    path: String,
    live: Option<PauseRead>,
    deleted: Set<Seq<char>>,
    answer: Result<(), Error>,
    now: u64,
)
    ensures
        ({
            let turned = op_turned(
                item,
                Op::DeleteFiles(path),
                Phase::Deleting,
                live,
                deleted,
                Reply::Deleted(answer),
                now,
            );
            &&& answer is Ok ==> turned.deleted == deleted.insert(path@) && turned.moved
                == Moved::Asks(Asked::LookUp(path@), Phase::Rechecking)
            &&& answer is Err ==> turned.deleted == deleted && fails(turned.moved)
            &&& turned.live == live
        }),
{
}

} // verus!
