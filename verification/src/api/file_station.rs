//! `SYNO.FileStation.List` and `SYNO.FileStation.Delete`: the half of a delete that
//! Download Station will not do.
//!
//! * **List-valued parameters are JSON arrays**, unlike Download Station's
//!   comma-separated strings: a path may legally contain a comma.
//! * **Deletion is `start` + `status` polling.** It bounds the *overall* wait
//!   ([`DELETE_TIMEOUT_MS`]) instead of each round trip.
//!
//! The existence check ([`classify_getinfo`]) only *classifies* an answer; what each
//! answer means for a task is decided by `event::decide_file_phase`.

use vstd::prelude::*;
use vstd::string::StringExecFns;
use crate::api::client::{pairs, parse_envelope, payload_answer, present, Decode};
use crate::delete::{
    first_part, lemma_first_part_stands_first, lemma_stands_first_once, stands_first,
};
use crate::error::{Error, IoErrorKind};
use crate::json::{
    count_in, flag_in, i32_in, json_parsed, opt_flag_in, opt_text_in, read_count, read_flag, read_i32,
    read_opt_flag, read_opt_text, read_text, read_u32, seen, text_in, u32_in, Doc, Json,
};
use crate::model::items_in;
use crate::text::{
    chars_of, comes_before, decimal, decimal_of, lemma_precedes_total, lemma_precedes_transitive,
    opt_view, precedes, same_text, starts_with, text_between, views,
};

verus! {

/// Path lookup, used for the pre-delete existence check.
pub const FS_LIST_API: &'static str = "SYNO.FileStation.List";

/// Version range this client implements for `SYNO.FileStation.List`. **Pinned to v2**:
/// v1 cannot parse a path sent as a JSON array.
pub const FS_LIST_SUPPORTED: (u32, u32) = (2, 2);

/// File deletion.
pub const FS_DELETE_API: &'static str = "SYNO.FileStation.Delete";

/// Version range this client implements for `SYNO.FileStation.Delete`, pinned for the
/// same reason.
pub const FS_DELETE_SUPPORTED: (u32, u32) = (2, 2);

/// File Station's "no such file or directory".
pub const FS_NO_SUCH_FILE: i32 = 408;

/// File Station's "permission denied".
pub const FS_PERMISSION_DENIED: i32 = 403;

/// How often the delete task is asked whether it has finished, in milliseconds.
pub const DELETE_POLL_INTERVAL_MS: u64 = 500;

/// How long a single File Station delete may run before it is given up on, in
/// milliseconds.
pub const DELETE_TIMEOUT_MS: u64 = 300000;

// ---------------------------------------------------------------------------
// Parameters
// ---------------------------------------------------------------------------

/// A list of texts as a JSON array.
pub uninterp spec fn json_list(list: Seq<Seq<char>>) -> Seq<char>;

/// Whether a JSON value is the array of these texts.
pub open spec fn is_list_of(json: Doc, list: Seq<Seq<char>>) -> bool {
    &&& json matches Doc::Array(items)
    &&& items.len() == list.len()
    &&& forall|i: int| 0 <= i < list.len() ==> #[trigger] items[i] == Doc::Str(list[i])
}

/// Whether a text parses as the JSON array of these texts.
pub open spec fn parses_to_list(text: Seq<char>, list: Seq<Seq<char>>) -> bool {
    json_parsed(text) matches Ok(json) && is_list_of(json, list)
}

/// `serde_json::Value::from` on a list of texts, and its `Display`: the list as a JSON
/// array, which parses back to the same list whatever characters stand in it. How it
/// escapes them is not stated.
#[verifier::external_body]
fn encode_path_list(paths: &[String]) -> (text: String)
    ensures
        text@ == json_list(views(paths@)),
        parses_to_list(text@, views(paths@)),
{
    serde_json::Value::from(paths.to_vec()).to_string()
}

/// The `path` parameter every File Station method takes: a **JSON array**.
pub fn build_fs_path_params(paths: &[String]) -> (params: Vec<(&'static str, String)>)
    ensures
        pairs(params@) == seq![("path"@, json_list(views(paths@)))],
        parses_to_list(params@[0].1@, views(paths@)),
{
    let mut params: Vec<(&'static str, String)> = Vec::new();
    params.push(("path", encode_path_list(paths)));
    proof {
        assert(pairs(params@) =~= seq![("path"@, json_list(views(paths@)))]);
    }
    params
}

/// Query parameters for `SYNO.FileStation.Delete` `method=start`. A torrent directory
/// is never empty, so the delete is recursive.
pub fn build_fs_delete_params(paths: &[String]) -> (params: Vec<(&'static str, String)>)
    ensures
        pairs(params@) == seq![("path"@, json_list(views(paths@))), ("recursive"@, "true"@)],
        parses_to_list(params@[0].1@, views(paths@)),
{
    let mut params = build_fs_path_params(paths);
    let ghost before = pairs(params@);
    params.push(("recursive", "true".to_owned()));
    proof {
        assert(pairs(params@) =~= before.push(("recursive"@, "true"@)));
    }
    params
}

/// Query parameters for `SYNO.FileStation.Delete` `method=status`.
pub fn build_fs_delete_status_params(taskid: &str) -> (params: Vec<(&'static str, String)>)
    ensures
        pairs(params@) == seq![("taskid"@, taskid@)],
{
    let mut params: Vec<(&'static str, String)> = Vec::new();
    params.push(("taskid", taskid.to_owned()));
    proof {
        assert(pairs(params@) =~= seq![("taskid"@, taskid@)]);
    }
    params
}

/// Query parameters for `SYNO.FileStation.List` `method=list_share`.
pub fn build_list_share_params() -> (params: Vec<(&'static str, String)>)
    ensures
        pairs(params@) == seq![
            ("additional"@, json_list(seq!["real_path"@, "volume_status"@])),
        ],
{
    let mut wanted: Vec<String> = Vec::new();
    wanted.push("real_path".to_owned());
    wanted.push("volume_status".to_owned());
    proof {
        assert(views(wanted@) =~= seq!["real_path"@, "volume_status"@]);
    }
    let mut params: Vec<(&'static str, String)> = Vec::new();
    params.push(("additional", encode_path_list(wanted.as_slice())));
    proof {
        assert(pairs(params@) =~= seq![
            ("additional"@, json_list(seq!["real_path"@, "volume_status"@])),
        ]);
    }
    params
}

// ---------------------------------------------------------------------------
// getinfo: the existence check
// ---------------------------------------------------------------------------

/// One entry of a `getinfo` response.
#[derive(Debug, Clone, Default, PartialEq, Eq)]
pub struct FileEntry {
    pub path: String,
    pub name: String,
    pub isdir: Option<bool>,
    /// DSM's per-path error slot.
    pub code: Option<i32>,
}

/// The `data` object of a `getinfo` response.
#[derive(Debug, Clone, Default, PartialEq, Eq)]
pub struct GetInfo {
    pub files: Vec<FileEntry>,
}

/// What the NAS knows about a path.
#[derive(Debug, Clone, Copy, PartialEq, Eq, Structural)]
pub enum PathInfo {
    /// The NAS said, in so many words, that there is nothing there.
    Missing,
    /// It exists.
    Found { is_dir: bool },
    /// It could not be looked up for some reason other than absence.
    Error(i32),
    /// The response carried no entry that can be attributed to the requested path.
    Unknown,
}

/// An optional 32-bit code that may be null.
pub open spec fn opt_code_in(value: Option<Doc>) -> Option<Option<i32>> {
    match present(value) {
        None => Some(None),
        Some(json) => match i32_in(Some(json)) {
            Some(code) => Some(Some(code)),
            None => None,
        },
    }
}

/// See [`opt_code_in`].
fn read_opt_code(value: Option<&Json>) -> (code: Option<Option<i32>>)
    ensures
        code == opt_code_in(seen(value)),
{
    match value {
        None => Some(None),
        Some(Json::Null) => Some(None),
        Some(_) => match read_i32(value) {
            Some(code) => Some(Some(code)),
            None => None,
        },
    }
}

/// The fields of an entry, in order.
pub const ENTRY_FIELDS: [&'static str; 4] = ["path", "name", "isdir", "code"];

/// Whether an entry can be read.
pub open spec fn entry_readable(json: Doc) -> bool {
    &&& json.fits(ENTRY_FIELDS@, 0)
    &&& text_in(json.field("path"@, 0)) is Some
    &&& text_in(json.field("name"@, 1)) is Some
    &&& opt_flag_in(json.field("isdir"@, 2)) is Some
    &&& opt_code_in(json.field("code"@, 3)) is Some
}

/// Whether `entry` is what an entry of a response says.
pub open spec fn entry_reads(json: Doc, entry: FileEntry) -> bool {
    &&& text_in(json.field("path"@, 0)) == Some(entry.path@)
    &&& text_in(json.field("name"@, 1)) == Some(entry.name@)
    &&& opt_flag_in(json.field("isdir"@, 2)) == Some(entry.isdir)
    &&& opt_code_in(json.field("code"@, 3)) == Some(entry.code)
}

impl FileEntry {
    /// Read one entry of a `getinfo` response.
    pub fn from_json(json: &Json) -> (entry: Option<FileEntry>)
        ensures
            entry is Some <==> entry_readable(json@),
            entry matches Some(e) ==> entry_reads(json@, e),
    {
        if !json.holds(&ENTRY_FIELDS, 0) {
            return None;
        }
        let path = read_text(json.slot("path", 0));
        let name = read_text(json.slot("name", 1));
        let isdir = read_opt_flag(json.slot("isdir", 2));
        let code = read_opt_code(json.slot("code", 3));
        match (path, name, isdir, code) {
            (Some(path), Some(name), Some(isdir), Some(code)) => Some(
                FileEntry { path, name, isdir, code },
            ),
            _ => None,
        }
    }
}

/// The fields of a `getinfo` payload, in order.
pub const GETINFO_FIELDS: [&'static str; 1] = ["files"];

impl Decode for GetInfo {
    open spec fn readable(json: Doc) -> bool {
        let files = items_in(json.field("files"@, 0));
        &&& json.fits(GETINFO_FIELDS@, 0)
        &&& files is Some
        &&& forall|i: int| 0 <= i < files->0.len() ==> entry_readable(#[trigger] files->0[i])
    }

    open spec fn reads(json: Doc, value: Self) -> bool {
        let files = items_in(json.field("files"@, 0))->0;
        &&& value.files@.len() == files.len()
        &&& forall|i: int| 0 <= i < files.len() ==> entry_reads(files[i], #[trigger] value.files@[i])
    }

    fn decode(json: &Json) -> (value: Option<Self>) {
        if !json.holds(&GETINFO_FIELDS, 0) {
            return None;
        }
        let mut files: Vec<FileEntry> = Vec::new();
        match json.slot("files", 0) {
            None => {},
            Some(Json::Array(list)) => {
                let ghost docs = items_in(json@.field("files"@, 0))->0;
                let mut i: usize = 0;
                while i < list.len()
                    invariant
                        i <= list@.len(),
                        items_in(json@.field("files"@, 0)) == Some(docs),
                        docs.len() == list@.len(),
                        forall|k: int| 0 <= k < docs.len() ==> #[trigger] docs[k] == list@[k]@,
                        files@.len() == i,
                        forall|k: int| 0 <= k < i ==> entry_readable(#[trigger] docs[k]),
                        forall|k: int| 0 <= k < i ==> entry_reads(docs[k], #[trigger] files@[k]),
                    decreases list@.len() - i,
                {
                    match FileEntry::from_json(&list[i]) {
                        Some(entry) => {
                            files.push(entry);
                        },
                        None => {
                            proof {
                                assert(!entry_readable(items_in(
                                    json@.field("files"@, 0),
                                )->0[i as int]));
                            }
                            return None;
                        },
                    }
                    i += 1;
                }
            },
            Some(_) => {
                return None;
            },
        }
        Some(GetInfo { files })
    }
}

/// The first entry for exactly this path.
pub open spec fn exact_entry(files: Seq<FileEntry>, path: Seq<char>) -> Option<FileEntry>
    decreases files.len(),
{
    if files.len() == 0 {
        None
    } else if files[0].path@ == path {
        Some(files[0])
    } else {
        exact_entry(files.skip(1), path)
    }
}

/// The entry that answers for a path: one for exactly this path, else a lone entry,
/// however DSM chose to spell its path.
pub open spec fn answering_entry(files: Seq<FileEntry>, path: Seq<char>) -> Option<FileEntry> {
    match exact_entry(files, path) {
        Some(entry) => Some(entry),
        None => if files.len() == 1 {
            Some(files[0])
        } else {
            None
        },
    }
}

/// What an entry says of its path.
pub open spec fn entry_says(entry: FileEntry) -> PathInfo {
    match entry.code {
        Some(code) if code == FS_NO_SUCH_FILE => PathInfo::Missing,
        Some(code) if code != 0 => PathInfo::Error(code),
        _ => match entry.isdir {
            Some(is_dir) => PathInfo::Found { is_dir },
            None => PathInfo::Missing,
        },
    }
}

/// What a `getinfo` payload says of one path.
pub open spec fn path_classified(files: Seq<FileEntry>, path: Seq<char>) -> PathInfo {
    match answering_entry(files, path) {
        Some(entry) => entry_says(entry),
        None => PathInfo::Unknown,
    }
}

/// Read a `getinfo` payload for one path.
///
/// **The entry has to be attributable to the path that was asked about.** Several
/// entries with no match, or no entries at all, is [`PathInfo::Unknown`].
pub fn classify_getinfo(info: &GetInfo, path: &str) -> (found: PathInfo)
    ensures
        found == path_classified(info.files@, path@),
{
    let mut at: Option<usize> = if info.files.len() == 1 {
        Some(0)
    } else {
        None
    };
    let mut i: usize = 0;
    proof {
        assert(info.files@.skip(0) =~= info.files@);
    }
    while i < info.files.len()
        invariant_except_break
            i <= info.files@.len(),
            exact_entry(info.files@, path@) == exact_entry(info.files@.skip(i as int), path@),
            at == (if info.files@.len() == 1 {
                Some(0usize)
            } else {
                None
            }),
        ensures
            match at {
                Some(k) => k < info.files@.len() && answering_entry(info.files@, path@) == Some(
                    info.files@[k as int],
                ),
                None => answering_entry(info.files@, path@) is None,
            },
        decreases info.files@.len() - i,
    {
        proof {
            assert(info.files@.skip(i as int)[0] == info.files@[i as int]);
            assert(info.files@.skip(i as int).skip(1) =~= info.files@.skip(i + 1));
        }
        if same_text(info.files[i].path.as_str(), path) {
            at = Some(i);
            break;
        }
        i += 1;
    }
    match at {
        None => PathInfo::Unknown,
        Some(k) => {
            let entry = &info.files[k];
            match entry.code {
                Some(code) if code == FS_NO_SUCH_FILE => PathInfo::Missing,
                Some(code) if code != 0 => PathInfo::Error(code),
                _ => match entry.isdir {
                    Some(is_dir) => PathInfo::Found { is_dir },
                    None => PathInfo::Missing,
                },
            }
        },
    }
}

/// Whether a result is what a lookup of a path comes to.
pub open spec fn lookup_answer(
    answer: Result<GetInfo, Error>,
    path: Seq<char>,
    result: Result<PathInfo, Error>,
) -> bool {
    match answer {
        Ok(info) => result == Ok::<PathInfo, Error>(path_classified(info.files@, path)),
        Err(err) => if (err matches Error::Dsm { code, api } && code == FS_NO_SUCH_FILE) {
            result == Ok::<PathInfo, Error>(PathInfo::Missing)
        } else {
            result == Err::<PathInfo, Error>(err)
        },
    }
}

/// What the answer to a `getinfo` for a path comes to. Some builds report an absent
/// path at the envelope level instead of per entry; the answer is the same.
pub fn settle_path_info(answer: Result<GetInfo, Error>, path: &str) -> (result: Result<
    PathInfo,
    Error,
>)
    ensures
        lookup_answer(answer, path@, result),
{
    match answer {
        Ok(info) => Ok(classify_getinfo(&info, path)),
        Err(Error::Dsm { code, api }) => if code == FS_NO_SUCH_FILE {
            Ok(PathInfo::Missing)
        } else {
            Err(Error::Dsm { code, api })
        },
        Err(err) => Err(err),
    }
}

// ---------------------------------------------------------------------------
// delete: start, then poll
// ---------------------------------------------------------------------------

/// The `data` object of `method=start`.
#[derive(Debug, Clone, PartialEq, Eq)]
pub struct DeleteStarted {
    pub taskid: String,
}

/// The fields of a `start` payload, in order.
pub const STARTED_FIELDS: [&'static str; 1] = ["taskid"];

impl Decode for DeleteStarted {
    open spec fn readable(json: Doc) -> bool {
        json.fits(STARTED_FIELDS@, 1) && json.field("taskid"@, 0) is Some && text_in(json.field("taskid"@, 0)) is Some
    }

    open spec fn reads(json: Doc, value: Self) -> bool {
        text_in(json.field("taskid"@, 0)) == Some(value.taskid@)
    }

    fn decode(json: &Json) -> (value: Option<Self>) {
        if !json.holds(&STARTED_FIELDS, 1) {
            return None;
        }
        match json.slot("taskid", 0) {
            None => None,
            found => match read_text(found) {
                Some(taskid) => Some(DeleteStarted { taskid }),
                None => None,
            },
        }
    }
}

/// The `data` object of `method=status`.
#[derive(Debug, Clone, Default, PartialEq, Eq)]
pub struct DeleteStatus {
    pub finished: bool,
    /// How many paths the task could not remove.
    pub path_err_num: u32,
    pub processed_num: u32,
    pub total: u32,
    pub processing_path: Option<String>,
}

/// A 32-bit count that may be left out, which is then zero.
pub open spec fn tally_in(value: Option<Doc>) -> Option<u32> {
    match value {
        None => Some(0),
        Some(_) => u32_in(value),
    }
}

/// See [`tally_in`].
fn read_tally(value: Option<&Json>) -> (count: Option<u32>)
    ensures
        count == tally_in(seen(value)),
{
    match value {
        None => Some(0),
        Some(_) => read_u32(value),
    }
}

/// The fields of a `status` payload, in order.
pub const STATUS_FIELDS: [&'static str; 5] = [
    "finished",
    "path_err_num",
    "processed_num",
    "total",
    "processing_path",
];

impl Decode for DeleteStatus {
    open spec fn readable(json: Doc) -> bool {
        &&& json.fits(STATUS_FIELDS@, 0)
        &&& flag_in(json.field("finished"@, 0), false) is Some
        &&& tally_in(json.field("path_err_num"@, 1)) is Some
        &&& tally_in(json.field("processed_num"@, 2)) is Some
        &&& tally_in(json.field("total"@, 3)) is Some
        &&& opt_text_in(json.field("processing_path"@, 4)) is Some
    }

    open spec fn reads(json: Doc, value: Self) -> bool {
        &&& flag_in(json.field("finished"@, 0), false) == Some(value.finished)
        &&& tally_in(json.field("path_err_num"@, 1)) == Some(value.path_err_num)
        &&& tally_in(json.field("processed_num"@, 2)) == Some(value.processed_num)
        &&& tally_in(json.field("total"@, 3)) == Some(value.total)
        &&& opt_text_in(json.field("processing_path"@, 4)) == Some(opt_view(value.processing_path))
    }

    fn decode(json: &Json) -> (value: Option<Self>) {
        if !json.holds(&STATUS_FIELDS, 0) {
            return None;
        }
        let finished = read_flag(json.slot("finished", 0), false);
        let failed = read_tally(json.slot("path_err_num", 1));
        let processed = read_tally(json.slot("processed_num", 2));
        let total = read_tally(json.slot("total", 3));
        let path = read_opt_text(json.slot("processing_path", 4));
        match (finished, failed, processed, total, path) {
            (
                Some(finished),
                Some(path_err_num),
                Some(processed_num),
                Some(total),
                Some(processing_path),
            ) => Some(
                DeleteStatus { finished, path_err_num, processed_num, total, processing_path },
            ),
            _ => None,
        }
    }
}

/// How a poll of a delete task reads.
#[derive(Debug, Clone, Copy, PartialEq, Eq, Structural)]
pub enum DeleteProgress {
    /// Still working; poll again.
    Running,
    /// Everything asked for is gone.
    Finished,
    /// Finished, but this many paths were not removed.
    Failed(u32),
}

/// How a poll of a delete task reads.
pub open spec fn progress_of(finished: bool, failed: u32) -> DeleteProgress {
    if !finished {
        DeleteProgress::Running
    } else if failed > 0 {
        DeleteProgress::Failed(failed)
    } else {
        DeleteProgress::Finished
    }
}

/// Read a `status` payload. "Finished but with errors" is not success.
pub fn classify_delete_status(status: &DeleteStatus) -> (progress: DeleteProgress)
    ensures
        progress == progress_of(status.finished, status.path_err_num),
{
    if !status.finished {
        return DeleteProgress::Running;
    }
    if status.path_err_num > 0 {
        return DeleteProgress::Failed(status.path_err_num);
    }
    DeleteProgress::Finished
}

/// What a delete does after a poll.
#[derive(Debug, PartialEq, Eq)]
pub enum DeleteStep {
    /// Wait this many milliseconds and poll again.
    Wait(u64),
    /// Nothing more: this is what came of it.
    Over(Result<(), Error>),
}

/// What a delete that left paths behind is answered with.
pub open spec fn left_behind_text(count: u32, taskid: Seq<char>) -> Seq<char> {
    "File Station could not delete "@ + decimal(count as nat) + " path(s) (task "@ + taskid + ")"@
}

/// What a delete that did not finish in time is answered with.
pub open spec fn unfinished_text(taskid: Seq<char>, timeout_ms: u64) -> Seq<char> {
    "File Station delete task "@ + taskid + " did not finish within "@ + decimal(
        (timeout_ms / 1000) as nat,
    ) + "s"@
}

/// Whether a step is what a poll comes to, `now` milliseconds after some origin, with
/// the deadline on the same clock.
pub open spec fn poll_answer(
    taskid: Seq<char>,
    status: Result<DeleteStatus, Error>,
    now: u64,
    deadline: u64,
    timeout_ms: u64,
    step: DeleteStep,
) -> bool {
    match status {
        Err(err) => step == DeleteStep::Over(Err(err)),
        Ok(status) => match progress_of(status.finished, status.path_err_num) {
            DeleteProgress::Finished => step matches DeleteStep::Over(Ok(())),
            DeleteProgress::Failed(count) => step matches DeleteStep::Over(Err(Error::Io(failure)))
                && failure.kind == IoErrorKind::Other && failure.message@ == left_behind_text(
                count,
                taskid,
            ),
            DeleteProgress::Running => if now + DELETE_POLL_INTERVAL_MS >= deadline {
                step matches DeleteStep::Over(Err(Error::Io(failure))) && failure.kind
                    == IoErrorKind::TimedOut && failure.message@ == unfinished_text(
                    taskid,
                    timeout_ms,
                )
            } else {
                step == DeleteStep::Wait(DELETE_POLL_INTERVAL_MS)
            },
        },
    }
}

/// What a poll of a delete task comes to: done, failed, out of time, or another poll.
pub fn settle_delete_status(
    taskid: &str,
    status: Result<DeleteStatus, Error>,
    now: u64,
    deadline: u64,
    timeout_ms: u64,
) -> (step: DeleteStep)
    ensures
        poll_answer(taskid@, status, now, deadline, timeout_ms, step),
{
    let status = match status {
        Ok(status) => status,
        Err(err) => {
            return DeleteStep::Over(Err(err));
        },
    };
    match classify_delete_status(&status) {
        DeleteProgress::Finished => DeleteStep::Over(Ok(())),
        DeleteProgress::Failed(count) => {
            let mut text = "File Station could not delete ".to_owned();
            let number = decimal_of(count as u64);
            text.append(number.as_str());
            text.append(" path(s) (task ");
            text.append(taskid);
            text.append(")");
            DeleteStep::Over(Err(Error::operation_failed(text.as_str())))
        },
        DeleteProgress::Running => {
            if deadline <= now || deadline - now <= DELETE_POLL_INTERVAL_MS {
                let mut text = "File Station delete task ".to_owned();
                let secs = decimal_of(timeout_ms / 1000);
                text.append(taskid);
                text.append(" did not finish within ");
                text.append(secs.as_str());
                text.append("s");
                DeleteStep::Over(Err(Error::timed_out(text.as_str())))
            } else {
                DeleteStep::Wait(DELETE_POLL_INTERVAL_MS)
            }
        },
    }
}

/// The parameters a delete is started with; without any path nothing is to be sent.
pub fn delete_request(paths: &[String]) -> (params: Option<Vec<(&'static str, String)>>)
    ensures
        match params {
            Some(p) => paths@.len() > 0 && pairs(p@) == seq![
                ("path"@, json_list(views(paths@))),
                ("recursive"@, "true"@),
            ],
            None => paths@.len() == 0,
        },
{
    if paths.len() == 0 {
        None
    } else {
        Some(build_fs_delete_params(paths))
    }
}

// ---------------------------------------------------------------------------
// list_share: how full the volumes are
// ---------------------------------------------------------------------------

/// The `data` object of `SYNO.FileStation.List` `method=list_share`.
#[derive(Debug, Clone, Default, PartialEq, Eq)]
pub struct ShareList {
    pub shares: Vec<Share>,
}

/// One share as `list_share` reports it. One described oddly must not blank the others.
#[derive(Debug, Clone, Default, PartialEq, Eq)]
pub struct Share {
    pub name: String,
    pub additional: Option<ShareAdditional>,
}

/// The `additional` block requested by [`build_list_share_params`].
#[derive(Debug, Clone, Default, PartialEq, Eq)]
pub struct ShareAdditional {
    /// The resolved path, `/volume1/downloads` where `path` says `/downloads`.
    pub real_path: Option<String>,
    pub volume_status: Option<VolumeStatus>,
}

/// Free and total bytes of the volume a share lives on.
#[derive(Debug, Clone, Default, PartialEq, Eq)]
pub struct VolumeStatus {
    pub freespace: u64,
    pub totalspace: u64,
}

/// One volume's occupancy, deduped across the shares that live on it.
#[derive(Debug, Clone, PartialEq, Eq)]
pub struct VolumeUsage {
    /// The mount point as DSM spells it. Display only.
    pub name: String,
    pub total: u64,
    pub free: u64,
}

impl VolumeUsage {
    /// Bytes in use. A NAS that reports `free > total` mid-scrub uses none.
    pub fn used(&self) -> (bytes: u64)
        ensures
            bytes == (if self.total >= self.free {
                self.total - self.free
            } else {
                0
            }),
    {
        if self.total >= self.free {
            self.total - self.free
        } else {
            0
        }
    }
}

/// The fields of a block with a volume's sizes, in order.
pub const VOLUME_FIELDS: [&'static str; 2] = ["freespace", "totalspace"];

/// Whether a block with a volume's sizes can be read.
pub open spec fn status_readable(json: Doc) -> bool {
    &&& json.fits(VOLUME_FIELDS@, 0)
    &&& count_in(json.field("freespace"@, 0)) is Some
    &&& count_in(json.field("totalspace"@, 1)) is Some
}

/// Whether `status` is what such a block says.
pub open spec fn status_reads(json: Doc, status: VolumeStatus) -> bool {
    &&& count_in(json.field("freespace"@, 0)) == Some(status.freespace)
    &&& count_in(json.field("totalspace"@, 1)) == Some(status.totalspace)
}

/// Read a block with a volume's sizes.
fn read_volume_status(json: &Json) -> (status: Option<VolumeStatus>)
    ensures
        status is Some <==> status_readable(json@),
        status matches Some(s) ==> status_reads(json@, s),
{
    if !json.holds(&VOLUME_FIELDS, 0) {
        return None;
    }
    match (read_count(json.slot("freespace", 0)), read_count(json.slot("totalspace", 1))) {
        (Some(freespace), Some(totalspace)) => Some(VolumeStatus { freespace, totalspace }),
        _ => None,
    }
}

/// The fields of a share's `additional` block, in order.
pub const EXTRA_FIELDS: [&'static str; 2] = ["real_path", "volume_status"];

/// Whether a share's `additional` block can be read.
pub open spec fn extra_readable(json: Doc) -> bool {
    &&& json.fits(EXTRA_FIELDS@, 0)
    &&& opt_text_in(json.field("real_path"@, 0)) is Some
    &&& present(json.field("volume_status"@, 1)) matches Some(status) ==> status_readable(status)
}

/// Whether `extra` is what a share's `additional` block says.
pub open spec fn extra_reads(json: Doc, extra: ShareAdditional) -> bool {
    &&& opt_text_in(json.field("real_path"@, 0)) == Some(opt_view(extra.real_path))
    &&& match present(json.field("volume_status"@, 1)) {
        Some(status) => extra.volume_status matches Some(s) && status_reads(status, s),
        None => extra.volume_status is None,
    }
}

/// The value, unless it is not there or null.
fn present_value<'a>(value: Option<&'a Json>) -> (found: Option<&'a Json>)
    ensures
        seen(found) == present(seen(value)),
{
    match value {
        Some(Json::Null) => None,
        _ => value,
    }
}

/// Read a share's `additional` block.
fn read_extra(json: &Json) -> (extra: Option<ShareAdditional>)
    ensures
        extra is Some <==> extra_readable(json@),
        extra matches Some(e) ==> extra_reads(json@, e),
{
    if !json.holds(&EXTRA_FIELDS, 0) {
        return None;
    }
    let real_path = match read_opt_text(json.slot("real_path", 0)) {
        Some(path) => path,
        None => {
            return None;
        },
    };
    match present_value(json.slot("volume_status", 1)) {
        None => Some(ShareAdditional { real_path, volume_status: None }),
        Some(block) => match read_volume_status(block) {
            Some(status) => Some(ShareAdditional { real_path, volume_status: Some(status) }),
            None => None,
        },
    }
}

/// The fields of a share, in order.
pub const SHARE_FIELDS: [&'static str; 2] = ["name", "additional"];

/// Whether a share can be read.
pub open spec fn share_readable(json: Doc) -> bool {
    &&& json.fits(SHARE_FIELDS@, 0)
    &&& text_in(json.field("name"@, 0)) is Some
    &&& present(json.field("additional"@, 1)) matches Some(extra) ==> extra_readable(extra)
}

/// Whether `share` is what a response says of it.
pub open spec fn share_reads(json: Doc, share: Share) -> bool {
    &&& text_in(json.field("name"@, 0)) == Some(share.name@)
    &&& match present(json.field("additional"@, 1)) {
        Some(extra) => share.additional matches Some(e) && extra_reads(extra, e),
        None => share.additional is None,
    }
}

impl Share {
    /// Read one share of a response.
    pub fn from_json(json: &Json) -> (share: Option<Share>)
        ensures
            share is Some <==> share_readable(json@),
            share matches Some(s) ==> share_reads(json@, s),
    {
        if !json.holds(&SHARE_FIELDS, 0) {
            return None;
        }
        let name = match read_text(json.slot("name", 0)) {
            Some(name) => name,
            None => {
                return None;
            },
        };
        match present_value(json.slot("additional", 1)) {
            None => Some(Share { name, additional: None }),
            Some(block) => match read_extra(block) {
                Some(extra) => Some(Share { name, additional: Some(extra) }),
                None => None,
            },
        }
    }
}

/// The fields of a `list_share` payload, in order.
pub const SHARES_FIELDS: [&'static str; 1] = ["shares"];

impl Decode for ShareList {
    open spec fn readable(json: Doc) -> bool {
        let shares = items_in(json.field("shares"@, 0));
        &&& json.fits(SHARES_FIELDS@, 0)
        &&& shares is Some
        &&& forall|i: int| 0 <= i < shares->0.len() ==> share_readable(#[trigger] shares->0[i])
    }

    open spec fn reads(json: Doc, value: Self) -> bool {
        let shares = items_in(json.field("shares"@, 0))->0;
        &&& value.shares@.len() == shares.len()
        &&& forall|i: int|
            0 <= i < shares.len() ==> share_reads(shares[i], #[trigger] value.shares@[i])
    }

    fn decode(json: &Json) -> (value: Option<Self>) {
        if !json.holds(&SHARES_FIELDS, 0) {
            return None;
        }
        let mut shares: Vec<Share> = Vec::new();
        match json.slot("shares", 0) {
            None => {},
            Some(Json::Array(list)) => {
                let ghost docs = items_in(json@.field("shares"@, 0))->0;
                let mut i: usize = 0;
                while i < list.len()
                    invariant
                        i <= list@.len(),
                        items_in(json@.field("shares"@, 0)) == Some(docs),
                        docs.len() == list@.len(),
                        forall|k: int| 0 <= k < docs.len() ==> #[trigger] docs[k] == list@[k]@,
                        shares@.len() == i,
                        forall|k: int| 0 <= k < i ==> share_readable(#[trigger] docs[k]),
                        forall|k: int| 0 <= k < i ==> share_reads(docs[k], #[trigger] shares@[k]),
                    decreases list@.len() - i,
                {
                    match Share::from_json(&list[i]) {
                        Some(share) => {
                            shares.push(share);
                        },
                        None => {
                            proof {
                                assert(!share_readable(items_in(
                                    json@.field("shares"@, 0),
                                )->0[i as int]));
                            }
                            return None;
                        },
                    }
                    i += 1;
                }
            },
            Some(_) => {
                return None;
            },
        }
        Some(ShareList { shares })
    }
}

/// The mount component of an absolute DSM path, if it has one: every spelling of a
/// mount point starts with `volume`.
pub open spec fn mount_of(path: Seq<char>) -> Option<Seq<char>> {
    if path.len() > 0 && path[0] == '/' && "volume"@.is_prefix_of(first_part(path.skip(1))) {
        Some(first_part(path.skip(1)))
    } else {
        None
    }
}

/// The mount component of an absolute DSM path, if it has one.
fn mount_component(real_path: &str) -> (mount: Option<String>)
    ensures
        opt_view(mount) == mount_of(real_path@),
{
    let chars = chars_of(real_path);
    if chars.len() == 0 || chars[0] != '/' {
        return None;
    }
    let mut at: usize = 1;
    let ghost rest = chars@.skip(1);
    proof {
        assert(chars@.subrange(1, 1) =~= Seq::<char>::empty());
        assert(Seq::<char>::empty() + first_part(rest) =~= first_part(rest));
    }
    while at < chars.len() && chars[at] != '/'
        invariant
            1 <= at <= chars@.len(),
            rest == chars@.skip(1),
            first_part(rest) == chars@.subrange(1, at as int) + first_part(chars@.skip(at as int)),
        decreases chars@.len() - at,
    {
        proof {
            assert(chars@.skip(at as int)[0] == chars@[at as int]);
            assert(chars@.skip(at as int).skip(1) =~= chars@.skip(at + 1));
            assert(chars@.subrange(1, at as int) + (seq![chars@[at as int]] + first_part(
                chars@.skip(at + 1),
            )) =~= chars@.subrange(1, at + 1) + first_part(chars@.skip(at + 1)));
        }
        at += 1;
    }
    let first = text_between(chars.as_slice(), 1, at);
    proof {
        if at < chars@.len() {
            assert(chars@.skip(at as int)[0] == '/');
        }
        assert(first@ =~= first_part(rest));
    }
    if starts_with(first.as_str(), "volume") {
        Some(first)
    } else {
        None
    }
}

/// The volume a share shows: its mount point and its sizes. None where the share has no
/// sizes, a total of zero, or no path that names a mount point.
pub open spec fn share_volume(share: Share) -> Option<(Seq<char>, u64, u64)> {
    match share.additional {
        Some(extra) => match (extra.volume_status, extra.real_path) {
            (Some(status), Some(path)) => match mount_of(path@) {
                Some(name) => if status.totalspace > 0 {
                    Some((name, status.totalspace, status.freespace))
                } else {
                    None
                },
                None => None,
            },
            _ => None,
        },
        None => None,
    }
}

/// The sizes the first share of a mount point shows.
pub open spec fn first_sizes(shares: Seq<Share>, name: Seq<char>) -> Option<(u64, u64)>
    decreases shares.len(),
{
    if shares.len() == 0 {
        None
    } else {
        match first_sizes(shares.drop_last(), name) {
            Some(sizes) => Some(sizes),
            None => match share_volume(shares.last()) {
                Some(volume) => if volume.0 == name {
                    Some((volume.1, volume.2))
                } else {
                    None
                },
                None => None,
            },
        }
    }
}

/// Whether volumes are listed by name, each once.
pub open spec fn in_order(volumes: Seq<VolumeUsage>) -> bool {
    forall|i: int, j: int|
        0 <= i < j < volumes.len() ==> precedes(
            #[trigger] volumes[i].name@,
            #[trigger] volumes[j].name@,
        )
}

/// Whether a list of volumes names this one.
pub open spec fn names_volume(volumes: Seq<VolumeUsage>, name: Seq<char>) -> bool {
    exists|i: int| 0 <= i < volumes.len() && #[trigger] volumes[i].name@ == name
}

/// Whether `volumes` are what a list of shares shows: every mount point of it once, in
/// order, with the sizes that its first share shows.
pub open spec fn volumes_shown(shares: Seq<Share>, volumes: Seq<VolumeUsage>) -> bool {
    &&& in_order(volumes)
    &&& forall|i: int|
        0 <= i < volumes.len() ==> first_sizes(shares, (#[trigger] volumes[i]).name@) == Some(
            (volumes[i].total, volumes[i].free),
        )
    &&& forall|name: Seq<char>| #[trigger]
        first_sizes(shares, name) is Some ==> names_volume(volumes, name)
}

/// Where a volume of this name stands in order, and whether it is there already.
fn volume_position(volumes: &Vec<VolumeUsage>, name: &str) -> (found: (usize, bool))
    requires
        in_order(volumes@),
    ensures
        found.0 <= volumes@.len(),
        forall|i: int| 0 <= i < found.0 ==> precedes(#[trigger] volumes@[i].name@, name@),
        found.1 ==> found.0 < volumes@.len() && volumes@[found.0 as int].name@ == name@,
        !found.1 ==> forall|i: int|
            found.0 <= i < volumes@.len() ==> precedes(name@, #[trigger] volumes@[i].name@),
{
    let mut at: usize = 0;
    while at < volumes.len() && comes_before(volumes[at].name.as_str(), name)
        invariant
            at <= volumes@.len(),
            forall|i: int| 0 <= i < at ==> precedes(#[trigger] volumes@[i].name@, name@),
        decreases volumes@.len() - at,
    {
        at += 1;
    }
    if at < volumes.len() && same_text(volumes[at].name.as_str(), name) {
        (at, true)
    } else {
        proof {
            if at < volumes@.len() {
                lemma_precedes_total(volumes@[at as int].name@, name@);
                assert forall|i: int| at <= i < volumes@.len() implies precedes(
                    name@,
                    #[trigger] volumes@[i].name@,
                ) by {
                    if i > at {
                        assert(precedes(volumes@[at as int].name@, volumes@[i].name@));
                        lemma_precedes_transitive(
                            name@,
                            volumes@[at as int].name@,
                            volumes@[i].name@,
                        );
                    }
                }
            }
        }
        (at, false)
    }
}

/// The volume a share shows.
fn volume_of(share: &Share) -> (volume: Option<VolumeUsage>)
    ensures
        match volume {
            Some(v) => share_volume(*share) == Some((v.name@, v.total, v.free)),
            None => share_volume(*share) is None,
        },
{
    match &share.additional {
        Some(extra) => match (&extra.volume_status, &extra.real_path) {
            (Some(status), Some(path)) => {
                if status.totalspace == 0 {
                    return None;
                }
                match mount_component(path.as_str()) {
                    Some(name) => Some(
                        VolumeUsage { name, total: status.totalspace, free: status.freespace },
                    ),
                    None => None,
                }
            },
            _ => None,
        },
        None => None,
    }
}

/// Collapse a `list_share` payload into one entry per volume, sorted by name so the
/// order is stable across polls. The first share seen for a mount point wins; a share
/// that shows no volume is skipped, never given an invented name.
pub fn collect_volume_usage(list: &ShareList) -> (volumes: Vec<VolumeUsage>)
    ensures
        volumes_shown(list.shares@, volumes@),
{
    let mut volumes: Vec<VolumeUsage> = Vec::new();
    let mut i: usize = 0;
    proof {
        assert(list.shares@.take(0) =~= Seq::<Share>::empty());
    }
    while i < list.shares.len()
        invariant
            i <= list.shares@.len(),
            volumes_shown(list.shares@.take(i as int), volumes@),
        decreases list.shares@.len() - i,
    {
        let ghost before = list.shares@.take(i as int);
        let ghost after = list.shares@.take(i + 1);
        let ghost old_volumes = volumes@;
        proof {
            assert(after.drop_last() =~= before);
            assert(after.last() == list.shares@[i as int]);
        }
        if let Some(volume) = volume_of(&list.shares[i]) {
            let (at, known) = volume_position(&volumes, volume.name.as_str());
            let ghost name = volume.name@;
            let ghost added = volume;
            if !known {
                volumes.insert(at, volume);
                proof {
                    let now = volumes@;
                    assert(forall|k: int|
                        0 <= k < now.len() ==> #[trigger] now[k] == (if k < at {
                            old_volumes[k]
                        } else if k == at {
                            added
                        } else {
                            old_volumes[k - 1]
                        }));
                    assert(first_sizes(before, name) is None) by {
                        if first_sizes(before, name) is Some {
                            assert(names_volume(old_volumes, name));
                            let k = choose|k: int|
                                0 <= k < old_volumes.len() && #[trigger] old_volumes[k].name@ == name;
                            lemma_precedes_total(name, name);
                            if k < at {
                                assert(precedes(old_volumes[k].name@, name));
                            } else {
                                assert(precedes(name, old_volumes[k].name@));
                            }
                        }
                    }
                    assert(in_order(now)) by {
                        assert forall|a: int, b: int| 0 <= a < b < now.len() implies precedes(
                            #[trigger] now[a].name@,
                            #[trigger] now[b].name@,
                        ) by {
                            if a == at {
                                assert(now[b] == old_volumes[b - 1]);
                            } else if b == at {
                                assert(now[a] == old_volumes[a]);
                            } else {
                                let c = if a < at { a } else { a - 1 };
                                let d = if b < at { b } else { b - 1 };
                                assert(precedes(old_volumes[c].name@, old_volumes[d].name@));
                            }
                        }
                    }
                    assert forall|k: int| 0 <= k < now.len() implies first_sizes(
                        after,
                        (#[trigger] now[k]).name@,
                    ) == Some((now[k].total, now[k].free)) by {
                        if k != at {
                            let c = if k < at { k } else { k - 1 };
                            assert(now[k] == old_volumes[c]);
                        }
                    }
                    assert forall|n: Seq<char>| #[trigger] first_sizes(after, n) is Some implies
                        names_volume(now, n) by {
                        if first_sizes(before, n) is Some {
                            assert(names_volume(old_volumes, n));
                            let c = choose|c: int|
                                0 <= c < old_volumes.len() && #[trigger] old_volumes[c].name@ == n;
                            let k = if c < at { c } else { c + 1 };
                            assert(now[k].name@ == n);
                        } else {
                            assert(now[at as int].name@ == n);
                        }
                    }
                }
            } else {
                proof {
                    assert(first_sizes(before, name) is Some) by {
                        assert(old_volumes[at as int].name@ == name);
                    }
                    assert forall|n: Seq<char>| #[trigger] first_sizes(after, n) is Some implies
                        names_volume(old_volumes, n) by {
                        assert(first_sizes(before, n) is Some);
                    }
                }
            }
        } else {
            proof {
                assert forall|n: Seq<char>| #[trigger] first_sizes(after, n) is Some implies
                    names_volume(old_volumes, n) by {
                    assert(first_sizes(before, n) is Some);
                }
            }
        }
        i += 1;
    }
    proof {
        assert(list.shares@.take(i as int) =~= list.shares@);
    }
    volumes
}

/// Whether a result is what a storage reading comes to.
pub open spec fn storage_answer(
    answer: Result<ShareList, Error>,
    result: Result<Vec<VolumeUsage>, Error>,
) -> bool {
    match answer {
        Ok(list) => result matches Ok(volumes) && volumes_shown(list.shares@, volumes@),
        Err(err) => result == Err::<Vec<VolumeUsage>, Error>(err),
    }
}

/// What the answer to a `list_share` comes to.
///
/// A storage reading is sent without the retry that other calls have: a restricted
/// account answers it with the ambiguous permission code, and treating that as a stale
/// session would cost every other call its repair.
pub fn settle_volume_usage(answer: Result<ShareList, Error>) -> (result: Result<
    Vec<VolumeUsage>,
    Error,
>)
    ensures
        storage_answer(answer, result),
{
    match answer {
        Ok(list) => Ok(collect_volume_usage(&list)),
        Err(err) => Err(err),
    }
}

/// Whether a result is what reading a `list_share` body comes to.
pub open spec fn shares_parsed(body: Seq<char>, result: Result<ShareList, Error>) -> bool {
    match json_parsed(body) {
        Ok(json) => payload_answer(json, FS_LIST_API@, result),
        Err(message) => result matches Err(Error::Parse(m)) && m@ == message,
    }
}

/// What the body of a `list_share` response comes to.
pub fn volume_usage_from(body: &str) -> (result: Result<Vec<VolumeUsage>, Error>)
    ensures
        exists|answer: Result<ShareList, Error>| #[trigger]
            shares_parsed(body@, answer) && storage_answer(answer, result),
{
    let answer: Result<ShareList, Error> = parse_envelope(body, FS_LIST_API);
    let ghost seen = answer;
    proof {
        assert(shares_parsed(body@, seen));
    }
    settle_volume_usage(answer)
}

// ---------------------------------------------------------------------------
// Laws
// ---------------------------------------------------------------------------

/// An entry for another path never authorizes deleting this one: among several entries
/// without a match the path is unknown, and so is it without any entry.
pub proof fn law_no_entry_is_borrowed(files: Seq<FileEntry>, path: Seq<char>)
    requires
        files.len() != 1,
        forall|i: int| 0 <= i < files.len() ==> (#[trigger] files[i]).path@ != path,
    ensures
        path_classified(files, path) == PathInfo::Unknown,
{
    lemma_no_exact_entry(files, path);
}

proof fn lemma_no_exact_entry(files: Seq<FileEntry>, path: Seq<char>)
    requires
        forall|i: int| 0 <= i < files.len() ==> (#[trigger] files[i]).path@ != path,
    ensures
        exact_entry(files, path) is None,
    decreases files.len(),
{
    if files.len() > 0 {
        assert(files[0].path@ != path);
        assert forall|i: int| 0 <= i < files.skip(1).len() implies (#[trigger] files.skip(1)[i]).path@
            != path by {
            assert(files.skip(1)[i] == files[i + 1]);
        }
        lemma_no_exact_entry(files.skip(1), path);
    }
}

/// "I may not look" is never read as "there is nothing": an entry with another error
/// code is an error.
pub proof fn law_an_error_is_not_absence(entry: FileEntry)
    requires
        entry.code matches Some(code) && code != 0 && code != FS_NO_SUCH_FILE,
    ensures
        entry_says(entry) == PathInfo::Error(entry.code->0),
{
}

/// The wait for a delete is bounded: another poll is made only where it comes before
/// the deadline.
pub proof fn law_the_delete_wait_is_bounded(
    taskid: Seq<char>,
    status: Result<DeleteStatus, Error>,
    now: u64,
    deadline: u64,
    timeout_ms: u64,
    step: DeleteStep,
)
    requires
        poll_answer(taskid, status, now, deadline, timeout_ms, step),
    ensures
        step matches DeleteStep::Wait(ms) ==> ms > 0 && now + ms < deadline,
{
}

/// A delete that left paths behind is never reported done.
pub proof fn law_leftovers_are_a_failure(
    taskid: Seq<char>,
    status: DeleteStatus,
    now: u64,
    deadline: u64,
    timeout_ms: u64,
    step: DeleteStep,
)
    requires
        status.path_err_num > 0,
        poll_answer(taskid, Ok(status), now, deadline, timeout_ms, step),
    ensures
        !(step matches DeleteStep::Over(Ok(()))),
{
}

/// A lookup is answered by the entry for the path that was asked about, or by the only
/// entry there is. No such file, or no kind, means that nothing is there; any other code is
/// an error; and without a code the object found has the kind the entry gives it.
pub proof fn law_a_lookup_is_answered_by_its_entry(files: Seq<FileEntry>, path: Seq<char>, k: int)
    requires
        0 <= k < files.len(),
        files[k].path@ == path || (files.len() == 1 && k == 0),
        forall|j: int| 0 <= j < k ==> (#[trigger] files[j]).path@ != path,
    ensures
        files[k].code == Some(408i32) ==> path_classified(files, path) == PathInfo::Missing,
        forall|code: i32|
            code != 408 && code != 0 && files[k].code == Some(code) ==> #[trigger] path_classified(
                files,
                path,
            ) == PathInfo::Error(code),
        files[k].code is None || files[k].code == Some(0i32) ==> path_classified(files, path)
            == match files[k].isdir {
            Some(is_dir) => PathInfo::Found { is_dir },
            None => PathInfo::Missing,
        },
{
    if files[k].path@ == path {
        lemma_exact_entry(files, path, k);
    } else {
        lemma_no_exact_entry(files, path);
    }
}

proof fn lemma_exact_entry(files: Seq<FileEntry>, path: Seq<char>, k: int)
    requires
        0 <= k < files.len(),
        files[k].path@ == path,
        forall|j: int| 0 <= j < k ==> (#[trigger] files[j]).path@ != path,
    ensures
        exact_entry(files, path) == Some(files[k]),
    decreases k,
{
    if k > 0 {
        let rest = files.skip(1);
        assert(files[0].path@ != path);
        assert forall|j: int| 0 <= j < k - 1 implies (#[trigger] rest[j]).path@ != path by {
            assert(rest[j] == files[j + 1]);
        }
        lemma_exact_entry(rest, path, k - 1);
    }
}

/// A delete is reported done exactly when the NAS says it finished and left nothing behind,
/// and gone on with only while it is not finished.
pub proof fn law_when_a_delete_is_done(
    taskid: Seq<char>,
    status: DeleteStatus,
    now: u64,
    deadline: u64,
    timeout_ms: u64,
    step: DeleteStep,
)
    requires
        poll_answer(taskid, Ok(status), now, deadline, timeout_ms, step),
    ensures
        (step matches DeleteStep::Over(result) && result is Ok) <==> status.finished
            && status.path_err_num == 0,
        step is Wait ==> !status.finished,
        !status.finished && now + 500 < deadline ==> step is Wait,
{
}

/// Whether a share shows the volume of this name: its real path is below it, and it says
/// how large the volume is.
pub open spec fn shows_volume(share: Share, name: Seq<char>, total: u64, free: u64) -> bool {
    &&& share.additional matches Some(extra)
    &&& extra.volume_status == Some(VolumeStatus { freespace: free, totalspace: total })
    &&& total > 0
    &&& extra.real_path matches Some(path)
    &&& path@.len() > 0 && path@[0] == '/'
    &&& stands_first(name, path@.skip(1))
    &&& name.len() >= 6 && name.take(6) == seq!['v', 'o', 'l', 'u', 'm', 'e']
}

proof fn lemma_share_volume(share: Share, name: Seq<char>, total: u64, free: u64)
    ensures
        share_volume(share) == Some((name, total, free)) <==> shows_volume(share, name, total, free),
{
    reveal_strlit("volume");
    assert("volume"@ =~= seq!['v', 'o', 'l', 'u', 'm', 'e']);
    if let Some(extra) = share.additional {
        if let (Some(status), Some(path)) = (extra.volume_status, extra.real_path) {
            let rest = path@.skip(1);
            lemma_first_part_stands_first(rest);
            if stands_first(name, rest) {
                lemma_stands_first_once(name, first_part(rest), rest);
            }
            if name.len() >= 6 {
                assert("volume"@.is_prefix_of(name) <==> name.take(6) == "volume"@) by {
                    if "volume"@.is_prefix_of(name) {
                        assert(name.take(6) =~= "volume"@);
                    }
                }
            }
        }
    }
}

/// Every volume is shown once, by name, and with the sizes of the first share that shows
/// it: no share that does is passed over, and none is made up.
pub proof fn law_volumes_are_what_the_shares_show(
    shares: Seq<Share>,
    volumes: Seq<VolumeUsage>,
    k: int,
    name: Seq<char>,
    total: u64,
    free: u64,
)
    requires
        volumes_shown(shares, volumes),
        0 <= k < shares.len(),
        shows_volume(shares[k], name, total, free),
        forall|j: int, t: u64, f: u64|
            0 <= j < k ==> !#[trigger] shows_volume(shares[j], name, t, f),
    ensures
        exists|i: int|
            0 <= i < volumes.len() && (#[trigger] volumes[i]).name@ == name && volumes[i].total
                == total && volumes[i].free == free,
        forall|i: int, j: int|
            0 <= i < j < volumes.len() ==> (#[trigger] volumes[i]).name@ != (
            #[trigger] volumes[j]).name@,
{
    lemma_first_sizes(shares, name, k, total, free);
    assert(names_volume(volumes, name));
    let i = choose|i: int| 0 <= i < volumes.len() && #[trigger] volumes[i].name@ == name;
    assert(first_sizes(shares, volumes[i].name@) == Some((volumes[i].total, volumes[i].free)));
    assert forall|i: int, j: int| 0 <= i < j < volumes.len() implies (#[trigger] volumes[i]).name@
        != (#[trigger] volumes[j]).name@ by {
        lemma_precedes_total(volumes[i].name@, volumes[j].name@);
    }
}

/// No volume is made up: each one shown is that of some share, with the sizes it gives.
pub proof fn law_no_volume_is_made_up(shares: Seq<Share>, volumes: Seq<VolumeUsage>, i: int)
    requires
        volumes_shown(shares, volumes),
        0 <= i < volumes.len(),
    ensures
        exists|k: int|
            0 <= k < shares.len() && shows_volume(
                #[trigger] shares[k],
                volumes[i].name@,
                volumes[i].total,
                volumes[i].free,
            ),
{
    let v = volumes[i];
    assert(first_sizes(shares, v.name@) == Some((v.total, v.free)));
    lemma_sizes_come_from_a_share(shares, v.name@);
}

proof fn lemma_sizes_come_from_a_share(shares: Seq<Share>, name: Seq<char>)
    ensures
        first_sizes(shares, name) matches Some(sizes) ==> exists|k: int|
            0 <= k < shares.len() && shows_volume(#[trigger] shares[k], name, sizes.0, sizes.1),
    decreases shares.len(),
{
    if shares.len() > 0 {
        let head = shares.drop_last();
        lemma_sizes_come_from_a_share(head, name);
        if let Some(sizes) = first_sizes(shares, name) {
            if first_sizes(head, name) is Some {
                let k = choose|k: int|
                    0 <= k < head.len() && shows_volume(
                        #[trigger] head[k],
                        name,
                        sizes.0,
                        sizes.1,
                    );
                assert(shares[k] == head[k]);
            } else {
                lemma_share_volume(shares.last(), name, sizes.0, sizes.1);
                assert(shares[shares.len() - 1] == shares.last());
            }
        }
    }
}

proof fn lemma_first_sizes(shares: Seq<Share>, name: Seq<char>, k: int, total: u64, free: u64)
    requires
        0 <= k < shares.len(),
        shows_volume(shares[k], name, total, free),
        forall|j: int, t: u64, f: u64|
            0 <= j < k ==> !#[trigger] shows_volume(shares[j], name, t, f),
    ensures
        first_sizes(shares, name) == Some((total, free)),
    decreases shares.len(),
{
    let head = shares.drop_last();
    if k < head.len() {
        assert(forall|j: int| 0 <= j < head.len() ==> #[trigger] head[j] == shares[j]);
        lemma_first_sizes(head, name, k, total, free);
    } else {
        lemma_sizes_come_from_a_share(head, name);
        if let Some(sizes) = first_sizes(head, name) {
            let j = choose|j: int|
                0 <= j < head.len() && shows_volume(#[trigger] head[j], name, sizes.0, sizes.1);
            assert(head[j] == shares[j]);
        }
        lemma_share_volume(shares.last(), name, total, free);
    }
}

/// Volumes are listed in the order of the dictionary, whatever the order of the shares.
pub proof fn law_volumes_are_listed_by_name(
    shares: Seq<Share>,
    volumes: Seq<VolumeUsage>,
    i: int,
    j: int,
)
    requires
        volumes_shown(shares, volumes),
        0 <= i < j < volumes.len(),
    ensures
        crate::view::text_not_after(volumes[i].name@, volumes[j].name@),
{
    crate::view::lemma_precedes_means(volumes[i].name@, volumes[j].name@);
}

/// An entry of a lookup is read by its names; a kind or a code that is left out is none.
pub proof fn law_a_file_entry_reads_its_fields(
    json: Doc,
    entry: FileEntry,
    text: Seq<char>,
    flag: bool,
    code: i32,
)
    requires
        json is Object,
        entry_reads(json, entry),
    ensures
        json.at("path"@) == Some(Doc::Str(text)) ==> entry.path@ == text,
        json.at("name"@) == Some(Doc::Str(text)) ==> entry.name@ == text,
        json.at("isdir"@) == Some(Doc::Bool(flag)) ==> entry.isdir == Some(flag),
        json.at("isdir"@) is None ==> entry.isdir is None,
        json.at("code"@) == Some(Doc::Int(code as i64)) ==> entry.code == Some(code),
        json.at("code"@) is None ==> entry.code is None,
{
}

/// The state of a delete is read by its names: one that does not say that it finished has
/// not, and a count that is left out is zero.
pub proof fn law_a_delete_status_reads_its_fields(
    json: Doc,
    status: DeleteStatus,
    flag: bool,
    n: u32,
)
    requires
        json is Object,
        DeleteStatus::reads(json, status),
    ensures
        json.at("finished"@) == Some(Doc::Bool(flag)) ==> status.finished == flag,
        json.at("finished"@) is None ==> !status.finished,
        json.at("path_err_num"@) == Some(Doc::Int(n as i64)) ==> status.path_err_num == n,
        json.at("path_err_num"@) is None ==> status.path_err_num == 0,
        json.at("processed_num"@) == Some(Doc::Int(n as i64)) ==> status.processed_num == n,
        json.at("total"@) == Some(Doc::Int(n as i64)) ==> status.total == n,
{
}

/// The sizes of a volume are read by their names.
pub proof fn law_a_volume_reads_its_sizes(json: Doc, status: VolumeStatus, n: i64)
    requires
        json is Object,
        status_reads(json, status),
        n >= 0,
    ensures
        json.at("freespace"@) == Some(Doc::Int(n)) ==> status.freespace == n,
        json.at("totalspace"@) == Some(Doc::Int(n)) ==> status.totalspace == n,
{
}

} // verus!
