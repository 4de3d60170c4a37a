//! `SYNO.DownloadStation.Task`: listing, pausing, resuming and deleting tasks.
//!
//! Download Station encodes list-valued parameters as **comma-separated strings**,
//! while File Station wants JSON arrays. `delete`, `pause` and `resume` report failure
//! per task, not in the envelope: [`check_task_result`] is the step that turns a
//! non-zero per-item code into an error.

use vstd::prelude::*;
use crate::api::client::{pairs, Decode};
use crate::error::{dsm_text, prefixed, trouble_of, Error, IoErrorKind};
use crate::json::{i32_in, read_i32, read_text, text_in, Doc, Json};
use crate::text::{
    decimal, decimal_int, decimal_of, join, joined, law_joining_is_undone_by_splitting, same_text, split,
    views,
};

verus! {

/// The Download Station task API.
pub const DS_TASK_API: &'static str = "SYNO.DownloadStation.Task";

/// Version range this client implements: pinned to v1, whose string statuses the model
/// reads.
pub const DS_TASK_SUPPORTED: (u32, u32) = (1, 1);

/// The `additional` blocks the task table needs.
pub const LIST_ADDITIONAL: [&'static str; 3] = ["detail", "transfer", "file"];

/// The `additional` blocks as one parameter.
pub open spec fn additional_text() -> Seq<char> {
    joined(seq!["detail"@, "transfer"@, "file"@], ","@)
}

/// The `additional` blocks as one parameter.
fn additional_value() -> (text: String)
    ensures
        text@ == additional_text(),
{
    let mut parts: Vec<String> = Vec::new();
    parts.push(LIST_ADDITIONAL[0].to_owned());
    parts.push(LIST_ADDITIONAL[1].to_owned());
    parts.push(LIST_ADDITIONAL[2].to_owned());
    proof {
        assert(views(parts@) =~= seq!["detail"@, "transfer"@, "file"@]);
    }
    join(parts.as_slice(), ",")
}

/// Query parameters for `method=list`; without a limit every task is asked for.
pub fn build_list_params(offset: u32, limit: Option<u32>) -> (params: Vec<(&'static str, String)>)
    ensures
        pairs(params@) == seq![
            ("additional"@, additional_text()),
            ("offset"@, decimal(offset as nat)),
            (
                "limit"@,
                match limit {
                    Some(n) => decimal(n as nat),
                    None => "-1"@,
                },
            ),
        ],
{
    let mut params: Vec<(&'static str, String)> = Vec::new();
    let most = match limit {
        Some(n) => decimal_of(n as u64),
        None => "-1".to_owned(),
    };
    params.push(("additional", additional_value()));
    params.push(("offset", decimal_of(offset as u64)));
    params.push(("limit", most));
    proof {
        assert(pairs(params@) =~= seq![
            ("additional"@, additional_text()),
            ("offset"@, decimal(offset as nat)),
            (
                "limit"@,
                match limit {
                    Some(n) => decimal(n as nat),
                    None => "-1"@,
                },
            ),
        ]);
    }
    params
}

/// The `id` parameter of a list of task ids.
pub open spec fn id_pair(ids: Seq<String>) -> (Seq<char>, Seq<char>) {
    ("id"@, joined(views(ids), ","@))
}

/// The `id` parameter shared by `getinfo`, `delete`, `pause` and `resume`:
/// comma-separated. Task ids are opaque DSM handles and never contain a comma.
pub fn build_ds_id_params(ids: &[String]) -> (params: Vec<(&'static str, String)>)
    ensures
        pairs(params@) == seq![id_pair(ids@)],
{
    let mut params: Vec<(&'static str, String)> = Vec::new();
    params.push(("id", join(ids, ",")));
    proof {
        assert(pairs(params@) =~= seq![id_pair(ids@)]);
    }
    params
}

/// Query parameters for `method=delete`. `force_complete=true` would mark an unfinished
/// task complete and *keep* what it downloaded.
pub fn build_delete_params(ids: &[String]) -> (params: Vec<(&'static str, String)>)
    ensures
        pairs(params@) == seq![id_pair(ids@), ("force_complete"@, "false"@)],
{
    let mut params = build_ds_id_params(ids);
    let ghost before = pairs(params@);
    params.push(("force_complete", "false".to_owned()));
    proof {
        assert(pairs(params@) =~= before.push(("force_complete"@, "false"@)));
    }
    params
}

/// Query parameters for `method=getinfo`, asking for the same `additional` blocks the
/// list does so the result reads into the same task.
pub fn build_getinfo_params(ids: &[String]) -> (params: Vec<(&'static str, String)>)
    ensures
        pairs(params@) == seq![id_pair(ids@), ("additional"@, additional_text())],
{
    let mut params = build_ds_id_params(ids);
    let ghost before = pairs(params@);
    params.push(("additional", additional_value()));
    proof {
        assert(pairs(params@) =~= before.push(("additional"@, additional_text())));
    }
    params
}

/// A method that acts on tasks by id.
#[derive(Debug, Clone, Copy, PartialEq, Eq, Structural)]
pub enum TaskMethod {
    GetInfo,
    Pause,
    Resume,
    Delete,
}

impl TaskMethod {
    /// The method as DSM spells it.
    pub open spec fn text(self) -> Seq<char> {
        match self {
            TaskMethod::GetInfo => "getinfo"@,
            TaskMethod::Pause => "pause"@,
            TaskMethod::Resume => "resume"@,
            TaskMethod::Delete => "delete"@,
        }
    }

    /// The parameters of the method for a list of ids.
    pub open spec fn params(self, ids: Seq<String>) -> Seq<(Seq<char>, Seq<char>)> {
        match self {
            TaskMethod::GetInfo => seq![id_pair(ids), ("additional"@, additional_text())],
            TaskMethod::Pause => seq![id_pair(ids)],
            TaskMethod::Resume => seq![id_pair(ids)],
            TaskMethod::Delete => seq![id_pair(ids), ("force_complete"@, "false"@)],
        }
    }
}

/// The method and the parameters of a request that acts on tasks; without any id
/// nothing is to be sent.
pub fn task_request(method: TaskMethod, ids: &[String]) -> (request: Option<
    (&'static str, Vec<(&'static str, String)>),
>)
    ensures
        match request {
            Some((name, params)) => ids@.len() > 0 && name@ == method.text() && pairs(params@)
                == method.params(ids@),
            None => ids@.len() == 0,
        },
{
    if ids.len() == 0 {
        return None;
    }
    match method {
        TaskMethod::GetInfo => Some(("getinfo", build_getinfo_params(ids))),
        TaskMethod::Pause => Some(("pause", build_ds_id_params(ids))),
        TaskMethod::Resume => Some(("resume", build_ds_id_params(ids))),
        TaskMethod::Delete => Some(("delete", build_delete_params(ids))),
    }
}

// ---------------------------------------------------------------------------
// Per-task results
// ---------------------------------------------------------------------------

/// One entry of the per-task result array that `delete` / `pause` / `resume` answer
/// with. `error` is `0` on success.
#[derive(Debug, Clone, PartialEq, Eq)]
pub struct TaskOpResult {
    pub id: String,
    pub error: i32,
}

/// An integer that may be left out, which is then zero.
pub open spec fn code_in(value: Option<Doc>) -> Option<i32> {
    match value {
        None => Some(0),
        Some(_) => i32_in(value),
    }
}

/// See [`code_in`].
pub fn read_code(value: Option<&Json>) -> (code: Option<i32>)
    ensures
        code == code_in(crate::json::seen(value)),
{
    match value {
        None => Some(0),
        Some(_) => read_i32(value),
    }
}

/// The fields of an entry of a result array, in order.
pub const RESULT_FIELDS: [&'static str; 2] = ["id", "error"];

/// Whether an entry of a result array can be read.
pub open spec fn result_readable(json: Doc) -> bool {
    &&& json.fits(RESULT_FIELDS@, 0)
    &&& text_in(json.field("id"@, 0)) is Some
    &&& code_in(json.field("error"@, 1)) is Some
}

/// Whether `result` is what an entry says.
pub open spec fn result_reads(json: Doc, result: TaskOpResult) -> bool {
    &&& text_in(json.field("id"@, 0)) == Some(result.id@)
    &&& code_in(json.field("error"@, 1)) == Some(result.error)
}

impl TaskOpResult {
    /// Read one entry of a result array.
    pub fn from_json(json: &Json) -> (result: Option<TaskOpResult>)
        ensures
            result is Some <==> result_readable(json@),
            result matches Some(r) ==> result_reads(json@, r),
    {
        if !json.holds(&RESULT_FIELDS, 0) {
            return None;
        }
        match (read_text(json.slot("id", 0)), read_code(json.slot("error", 1))) {
            (Some(id), Some(error)) => Some(TaskOpResult { id, error }),
            _ => None,
        }
    }
}

impl Decode for Vec<TaskOpResult> {
    open spec fn readable(json: Doc) -> bool {
        json matches Doc::Array(list) && forall|i: int|
            0 <= i < list.len() ==> result_readable(#[trigger] list[i])
    }

    open spec fn reads(json: Doc, value: Self) -> bool {
        &&& value@.len() == json->Array_0.len()
        &&& forall|i: int|
            0 <= i < value@.len() ==> result_reads(json->Array_0[i], #[trigger] value@[i])
    }

    fn decode(json: &Json) -> (value: Option<Self>) {
        match json {
            Json::Array(list) => {
                let ghost docs = json@->Array_0;
                let mut results: Vec<TaskOpResult> = Vec::new();
                let mut i: usize = 0;
                while i < list.len()
                    invariant
                        i <= list@.len(),
                        *json == Json::Array(*list),
                        docs == json@->Array_0,
                        results@.len() == i,
                        forall|k: int| 0 <= k < i ==> result_readable(#[trigger] docs[k]),
                        forall|k: int|
                            0 <= k < i ==> result_reads(docs[k], #[trigger] results@[k]),
                    decreases list@.len() - i,
                {
                    match TaskOpResult::from_json(&list[i]) {
                        Some(result) => {
                            results.push(result);
                        },
                        None => {
                            proof {
                                assert(!result_readable(docs[i as int]));
                            }
                            return None;
                        },
                    }
                    i += 1;
                }
                Some(results)
            },
            _ => None,
        }
    }
}

/// The first code of a list that is not zero.
pub open spec fn first_failure(results: Seq<TaskOpResult>) -> Option<i32>
    decreases results.len(),
{
    if results.len() == 0 {
        None
    } else if results[0].error != 0 {
        Some(results[0].error)
    } else {
        first_failure(results.skip(1))
    }
}

/// Whether a result says that a task failed with this code, or that it did not.
pub open spec fn code_answer(code: Option<i32>, result: Result<(), Error>) -> bool {
    match code {
        Some(failed) => result matches Err(Error::Dsm { code: c, api }) && c == failed && api@
            == DS_TASK_API@,
        None => result is Ok,
    }
}

/// Collapse a per-task result array into one result: the first non-zero code wins.
///
/// An empty slice is `Ok`, which is only correct when the caller has already
/// established that the slice covers the task it asked about; see
/// [`check_task_result`].
pub fn check_task_results(results: &[TaskOpResult]) -> (result: Result<(), Error>)
    ensures
        code_answer(first_failure(results@), result),
{
    let mut i: usize = 0;
    proof {
        assert(results@.skip(0) =~= results@);
    }
    while i < results.len()
        invariant
            i <= results@.len(),
            first_failure(results@) == first_failure(results@.skip(i as int)),
        decreases results@.len() - i,
    {
        proof {
            assert(results@.skip(i as int)[0] == results@[i as int]);
            assert(results@.skip(i as int).skip(1) =~= results@.skip(i + 1));
        }
        if results[i].error != 0 {
            return Err(Error::dsm(results[i].error, DS_TASK_API));
        }
        i += 1;
    }
    Ok(())
}

/// The code of the first entry about a task.
pub open spec fn code_of(id: Seq<char>, results: Seq<TaskOpResult>) -> Option<i32>
    decreases results.len(),
{
    if results.len() == 0 {
        None
    } else if results[0].id@ == id {
        Some(results[0].error)
    } else {
        code_of(id, results.skip(1))
    }
}

/// Whether a result is what a result array says of one task: the code of its entry, or
/// that it has none.
pub open spec fn task_answer(
    id: Seq<char>,
    results: Seq<TaskOpResult>,
    result: Result<(), Error>,
) -> bool {
    match code_of(id, results) {
        Some(code) => code_answer(
            if code == 0 {
                None
            } else {
                Some(code)
            },
            result,
        ),
        None => result matches Err(Error::Io(failure)) && failure.kind == IoErrorKind::Other
            && failure.message@ == "DSM reported no result for task "@ + id,
    }
}

/// What a result array holds against one task, in words; nothing where it says that the
/// task was acted on.
pub open spec fn task_trouble(id: Seq<char>, results: Seq<TaskOpResult>) -> Option<Seq<char>> {
    match code_of(id, results) {
        Some(code) => if code == 0 {
            None
        } else {
            Some(
                DS_TASK_API@ + " failed: "@ + dsm_text(code, DS_TASK_API@) + " (DSM error "@
                    + decimal_int(code as int) + ")"@,
            )
        },
        None => Some("I/O error: "@ + ("DSM reported no result for task "@ + id)),
    }
}

/// What the per-task result array says about **one specific id**. An id the NAS
/// reported nothing for is a failure.
pub fn check_task_result(id: &str, results: &[TaskOpResult]) -> (result: Result<(), Error>)
    ensures
        task_answer(id@, results@, result),
        trouble_of(result) == task_trouble(id@, results@),
{
    let mut i: usize = 0;
    proof {
        assert(results@.skip(0) =~= results@);
    }
    while i < results.len()
        invariant
            i <= results@.len(),
            code_of(id@, results@) == code_of(id@, results@.skip(i as int)),
        decreases results@.len() - i,
    {
        proof {
            assert(results@.skip(i as int)[0] == results@[i as int]);
            assert(results@.skip(i as int).skip(1) =~= results@.skip(i + 1));
        }
        if same_text(results[i].id.as_str(), id) {
            return if results[i].error != 0 {
                Err(Error::dsm(results[i].error, DS_TASK_API))
            } else {
                Ok(())
            };
        }
        i += 1;
    }
    let message = prefixed("DSM reported no result for task ", id);
    Err(Error::operation_failed(message.as_str()))
}

/// Silence is not success: a result array that does not name a task never reports it
/// done, whatever it says of others.
pub proof fn law_silence_is_a_failure(
    id: Seq<char>,
    results: Seq<TaskOpResult>,
    result: Result<(), Error>,
)
    requires
        forall|i: int| 0 <= i < results.len() ==> (#[trigger] results[i]).id@ != id,
        task_answer(id, results, result),
    ensures
        result is Err,
    decreases results.len(),
{
    if results.len() > 0 {
        assert(results[0].id@ != id);
        assert forall|i: int| 0 <= i < results.skip(1).len() implies (#[trigger] results.skip(
            1,
        )[i]).id@ != id by {
            assert(results.skip(1)[i] == results[i + 1]);
        }
        law_silence_is_a_failure(id, results.skip(1), result);
    }
}

/// A batch went well exactly where every entry of it says so, and else it failed with the
/// code of the first that does not.
pub proof fn law_every_entry_counts(results: Seq<TaskOpResult>)
    ensures
        first_failure(results) is None <==> forall|i: int|
            0 <= i < results.len() ==> (#[trigger] results[i]).error == 0,
        forall|i: int|
            0 <= i < results.len() && (#[trigger] results[i]).error != 0 && (forall|j: int|
                0 <= j < i ==> (#[trigger] results[j]).error == 0) ==> first_failure(results) == Some(
                results[i].error,
            ),
    decreases results.len(),
{
    if results.len() > 0 {
        let rest = results.skip(1);
        law_every_entry_counts(rest);
        assert(forall|i: int| 0 <= i < rest.len() ==> #[trigger] rest[i] == results[i + 1]);
        assert(forall|i: int| 1 <= i < results.len() ==> #[trigger] results[i] == rest[i - 1]);
    }
}

/// A task was acted on exactly where its own entry says so: the first with its id has no
/// error code. What the array says of other tasks is of no account.
pub proof fn law_a_task_is_judged_by_its_own_entry(id: Seq<char>, results: Seq<TaskOpResult>, k: int)
    requires
        0 <= k < results.len(),
        results[k].id@ == id,
        forall|j: int| 0 <= j < k ==> (#[trigger] results[j]).id@ != id,
    ensures
        task_trouble(id, results) is None <==> results[k].error == 0,
        forall|result: Result<(), Error>| #[trigger]
            task_answer(id, results, result) ==> (result is Ok <==> results[k].error == 0),
    decreases k,
{
    assert(code_of(id, results) == Some(results[k].error)) by {
        lemma_code_of(id, results, k);
    }
}

proof fn lemma_code_of(id: Seq<char>, results: Seq<TaskOpResult>, k: int)
    requires
        0 <= k < results.len(),
        results[k].id@ == id,
        forall|j: int| 0 <= j < k ==> (#[trigger] results[j]).id@ != id,
    ensures
        code_of(id, results) == Some(results[k].error),
    decreases k,
{
    if k > 0 {
        let rest = results.skip(1);
        assert(results[0].id@ != id);
        assert forall|j: int| 0 <= j < k - 1 implies (#[trigger] rest[j]).id@ != id by {
            assert(rest[j] == results[j + 1]);
        }
        lemma_code_of(id, rest, k - 1);
    }
}

/// A request names every task it was made for and no other: its ids can be read back from
/// it.
pub proof fn law_a_request_names_its_tasks(ids: Seq<String>)
    requires
        ids.len() > 0,
        forall|i: int| 0 <= i < ids.len() ==> !(#[trigger] ids[i])@.contains(','),
    ensures
        split(id_pair(ids).1, ',') == views(ids),
{
    reveal_strlit(",");
    assert(","@ =~= seq![',']);
    assert forall|i: int| 0 <= i < views(ids).len() implies !(#[trigger] views(ids)[i]).contains(
        ',',
    ) by {
        assert(views(ids)[i] == ids[i]@);
    }
    law_joining_is_undone_by_splitting(views(ids), ',');
}

/// Every request on tasks names them, and one that removes them never marks them complete.
pub proof fn law_what_a_request_on_tasks_says(method: TaskMethod, ids: Seq<String>)
    ensures
        method.params(ids).contains(("id"@, joined(views(ids), ","@))),
        method == TaskMethod::Delete ==> method.params(ids).contains(
            ("force_complete"@, "false"@),
        ) && method.text() == "delete"@,
        method == TaskMethod::Pause ==> method.text() == "pause"@ && method.params(ids).len() == 1,
        method == TaskMethod::Resume ==> method.text() == "resume"@ && method.params(ids).len()
            == 1,
        method == TaskMethod::GetInfo ==> method.text() == "getinfo"@,
{
    assert(method.params(ids)[0] == ("id"@, joined(views(ids), ","@)));
    if method == TaskMethod::Delete {
        assert(method.params(ids)[1] == ("force_complete"@, "false"@));
    }
}

/// An entry of a result array is read by its names; one without a code carries no error.
pub proof fn law_an_entry_reads_its_fields(
    json: Doc,
    result: TaskOpResult,
    text: Seq<char>,
    code: i32,
)
    requires
        json is Object,
        result_reads(json, result),
    ensures
        json.at("id"@) == Some(Doc::Str(text)) ==> result.id@ == text,
        json.at("error"@) == Some(Doc::Int(code as i64)) ==> result.error == code,
        json.at("error"@) is None ==> result.error == 0,
{
}

} // verus!
