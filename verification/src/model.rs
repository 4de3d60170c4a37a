//! The task model, and the mapping from a DSM `list` response to [`Task`].
//!
//! * An unrecognized status never drops a row: [`TaskStatus::Unknown`] keeps the
//!   raw text.
//! * Every `additional` sub-block is optional, and so is every field in it: what is
//!   left out is zero or empty.
//! * Numbers may arrive as JSON numbers or as strings.

use vstd::prelude::*;
use crate::json::{
    count_in, flag_in, number_in, read_count, read_flag, read_number, read_small_count, read_text, seen,
    small_count_in, text_in, Doc, Json,
};
use crate::text::{
    ascii_lowercase, ascii_lowered, is_space, law_trimming_cuts_the_spaces, lemma_spaces_cut_once,
    same_text, spaces_cut, trim, trim_end, trim_start, trimmed,
};

verus! {

// ---------------------------------------------------------------------------
// Statuses
// ---------------------------------------------------------------------------

/// The v1 status strings, in the order DSM documents them.
#[derive(Debug, Clone, PartialEq, Eq, PartialOrd, Ord, Hash)]
pub enum TaskStatus {
    Waiting,
    Downloading,
    Paused,
    Finishing,
    Finished,
    HashChecking,
    Seeding,
    FilehostingWaiting,
    Extracting,
    Error,
    /// A status string this client does not recognize, kept verbatim.
    Unknown(String),
}

/// The status a word stands for, where it is a known one.
pub open spec fn known_status(word: Seq<char>) -> Option<TaskStatus> {
    if word == "waiting"@ {
        Some(TaskStatus::Waiting)
    } else if word == "downloading"@ {
        Some(TaskStatus::Downloading)
    } else if word == "paused"@ {
        Some(TaskStatus::Paused)
    } else if word == "finishing"@ {
        Some(TaskStatus::Finishing)
    } else if word == "finished"@ {
        Some(TaskStatus::Finished)
    } else if word == "hash_checking"@ {
        Some(TaskStatus::HashChecking)
    } else if word == "seeding"@ {
        Some(TaskStatus::Seeding)
    } else if word == "filehosting_waiting"@ {
        Some(TaskStatus::FilehostingWaiting)
    } else if word == "extracting"@ {
        Some(TaskStatus::Extracting)
    } else if word == "error"@ {
        Some(TaskStatus::Error)
    } else {
        None
    }
}

/// Whether `status` is what DSM's text `raw` stands for: the known status its
/// lower-case form names, white space around it aside, else the text itself.
pub open spec fn status_reads(raw: Seq<char>, status: TaskStatus) -> bool {
    match known_status(ascii_lowered(trimmed(raw))) {
        Some(known) => status == known,
        None => status matches TaskStatus::Unknown(text) && text@ == trimmed(raw),
    }
}

impl TaskStatus {
    /// The DSM spelling of this status.
    pub open spec fn text(self) -> Seq<char> {
        match self {
            TaskStatus::Waiting => "waiting"@,
            TaskStatus::Downloading => "downloading"@,
            TaskStatus::Paused => "paused"@,
            TaskStatus::Finishing => "finishing"@,
            TaskStatus::Finished => "finished"@,
            TaskStatus::HashChecking => "hash_checking"@,
            TaskStatus::Seeding => "seeding"@,
            TaskStatus::FilehostingWaiting => "filehosting_waiting"@,
            TaskStatus::Extracting => "extracting"@,
            TaskStatus::Error => "error"@,
            TaskStatus::Unknown(raw) => raw@,
        }
    }

    /// Map a DSM status string onto a variant. Case and surrounding white space are
    /// ignored.
    pub fn from_dsm_str(raw: &str) -> (status: Self)
        ensures
            status_reads(raw@, status),
    {
        let trimmed_raw = trim(raw);
        let lowered = ascii_lowercase(trimmed_raw.as_str());
        let word: &str = lowered.as_str();
        if same_text(word, "waiting") {
            TaskStatus::Waiting
        } else if same_text(word, "downloading") {
            TaskStatus::Downloading
        } else if same_text(word, "paused") {
            TaskStatus::Paused
        } else if same_text(word, "finishing") {
            TaskStatus::Finishing
        } else if same_text(word, "finished") {
            TaskStatus::Finished
        } else if same_text(word, "hash_checking") {
            TaskStatus::HashChecking
        } else if same_text(word, "seeding") {
            TaskStatus::Seeding
        } else if same_text(word, "filehosting_waiting") {
            TaskStatus::FilehostingWaiting
        } else if same_text(word, "extracting") {
            TaskStatus::Extracting
        } else if same_text(word, "error") {
            TaskStatus::Error
        } else {
            TaskStatus::Unknown(trimmed_raw)
        }
    }

    /// The DSM spelling of this status. Round-trips [`Self::from_dsm_str`].
    pub fn as_dsm_str(&self) -> (text: &str)
        ensures
            text@ == self.text(),
    {
        match self {
            TaskStatus::Waiting => "waiting",
            TaskStatus::Downloading => "downloading",
            TaskStatus::Paused => "paused",
            TaskStatus::Finishing => "finishing",
            TaskStatus::Finished => "finished",
            TaskStatus::HashChecking => "hash_checking",
            TaskStatus::Seeding => "seeding",
            TaskStatus::FilehostingWaiting => "filehosting_waiting",
            TaskStatus::Extracting => "extracting",
            TaskStatus::Error => "error",
            TaskStatus::Unknown(raw) => raw.as_str(),
        }
    }

    /// Every recognized variant.
    pub const KNOWN: [TaskStatus; 10] = [
        TaskStatus::Waiting,
        TaskStatus::Downloading,
        TaskStatus::Paused,
        TaskStatus::Finishing,
        TaskStatus::Finished,
        TaskStatus::HashChecking,
        TaskStatus::Seeding,
        TaskStatus::FilehostingWaiting,
        TaskStatus::Extracting,
        TaskStatus::Error,
    ];

    /// The same status again.
    pub fn copy(&self) -> (status: TaskStatus)
        ensures
            status == *self,
    {
        match self {
            TaskStatus::Waiting => TaskStatus::Waiting,
            TaskStatus::Downloading => TaskStatus::Downloading,
            TaskStatus::Paused => TaskStatus::Paused,
            TaskStatus::Finishing => TaskStatus::Finishing,
            TaskStatus::Finished => TaskStatus::Finished,
            TaskStatus::HashChecking => TaskStatus::HashChecking,
            TaskStatus::Seeding => TaskStatus::Seeding,
            TaskStatus::FilehostingWaiting => TaskStatus::FilehostingWaiting,
            TaskStatus::Extracting => TaskStatus::Extracting,
            TaskStatus::Error => TaskStatus::Error,
            TaskStatus::Unknown(raw) => TaskStatus::Unknown(raw.clone()),
        }
    }
}

impl Default for TaskStatus {
    /// A task listed with no `status` at all.
    fn default() -> (status: Self)
        ensures
            status matches TaskStatus::Unknown(text) && text@ == Seq::<char>::empty(),
    {
        TaskStatus::Unknown(String::new())
    }
}

// ---------------------------------------------------------------------------
// Types
// ---------------------------------------------------------------------------

/// The v1 `type` field: which protocol Download Station used to fetch the task.
#[derive(Debug, Clone, PartialEq, Eq, PartialOrd, Ord, Hash)]
pub enum TaskType {
    /// BitTorrent. The one type whose file list is mandatory.
    BitTorrent,
    Http,
    Https,
    Ftp,
    Ftps,
    Nzb,
    Emule,
    /// A type string this client does not recognize, kept verbatim.
    Unknown(String),
}

/// The type a word stands for, where it is a known one.
pub open spec fn known_type(word: Seq<char>) -> Option<TaskType> {
    if word == "bt"@ {
        Some(TaskType::BitTorrent)
    } else if word == "http"@ {
        Some(TaskType::Http)
    } else if word == "https"@ {
        Some(TaskType::Https)
    } else if word == "ftp"@ {
        Some(TaskType::Ftp)
    } else if word == "ftps"@ {
        Some(TaskType::Ftps)
    } else if word == "nzb"@ {
        Some(TaskType::Nzb)
    } else if word == "emule"@ {
        Some(TaskType::Emule)
    } else {
        None
    }
}

/// Whether `kind` is what DSM's text `raw` stands for, as [`status_reads`].
pub open spec fn type_reads(raw: Seq<char>, kind: TaskType) -> bool {
    match known_type(ascii_lowered(trimmed(raw))) {
        Some(known) => kind == known,
        None => kind matches TaskType::Unknown(text) && text@ == trimmed(raw),
    }
}

impl TaskType {
    /// The DSM spelling of this type.
    pub open spec fn text(self) -> Seq<char> {
        match self {
            TaskType::BitTorrent => "bt"@,
            TaskType::Http => "http"@,
            TaskType::Https => "https"@,
            TaskType::Ftp => "ftp"@,
            TaskType::Ftps => "ftps"@,
            TaskType::Nzb => "nzb"@,
            TaskType::Emule => "emule"@,
            TaskType::Unknown(raw) => raw@,
        }
    }

    /// Map a DSM type string onto a variant. Case and surrounding white space are
    /// ignored.
    pub fn from_dsm_str(raw: &str) -> (kind: Self)
        ensures
            type_reads(raw@, kind),
    {
        let trimmed_raw = trim(raw);
        let lowered = ascii_lowercase(trimmed_raw.as_str());
        let word: &str = lowered.as_str();
        if same_text(word, "bt") {
            TaskType::BitTorrent
        } else if same_text(word, "http") {
            TaskType::Http
        } else if same_text(word, "https") {
            TaskType::Https
        } else if same_text(word, "ftp") {
            TaskType::Ftp
        } else if same_text(word, "ftps") {
            TaskType::Ftps
        } else if same_text(word, "nzb") {
            TaskType::Nzb
        } else if same_text(word, "emule") {
            TaskType::Emule
        } else {
            TaskType::Unknown(trimmed_raw)
        }
    }

    /// The DSM spelling of this type. Round-trips [`Self::from_dsm_str`].
    pub fn as_dsm_str(&self) -> (text: &str)
        ensures
            text@ == self.text(),
    {
        match self {
            TaskType::BitTorrent => "bt",
            TaskType::Http => "http",
            TaskType::Https => "https",
            TaskType::Ftp => "ftp",
            TaskType::Ftps => "ftps",
            TaskType::Nzb => "nzb",
            TaskType::Emule => "emule",
            TaskType::Unknown(raw) => raw.as_str(),
        }
    }

    /// Whether DSM should always have sent a file list for a task of this type. Only
    /// BitTorrent answers yes.
    pub fn file_list_is_mandatory(&self) -> (yes: bool)
        ensures
            yes == (*self is BitTorrent),
    {
        match self {
            TaskType::BitTorrent => true,
            _ => false,
        }
    }

    /// Every recognized variant.
    pub const KNOWN: [TaskType; 7] = [
        TaskType::BitTorrent,
        TaskType::Http,
        TaskType::Https,
        TaskType::Ftp,
        TaskType::Ftps,
        TaskType::Nzb,
        TaskType::Emule,
    ];
}

impl Default for TaskType {
    /// A task listed with no `type`.
    fn default() -> (kind: Self)
        ensures
            kind matches TaskType::Unknown(text) && text@ == Seq::<char>::empty(),
    {
        TaskType::Unknown(String::new())
    }
}

// ---------------------------------------------------------------------------
// Tasks
// ---------------------------------------------------------------------------

/// One entry of `additional.file`.
#[derive(Debug, Clone, PartialEq, Eq)]
pub struct TaskFile {
    /// A path relative to the task's on-disk root.
    pub filename: String,
    pub size: u64,
    /// DSM priority word (`normal`, `low`, `high`, `skip`).
    pub priority: String,
    /// Whether this file is part of the download. Absent means yes.
    pub wanted: bool,
}

/// One Download Station task, flattened out of the DSM wire shape.
#[derive(Debug, Clone, PartialEq, Eq)]
pub struct Task {
    pub id: String,
    pub title: String,
    pub status: TaskStatus,
    /// Which protocol fetched it.
    pub task_type: TaskType,
    /// Total size of the task in bytes, as DSM reports it.
    pub size: u64,
    pub downloaded: u64,
    pub uploaded: u64,
    pub download_speed: u64,
    pub upload_speed: u64,
    /// Usually share-relative with no leading slash; some configurations surface
    /// `/volumeN/share/…`.
    pub destination: String,
    pub files: Vec<TaskFile>,
    pub seeders: u32,
    pub leechers: u32,
    /// Unix seconds, when DSM supplied one.
    pub create_time: Option<i64>,
}

/// Seconds until completion at the current rate: what is left, divided by the
/// rate, rounded up; none where nothing moves or nothing is left.
pub open spec fn eta_of(size: u64, downloaded: u64, speed: u64) -> Option<nat> {
    if speed == 0 || size <= downloaded {
        None
    } else {
        Some(((size - downloaded + speed - 1) / (speed as int)) as nat)
    }
}

impl Task {
    /// Seconds until completion at the current rate, or `None` when that is not a
    /// meaningful question: nothing is downloading, or nothing is left.
    pub fn eta(&self) -> (secs: Option<u64>)
        ensures
            match secs {
                Some(s) => eta_of(self.size, self.downloaded, self.download_speed) == Some(s as nat),
                None => eta_of(self.size, self.downloaded, self.download_speed) is None,
            },
    {
        if self.download_speed == 0 {
            return None;
        }
        if self.size <= self.downloaded {
            return None;
        }
        let remaining: u64 = self.size - self.downloaded;
        let speed: u64 = self.download_speed;
        let whole: u64 = remaining / speed;
        proof {
            let r = remaining as int;
            let s = speed as int;
            assert((r + s - 1) / s == if r % s == 0 {
                r / s
            } else {
                r / s + 1
            }) by (nonlinear_arith)
                requires
                    r > 0,
                    s > 0,
            ;
            assert(r / s <= r) by (nonlinear_arith)
                requires
                    r > 0,
                    s > 0,
            ;
            assert(r % s != 0 ==> r / s < r) by (nonlinear_arith)
                requires
                    r > 0,
                    s > 0,
            ;
        }
        if remaining % speed == 0 {
            Some(whole)
        } else {
            Some(whole + 1)
        }
    }
}

/// The `data` object of a `list` response.
#[derive(Debug, Clone, Default, PartialEq, Eq)]
pub struct TaskList {
    /// How many tasks exist on the NAS, which may exceed the tasks listed.
    pub total: u32,
    pub offset: u32,
    pub tasks: Vec<Task>,
}

// ---------------------------------------------------------------------------
// The wire shape
// ---------------------------------------------------------------------------

/// The fields of a file entry, in order.
pub const FILE_FIELDS: [&'static str; 4] = ["filename", "size", "priority", "wanted"];

/// The fields of a task, in order.
pub const TASK_FIELDS: [&'static str; 6] = ["id", "title", "status", "type", "size", "additional"];

/// The fields of a task's `additional` block, in order.
pub const ADDITIONAL_FIELDS: [&'static str; 3] = ["detail", "transfer", "file"];

/// The fields of a task's `detail` block, in order.
pub const DETAIL_FIELDS: [&'static str; 4] = [
    "destination",
    "connected_seeders",
    "connected_leechers",
    "create_time",
];

/// The fields of a task's `transfer` block, in order.
pub const TRANSFER_FIELDS: [&'static str; 4] = [
    "size_downloaded",
    "size_uploaded",
    "speed_download",
    "speed_upload",
];

/// The fields of a `list` payload, in order.
pub const LIST_FIELDS: [&'static str; 3] = ["total", "offset", "tasks"];

/// A block that may be left out, which then has nothing in it. `None` where
/// something that does not hold these fields stands in its place.
pub open spec fn block_in(value: Option<Doc>, names: Seq<&'static str>) -> Option<Option<Doc>> {
    match value {
        None => Some(None),
        Some(j) => if j.fits(names, 0) {
            Some(Some(j))
        } else {
            None
        },
    }
}

/// A field of a block that may not be there.
pub open spec fn member_of(block: Option<Doc>, key: Seq<char>, place: int) -> Option<Doc> {
    match block {
        Some(j) => j.field(key, place),
        None => None,
    }
}

/// See [`block_in`].
pub fn read_block<'a, const N: usize>(
    value: Option<&'a Json>,
    names: &[&'static str; N],
) -> (block: Option<Option<&'a Json>>)
    ensures
        match block {
            Some(b) => block_in(seen(value), names@) == Some(seen(b)),
            None => block_in(seen(value), names@) is None,
        },
{
    match value {
        None => Some(None),
        Some(j) => if j.holds(names, 0) {
            Some(Some(j))
        } else {
            None
        },
    }
}

/// See [`member_of`].
pub fn get_in<'a>(block: Option<&'a Json>, key: &str, place: usize) -> (found: Option<&'a Json>)
    ensures
        seen(found) == member_of(seen(block), key@, place as int),
{
    match block {
        Some(j) => j.slot(key, place),
        None => None,
    }
}

/// A list that may be left out, which is then empty. `None` where something else
/// stands in its place.
pub open spec fn items_in(value: Option<Doc>) -> Option<Seq<Doc>> {
    match value {
        None => Some(Seq::empty()),
        Some(Doc::Array(list)) => Some(list),
        Some(_) => None,
    }
}

/// Whether a file entry can be read.
pub open spec fn file_readable(j: Doc) -> bool {
    &&& j.fits(FILE_FIELDS@, 0)
    &&& text_in(j.field("filename"@, 0)) is Some
    &&& count_in(j.field("size"@, 1)) is Some
    &&& text_in(j.field("priority"@, 2)) is Some
    &&& flag_in(j.field("wanted"@, 3), true) is Some
}

/// Whether `file` is what the entry says.
pub open spec fn file_reads(j: Doc, file: TaskFile) -> bool {
    &&& text_in(j.field("filename"@, 0)) == Some(file.filename@)
    &&& count_in(j.field("size"@, 1)) == Some(file.size)
    &&& text_in(j.field("priority"@, 2)) == Some(file.priority@)
    &&& flag_in(j.field("wanted"@, 3), true) == Some(file.wanted)
}

impl TaskFile {
    /// Read one entry of `additional.file`.
    pub fn from_json(j: &Json) -> (file: Option<TaskFile>)
        ensures
            file is Some <==> file_readable(j@),
            file matches Some(f) ==> file_reads(j@, f),
    {
        if !j.holds(&FILE_FIELDS, 0) {
            return None;
        }
        let filename = match read_text(j.slot("filename", 0)) {
            Some(text) => text,
            None => {
                return None;
            },
        };
        let size: u64 = match read_count(j.slot("size", 1)) {
            Some(n) => n,
            None => {
                return None;
            },
        };
        let priority = match read_text(j.slot("priority", 2)) {
            Some(text) => text,
            None => {
                return None;
            },
        };
        let wanted = match read_flag(j.slot("wanted", 3), true) {
            Some(flag) => flag,
            None => {
                return None;
            },
        };
        Some(TaskFile { filename, size, priority, wanted })
    }
}

/// Whether every entry of a file list can be read.
pub open spec fn files_readable(list: Seq<Doc>) -> bool {
    forall|i: int| 0 <= i < list.len() ==> file_readable(#[trigger] list[i])
}

/// Whether `files` are what the entries say, one for one.
pub open spec fn files_read(list: Seq<Doc>, files: Seq<TaskFile>) -> bool {
    &&& files.len() == list.len()
    &&& forall|i: int| 0 <= i < list.len() ==> file_reads(list[i], #[trigger] files[i])
}

/// Read a file list that may be left out.
fn read_files(value: Option<&Json>) -> (files: Option<Vec<TaskFile>>)
    ensures
        files is Some <==> items_in(seen(value)) is Some && files_readable(
            items_in(seen(value))->0,
        ),
        files matches Some(f) ==> files_read(items_in(seen(value))->0, f@),
{
    let mut files: Vec<TaskFile> = Vec::new();
    match value {
        None => Some(files),
        Some(Json::Array(list)) => {
            let ghost docs = items_in(seen(value))->0;
            let mut i: usize = 0;
            while i < list.len()
                invariant
                    i <= list@.len(),
                    items_in(seen(value)) == Some(docs),
                    docs.len() == list@.len(),
                    forall|k: int| 0 <= k < docs.len() ==> #[trigger] docs[k] == list@[k]@,
                    files@.len() == i,
                    forall|k: int| 0 <= k < i ==> file_readable(#[trigger] docs[k]),
                    forall|k: int| 0 <= k < i ==> file_reads(docs[k], #[trigger] files@[k]),
                decreases list@.len() - i,
            {
                match TaskFile::from_json(&list[i]) {
                    Some(file) => {
                        files.push(file);
                    },
                    None => {
                        proof {
                            assert(!file_readable(docs[i as int]));
                        }
                        return None;
                    },
                }
                i += 1;
            }
            Some(files)
        },
        Some(_) => None,
    }
}

/// The `additional` block of a task.
pub open spec fn additional(j: Doc) -> Option<Doc> {
    block_in(j.field("additional"@, 5), ADDITIONAL_FIELDS@)->0
}

/// A sub-block of the `additional` block of a task.
pub open spec fn sub_block(
    j: Doc,
    key: Seq<char>,
    place: int,
    names: Seq<&'static str>,
) -> Option<Doc> {
    block_in(member_of(additional(j), key, place), names)->0
}

/// Whether a task can be read: each field, where it is there, has a type the
/// readers take.
pub open spec fn task_readable(j: Doc) -> bool {
    let detail = sub_block(j, "detail"@, 0, DETAIL_FIELDS@);
    let transfer = sub_block(j, "transfer"@, 1, TRANSFER_FIELDS@);
    let files = member_of(additional(j), "file"@, 2);
    &&& j.fits(TASK_FIELDS@, 0)
    &&& text_in(j.field("id"@, 0)) is Some
    &&& text_in(j.field("title"@, 1)) is Some
    &&& text_in(j.field("status"@, 2)) is Some
    &&& text_in(j.field("type"@, 3)) is Some
    &&& count_in(j.field("size"@, 4)) is Some
    &&& block_in(j.field("additional"@, 5), ADDITIONAL_FIELDS@) is Some
    &&& block_in(member_of(additional(j), "detail"@, 0), DETAIL_FIELDS@) is Some
    &&& block_in(member_of(additional(j), "transfer"@, 1), TRANSFER_FIELDS@) is Some
    &&& items_in(files) is Some
    &&& files_readable(items_in(files)->0)
    &&& text_in(member_of(detail, "destination"@, 0)) is Some
    &&& small_count_in(member_of(detail, "connected_seeders"@, 1)) is Some
    &&& small_count_in(member_of(detail, "connected_leechers"@, 2)) is Some
    &&& number_in(member_of(detail, "create_time"@, 3)) is Some
    &&& count_in(member_of(transfer, "size_downloaded"@, 0)) is Some
    &&& count_in(member_of(transfer, "size_uploaded"@, 1)) is Some
    &&& count_in(member_of(transfer, "speed_download"@, 2)) is Some
    &&& count_in(member_of(transfer, "speed_upload"@, 3)) is Some
}

/// Whether `task` is what the response says of it.
pub open spec fn task_reads(j: Doc, task: Task) -> bool {
    let detail = sub_block(j, "detail"@, 0, DETAIL_FIELDS@);
    let transfer = sub_block(j, "transfer"@, 1, TRANSFER_FIELDS@);
    let files = member_of(additional(j), "file"@, 2);
    &&& text_in(j.field("id"@, 0)) == Some(task.id@)
    &&& text_in(j.field("title"@, 1)) == Some(task.title@)
    &&& status_reads(text_in(j.field("status"@, 2))->0, task.status)
    &&& type_reads(text_in(j.field("type"@, 3))->0, task.task_type)
    &&& count_in(j.field("size"@, 4)) == Some(task.size)
    &&& files_read(items_in(files)->0, task.files@)
    &&& text_in(member_of(detail, "destination"@, 0)) == Some(task.destination@)
    &&& small_count_in(member_of(detail, "connected_seeders"@, 1)) == Some(task.seeders)
    &&& small_count_in(member_of(detail, "connected_leechers"@, 2)) == Some(task.leechers)
    &&& number_in(member_of(detail, "create_time"@, 3)) == Some(task.create_time)
    &&& count_in(member_of(transfer, "size_downloaded"@, 0)) == Some(task.downloaded)
    &&& count_in(member_of(transfer, "size_uploaded"@, 1)) == Some(task.uploaded)
    &&& count_in(member_of(transfer, "speed_download"@, 2)) == Some(task.download_speed)
    &&& count_in(member_of(transfer, "speed_upload"@, 3)) == Some(task.upload_speed)
}

/// The counters of a task's `transfer` block.
struct Transfer {
    downloaded: u64,
    uploaded: u64,
    download_speed: u64,
    upload_speed: u64,
}

/// Read a task's `transfer` block.
fn read_transfer(block: Option<&Json>) -> (transfer: Option<Transfer>)
    ensures
        ({
            let b = seen(block);
            let downloaded = count_in(member_of(b, "size_downloaded"@, 0));
            let uploaded = count_in(member_of(b, "size_uploaded"@, 1));
            let down = count_in(member_of(b, "speed_download"@, 2));
            let up = count_in(member_of(b, "speed_upload"@, 3));
            match transfer {
                Some(t) => downloaded == Some(t.downloaded) && uploaded == Some(t.uploaded) && down
                    == Some(t.download_speed) && up == Some(t.upload_speed),
                None => downloaded is None || uploaded is None || down is None || up is None,
            }
        }),
{
    let downloaded = read_count(get_in(block, "size_downloaded", 0));
    let uploaded = read_count(get_in(block, "size_uploaded", 1));
    let down = read_count(get_in(block, "speed_download", 2));
    let up = read_count(get_in(block, "speed_upload", 3));
    match (downloaded, uploaded, down, up) {
        (Some(downloaded), Some(uploaded), Some(download_speed), Some(upload_speed)) => Some(
            Transfer { downloaded, uploaded, download_speed, upload_speed },
        ),
        _ => None,
    }
}

/// The fields of a task's `detail` block.
struct Detail {
    destination: String,
    seeders: u32,
    leechers: u32,
    create_time: Option<i64>,
}

/// Read a task's `detail` block.
fn read_detail(block: Option<&Json>) -> (detail: Option<Detail>)
    ensures
        ({
            let b = seen(block);
            let destination = text_in(member_of(b, "destination"@, 0));
            let seeders = small_count_in(member_of(b, "connected_seeders"@, 1));
            let leechers = small_count_in(member_of(b, "connected_leechers"@, 2));
            let time = number_in(member_of(b, "create_time"@, 3));
            match detail {
                Some(d) => destination == Some(d.destination@) && seeders == Some(d.seeders)
                    && leechers == Some(d.leechers) && time == Some(d.create_time),
                None => destination is None || seeders is None || leechers is None || time is None,
            }
        }),
{
    let destination = read_text(get_in(block, "destination", 0));
    let seeders = read_small_count(get_in(block, "connected_seeders", 1));
    let leechers = read_small_count(get_in(block, "connected_leechers", 2));
    let time = read_number(get_in(block, "create_time", 3));
    match (destination, seeders, leechers, time) {
        (Some(destination), Some(seeders), Some(leechers), Some(create_time)) => Some(
            Detail { destination, seeders, leechers, create_time },
        ),
        _ => None,
    }
}

impl Task {
    /// Read one task of a response.
    pub fn from_json(j: &Json) -> (task: Option<Task>)
        ensures
            task is Some <==> task_readable(j@),
            task matches Some(t) ==> task_reads(j@, t),
    {
        if !j.holds(&TASK_FIELDS, 0) {
            return None;
        }
        let id = read_text(j.slot("id", 0));
        let title = read_text(j.slot("title", 1));
        let status = read_text(j.slot("status", 2));
        let kind = read_text(j.slot("type", 3));
        let size = read_count(j.slot("size", 4));
        let additional = match read_block(j.slot("additional", 5), &ADDITIONAL_FIELDS) {
            Some(block) => block,
            None => {
                return None;
            },
        };
        let detail = match read_block(get_in(additional, "detail", 0), &DETAIL_FIELDS) {
            Some(block) => read_detail(block),
            None => {
                return None;
            },
        };
        let transfer = match read_block(get_in(additional, "transfer", 1), &TRANSFER_FIELDS) {
            Some(block) => read_transfer(block),
            None => {
                return None;
            },
        };
        let files = match read_files(get_in(additional, "file", 2)) {
            Some(files) => files,
            None => {
                return None;
            },
        };
        match (id, title, status, kind, size) {
            (Some(id), Some(title), Some(status), Some(kind), Some(size)) => match (
                detail,
                transfer,
            ) {
                (Some(detail), Some(transfer)) => Some(
                    Task {
                        id,
                        title,
                        status: TaskStatus::from_dsm_str(status.as_str()),
                        task_type: TaskType::from_dsm_str(kind.as_str()),
                        size,
                        downloaded: transfer.downloaded,
                        uploaded: transfer.uploaded,
                        download_speed: transfer.download_speed,
                        upload_speed: transfer.upload_speed,
                        destination: detail.destination,
                        files,
                        seeders: detail.seeders,
                        leechers: detail.leechers,
                        create_time: detail.create_time,
                    },
                ),
                _ => None,
            },
            _ => None,
        }
    }
}

/// Whether a `list` payload can be read.
pub open spec fn list_readable(j: Doc) -> bool {
    let tasks = items_in(j.field("tasks"@, 2));
    &&& j.fits(LIST_FIELDS@, 0)
    &&& small_count_in(j.field("total"@, 0)) is Some
    &&& small_count_in(j.field("offset"@, 1)) is Some
    &&& tasks is Some
    &&& forall|i: int| 0 <= i < tasks->0.len() ==> task_readable(#[trigger] tasks->0[i])
}

/// Whether `list` is what the payload says, its tasks one for one and in order.
pub open spec fn list_reads(j: Doc, list: TaskList) -> bool {
    let tasks = items_in(j.field("tasks"@, 2))->0;
    &&& small_count_in(j.field("total"@, 0)) == Some(list.total)
    &&& small_count_in(j.field("offset"@, 1)) == Some(list.offset)
    &&& list.tasks@.len() == tasks.len()
    &&& forall|i: int| 0 <= i < tasks.len() ==> task_reads(tasks[i], #[trigger] list.tasks@[i])
}

impl TaskList {
    /// Read the `data` object of a `list` response.
    pub fn from_json(j: &Json) -> (list: Option<TaskList>)
        ensures
            list is Some <==> list_readable(j@),
            list matches Some(l) ==> list_reads(j@, l),
    {
        if !j.holds(&LIST_FIELDS, 0) {
            return None;
        }
        let total: u32 = match read_small_count(j.slot("total", 0)) {
            Some(n) => n,
            None => {
                return None;
            },
        };
        let offset: u32 = match read_small_count(j.slot("offset", 1)) {
            Some(n) => n,
            None => {
                return None;
            },
        };
        let mut tasks: Vec<Task> = Vec::new();
        match j.slot("tasks", 2) {
            None => {},
            Some(Json::Array(list)) => {
                let ghost docs = items_in(j@.field("tasks"@, 2))->0;
                let mut i: usize = 0;
                while i < list.len()
                    invariant
                        i <= list@.len(),
                        items_in(j@.field("tasks"@, 2)) == Some(docs),
                        docs.len() == list@.len(),
                        forall|k: int| 0 <= k < docs.len() ==> #[trigger] docs[k] == list@[k]@,
                        tasks@.len() == i,
                        forall|k: int| 0 <= k < i ==> task_readable(#[trigger] docs[k]),
                        forall|k: int| 0 <= k < i ==> task_reads(docs[k], #[trigger] tasks@[k]),
                    decreases list@.len() - i,
                {
                    match Task::from_json(&list[i]) {
                        Some(task) => {
                            tasks.push(task);
                        },
                        None => {
                            proof {
                                assert(!task_readable(items_in(j@.field("tasks"@, 2))->0[i as int]));
                            }
                            return None;
                        },
                    }
                    i += 1;
                }
            },
            Some(_) => {
                return None;
            },
        }
        Some(TaskList { total, offset, tasks })
    }
}

// ---------------------------------------------------------------------------
// Laws
// ---------------------------------------------------------------------------

proof fn lemma_trim_end_idempotent(s: Seq<char>)
    ensures
        trim_end(trim_end(s)) == trim_end(s),
        trim_end(s).len() <= s.len(),
        trim_end(s) == s.take(trim_end(s).len() as int),
    decreases s.len(),
{
    if s.len() > 0 && is_space(s.last()) {
        lemma_trim_end_idempotent(s.drop_last());
        assert(s.drop_last().take(trim_end(s).len() as int) =~= s.take(trim_end(s).len() as int));
    } else {
        assert(s.take(s.len() as int) =~= s);
    }
}

proof fn lemma_trim_start_clean(s: Seq<char>)
    ensures
        trim_start(s).len() > 0 ==> !is_space(trim_start(s)[0]),
    decreases s.len(),
{
    if s.len() > 0 && is_space(s[0]) {
        lemma_trim_start_clean(s.skip(1));
    }
}

/// Trimming a trimmed text changes nothing.
pub proof fn law_trim_is_idempotent(s: Seq<char>)
    ensures
        trimmed(trimmed(s)) == trimmed(s),
{
    let t = trim_start(s);
    lemma_trim_start_clean(s);
    lemma_trim_end_idempotent(t);
    let u = trim_end(t);
    if u.len() > 0 {
        assert(u[0] == t[0]);
    }
    assert(trim_start(u) == u);
}

/// A status that [`TaskStatus::from_dsm_str`] can give.
pub open spec fn status_is_canonical(status: TaskStatus) -> bool {
    match status {
        TaskStatus::Unknown(raw) => trimmed(raw@) == raw@ && known_status(ascii_lowered(raw@)) is None,
        _ => true,
    }
}

/// Whatever text a status is read from, the result is canonical.
pub proof fn law_reading_a_status_is_canonical(raw: Seq<char>, status: TaskStatus)
    requires
        status_reads(raw, status),
    ensures
        status_is_canonical(status),
{
    law_trim_is_idempotent(raw);
}

proof fn lemma_clean_word(word: Seq<char>)
    requires
        word.len() > 0,
        forall|i: int| 0 <= i < word.len() ==> !is_space(#[trigger] word[i]) && !('A' <= word[i] <= 'Z'),
    ensures
        trimmed(word) == word,
        ascii_lowered(word) == word,
{
    assert(!is_space(word[0]));
    assert(!is_space(word[word.len() - 1]));
    assert(trim_start(word) == word);
    assert(ascii_lowered(word) =~= word);
}

/// Statuses round-trip: reading back the DSM spelling of a status gives that status,
/// and nothing else.
pub proof fn law_status_round_trips(status: TaskStatus, again: TaskStatus)
    requires
        status_is_canonical(status),
        status_reads(status.text(), again),
    ensures
        match status {
            TaskStatus::Unknown(raw) => again matches TaskStatus::Unknown(text) && text@ == raw@,
            _ => again == status,
        },
{
    reveal_strlit("waiting");
    reveal_strlit("downloading");
    reveal_strlit("paused");
    reveal_strlit("finishing");
    reveal_strlit("finished");
    reveal_strlit("hash_checking");
    reveal_strlit("seeding");
    reveal_strlit("filehosting_waiting");
    reveal_strlit("extracting");
    reveal_strlit("error");
    if !(status is Unknown) {
        lemma_clean_word(status.text());
        assert("downloading"@[0] != "waiting"@[0]);
        assert("paused"@[0] == 'p');
        assert("hash_checking"@[0] == 'h');
        assert("seeding"@[0] == 's');
        assert("finishing"@.len() == 9 && "finished"@.len() == 8);
        assert("extracting"@.len() == 10 && "error"@.len() == 5);
        assert("filehosting_waiting"@.len() == 19);
    }
}

/// A type that [`TaskType::from_dsm_str`] can give.
pub open spec fn type_is_canonical(kind: TaskType) -> bool {
    match kind {
        TaskType::Unknown(raw) => trimmed(raw@) == raw@ && known_type(ascii_lowered(raw@)) is None,
        _ => true,
    }
}

/// Whatever text a type is read from, the result is canonical.
pub proof fn law_reading_a_type_is_canonical(raw: Seq<char>, kind: TaskType)
    requires
        type_reads(raw, kind),
    ensures
        type_is_canonical(kind),
{
    law_trim_is_idempotent(raw);
}

/// Types round-trip, as statuses do.
pub proof fn law_type_round_trips(kind: TaskType, again: TaskType)
    requires
        type_is_canonical(kind),
        type_reads(kind.text(), again),
    ensures
        match kind {
            TaskType::Unknown(raw) => again matches TaskType::Unknown(text) && text@ == raw@,
            _ => again == kind,
        },
{
    reveal_strlit("bt");
    reveal_strlit("http");
    reveal_strlit("https");
    reveal_strlit("ftp");
    reveal_strlit("ftps");
    reveal_strlit("nzb");
    reveal_strlit("emule");
    if !(kind is Unknown) {
        lemma_clean_word(kind.text());
        assert("http"@[0] == 'h' && "http"@.len() == 4 && "https"@.len() == 5);
        assert("ftp"@[0] == 'f' && "ftp"@.len() == 3 && "ftps"@.len() == 4);
        assert("nzb"@[0] == 'n' && "emule"@[0] == 'e' && "bt"@[0] == 'b');
        assert("ftps"@[0] == 'f' && "https"@[0] == 'h');
    }
}

/// One odd task never blanks a list: a task with neither an `additional` block nor
/// any counter is read, with everything zero or empty.
pub proof fn law_a_bare_task_is_readable(j: Doc)
    requires
        j matches Doc::Object(list) && list.len() == 0,
    ensures
        task_readable(j),
{
    assert(j.field("additional"@, 5) is None);
}

/// The estimate is the first whole second by which what is left is there: so many seconds
/// are enough at the current rate, and one less is not.
pub proof fn law_the_estimate_is_the_first_second(size: u64, downloaded: u64, speed: u64, secs: nat)
    ensures
        eta_of(size, downloaded, speed) == Some(secs) <==> {
            &&& speed > 0 && downloaded < size
            &&& secs * speed >= size - downloaded
            &&& (secs - 1) * speed < size - downloaded
        },
{
    if speed > 0 && downloaded < size {
        let r = size - downloaded;
        let s = speed as int;
        let q = (r + s - 1) / s;
        assert(q * s >= r && (q - 1) * s < r && q >= 1) by (nonlinear_arith)
            requires
                q == (r + s - 1) / s,
                s > 0,
                r > 0,
        ;
        if secs * speed >= r && (secs - 1) * speed < r {
            assert(secs == q) by (nonlinear_arith)
                requires
                    q * s >= r,
                    (q - 1) * s < r,
                    secs * s >= r,
                    (secs - 1) * s < r,
                    s > 0,
            ;
        }
    }
}

/// Neither case nor white space around it matters to how a status reads.
pub proof fn law_case_and_spaces_do_not_matter(
    raw: Seq<char>,
    other: Seq<char>,
    word: Seq<char>,
    status: TaskStatus,
)
    requires
        status_reads(raw, status),
        !(status is Unknown),
        spaces_cut(other, word),
        ascii_lowered(word) == ascii_lowered(trimmed(raw)),
    ensures
        status_reads(other, status),
{
    law_trimming_cuts_the_spaces(other);
    lemma_spaces_cut_once(other, word, trimmed(other));
}

/// A task's own fields are read by their names.
pub proof fn law_a_task_reads_its_fields(j: Doc, n: i64, text: Seq<char>, task: Task)
    requires
        j is Object,
        task_reads(j, task),
        n >= 0,
    ensures
        j.at("id"@) == Some(Doc::Str(text)) ==> task.id@ == text,
        j.at("title"@) == Some(Doc::Str(text)) ==> task.title@ == text,
        j.at("size"@) == Some(Doc::Int(n)) ==> task.size == n,
        j.at("size"@) is None ==> task.size == 0,
        j.at("status"@) == Some(Doc::Str(text)) ==> status_reads(text, task.status),
        j.at("type"@) == Some(Doc::Str(text)) ==> type_reads(text, task.task_type),
{
}

/// The counters of a task are read by their names out of `additional.transfer`.
pub proof fn law_a_task_reads_its_counters(j: Doc, more: Doc, transfer: Doc, n: i64, task: Task)
    requires
        j is Object && more is Object && transfer is Object,
        task_readable(j),
        task_reads(j, task),
        j.at("additional"@) == Some(more),
        more.at("transfer"@) == Some(transfer),
        n >= 0,
    ensures
        transfer.at("size_downloaded"@) == Some(Doc::Int(n)) ==> task.downloaded == n,
        transfer.at("size_uploaded"@) == Some(Doc::Int(n)) ==> task.uploaded == n,
        transfer.at("speed_download"@) == Some(Doc::Int(n)) ==> task.download_speed == n,
        transfer.at("speed_upload"@) == Some(Doc::Int(n)) ==> task.upload_speed == n,
        transfer.at("size_downloaded"@) is None ==> task.downloaded == 0,
        transfer.at("size_uploaded"@) is None ==> task.uploaded == 0,
        transfer.at("speed_download"@) is None ==> task.download_speed == 0,
        transfer.at("speed_upload"@) is None ==> task.upload_speed == 0,
{
}

/// Where a task goes, who shares it and when it was made are read by their names out of
/// `additional.detail`.
pub proof fn law_a_task_reads_its_detail(
    j: Doc,
    more: Doc,
    detail: Doc,
    n: u32,
    text: Seq<char>,
    task: Task,
)
    requires
        j is Object && more is Object && detail is Object,
        task_readable(j),
        task_reads(j, task),
        j.at("additional"@) == Some(more),
        more.at("detail"@) == Some(detail),
    ensures
        detail.at("destination"@) == Some(Doc::Str(text)) ==> task.destination@ == text,
        detail.at("connected_seeders"@) == Some(Doc::Int(n as i64)) ==> task.seeders == n,
        detail.at("connected_leechers"@) == Some(Doc::Int(n as i64)) ==> task.leechers == n,
        detail.at("create_time"@) == Some(Doc::Int(n as i64)) ==> task.create_time == Some(
            n as i64,
        ),
        detail.at("create_time"@) is None ==> task.create_time is None,
{
}

/// The files of a task are those of `additional.file`, one for one and in order, each with
/// its own name and size; one that does not say whether it is wanted is.
pub proof fn law_a_task_reads_its_files(
    j: Doc,
    more: Doc,
    list: Seq<Doc>,
    i: int,
    text: Seq<char>,
    n: i64,
    task: Task,
)
    requires
        j is Object && more is Object,
        task_readable(j),
        task_reads(j, task),
        j.at("additional"@) == Some(more),
        more.at("file"@) == Some(Doc::Array(list)),
        0 <= i < list.len(),
        list[i] is Object,
        n >= 0,
    ensures
        task.files@.len() == list.len(),
        list[i].at("filename"@) == Some(Doc::Str(text)) ==> task.files@[i].filename@ == text,
        list[i].at("size"@) == Some(Doc::Int(n)) ==> task.files@[i].size == n,
        list[i].at("wanted"@) is None ==> task.files@[i].wanted,
        list[i].at("wanted"@) == Some(Doc::Bool(false)) ==> !task.files@[i].wanted,
{
    assert(file_reads(list[i], task.files@[i]));
}

} // verus!
