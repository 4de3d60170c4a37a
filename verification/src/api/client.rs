//! The DSM client without its transport: response envelope, API discovery, session
//! handling and retry.
//!
//! 1. **Discovery is a special case.** `SYNO.API.Info` is served from a fixed
//!    `/webapi/query.cgi`; every later URL is `{base}/webapi/{discovered path}`.
//! 2. **Versions are negotiated.** A caller states the version range *it*
//!    understands, and the highest version in its overlap with what the NAS
//!    advertises is used.
//! 3. **One transparent retry.** Where an answer may mean a stale session, the client
//!    re-authenticates once and replays the request exactly once.

use vstd::prelude::*;
use vstd::string::StringExecFns;
use crate::api::auth::Credentials;
use crate::config::ResolvedConfig;
use crate::error::{
    may_be_stale_session, prefixed, stale_session_code, ApiUnavailableReason, Error,
    PERMISSION_DENIED_CODE,
};
use crate::json::{
    flag_in, i32_in, is_sound, json_parsed, parse_json, read_flag, read_i32, read_text, read_u32, seen,
    sound, text_in, u32_in, Doc, Json,
};
use crate::model::{items_in, list_readable, list_reads, TaskList};
use crate::table::{entries_map, Table};
use crate::text::{chars_of, decimal, decimal_of, opt_view, text_between};

verus! {

/// The discovery API. Queried once at startup.
pub const API_INFO: &'static str = "SYNO.API.Info";

/// Discovery is pinned to version 1: it cannot itself be discovered.
pub const API_INFO_VERSION: u32 = 1;

/// `SYNO.API.Info` lives at this CGI.
pub const QUERY_CGI: &'static str = "query.cgi";

/// Path segment every DSM API URL is rooted at.
pub const WEBAPI_PREFIX: &'static str = "webapi";

/// How long to wait for the TCP and TLS handshake, in seconds.
pub const CONNECT_TIMEOUT_SECS: u64 = 10;

/// How long any single request may take, in seconds.
pub const REQUEST_TIMEOUT_SECS: u64 = 30;

// ---------------------------------------------------------------------------
// URLs and parameters
// ---------------------------------------------------------------------------

/// `{base}/webapi/{path}` with exactly one slash at each joint.
pub open spec fn url_text(base_url: Seq<char>, path: Seq<char>) -> Seq<char> {
    crate::delete::unslash_end(base_url) + "/"@ + WEBAPI_PREFIX@ + "/"@
        + crate::delete::unslash_start(path)
}

/// Build `{base}/webapi/{path}`, tolerating stray slashes on either side.
pub fn webapi_url(base_url: &str, path: &str) -> (url: String)
    ensures
        url@ == url_text(base_url@, path@),
{
    let base = chars_of(base_url);
    let mut to: usize = base.len();
    proof {
        assert(base@.take(base@.len() as int) =~= base@);
    }
    while to > 0 && base[to - 1] == '/'
        invariant
            to <= base@.len(),
            crate::delete::unslash_end(base@) == crate::delete::unslash_end(base@.take(to as int)),
        decreases to,
    {
        proof {
            assert(base@.take(to as int).last() == '/');
            assert(base@.take(to as int).drop_last() =~= base@.take(to - 1));
        }
        to -= 1;
    }
    let tail = chars_of(path);
    let mut from: usize = 0;
    proof {
        assert(tail@.skip(0) =~= tail@);
    }
    while from < tail.len() && tail[from] == '/'
        invariant
            from <= tail@.len(),
            crate::delete::unslash_start(tail@) == crate::delete::unslash_start(
                tail@.skip(from as int),
            ),
        decreases tail@.len() - from,
    {
        proof {
            assert(tail@.skip(from as int)[0] == '/');
            assert(tail@.skip(from as int).skip(1) =~= tail@.skip(from + 1));
        }
        from += 1;
    }
    let mut url = text_between(base.as_slice(), 0, to);
    let end = text_between(tail.as_slice(), from, tail.len());
    proof {
        assert(url@ =~= base@.take(to as int));
        if to > 0 {
            assert(base@.take(to as int).last() == base@[to - 1]);
        }
        assert(end@ =~= tail@.skip(from as int));
        if from < tail@.len() {
            assert(tail@.skip(from as int)[0] == tail@[from as int]);
        }
    }
    url.append("/");
    url.append(WEBAPI_PREFIX);
    url.append("/");
    url.append(end.as_str());
    url
}

/// The names and values of parameters.
pub open spec fn pairs(list: Seq<(&'static str, String)>) -> Seq<(Seq<char>, Seq<char>)> {
    list.map_values(|p: (&'static str, String)| (p.0@, p.1@))
}

/// The parameters every DSM request carries.
pub open spec fn base_pairs(api: Seq<char>, version: u32, method: Seq<char>) -> Seq<
    (Seq<char>, Seq<char>),
> {
    seq![("api"@, api), ("version"@, decimal(version as nat)), ("method"@, method)]
}

/// The `api` / `version` / `method` triple every DSM request carries.
pub fn build_base_params(api: &str, version: u32, method: &str) -> (params: Vec<
    (&'static str, String),
>)
    ensures
        pairs(params@) == base_pairs(api@, version, method@),
{
    let mut params: Vec<(&'static str, String)> = Vec::new();
    params.push(("api", api.to_owned()));
    params.push(("version", decimal_of(version as u64)));
    params.push(("method", method.to_owned()));
    proof {
        assert(pairs(params@) =~= base_pairs(api@, version, method@));
    }
    params
}

/// The query of one request: the triple, the method's own parameters, and the session
/// id where there is one.
pub open spec fn query_pairs(
    endpoint: Endpoint,
    method: Seq<char>,
    params: Seq<(Seq<char>, Seq<char>)>,
    sid: Option<Seq<char>>,
) -> Seq<(Seq<char>, Seq<char>)> {
    let plain = base_pairs(endpoint.api@, endpoint.version, method) + params;
    match sid {
        Some(s) => plain.push(("_sid"@, s)),
        None => plain,
    }
}

/// The query of one request against an already-resolved endpoint.
pub fn build_query(
    endpoint: &Endpoint,
    method: &str,
    params: &[(&'static str, String)],
    sid: Option<String>,
) -> (query: Vec<(&'static str, String)>)
    ensures
        pairs(query@) == query_pairs(*endpoint, method@, pairs(params@), opt_view(sid)),
{
    let mut query = build_base_params(endpoint.api.as_str(), endpoint.version, method);
    let ghost base = base_pairs(endpoint.api@, endpoint.version, method@);
    let mut i: usize = 0;
    proof {
        assert(base + pairs(params@).take(0) =~= base);
    }
    while i < params.len()
        invariant
            i <= params@.len(),
            pairs(query@) == base + pairs(params@).take(i as int),
        decreases params@.len() - i,
    {
        let ghost before = pairs(query@);
        query.push((params[i].0, params[i].1.clone()));
        proof {
            assert(pairs(query@) =~= before.push(pairs(params@)[i as int]));
            assert(base + pairs(params@).take(i + 1) =~= (base + pairs(params@).take(
                i as int,
            )).push(pairs(params@)[i as int]));
        }
        i += 1;
    }
    proof {
        assert(pairs(params@).take(i as int) =~= pairs(params@));
    }
    if let Some(sid) = sid {
        let ghost before = pairs(query@);
        let ghost value = sid@;
        query.push(("_sid", sid));
        proof {
            assert(pairs(query@) =~= before.push(("_sid"@, value)));
        }
    }
    query
}

// ---------------------------------------------------------------------------
// Envelope
// ---------------------------------------------------------------------------

/// The error object in a failed response: `{"error": {"code": 119}}`.
#[derive(Debug, Clone, PartialEq, Eq)]
pub struct DsmError {
    pub code: i32,
    /// Per-item detail, whose shape nothing depends on.
    pub errors: Vec<Json>,
}

impl Default for DsmError {
    /// No code and no detail.
    fn default() -> (error: Self)
        ensures
            error.code == 0,
            error.errors@.len() == 0,
    {
        DsmError { code: 0, errors: Vec::new() }
    }
}

/// The standard DSM response wrapper.
///
/// `success` defaults to `false`, so a body that is valid JSON but not a DSM envelope
/// is treated as a failure rather than silently succeeding with no data.
#[derive(Debug, Clone, PartialEq, Eq)]
pub struct Envelope {
    pub success: bool,
    pub data: Option<Json>,
    pub error: Option<DsmError>,
}

/// The fields of an envelope, in order. Without names, all of them must be there.
pub const ENVELOPE_FIELDS: [&'static str; 3] = ["success", "data", "error"];

/// The fields of an error object, in order. Without names, the first must be there.
pub const ERROR_FIELDS: [&'static str; 2] = ["code", "errors"];

/// What a response of the wrong shape is answered with.
pub const BAD_SHAPE: &'static str = "the response does not have the expected shape";

/// A value that may be left out or null.
pub open spec fn present(value: Option<Doc>) -> Option<Doc> {
    match value {
        Some(Doc::Null) => None,
        _ => value,
    }
}

/// What an optional value holds.
pub open spec fn held(value: Option<Json>) -> Option<Doc> {
    match value {
        Some(json) => Some(json@),
        None => None,
    }
}

/// What the values of a list hold.
pub open spec fn docs(list: Seq<Json>) -> Seq<Doc> {
    list.map_values(|json: Json| json@)
}

/// The detail of an error object: any values at all that can be read.
pub open spec fn detail_in(value: Option<Doc>) -> Option<Seq<Doc>> {
    match items_in(value) {
        Some(list) if forall|i: int| 0 <= i < list.len() ==> sound(#[trigger] list[i]) => Some(
            list,
        ),
        _ => None,
    }
}

/// The code and the detail of an error object that may be left out or null. The outer
/// `None` is something that is no error object.
pub open spec fn error_in(value: Option<Doc>) -> Option<Option<(i32, Seq<Doc>)>> {
    match present(value) {
        None => Some(None),
        Some(json) => if json.fits(ERROR_FIELDS@, 1) && i32_in(json.field("code"@, 0)) is Some
            && detail_in(json.field("errors"@, 1)) is Some {
            Some(Some((i32_in(json.field("code"@, 0))->0, detail_in(json.field("errors"@, 1))->0)))
        } else {
            None
        },
    }
}

/// Whether a JSON value has the shape of an envelope.
pub open spec fn envelope_readable(json: Doc) -> bool {
    &&& json.fits(ENVELOPE_FIELDS@, 3)
    &&& flag_in(json.field("success"@, 0), false) is Some
    &&& error_in(json.field("error"@, 2)) is Some
}

/// Whether `envelope` is what a JSON value says.
pub open spec fn envelope_reads(json: Doc, envelope: Envelope) -> bool {
    &&& flag_in(json.field("success"@, 0), false) == Some(envelope.success)
    &&& present(json.field("data"@, 1)) == held(envelope.data)
    &&& error_in(json.field("error"@, 2)) == Some(
        match envelope.error {
            Some(err) => Some((err.code, docs(err.errors@))),
            None => None,
        },
    )
}

/// See [`detail_in`].
fn read_detail(value: Option<&Json>) -> (detail: Option<Vec<Json>>)
    ensures
        match detail {
            Some(list) => detail_in(seen(value)) == Some(docs(list@)),
            None => detail_in(seen(value)) is None,
        },
{
    let mut copies: Vec<Json> = Vec::new();
    match value {
        None => {
            proof {
                assert(docs(copies@) =~= Seq::<Doc>::empty());
            }
            Some(copies)
        },
        Some(Json::Array(list)) => {
            let ghost whole = items_in(seen(value))->0;
            let mut i: usize = 0;
            while i < list.len()
                invariant
                    i <= list@.len(),
                    items_in(seen(value)) == Some(whole),
                    whole.len() == list@.len(),
                    forall|k: int| 0 <= k < whole.len() ==> #[trigger] whole[k] == list@[k]@,
                    copies@.len() == i,
                    forall|k: int| 0 <= k < i ==> (#[trigger] copies@[k])@ == whole[k],
                    forall|k: int| 0 <= k < i ==> sound(#[trigger] whole[k]),
                decreases list@.len() - i,
            {
                if !is_sound(&list[i]) {
                    proof {
                        assert(!sound(whole[i as int]));
                    }
                    return None;
                }
                copies.push(list[i].clone());
                i += 1;
            }
            proof {
                assert(docs(copies@) =~= whole);
            }
            Some(copies)
        },
        Some(_) => None,
    }
}

/// See [`error_in`].
fn read_error(value: Option<&Json>) -> (error: Option<Option<DsmError>>)
    ensures
        match error {
            Some(Some(err)) => error_in(seen(value)) == Some(Some((err.code, docs(err.errors@)))),
            Some(None) => error_in(seen(value)) == Some(None::<(i32, Seq<Doc>)>),
            None => error_in(seen(value)) is None,
        },
{
    match value {
        None => Some(None),
        Some(Json::Null) => Some(None),
        Some(json) => {
            if !json.holds(&ERROR_FIELDS, 1) {
                return None;
            }
            match (read_i32(json.slot("code", 0)), read_detail(json.slot("errors", 1))) {
                (Some(code), Some(errors)) => Some(Some(DsmError { code, errors })),
                _ => None,
            }
        },
    }
}

impl Envelope {
    /// Read an envelope.
    pub fn from_json(json: &Json) -> (envelope: Option<Envelope>)
        ensures
            envelope is Some <==> envelope_readable(json@),
            envelope matches Some(e) ==> envelope_reads(json@, e),
    {
        if !json.holds(&ENVELOPE_FIELDS, 3) {
            return None;
        }
        let data = match json.slot("data", 1) {
            None => None,
            Some(Json::Null) => None,
            Some(data) => Some(data.clone()),
        };
        match (read_flag(json.slot("success", 0), false), read_error(json.slot("error", 2))) {
            (Some(success), Some(error)) => Some(Envelope { success, data, error }),
            _ => None,
        }
    }

    /// Whether a result is what this envelope comes to.
    pub open spec fn comes_to<T>(self, api: Seq<char>, result: Result<T, Error>) -> bool {
        if self.success {
            result is Ok
        } else {
            match self.error {
                Some(err) => result matches Err(Error::Dsm { code, api: a }) && code == err.code
                    && a@ == api,
                None => result matches Err(Error::Parse(m)) && m@ == api
                    + " reported failure with no error code"@,
            }
        }
    }

    /// Turn `success: false` into [`Error::Dsm`], keeping the payload as an `Option`:
    /// several methods legitimately answer with no `data` at all.
    pub fn into_result(self, api: &str) -> (result: Result<Option<Json>, Error>)
        ensures
            self.comes_to(api@, result),
            result matches Ok(data) ==> data == self.data,
    {
        if self.success {
            return Ok(self.data);
        }
        match self.error {
            Some(err) => Err(Error::dsm(err.code, api)),
            None => Err(Error::Parse(prefixed(api, " reported failure with no error code"))),
        }
    }
}

/// A payload that a response can carry.
pub trait Decode: Sized {
    /// Whether a JSON value has the shape of this payload.
    spec fn readable(json: Doc) -> bool;

    /// Whether `value` is what a JSON value says.
    spec fn reads(json: Doc, value: Self) -> bool;

    /// Read this payload.
    fn decode(json: &Json) -> (value: Option<Self>)
        ensures
            value is Some <==> Self::readable(json@),
            value matches Some(v) ==> Self::reads(json@, v),
    ;
}

impl Decode for TaskList {
    open spec fn readable(json: Doc) -> bool {
        list_readable(json)
    }

    open spec fn reads(json: Doc, value: Self) -> bool {
        list_reads(json, value)
    }

    fn decode(json: &Json) -> (value: Option<Self>) {
        TaskList::from_json(json)
    }
}

/// Whether a result is what a parsed response comes to, with a payload required.
pub open spec fn payload_answer<T: Decode>(json: Doc, api: Seq<char>, result: Result<T, Error>) -> bool {
    if !envelope_readable(json) || (present(json.field("data"@, 1)) matches Some(data) && !T::readable(
        data,
    )) {
        result matches Err(Error::Parse(m)) && m@ == BAD_SHAPE@
    } else if flag_in(json.field("success"@, 0), false) == Some(true) {
        match present(json.field("data"@, 1)) {
            Some(data) => result matches Ok(value) && T::reads(data, value),
            None => result matches Err(Error::Parse(m)) && m@ == api
                + " reported success but returned no data"@,
        }
    } else {
        match error_in(json.field("error"@, 2))->0 {
            Some(err) => result matches Err(Error::Dsm { code, api: a }) && code == err.0 && a@
                == api,
            None => result matches Err(Error::Parse(m)) && m@ == api
                + " reported failure with no error code"@,
        }
    }
}

/// What a parsed response comes to, with a payload required.
pub fn read_payload<T: Decode>(json: &Json, api: &str) -> (result: Result<T, Error>)
    ensures
        payload_answer(json@, api@, result),
{
    let envelope = match Envelope::from_json(json) {
        Some(envelope) => envelope,
        None => {
            return Err(Error::Parse(BAD_SHAPE.to_owned()));
        },
    };
    let value: Option<T> = match &envelope.data {
        Some(data) => match T::decode(data) {
            Some(value) => Some(value),
            None => {
                return Err(Error::Parse(BAD_SHAPE.to_owned()));
            },
        },
        None => None,
    };
    match envelope.into_result(api) {
        Ok(_) => match value {
            Some(value) => Ok(value),
            None => Err(Error::Parse(prefixed(api, " reported success but returned no data"))),
        },
        Err(err) => Err(err),
    }
}

/// Deserialize an envelope and require its payload.
pub fn parse_envelope<T: Decode>(body: &str, api: &str) -> (result: Result<T, Error>)
    ensures
        match json_parsed(body@) {
            Ok(json) => payload_answer(json, api@, result),
            Err(message) => result matches Err(Error::Parse(m)) && m@ == message,
        },
{
    match parse_json(body) {
        Ok(json) => read_payload(&json, api),
        Err(message) => Err(Error::Parse(message)),
    }
}

/// Whether a result is what a parsed response comes to, its payload aside.
pub open spec fn plain_answer(json: Doc, api: Seq<char>, result: Result<(), Error>) -> bool {
    if !envelope_readable(json) {
        result matches Err(Error::Parse(m)) && m@ == BAD_SHAPE@
    } else if flag_in(json.field("success"@, 0), false) == Some(true) {
        result is Ok
    } else {
        match error_in(json.field("error"@, 2))->0 {
            Some(err) => result matches Err(Error::Dsm { code, api: a }) && code == err.0 && a@
                == api,
            None => result matches Err(Error::Parse(m)) && m@ == api
                + " reported failure with no error code"@,
        }
    }
}

/// What a parsed response comes to, its payload aside.
pub fn read_outcome(json: &Json, api: &str) -> (result: Result<(), Error>)
    ensures
        plain_answer(json@, api@, result),
{
    match Envelope::from_json(json) {
        Some(envelope) => match envelope.into_result(api) {
            Ok(_) => Ok(()),
            Err(err) => Err(err),
        },
        None => Err(Error::Parse(BAD_SHAPE.to_owned())),
    }
}

/// Whether a result is what checking a body comes to.
pub open spec fn checks(body: Seq<char>, api: Seq<char>, result: Result<(), Error>) -> bool {
    match json_parsed(body) {
        Ok(json) => plain_answer(json, api, result),
        Err(message) => result matches Err(Error::Parse(m)) && m@ == message,
    }
}

/// Check only whether a response succeeded, ignoring any payload.
pub fn check_envelope(body: &str, api: &str) -> (result: Result<(), Error>)
    ensures
        checks(body@, api@, result),
{
    match parse_json(body) {
        Ok(json) => read_outcome(&json, api),
        Err(message) => Err(Error::Parse(message)),
    }
}

// ---------------------------------------------------------------------------
// Discovery
// ---------------------------------------------------------------------------

/// One entry of the `SYNO.API.Info` `query` response.
#[derive(Debug, Clone, PartialEq, Eq)]
pub struct ApiInfo {
    /// CGI path relative to `/webapi/`, e.g. `entry.cgi`.
    pub path: String,
    pub min_version: u32,
    pub max_version: u32,
}

/// A resolved call target.
#[derive(Debug, Clone, PartialEq, Eq)]
pub struct Endpoint {
    pub api: String,
    pub url: String,
    pub version: u32,
}

/// The fields of a discovery entry, in order. Without names, all of them must be there.
pub const INFO_FIELDS: [&'static str; 3] = ["path", "minVersion", "maxVersion"];

/// Whether an entry has the shape of an [`ApiInfo`]: all three fields, of their types.
pub open spec fn info_readable(json: Doc) -> bool {
    &&& json.fits(INFO_FIELDS@, 3)
    &&& json.field("path"@, 0) is Some
    &&& text_in(json.field("path"@, 0)) is Some
    &&& u32_in(json.field("minVersion"@, 1)) is Some
    &&& u32_in(json.field("maxVersion"@, 2)) is Some
}

/// Whether `info` is what an entry says.
pub open spec fn info_reads(json: Doc, info: ApiInfo) -> bool {
    &&& text_in(json.field("path"@, 0)) == Some(info.path@)
    &&& u32_in(json.field("minVersion"@, 1)) == Some(info.min_version)
    &&& u32_in(json.field("maxVersion"@, 2)) == Some(info.max_version)
}

impl ApiInfo {
    /// Read one entry of a discovery response.
    pub fn from_json(json: &Json) -> (info: Option<ApiInfo>)
        ensures
            info is Some <==> info_readable(json@),
            info matches Some(i) ==> info_reads(json@, i),
    {
        if !json.holds(&INFO_FIELDS, 3) {
            return None;
        }
        let path = match json.slot("path", 0) {
            None => {
                return None;
            },
            found => match read_text(found) {
                Some(path) => path,
                None => {
                    return None;
                },
            },
        };
        match (read_u32(json.slot("minVersion", 1)), read_u32(json.slot("maxVersion", 2))) {
            (Some(min_version), Some(max_version)) => Some(
                ApiInfo { path, min_version, max_version },
            ),
            _ => None,
        }
    }
}

/// Everything the NAS said it supports, keyed by API name.
#[derive(Debug, PartialEq, Eq)]
pub struct ApiInfoMap {
    apis: Table<ApiInfo>,
}

impl View for ApiInfoMap {
    type V = Map<Seq<char>, ApiInfo>;

    closed spec fn view(&self) -> Map<Seq<char>, ApiInfo> {
        self.apis@
    }
}

impl Clone for ApiInfoMap {
    fn clone(&self) -> (map: Self)
        ensures
            map@ == self@,
    {
        let entries = self.apis.entries();
        let mut list: Vec<(String, ApiInfo)> = Vec::new();
        let mut i: usize = 0;
        while i < entries.len()
            invariant
                i <= entries@.len(),
                list@ == entries@.take(i as int),
            decreases entries@.len() - i,
        {
            let info = &entries[i].1;
            let copy = ApiInfo {
                path: info.path.clone(),
                min_version: info.min_version,
                max_version: info.max_version,
            };
            list.push((entries[i].0.clone(), copy));
            i += 1;
            proof {
                assert(entries@.take(i as int) =~= entries@.take(i - 1).push(entries@[i - 1]));
            }
        }
        proof {
            assert(entries@.take(i as int) =~= entries@);
        }
        ApiInfoMap { apis: Table::from_list(list) }
    }
}

impl Default for ApiInfoMap {
    /// Nothing is supported.
    fn default() -> (map: Self)
        ensures
            map@ == Map::<Seq<char>, ApiInfo>::empty(),
    {
        ApiInfoMap { apis: Table::new() }
    }
}

/// Whether `entries` are what the members of a discovery response say, one for one.
pub open spec fn infos_read(list: Seq<(Seq<char>, Doc)>, entries: Seq<(String, ApiInfo)>) -> bool {
    &&& entries.len() == list.len()
    &&& forall|i: int|
        0 <= i < list.len() ==> (#[trigger] entries[i]).0@ == list[i].0 && info_reads(
            list[i].1,
            entries[i].1,
        )
}

impl Decode for ApiInfoMap {
    open spec fn readable(json: Doc) -> bool {
        json matches Doc::Object(list) && forall|i: int|
            0 <= i < list.len() ==> info_readable((#[trigger] list[i]).1)
    }

    open spec fn reads(json: Doc, value: Self) -> bool {
        exists|entries: Seq<(String, ApiInfo)>|
            infos_read(json->Object_0, entries) && value@ == #[trigger] entries_map(entries)
    }

    fn decode(json: &Json) -> (value: Option<Self>) {
        match json {
            Json::Object(list) => {
                let ghost members = json@->Object_0;
                let mut entries: Vec<(String, ApiInfo)> = Vec::new();
                let mut i: usize = 0;
                while i < list.len()
                    invariant
                        i <= list@.len(),
                        *json == Json::Object(*list),
                        members == json@->Object_0,
                        entries@.len() == i,
                        forall|k: int| 0 <= k < i ==> info_readable((#[trigger] members[k]).1),
                        forall|k: int|
                            0 <= k < i ==> (#[trigger] entries@[k]).0@ == members[k].0
                                && info_reads(members[k].1, entries@[k].1),
                    decreases list@.len() - i,
                {
                    match ApiInfo::from_json(&list[i].1) {
                        Some(info) => {
                            entries.push((list[i].0.clone(), info));
                        },
                        None => {
                            proof {
                                assert(!info_readable(members[i as int].1));
                            }
                            return None;
                        },
                    }
                    i += 1;
                }
                let ghost all = entries@;
                proof {
                    assert(infos_read(members, all));
                }
                Some(ApiInfoMap { apis: Table::from_list(entries) })
            },
            _ => None,
        }
    }
}

/// Whether a result is what a discovery response comes to.
pub open spec fn discovers(body: Seq<char>, result: Result<ApiInfoMap, Error>) -> bool {
    match json_parsed(body) {
        Ok(json) => payload_answer(json, API_INFO@, result),
        Err(message) => result matches Err(Error::Parse(m)) && m@ == message,
    }
}

impl ApiInfoMap {
    /// Parse a full `SYNO.API.Info` `query` response body.
    pub fn from_response(body: &str) -> (result: Result<Self, Error>)
        ensures
            discovers(body@, result),
    {
        parse_envelope(body, API_INFO)
    }

    /// Build directly from entries, a later one replacing an earlier one of the same
    /// name.
    pub fn from_entries(entries: Vec<(String, ApiInfo)>) -> (map: Self)
        ensures
            map@ == entries_map(entries@),
    {
        ApiInfoMap { apis: Table::from_list(entries) }
    }

    /// Look up an API, reporting an absent one by DSM package name.
    pub fn get(&self, api: &str) -> (result: Result<&ApiInfo, Error>)
        ensures
            match result {
                Ok(info) => self@.contains_key(api@) && self@[api@] == *info,
                Err(err) => (err matches Error::ApiUnavailable { api: a, reason } && a@ == api@
                    && reason == ApiUnavailableReason::NotInstalled) && !self@.contains_key(api@),
            },
    {
        match self.apis.get(api) {
            Some(info) => Ok(info),
            None => Err(Error::api_missing(api)),
        }
    }

    pub fn len(&self) -> (count: usize)
        ensures
            count == self@.dom().len(),
    {
        self.apis.len()
    }

    pub fn is_empty(&self) -> (yes: bool)
        ensures
            yes == (self@.dom().len() == 0),
    {
        self.apis.len() == 0
    }

    /// Whether a result is the call target of an API for a client that implements
    /// these versions.
    pub open spec fn target(
        map: Map<Seq<char>, ApiInfo>,
        base_url: Seq<char>,
        api: Seq<char>,
        supported: (u32, u32),
        result: Result<Endpoint, Error>,
    ) -> bool {
        if !map.contains_key(api) {
            result matches Err(Error::ApiUnavailable { api: a, reason }) && a@ == api && reason
                == ApiUnavailableReason::NotInstalled
        } else {
            let nas = (map[api].min_version, map[api].max_version);
            match version_picked(nas, supported) {
                Some(version) => result matches Ok(endpoint) && endpoint.api@ == api
                    && endpoint.url@ == url_text(base_url, map[api].path@) && endpoint.version
                    == version,
                None => result matches Err(Error::ApiUnavailable { api: a, reason }) && a@ == api
                    && reason == (ApiUnavailableReason::VersionMismatch { nas, supported }),
            }
        }
    }

    /// Everything needed to issue a request: URL, negotiated version, API name.
    pub fn endpoint(&self, base_url: &str, api: &str, supported: (u32, u32)) -> (result: Result<
        Endpoint,
        Error,
    >)
        ensures
            ApiInfoMap::target(self@, base_url@, api@, supported, result),
    {
        let info = match self.get(api) {
            Ok(info) => info,
            Err(err) => {
                return Err(err);
            },
        };
        match pick_version_in(api, (info.min_version, info.max_version), supported) {
            Ok(version) => Ok(
                Endpoint {
                    api: api.to_owned(),
                    url: webapi_url(base_url, info.path.as_str()),
                    version,
                },
            ),
            Err(err) => Err(err),
        }
    }
}

/// The highest version in both of two inclusive ranges.
pub open spec fn version_picked(nas: (u32, u32), supported: (u32, u32)) -> Option<u32> {
    let low = if nas.0 >= supported.0 {
        nas.0
    } else {
        supported.0
    };
    let high = if nas.1 <= supported.1 {
        nas.1
    } else {
        supported.1
    };
    if low <= high {
        Some(high)
    } else {
        None
    }
}

/// Intersect two inclusive version ranges and take the top of the overlap.
pub fn pick_version_in(api: &str, nas: (u32, u32), supported: (u32, u32)) -> (result: Result<
    u32,
    Error,
>)
    ensures
        match result {
            Ok(version) => version_picked(nas, supported) == Some(version),
            Err(err) => (err matches Error::ApiUnavailable { api: a, reason } && a@ == api@
                && reason == (ApiUnavailableReason::VersionMismatch { nas, supported }))
                && version_picked(nas, supported) is None,
        },
{
    let low: u32 = if nas.0 >= supported.0 {
        nas.0
    } else {
        supported.0
    };
    let high: u32 = if nas.1 <= supported.1 {
        nas.1
    } else {
        supported.1
    };
    if low > high {
        return Err(Error::api_version_mismatch(api, nas, supported));
    }
    Ok(high)
}

// ---------------------------------------------------------------------------
// The session
// ---------------------------------------------------------------------------

/// The DSM client without its transport: what the NAS supports, the current session,
/// and the credentials a rejected session is renewed with.
#[derive(PartialEq, Eq)]
pub struct SynoClient {
    pub base_url: String,
    pub apis: ApiInfoMap,
    pub sid: Option<String>,
    pub credentials: Option<Credentials>,
    /// Set once a re-login has failed to clear a [`PERMISSION_DENIED_CODE`], after
    /// which that code stops being treated as a stale session.
    pub permission_is_real: bool,
}

/// What a session that cannot be renewed is answered with.
pub const NO_CREDENTIALS: &'static str =
    "the session expired and no credentials are available to renew it";

/// Where one call stands.
#[derive(Debug, Clone, Copy, PartialEq, Eq)]
pub enum CallPhase {
    /// The request was sent; nothing came back yet.
    Sent,
    /// The session was rejected with this code, and a login is under way.
    LoggingIn { code: i32 },
    /// The request was sent again with the new session.
    Resent { code: i32 },
    /// The call is over.
    Over,
}

/// What came of the last action of a call.
pub enum CallEvent {
    /// The request came back with this body, or failed in transport.
    Answered(Result<String, Error>),
    /// The login gave this session id, or failed.
    LoggedIn(Result<String, Error>),
}

/// What a call does next.
pub enum CallAction {
    /// Send the request, with this session id where there is one.
    Send(Option<String>),
    /// Log in again with the stored credentials.
    Login,
    /// Hand this to the caller.
    Finish(Result<String, Error>),
}

impl SynoClient {
    /// A client for a resolved configuration: no session, nothing discovered.
    pub fn new(config: &ResolvedConfig) -> (client: Self)
        ensures
            client.base_url@ == config.url(),
            client.apis@ == Map::<Seq<char>, ApiInfo>::empty(),
            client.sid is None,
            client.credentials is None,
            !client.permission_is_real,
    {
        SynoClient {
            base_url: config.base_url(),
            apis: ApiInfoMap::default(),
            sid: None,
            credentials: None,
            permission_is_real: false,
        }
    }

    /// Attach the credentials the transparent re-login will use.
    pub fn with_credentials(self, credentials: Credentials) -> (client: Self)
        ensures
            client == (SynoClient { credentials: Some(credentials), ..self }),
    {
        SynoClient { credentials: Some(credentials), ..self }
    }

    /// Seed a session id cached from a previous run.
    pub fn with_sid(self, sid: &str) -> (client: Self)
        ensures
            opt_view(client.sid) == Some(sid@),
            client == (SynoClient { sid: client.sid, ..self }),
    {
        SynoClient { sid: Some(sid.to_owned()), ..self }
    }

    pub fn base_url(&self) -> (url: &str)
        ensures
            url@ == self.base_url@,
    {
        self.base_url.as_str()
    }

    /// The current session id, if the client has one.
    pub fn sid(&self) -> (sid: Option<String>)
        ensures
            opt_view(sid) == opt_view(self.sid),
    {
        match &self.sid {
            Some(sid) => Some(sid.clone()),
            None => None,
        }
    }

    pub fn set_sid(&mut self, sid: &str)
        ensures
            opt_view(final(self).sid) == Some(sid@),
            *final(self) == (SynoClient { sid: final(self).sid, ..*old(self) }),
    {
        self.sid = Some(sid.to_owned());
    }

    pub fn clear_sid(&mut self)
        ensures
            *final(self) == (SynoClient { sid: None, ..*old(self) }),
    {
        self.sid = None;
    }

    /// Resolve an API name plus the version range this client implements into a
    /// concrete call target.
    pub fn endpoint(&self, api: &str, supported: (u32, u32)) -> (result: Result<Endpoint, Error>)
        ensures
            ApiInfoMap::target(self.apis@, self.base_url@, api@, supported, result),
    {
        self.apis.endpoint(self.base_url.as_str(), api, supported)
    }

    /// The URL and the query of the discovery request.
    pub fn discovery_request(&self) -> (request: (String, Vec<(&'static str, String)>))
        ensures
            request.0@ == url_text(self.base_url@, QUERY_CGI@),
            pairs(request.1@) == base_pairs(API_INFO@, API_INFO_VERSION, "query"@).push(
                ("query"@, "all"@),
            ),
    {
        let url = webapi_url(self.base_url.as_str(), QUERY_CGI);
        let mut params = build_base_params(API_INFO, API_INFO_VERSION, "query");
        let ghost before = pairs(params@);
        params.push(("query", "all".to_owned()));
        proof {
            assert(pairs(params@) =~= before.push(("query"@, "all"@)));
        }
        (url, params)
    }

    /// Remember what the NAS supports, as its discovery response says. A response that
    /// cannot be read changes nothing.
    pub fn adopt_discovery(&mut self, body: &str) -> (result: Result<(), Error>)
        ensures
            exists|found: Result<ApiInfoMap, Error>|
                {
                    &&& #[trigger] discovers(body@, found)
                    &&& match found {
                        Ok(apis) => result is Ok && *final(self) == (SynoClient {
                            apis,
                            ..*old(self)
                        }),
                        Err(err) => result == Err::<(), Error>(err) && *final(self) == *old(self),
                    }
                },
    {
        let found = ApiInfoMap::from_response(body);
        let ghost seen = found;
        proof {
            assert(discovers(body@, seen));
        }
        match found {
            Ok(apis) => {
                self.apis = apis;
                Ok(())
            },
            Err(err) => Err(err),
        }
    }

    /// Whether a rejected session can be repaired without asking the user.
    pub fn can_relogin(&self) -> (yes: bool)
        ensures
            yes == (self.credentials is Some),
    {
        self.credentials.is_some()
    }

    /// Whether a failing code justifies one re-login and replay.
    pub open spec fn retries(self, code: i32) -> bool {
        &&& self.credentials is Some
        &&& stale_session_code(code)
        &&& (code != PERMISSION_DENIED_CODE || !self.permission_is_real)
    }

    /// Whether a failing `code` justifies one re-login and replay.
    pub fn should_retry_session(&self, code: i32) -> (yes: bool)
        ensures
            yes == self.retries(code),
    {
        if !self.can_relogin() || !may_be_stale_session(code) {
            return false;
        }
        code != PERMISSION_DENIED_CODE || !self.permission_is_real
    }

    /// The credentials a re-login uses.
    pub fn login_credentials(&self) -> (result: Result<&Credentials, Error>)
        ensures
            match self.credentials {
                Some(c) => result matches Ok(found) && *found == c,
                None => result matches Err(Error::Auth(m)) && m@ == NO_CREDENTIALS@,
            },
    {
        match &self.credentials {
            Some(credentials) => Ok(credentials),
            None => Err(Error::Auth(NO_CREDENTIALS.to_owned())),
        }
    }

    /// What the answer to the first request comes to, once it was checked: a rejected
    /// session that can be repaired is dropped and a login begun; anything else is the
    /// caller's.
    pub fn settle_first(&mut self, body: String, checked: Result<(), Error>) -> (next: (
        CallPhase,
        CallAction,
    ))
        ensures
            match checked {
                Ok(()) => next == (
                    CallPhase::Over,
                    CallAction::Finish(Ok::<String, Error>(body)),
                ) && *final(self) == *old(self),
                Err(err) => if (err matches Error::Dsm { code, api } && old(self).retries(code)) {
                    next == (CallPhase::LoggingIn { code: err->code }, CallAction::Login)
                        && *final(self) == (SynoClient { sid: None, ..*old(self) })
                } else {
                    next == (CallPhase::Over, CallAction::Finish(Err::<String, Error>(err)))
                        && *final(self) == *old(self)
                },
            },
    {
        match checked {
            Ok(()) => (CallPhase::Over, CallAction::Finish(Ok(body))),
            Err(Error::Dsm { code, api }) => {
                if self.should_retry_session(code) {
                    self.clear_sid();
                    (CallPhase::LoggingIn { code }, CallAction::Login)
                } else {
                    (CallPhase::Over, CallAction::Finish(Err(Error::Dsm { code, api })))
                }
            },
            Err(err) => (CallPhase::Over, CallAction::Finish(Err(err))),
        }
    }

    /// Whether an answer is DSM's ambiguous permission error.
    pub open spec fn denied(checked: Result<(), Error>) -> bool {
        checked matches Err(Error::Dsm { code, api }) && code == PERMISSION_DENIED_CODE
    }

    /// What the answer to the replayed request comes to, once it was checked: it is the
    /// caller's, whatever it says. A permission error that a fresh session did not clear
    /// is a real one, and no later one is taken for a stale session.
    pub fn settle_second(&mut self, code: i32, body: String, checked: Result<(), Error>) -> (next: (
        CallPhase,
        CallAction,
    ))
        ensures
            next == (CallPhase::Over, CallAction::Finish(Ok::<String, Error>(body))),
            *final(self) == (SynoClient {
                permission_is_real: old(self).permission_is_real || (code == PERMISSION_DENIED_CODE
                    && SynoClient::denied(checked)),
                ..*old(self)
            }),
    {
        let denied = match checked {
            Err(Error::Dsm { code, .. }) => code == PERMISSION_DENIED_CODE,
            _ => false,
        };
        if code == PERMISSION_DENIED_CODE && denied {
            self.permission_is_real = true;
        }
        (CallPhase::Over, CallAction::Finish(Ok(body)))
    }

    /// Adopt the session id of a login and send the request again with it; a failed
    /// login ends the call.
    pub fn settle_login(&mut self, code: i32, login: Result<String, Error>) -> (next: (
        CallPhase,
        CallAction,
    ))
        ensures
            match login {
                Ok(sid) => {
                    &&& next.0 == (CallPhase::Resent { code })
                    &&& next.1 matches CallAction::Send(Some(s))
                    &&& s@ == sid@
                    &&& opt_view(final(self).sid) == Some(sid@)
                    &&& *final(self) == (SynoClient { sid: final(self).sid, ..*old(self) })
                },
                Err(err) => next == (CallPhase::Over, CallAction::Finish(Err::<String, Error>(err)))
                    && *final(self) == *old(self),
            },
    {
        match login {
            Ok(sid) => {
                self.set_sid(sid.as_str());
                (CallPhase::Resent { code }, CallAction::Send(Some(sid)))
            },
            Err(err) => (CallPhase::Over, CallAction::Finish(Err(err))),
        }
    }

    /// Begin a call: where its endpoint resolves, the request is sent with the current
    /// session id.
    pub fn begin_call(&self, api: &str, supported: (u32, u32)) -> (begun: Result<
        (Endpoint, CallAction),
        Error,
    >)
        ensures
            match begun {
                Ok((endpoint, action)) => ApiInfoMap::target(
                    self.apis@,
                    self.base_url@,
                    api@,
                    supported,
                    Ok(endpoint),
                ) && (action matches CallAction::Send(sid) && opt_view(sid) == opt_view(self.sid)),
                Err(err) => ApiInfoMap::target(
                    self.apis@,
                    self.base_url@,
                    api@,
                    supported,
                    Err(err),
                ),
            },
    {
        match self.endpoint(api, supported) {
            Ok(endpoint) => Ok((endpoint, CallAction::Send(self.sid()))),
            Err(err) => Err(err),
        }
    }

    /// The retry seam, one step at a time: the request is sent, and if DSM rejected the
    /// session, a login is made **once** and the request sent again exactly once.
    ///
    /// An event that does not belong to the phase ends the call.
    pub fn advance_call(&mut self, api: &str, phase: CallPhase, event: CallEvent) -> (next: (
        CallPhase,
        CallAction,
    ))
        ensures
            step_is_paid(phase, next),
            match (phase, event) {
                (CallPhase::Sent, CallEvent::Answered(Ok(body))) => exists|
                    checked: Result<(), Error>,
                |
                    {
                        &&& #[trigger] checks(body@, api@, checked)
                        &&& match checked {
                            Ok(()) => next == (
                                CallPhase::Over,
                                CallAction::Finish(Ok::<String, Error>(body)),
                            ) && *final(self) == *old(self),
                            Err(err) => if (err matches Error::Dsm { code, api: a } && old(
                                self,
                            ).retries(code)) {
                                next == (
                                    CallPhase::LoggingIn { code: err->code },
                                    CallAction::Login,
                                ) && *final(self) == (SynoClient { sid: None, ..*old(self) })
                            } else {
                                next == (
                                    CallPhase::Over,
                                    CallAction::Finish(Err::<String, Error>(err)),
                                ) && *final(self) == *old(self)
                            },
                        }
                    },
                (CallPhase::LoggingIn { code }, CallEvent::LoggedIn(Ok(sid))) => {
                    &&& next.0 == (CallPhase::Resent { code })
                    &&& next.1 matches CallAction::Send(Some(s))
                    &&& s@ == sid@
                    &&& opt_view(final(self).sid) == Some(sid@)
                    &&& *final(self) == (SynoClient { sid: final(self).sid, ..*old(self) })
                },
                (CallPhase::Resent { code }, CallEvent::Answered(Ok(body))) => exists|
                    checked: Result<(), Error>,
                |
                    {
                        &&& #[trigger] checks(body@, api@, checked)
                        &&& next == (
                            CallPhase::Over,
                            CallAction::Finish(Ok::<String, Error>(body)),
                        )
                        &&& *final(self) == (SynoClient {
                            permission_is_real: old(self).permission_is_real || (code
                                == PERMISSION_DENIED_CODE && SynoClient::denied(checked)),
                            ..*old(self)
                        })
                    },
                (CallPhase::Sent, CallEvent::Answered(Err(err)))
                | (CallPhase::Resent { .. }, CallEvent::Answered(Err(err)))
                | (CallPhase::LoggingIn { .. }, CallEvent::LoggedIn(Err(err))) => next == (
                    CallPhase::Over,
                    CallAction::Finish(Err::<String, Error>(err)),
                ) && *final(self) == *old(self),
                _ => next.0 == CallPhase::Over && next.1 is Finish && *final(self) == *old(self),
            },
    {
        proof {
            reveal_with_fuel(sends, 2);
            reveal_with_fuel(logins, 2);
            assert forall|action: CallAction| #[trigger] seq![action].drop_last() =~= Seq::<
                CallAction,
            >::empty() by {}
        }
        match (phase, event) {
            (CallPhase::Sent, CallEvent::Answered(Ok(body))) => {
                let checked = check_envelope(body.as_str(), api);
                let ghost seen = checked;
                proof {
                    assert(checks(body@, api@, seen));
                }
                self.settle_first(body, checked)
            },
            (CallPhase::LoggingIn { code }, CallEvent::LoggedIn(login)) => self.settle_login(
                code,
                login,
            ),
            (CallPhase::Resent { code }, CallEvent::Answered(Ok(body))) => {
                let checked = check_envelope(body.as_str(), api);
                let ghost seen = checked;
                proof {
                    assert(checks(body@, api@, seen));
                }
                self.settle_second(code, body, checked)
            },
            (CallPhase::Sent, CallEvent::Answered(Err(err))) => (
                CallPhase::Over,
                CallAction::Finish(Err(err)),
            ),
            (CallPhase::Resent { .. }, CallEvent::Answered(Err(err))) => (
                CallPhase::Over,
                CallAction::Finish(Err(err)),
            ),
            _ => (
                CallPhase::Over,
                CallAction::Finish(Err(Error::operation_failed("the call was out of step"))),
            ),
        }
    }

    /// What a logout's answer comes to: only one that DSM accepted drops the session.
    pub fn settle_logout(&mut self, checked: Result<(), Error>) -> (result: Result<(), Error>)
        ensures
            match checked {
                Ok(()) => result is Ok,
                Err(err) => result == Err::<(), Error>(err),
            },
            *final(self) == (if checked is Ok {
                SynoClient { sid: None, ..*old(self) }
            } else {
                *old(self)
            }),
    {
        match checked {
            Ok(()) => {
                self.clear_sid();
                Ok(())
            },
            Err(err) => Err(err),
        }
    }

    /// The client in words, with neither a password nor a session id in them.
    pub fn redacted(&self) -> (text: String)
        ensures
            text@ == "SynoClient { base_url: "@ + crate::text::debug_form(self.base_url@)
                + ", credentials: "@ + (match self.credentials {
                Some(c) => c.redacted_text(),
                None => "None"@,
            }) + " }"@,
    {
        let mut text = "SynoClient { base_url: ".to_owned();
        let url = crate::text::quoted(self.base_url.as_str());
        text.append(url.as_str());
        text.append(", credentials: ");
        match &self.credentials {
            Some(credentials) => {
                let shown = credentials.redacted();
                text.append(shown.as_str());
            },
            None => {
                text.append("None");
            },
        }
        text.append(" }");
        text
    }
}

// ---------------------------------------------------------------------------
// Laws
// ---------------------------------------------------------------------------

/// The version used is one that both sides understand, and the highest such; there is
/// one wherever the ranges overlap.
pub proof fn law_negotiated_version_is_the_best(nas: (u32, u32), supported: (u32, u32), v: u32)
    ensures
        version_picked(nas, supported) matches Some(best) ==> {
            &&& nas.0 <= best <= nas.1
            &&& supported.0 <= best <= supported.1
        },
        nas.0 <= v <= nas.1 && supported.0 <= v <= supported.1 ==> {
            &&& version_picked(nas, supported) matches Some(best)
            &&& v <= best
        },
{
}

/// How many requests a call may still send from a phase on.
pub open spec fn sends_left(phase: CallPhase) -> nat {
    match phase {
        CallPhase::Sent => 1,
        CallPhase::LoggingIn { .. } => 1,
        CallPhase::Resent { .. } => 0,
        CallPhase::Over => 0,
    }
}

/// How many logins a call may still make from a phase on.
pub open spec fn logins_left(phase: CallPhase) -> nat {
    match phase {
        CallPhase::Sent => 1,
        _ => 0,
    }
}

/// Whether the phase a step leaves pays for what the step does and for what the next
/// phase may still do.
pub open spec fn step_is_paid(phase: CallPhase, next: (CallPhase, CallAction)) -> bool {
    &&& sends_left(next.0) + sends(seq![next.1]) <= sends_left(phase)
    &&& logins_left(next.0) + logins(seq![next.1]) <= logins_left(phase)
}

/// How many requests a list of actions sends.
pub open spec fn sends(actions: Seq<CallAction>) -> nat
    decreases actions.len(),
{
    if actions.len() == 0 {
        0
    } else if actions.last() is Send {
        sends(actions.drop_last()) + 1
    } else {
        sends(actions.drop_last())
    }
}

/// How many logins a list of actions makes.
pub open spec fn logins(actions: Seq<CallAction>) -> nat
    decreases actions.len(),
{
    if actions.len() == 0 {
        0
    } else if actions.last() is Login {
        logins(actions.drop_last()) + 1
    } else {
        logins(actions.drop_last())
    }
}

/// Whether a list of phases and actions can come of steps of one call, the first of
/// them from `CallPhase::Sent`.
pub open spec fn is_run(phases: Seq<CallPhase>, actions: Seq<CallAction>) -> bool {
    &&& phases.len() == actions.len() + 1
    &&& phases[0] == CallPhase::Sent
    &&& forall|i: int|
        0 <= i < actions.len() ==> step_is_paid(
            phases[i],
            (phases[i + 1], #[trigger] actions[i]),
        )
}

/// A call repeats its request at most once and logs in at most once, however its steps
/// come out.
pub proof fn law_at_most_one_retry(phases: Seq<CallPhase>, actions: Seq<CallAction>)
    requires
        is_run(phases, actions),
    ensures
        sends(actions) + sends_left(phases.last()) <= 1,
        logins(actions) + logins_left(phases.last()) <= 1,
    decreases actions.len(),
{
    if actions.len() > 0 {
        let before = actions.drop_last();
        let n = before.len() as int;
        assert(is_run(phases.drop_last(), before)) by {
            assert forall|i: int| 0 <= i < before.len() implies step_is_paid(
                phases.drop_last()[i],
                (phases.drop_last()[i + 1], #[trigger] before[i]),
            ) by {
                assert(before[i] == actions[i]);
            }
        }
        law_at_most_one_retry(phases.drop_last(), before);
        assert(step_is_paid(phases[n], (phases[n + 1], actions[n])));
        reveal_with_fuel(sends, 2);
        reveal_with_fuel(logins, 2);
        assert(seq![actions[n]].drop_last() =~= Seq::<CallAction>::empty());
    }
}

/// Once a fresh session did not clear a permission error, no permission error is ever
/// retried; every real session error still is.
pub proof fn law_a_real_permission_error_is_not_retried(client: SynoClient, code: i32)
    requires
        client.permission_is_real,
    ensures
        client.retries(code) ==> code != PERMISSION_DENIED_CODE,
        client.credentials is Some && crate::error::session_code(code) && code
            != PERMISSION_DENIED_CODE ==> client.retries(code),
{
}

/// A request carries the API, the version and the method it is for, every parameter of its
/// own, the session where there is one, and nothing else.
pub proof fn law_what_a_request_carries(
    endpoint: Endpoint,
    method: Seq<char>,
    params: Seq<(Seq<char>, Seq<char>)>,
    sid: Option<Seq<char>>,
    i: int,
)
    requires
        0 <= i < params.len(),
    ensures
        ({
            let query = query_pairs(endpoint, method, params, sid);
            &&& query.contains(("api"@, endpoint.api@))
            &&& query.contains(("version"@, decimal(endpoint.version as nat)))
            &&& query.contains(("method"@, method))
            &&& query.contains(params[i])
            &&& sid matches Some(s) ==> query.contains(("_sid"@, s))
            &&& query.len() == params.len() + (if sid is Some {
                4int
            } else {
                3
            })
        }),
{
    let query = query_pairs(endpoint, method, params, sid);
    assert(query[0] == ("api"@, endpoint.api@));
    assert(query[1] == ("version"@, decimal(endpoint.version as nat)));
    assert(query[2] == ("method"@, method));
    assert(query[3 + i] == params[i]);
    if let Some(s) = sid {
        assert(query[query.len() - 1] == ("_sid"@, s));
    }
}

/// A URL is the base, `webapi` and the path with one slash at each joint, however many there
/// were: nothing but slashes is cut, at the end of the base and at the start of the path.
pub proof fn law_a_url_has_one_slash_at_each_joint(base: Seq<char>, path: Seq<char>, i: int, j: int)
    requires
        0 <= i <= base.len(),
        0 <= j <= path.len(),
        forall|k: int| i <= k < base.len() ==> #[trigger] base[k] == '/',
        i > 0 ==> base[i - 1] != '/',
        forall|k: int| 0 <= k < j ==> #[trigger] path[k] == '/',
        j < path.len() ==> path[j] != '/',
    ensures
        url_text(base, path) == base.take(i) + "/"@ + "webapi"@ + "/"@ + path.skip(j),
{
    let to = crate::delete::lemma_unslash_end(base);
    let from = crate::delete::lemma_unslash_start(path);
    assert(to == i) by {
        if to < i {
            assert(base[i - 1] == '/');
        } else if i < to {
            assert(base[to - 1] == '/');
        }
    }
    assert(from == j) by {
        if from < j {
            assert(path[from] == '/');
        } else if j < from {
            assert(path[j] == '/');
        }
    }
}

/// A response succeeds only where it says so, and what it says of its failure is what is
/// reported: the code in its error object, with the API that was asked.
pub proof fn law_a_response_is_what_it_says(
    json: Doc,
    api: Seq<char>,
    result: Result<(), Error>,
)
    requires
        plain_answer(json, api, result),
    ensures
        result is Ok ==> json.field("success"@, 0) == Some(Doc::Bool(true)),
        envelope_readable(json) && json.field("success"@, 0) == Some(Doc::Bool(true))
            ==> result is Ok,
        envelope_readable(json) && json.field("success"@, 0) != Some(Doc::Bool(true)) && (
        json.field("error"@, 2) matches Some(err) && err != Doc::Null) ==> result is Err
            && result->Err_0 is Dsm,
        match result {
            Err(Error::Dsm { code, api: a }) => a@ == api && json.field("error"@, 2) is Some
                && json.field("error"@, 2)->0.field("code"@, 0) == Some(Doc::Int(code as i64)),
            _ => true,
        },
{
}

/// A call is repeated after a login exactly where there are credentials to log in with and
/// DSM said that the session is gone, or that it lacks permission, as long as that was not
/// shown to be so of a fresh session too.
pub proof fn law_when_a_session_is_renewed(client: SynoClient, code: i32)
    ensures
        client.credentials is None ==> !client.retries(code),
        client.credentials is Some && (code == 106 || code == 107 || code == 119)
            ==> client.retries(code),
        client.credentials is Some ==> (client.retries(105) <==> !client.permission_is_real),
        code != 105 && code != 106 && code != 107 && code != 119 ==> !client.retries(code),
{
    crate::error::law_which_codes_are_worth_a_login(code);
    crate::error::law_which_codes_are_worth_a_login(105);
}

/// A request goes where discovery said, with a version that both sides understand; an API
/// that the NAS does not have, or not in such a version, is unavailable.
pub proof fn law_where_a_request_goes(
    map: Map<Seq<char>, ApiInfo>,
    base_url: Seq<char>,
    api: Seq<char>,
    supported: (u32, u32),
    result: Result<Endpoint, Error>,
    v: u32,
)
    requires
        ApiInfoMap::target(map, base_url, api, supported, result),
    ensures
        !map.contains_key(api) ==> result is Err,
        map.contains_key(api) && supported.0 <= v <= supported.1 && map[api].min_version <= v
            <= map[api].max_version ==> result is Ok && v <= result->Ok_0.version,
        result is Ok ==> ({
            let endpoint = result->Ok_0;
            &&& map.contains_key(api)
            &&& endpoint.api@ == api
            &&& endpoint.url@ == url_text(base_url, map[api].path@)
            &&& supported.0 <= endpoint.version <= supported.1
            &&& map[api].min_version <= endpoint.version <= map[api].max_version
        }),
        result is Err ==> result->Err_0 is ApiUnavailable,
{
    if map.contains_key(api) {
        law_negotiated_version_is_the_best(
            (map[api].min_version, map[api].max_version),
            supported,
            v,
        );
    }
}

/// What discovery says of an API is read by its names, and nothing of it may be left out.
pub proof fn law_an_api_reads_its_fields(json: Doc, info: ApiInfo, text: Seq<char>, n: u32)
    requires
        json is Object,
        info_readable(json),
        info_reads(json, info),
    ensures
        json.at("path"@) == Some(Doc::Str(text)) ==> info.path@ == text,
        json.at("minVersion"@) == Some(Doc::Int(n as i64)) ==> info.min_version == n,
        json.at("maxVersion"@) == Some(Doc::Int(n as i64)) ==> info.max_version == n,
        json.at("path"@) is Some && json.at("minVersion"@) is Some && json.at("maxVersion"@)
            is Some,
{
}

} // verus!
