//! The library's error type and the meaning of DSM's numeric error codes.
//!
//! DSM reports a failure as a bare integer. The *common* codes mean the same
//! thing for every API; the 400 range is API-specific, and two of its tables are
//! known here: the one of `SYNO.API.Auth` and the one of `SYNO.FileStation.*`.
//! Any other API's code that the common table lacks is named by its number.

use vstd::prelude::*;
use vstd::string::StringExecFns;
use crate::text::{
    debug_form, decimal, decimal_int, decimal_of, decimal_of_signed, found_at,
    law_every_occurrence_is_replaced, quoted, replace, replaced, same_text, starts_with,
};

verus! {

/// DSM error codes that mean "your session is no longer usable".
pub const SESSION_ERROR_CODES: [i32; 3] = [106, 107, 119];

/// DSM 105, "insufficient user privilege". Ambiguous: DSM 7 also answers 105 for
/// a session id that has merely expired, see [`may_be_stale_session`].
pub const PERMISSION_DENIED_CODE: i32 = 105;

/// DSM auth error code asking for a 2-step verification code.
pub const OTP_REQUIRED_CODE: i32 = 403;

/// The `SYNO.API.Auth` API name, which selects the auth error-code table.
pub const AUTH_API: &'static str = "SYNO.API.Auth";

/// Every File Station API name starts with this.
pub const FILE_STATION_PREFIX: &'static str = "SYNO.FileStation";

/// Every Download Station API name starts with this.
pub const DOWNLOAD_STATION_PREFIX: &'static str = "SYNO.DownloadStation";

/// What kind of local failure an [`Error::Io`] was.
#[derive(Debug, Clone, Copy, PartialEq, Eq, Structural)]
pub enum IoErrorKind {
    /// A bounded wait ran out.
    TimedOut,
    /// Any other failure.
    Other,
}

/// A local failure: its kind and its text.
#[derive(Debug, Clone, PartialEq, Eq)]
pub struct IoError {
    pub kind: IoErrorKind,
    pub message: String,
}

/// Why a required API could not be used.
#[derive(Debug, Clone, Copy, PartialEq, Eq)]
pub enum ApiUnavailableReason {
    /// Absent from the discovery response.
    NotInstalled,
    /// Present, but `minVersion..maxVersion` does not overlap our range.
    VersionMismatch { nas: (u32, u32), supported: (u32, u32) },
}

/// Everything that can go wrong.
#[derive(Debug, Clone, PartialEq, Eq)]
pub enum Error {
    /// Transport-level failure: DNS, TLS, connection refused, timeout. Carries a
    /// rendered message from which any query string was removed, see
    /// [`redact_query`].
    Http { message: String },
    /// The NAS answered, but with `success: false` and a numeric code.
    Dsm { code: i32, api: String },
    /// Configuration is missing, malformed, or internally inconsistent.
    Config(String),
    /// Local failure: a file, or a wait that ran out.
    Io(IoError),
    /// A response body did not match the shape this client expects.
    Parse(String),
    /// Login could not be completed.
    Auth(String),
    /// A resolved delete path failed a safety guard. Never proceed past this.
    UnsafePath { path: String, reason: String },
    /// A required API is absent, or its version range does not overlap what this
    /// client understands.
    ApiUnavailable { api: String, reason: ApiUnavailableReason },
}

// ---------------------------------------------------------------------------
// Session codes
// ---------------------------------------------------------------------------

/// Whether `code` is one of [`SESSION_ERROR_CODES`].
pub open spec fn session_code(code: i32) -> bool {
    SESSION_ERROR_CODES@.contains(code)
}

/// Whether `code` may mean a stale session: a session code, or the ambiguous
/// permission code.
pub open spec fn stale_session_code(code: i32) -> bool {
    session_code(code) || code == PERMISSION_DENIED_CODE
}

/// True when `code` means the session must be re-established.
pub fn is_session_error(code: i32) -> (yes: bool)
    ensures
        yes == session_code(code),
        yes == (code == 106 || code == 107 || code == 119),
{
    let mut i: usize = 0;
    proof {
        let codes = SESSION_ERROR_CODES@;
        assert(codes[0] == 106 && codes[1] == 107 && codes[2] == 119);
    }
    while i < SESSION_ERROR_CODES.len()
        invariant
            i <= 3,
            SESSION_ERROR_CODES@.len() == 3,
            forall|j: int| 0 <= j < i ==> SESSION_ERROR_CODES@[j] != code,
            SESSION_ERROR_CODES@[0] == 106,
            SESSION_ERROR_CODES@[1] == 107,
            SESSION_ERROR_CODES@[2] == 119,
        decreases 3 - i,
    {
        if SESSION_ERROR_CODES[i] == code {
            return true;
        }
        i += 1;
    }
    false
}

/// True when `code` *might* mean the session is stale, so that re-authenticating
/// is worth one attempt. Wider than [`is_session_error`] by exactly
/// [`PERMISSION_DENIED_CODE`].
pub fn may_be_stale_session(code: i32) -> (yes: bool)
    ensures
        yes == stale_session_code(code),
{
    is_session_error(code) || code == PERMISSION_DENIED_CODE
}

// ---------------------------------------------------------------------------
// Code tables
// ---------------------------------------------------------------------------

/// What a code means for every DSM API, where it does.
pub open spec fn common_text(code: i32) -> Option<Seq<char>> {
    match code {
        100 => Some("unknown error"@),
        101 => Some("invalid parameter"@),
        102 => Some("the requested API does not exist"@),
        103 => Some("the requested method does not exist"@),
        104 => Some("the requested version does not support this functionality"@),
        105 => Some("the logged-in session does not have permission for this request"@),
        106 => Some("session timeout"@),
        107 => Some("session interrupted by duplicate login"@),
        119 => Some("invalid session ID (SID)"@),
        _ => None,
    }
}

/// What a code means for `SYNO.FileStation.*`, where that differs.
pub open spec fn file_station_text(code: i32) -> Option<Seq<char>> {
    match code {
        400 => Some("invalid parameter for the File Station request"@),
        401 => Some("unknown File Station error"@),
        402 => Some("the File Station system is too busy"@),
        403 => Some("permission denied — this DSM account may not read or write that path"@),
        404 => Some("the shared folder is in the recycle bin"@),
        405 => Some("cannot accept a request from another user"@),
        406 => Some("the shared folder does not have a quota, or the quota is exceeded"@),
        407 => Some("the operation failed because the path is in use"@),
        408 => Some("no such file or directory"@),
        409 => Some("the volume does not support this operation"@),
        410 => Some("the operation failed — no such task on the NAS"@),
        411 => Some("the destination is read-only"@),
        412 => Some("the file already exists at the destination"@),
        413 => Some("the destination folder is a subfolder of the source"@),
        414 => Some("the destination folder does not exist"@),
        _ => None,
    }
}

/// What a code means for `SYNO.API.Auth`, where that differs.
pub open spec fn auth_text(code: i32) -> Option<Seq<char>> {
    match code {
        400 => Some("no such account or incorrect password"@),
        401 => Some("account disabled"@),
        402 => Some("permission denied"@),
        403 => Some("2-step verification code required"@),
        404 => Some("failed to authenticate 2-step verification code"@),
        406 => Some("2-step verification is enforced for this account"@),
        407 => Some("blocked IP source"@),
        408 => Some("expired password (cannot be changed)"@),
        409 => Some("expired password"@),
        410 => Some("password must be changed"@),
        _ => None,
    }
}

/// The characters of an optional text.
pub open spec fn opt_str(text: Option<&'static str>) -> Option<Seq<char>> {
    match text {
        Some(s) => Some(s@),
        None => None,
    }
}

/// Codes that mean the same thing for every DSM API.
pub fn common_message(code: i32) -> (text: Option<&'static str>)
    ensures
        opt_str(text) == common_text(code),
{
    match code {
        100 => Some("unknown error"),
        101 => Some("invalid parameter"),
        102 => Some("the requested API does not exist"),
        103 => Some("the requested method does not exist"),
        104 => Some("the requested version does not support this functionality"),
        105 => Some("the logged-in session does not have permission for this request"),
        106 => Some("session timeout"),
        107 => Some("session interrupted by duplicate login"),
        119 => Some("invalid session ID (SID)"),
        _ => None,
    }
}

/// `SYNO.FileStation.*`-specific codes.
pub fn file_station_message(code: i32) -> (text: Option<&'static str>)
    ensures
        opt_str(text) == file_station_text(code),
{
    match code {
        400 => Some("invalid parameter for the File Station request"),
        401 => Some("unknown File Station error"),
        402 => Some("the File Station system is too busy"),
        403 => Some("permission denied — this DSM account may not read or write that path"),
        404 => Some("the shared folder is in the recycle bin"),
        405 => Some("cannot accept a request from another user"),
        406 => Some("the shared folder does not have a quota, or the quota is exceeded"),
        407 => Some("the operation failed because the path is in use"),
        408 => Some("no such file or directory"),
        409 => Some("the volume does not support this operation"),
        410 => Some("the operation failed — no such task on the NAS"),
        411 => Some("the destination is read-only"),
        412 => Some("the file already exists at the destination"),
        413 => Some("the destination folder is a subfolder of the source"),
        414 => Some("the destination folder does not exist"),
        _ => None,
    }
}

/// `SYNO.API.Auth`-specific codes.
pub fn auth_message(code: i32) -> (text: Option<&'static str>)
    ensures
        opt_str(text) == auth_text(code),
{
    match code {
        400 => Some("no such account or incorrect password"),
        401 => Some("account disabled"),
        402 => Some("permission denied"),
        403 => Some("2-step verification code required"),
        404 => Some("failed to authenticate 2-step verification code"),
        406 => Some("2-step verification is enforced for this account"),
        407 => Some("blocked IP source"),
        408 => Some("expired password (cannot be changed)"),
        409 => Some("expired password"),
        410 => Some("password must be changed"),
        _ => None,
    }
}

/// The meaning of `code` as `api` uses it: the API's own table first, then the
/// common one, then a text naming the number.
pub open spec fn dsm_text(code: i32, api: Seq<char>) -> Seq<char> {
    if api == AUTH_API@ && auth_text(code) is Some {
        auth_text(code)->0
    } else if FILE_STATION_PREFIX@.is_prefix_of(api) && file_station_text(code) is Some {
        file_station_text(code)->0
    } else if common_text(code) is Some {
        common_text(code)->0
    } else {
        "unrecognized DSM error code "@ + decimal_int(code as int)
    }
}

/// Human-readable text for a DSM numeric error code.
pub fn dsm_message(code: i32, api: &str) -> (text: String)
    ensures
        text@ == dsm_text(code, api@),
{
    if same_text(api, AUTH_API) {
        if let Some(msg) = auth_message(code) {
            return msg.to_owned();
        }
    }
    if starts_with(api, FILE_STATION_PREFIX) {
        if let Some(msg) = file_station_message(code) {
            return msg.to_owned();
        }
    }
    match common_message(code) {
        Some(msg) => msg.to_owned(),
        None => {
            let mut text = "unrecognized DSM error code ".to_owned();
            let number = decimal_of_signed(code as i64);
            text.append(number.as_str());
            text
        },
    }
}

// ---------------------------------------------------------------------------
// Unavailable APIs
// ---------------------------------------------------------------------------

/// The DSM package that owns an API name.
pub open spec fn package_text(api: Seq<char>) -> Option<Seq<char>> {
    if DOWNLOAD_STATION_PREFIX@.is_prefix_of(api) {
        Some("Download Station"@)
    } else if FILE_STATION_PREFIX@.is_prefix_of(api) {
        Some("File Station"@)
    } else {
        None
    }
}

/// The DSM package that owns an API name, for messages a user can act on.
pub fn package_for(api: &str) -> (package: Option<&'static str>)
    ensures
        opt_str(package) == package_text(api@),
{
    if starts_with(api, DOWNLOAD_STATION_PREFIX) {
        Some("Download Station")
    } else if starts_with(api, FILE_STATION_PREFIX) {
        Some("File Station")
    } else {
        None
    }
}

/// A version range as `low-high`.
pub open spec fn range_text(range: (u32, u32)) -> Seq<char> {
    decimal(range.0 as nat) + "-"@ + decimal(range.1 as nat)
}

/// A version range as `low-high`.
fn range_message(range: (u32, u32)) -> (text: String)
    ensures
        text@ == range_text(range),
{
    let mut text = decimal_of(range.0 as u64);
    text.append("-");
    let high = decimal_of(range.1 as u64);
    text.append(high.as_str());
    text
}

impl ApiUnavailableReason {
    /// The reason in words.
    pub open spec fn text(self) -> Seq<char> {
        match self {
            ApiUnavailableReason::NotInstalled => "not installed"@,
            ApiUnavailableReason::VersionMismatch { nas, supported } => "NAS supports versions "@
                + range_text(nas) + ", this client supports "@ + range_text(supported),
        }
    }

    /// The reason in words.
    pub fn message(&self) -> (text: String)
        ensures
            text@ == self.text(),
    {
        match self {
            ApiUnavailableReason::NotInstalled => "not installed".to_owned(),
            ApiUnavailableReason::VersionMismatch { nas, supported } => {
                let mut text = "NAS supports versions ".to_owned();
                let theirs = range_message(*nas);
                let ours = range_message(*supported);
                text.append(theirs.as_str());
                text.append(", this client supports ");
                text.append(ours.as_str());
                text
            },
        }
    }
}

/// What to say of a required API that cannot be used.
pub open spec fn api_unavailable_text(api: Seq<char>, reason: ApiUnavailableReason) -> Seq<char> {
    match (reason, package_text(api)) {
        (ApiUnavailableReason::NotInstalled, Some(pkg)) => pkg
            + " is not installed on this NAS (missing API "@ + api + ")"@,
        (ApiUnavailableReason::NotInstalled, None) => "this NAS does not provide the API "@ + api,
        (ApiUnavailableReason::VersionMismatch { .. }, _) => "the API "@ + api + " is unusable: "@
            + reason.text(),
    }
}

/// Message for a required API that cannot be used.
pub fn api_unavailable_message(api: &str, reason: ApiUnavailableReason) -> (text: String)
    ensures
        text@ == api_unavailable_text(api@, reason),
{
    match reason {
        ApiUnavailableReason::NotInstalled => match package_for(api) {
            Some(pkg) => {
                let mut text = pkg.to_owned();
                text.append(" is not installed on this NAS (missing API ");
                text.append(api);
                text.append(")");
                text
            },
            None => {
                let mut text = "this NAS does not provide the API ".to_owned();
                text.append(api);
                text
            },
        },
        ApiUnavailableReason::VersionMismatch { .. } => {
            let mut text = "the API ".to_owned();
            let why = reason.message();
            text.append(api);
            text.append(" is unusable: ");
            text.append(why.as_str());
            text
        },
    }
}

// ---------------------------------------------------------------------------
// The error itself
// ---------------------------------------------------------------------------

impl Error {
    /// The error in words.
    pub open spec fn text(self) -> Seq<char> {
        match self {
            Error::Http { message } => "HTTP request failed: "@ + message@,
            Error::Dsm { code, api } => api@ + " failed: "@ + dsm_text(code, api@)
                + " (DSM error "@ + decimal_int(code as int) + ")"@,
            Error::Config(message) => "configuration error: "@ + message@,
            Error::Io(failure) => "I/O error: "@ + failure.message@,
            Error::Parse(message) => "failed to parse response: "@ + message@,
            Error::Auth(message) => "authentication failed: "@ + message@,
            Error::UnsafePath { path, reason } => "refusing unsafe path "@ + debug_form(path@)
                + ": "@ + reason@,
            Error::ApiUnavailable { api, reason } => api_unavailable_text(api@, reason),
        }
    }

    /// The error in words.
    pub fn message(&self) -> (text: String)
        ensures
            text@ == self.text(),
    {
        match self {
            Error::Http { message } => prefixed("HTTP request failed: ", message.as_str()),
            Error::Dsm { code, api } => {
                let mut text = api.clone();
                let meaning = dsm_message(*code, api.as_str());
                let number = decimal_of_signed(*code as i64);
                text.append(" failed: ");
                text.append(meaning.as_str());
                text.append(" (DSM error ");
                text.append(number.as_str());
                text.append(")");
                text
            },
            Error::Config(message) => prefixed("configuration error: ", message.as_str()),
            Error::Io(failure) => prefixed("I/O error: ", failure.message.as_str()),
            Error::Parse(message) => prefixed("failed to parse response: ", message.as_str()),
            Error::Auth(message) => prefixed("authentication failed: ", message.as_str()),
            Error::UnsafePath { path, reason } => {
                let mut text = "refusing unsafe path ".to_owned();
                let shown = quoted(path.as_str());
                text.append(shown.as_str());
                text.append(": ");
                text.append(reason.as_str());
                text
            },
            Error::ApiUnavailable { api, reason } => api_unavailable_message(api.as_str(), *reason),
        }
    }

    /// Build an [`Error::Dsm`] from a code and the API that produced it.
    pub fn dsm(code: i32, api: &str) -> (err: Error)
        ensures
            err matches Error::Dsm { code: c, api: a } && c == code && a@ == api@,
    {
        Error::Dsm { code, api: api.to_owned() }
    }

    /// Build an [`Error::Config`].
    pub fn config(msg: &str) -> (err: Error)
        ensures
            err matches Error::Config(m) && m@ == msg@,
    {
        Error::Config(msg.to_owned())
    }

    /// Build an [`Error::UnsafePath`].
    pub fn unsafe_path(path: &str, reason: &str) -> (err: Error)
        ensures
            err matches Error::UnsafePath { path: p, reason: r } && p@ == path@ && r@ == reason@,
    {
        Error::UnsafePath { path: path.to_owned(), reason: reason.to_owned() }
    }

    /// The API is not listed by `SYNO.API.Info` at all.
    pub fn api_missing(api: &str) -> (err: Error)
        ensures
            err matches Error::ApiUnavailable { api: a, reason } && a@ == api@ && reason
                == ApiUnavailableReason::NotInstalled,
    {
        Error::ApiUnavailable { api: api.to_owned(), reason: ApiUnavailableReason::NotInstalled }
    }

    /// An operation that failed with no DSM code behind it.
    pub fn operation_failed(message: &str) -> (err: Error)
        ensures
            err matches Error::Io(f) && f.kind == IoErrorKind::Other && f.message@ == message@,
    {
        Error::Io(IoError { kind: IoErrorKind::Other, message: message.to_owned() })
    }

    /// A bounded wait that ran out.
    pub fn timed_out(message: &str) -> (err: Error)
        ensures
            err matches Error::Io(f) && f.kind == IoErrorKind::TimedOut && f.message@ == message@,
    {
        Error::Io(IoError { kind: IoErrorKind::TimedOut, message: message.to_owned() })
    }

    /// The API exists but this client and the NAS share no supported version.
    pub fn api_version_mismatch(api: &str, nas: (u32, u32), supported: (u32, u32)) -> (err: Error)
        ensures
            err matches Error::ApiUnavailable { api: a, reason } && a@ == api@ && reason
                == (ApiUnavailableReason::VersionMismatch { nas, supported }),
    {
        Error::ApiUnavailable {
            api: api.to_owned(),
            reason: ApiUnavailableReason::VersionMismatch { nas, supported },
        }
    }
}

/// What went wrong, in words; nothing where it went well.
pub open spec fn trouble_of(result: Result<(), Error>) -> Option<Seq<char>> {
    match result {
        Ok(()) => None,
        Err(err) => Some(err.text()),
    }
}

/// `head` followed by `tail`.
pub fn prefixed(head: &str, tail: &str) -> (text: String)
    ensures
        text@ == head@ + tail@,
{
    let mut text = head.to_owned();
    text.append(tail);
    text
}

// ---------------------------------------------------------------------------
// Redaction
// ---------------------------------------------------------------------------

/// The query of a URL given as text, where it is a URL and has one.
pub uninterp spec fn url_query(url: Seq<char>) -> Option<Seq<char>>;

/// `reqwest::Url::query` on the parsed text: the part after the question mark,
/// `None` where there is none or the text is no URL.
#[verifier::external_body]
fn query_of(url: &str) -> (query: Option<String>)
    ensures
        crate::text::opt_view(query) == url_query(url@),
{
    let parsed = reqwest::Url::parse(url).ok();
    parsed.and_then(|u| u.query().map(str::to_owned))
}

/// A URL given as text, without its query, where it is a URL.
pub uninterp spec fn url_sans_query(url: Seq<char>) -> Option<Seq<char>>;

/// `reqwest::Url::set_query` with `None` on the parsed text: the URL without its
/// query, `None` where the text is no URL.
#[verifier::external_body]
fn sans_query(url: &str) -> (bare: Option<String>)
    ensures
        crate::text::opt_view(bare) == url_sans_query(url@),
{
    let mut parsed = reqwest::Url::parse(url).ok()?;
    parsed.set_query(None);
    Some(String::from(parsed))
}

/// `text` with `url` replaced by its query-less form.
pub open spec fn redacted(text: Seq<char>, url: Option<Seq<char>>) -> Seq<char> {
    match url {
        Some(u) if url_query(u) is Some && url_sans_query(u) is Some => replaced(
            text,
            u,
            url_sans_query(u)->0,
        ),
        _ => text,
    }
}

/// Replace every occurrence of `url` in `text` by `bare`, where there is a `bare`.
///
/// This is [`redact_query`] once the two forms of the URL are known.
pub fn substitute_url(text: &str, url: &str, bare: Option<&str>) -> (out: String)
    ensures
        out@ == match bare {
            Some(b) => replaced(text@, url@, b@),
            None => text@,
        },
{
    match bare {
        Some(b) => replace(text, url, b),
        None => text.to_owned(),
    }
}

/// A transport error's own text, with any query string of its URL removed.
///
/// Every request but a login carries the session id in its query, and the text of
/// a transport error ends in the whole URL. The scheme, host and path survive.
pub fn redact_query(text: &str, url: Option<&str>) -> (out: String)
    ensures
        out@ == redacted(
            text@,
            match url {
                Some(u) => Some(u@),
                None => None,
            },
        ),
{
    match url {
        Some(u) => match query_of(u) {
            Some(_) => match sans_query(u) {
                Some(bare) => substitute_url(text, u, Some(bare.as_str())),
                None => text.to_owned(),
            },
            None => text.to_owned(),
        },
        None => text.to_owned(),
    }
}

// ---------------------------------------------------------------------------
// The startup diagnostic
// ---------------------------------------------------------------------------

/// Whether a failure is about credentials rather than connectivity.
pub open spec fn auth_failure(err: Error) -> bool {
    match err {
        Error::Auth(_) => true,
        Error::Dsm { api, .. } => api@ == AUTH_API@,
        _ => false,
    }
}

/// Whether a failure is about credentials rather than connectivity.
pub fn is_auth_failure(err: &Error) -> (yes: bool)
    ensures
        yes == auth_failure(*err),
{
    match err {
        Error::Auth(_) => true,
        Error::Dsm { api, .. } => same_text(api.as_str(), AUTH_API),
        _ => false,
    }
}

/// Next step for a login DSM rejected.
pub open spec fn auth_hint_text(code: i32) -> Seq<char> {
    if code == 400 {
        "check the account name and the password (SYNO_CLEAN_PASSWORD, or the prompt)"@
    } else if code == 401 {
        "this DSM account is disabled — re-enable it in Control Panel > User"@
    } else if code == 402 {
        "this DSM account may not use Download Station — check its permissions in DSM"@
    } else if code == OTP_REQUIRED_CODE || code == 404 || code == 406 {
        "this account uses 2-step verification — set SYNO_CLEAN_OTP or enter the code at the prompt"@
    } else if code == 407 {
        "DSM has blocked this IP — clear it in Control Panel > Security > Auto Block"@
    } else if 408 <= code <= 410 {
        "the DSM password has expired — change it in DSM, then try again"@
    } else {
        "check the account name and the password, then the DSM log"@
    }
}

/// Next step for a login DSM rejected.
pub fn auth_hint(code: i32) -> (hint: &'static str)
    ensures
        hint@ == auth_hint_text(code),
{
    if code == 400 {
        "check the account name and the password (SYNO_CLEAN_PASSWORD, or the prompt)"
    } else if code == 401 {
        "this DSM account is disabled — re-enable it in Control Panel > User"
    } else if code == 402 {
        "this DSM account may not use Download Station — check its permissions in DSM"
    } else if code == OTP_REQUIRED_CODE || code == 404 || code == 406 {
        "this account uses 2-step verification — set SYNO_CLEAN_OTP or enter the code at the prompt"
    } else if code == 407 {
        "DSM has blocked this IP — clear it in Control Panel > Security > Auto Block"
    } else if 408 <= code && code <= 410 {
        "the DSM password has expired — change it in DSM, then try again"
    } else {
        "check the account name and the password, then the DSM log"
    }
}

/// The one thing most likely to fix a failure.
pub open spec fn hint_text(err: Error) -> Seq<char> {
    match err {
        Error::Http { .. } =>
            "check the host, the port and that DSM is reachable — HTTPS is 5001 and HTTP is 5000 by default, and a self-signed certificate needs --insecure"@,
        Error::Dsm { code, api } => if api@ == AUTH_API@ {
            auth_hint_text(code)
        } else if code == PERMISSION_DENIED_CODE {
            "this DSM account lacks permission — grant it Download Station and File Station access in Control Panel > User"@
        } else {
            api@ + " refused the request: "@ + dsm_text(code, api@)
        },
        Error::ApiUnavailable { .. } =>
            "install and start the package in DSM's Package Center, then try again"@,
        Error::Auth(_) => "check the account name and SYNO_CLEAN_PASSWORD"@,
        _ => "check the configuration and the log file for details"@,
    }
}

/// The one thing most likely to fix this failure.
pub fn connection_hint(err: &Error) -> (hint: String)
    ensures
        hint@ == hint_text(*err),
{
    match err {
        Error::Http { .. } =>
            "check the host, the port and that DSM is reachable — HTTPS is 5001 and HTTP is 5000 by default, and a self-signed certificate needs --insecure".to_owned(),
        Error::Dsm { code, api } => if same_text(api.as_str(), AUTH_API) {
            auth_hint(*code).to_owned()
        } else if *code == PERMISSION_DENIED_CODE {
            "this DSM account lacks permission — grant it Download Station and File Station access in Control Panel > User".to_owned()
        } else {
            let mut text = prefixed(api.as_str(), " refused the request: ");
            let meaning = dsm_message(*code, api.as_str());
            text.append(meaning.as_str());
            text
        },
        Error::ApiUnavailable { .. } =>
            "install and start the package in DSM's Package Center, then try again".to_owned(),
        Error::Auth(_) => "check the account name and SYNO_CLEAN_PASSWORD".to_owned(),
        _ => "check the configuration and the log file for details".to_owned(),
    }
}

/// Headline, error and hint, on a line each.
pub open spec fn diagnostic_text(err: Error, target: Seq<char>, username: Seq<char>) -> Seq<char> {
    let headline = if auth_failure(err) {
        "cannot log in to "@ + target + " as "@ + username
    } else {
        "cannot reach "@ + target
    };
    headline + "\n  "@ + err.text() + "\n  hint: "@ + hint_text(err)
}

/// A startup diagnostic for a NAS that could not be reached or logged in to:
/// what failed, the underlying error, and one hint.
pub fn connection_diagnostic(err: &Error, target: &str, username: &str) -> (text: String)
    ensures
        text@ == diagnostic_text(*err, target@, username@),
{
    let mut text = if is_auth_failure(err) {
        let mut headline = prefixed("cannot log in to ", target);
        headline.append(" as ");
        headline.append(username);
        headline
    } else {
        prefixed("cannot reach ", target)
    };
    let what = err.message();
    let hint = connection_hint(err);
    text.append("\n  ");
    text.append(what.as_str());
    text.append("\n  hint: ");
    text.append(hint.as_str());
    text
}

// ---------------------------------------------------------------------------
// Laws
// ---------------------------------------------------------------------------

/// The auth table never answers for another API: what a code means elsewhere is
/// independent of it, and an unlisted code is named by its number.
pub proof fn law_auth_table_is_private(code: i32, api: Seq<char>)
    requires
        api != AUTH_API@,
        !FILE_STATION_PREFIX@.is_prefix_of(api),
    ensures
        common_text(code) is Some ==> dsm_text(code, api) == common_text(code)->0,
        common_text(code) is None ==> dsm_text(code, api) == "unrecognized DSM error code "@
            + decimal_int(code as int),
{
}

/// The common codes mean the same for every API: no API's own table lists one.
pub proof fn law_common_codes_are_common(code: i32, api: Seq<char>)
    requires
        common_text(code) is Some,
    ensures
        dsm_text(code, api) == common_text(code)->0,
{
}

/// Of the codes worth a re-login, exactly the ambiguous permission code is not a
/// session error.
pub proof fn law_stale_is_session_or_permission(code: i32)
    ensures
        stale_session_code(code) && !session_code(code) <==> code == PERMISSION_DENIED_CODE,
{
    let codes = SESSION_ERROR_CODES@;
    assert(codes[0] == 106 && codes[1] == 107 && codes[2] == 119);
}

/// The session is renewed for a timeout, a duplicate login, an invalid session and a
/// refused permission, and for no other code.
pub proof fn law_which_codes_are_worth_a_login(code: i32)
    ensures
        stale_session_code(code) <==> code == 105 || code == 106 || code == 107 || code == 119,
{
    let codes = SESSION_ERROR_CODES@;
    assert(codes[0] == 106 && codes[1] == 107 && codes[2] == 119);
}

/// Every error that names a code shows the number and the API, whatever the tables say.
pub proof fn law_a_code_is_always_shown(code: i32, api: String)
    ensures
        ({
            let text = (Error::Dsm { code, api }).text();
            let tail = decimal_int(code as int) + ")"@;
            &&& api@.is_prefix_of(text)
            &&& text.skip(text.len() - tail.len()) == tail
        }),
{
    let text = (Error::Dsm { code, api }).text();
    let tail = decimal_int(code as int) + ")"@;
    assert(text.take(api@.len() as int) =~= api@);
    assert(text.skip(text.len() - tail.len()) =~= tail);
}

/// A session id in the URL of a failed request never reaches the text that is shown: where
/// the URL first stands in the text, and wherever after that, its form without the query
/// stands instead.
pub proof fn law_the_query_is_taken_out(a: Seq<char>, url: Seq<char>, b: Seq<char>)
    requires
        url.len() > 0,
        url_query(url) is Some,
        url_sans_query(url) is Some,
        forall|k: int| 0 <= k < a.len() ==> !#[trigger] found_at(a + url + b, url, k),
    ensures
        redacted(a + url + b, Some(url)) == a + url_sans_query(url)->0 + redacted(b, Some(url)),
{
    law_every_occurrence_is_replaced(a, url, url_sans_query(url)->0, b);
}

/// Only what the login API said, or a login that could not be tried, is about credentials; a
/// diagnostic then names the account, and else the NAS alone. Either way it holds the error
/// in full.
pub proof fn law_a_diagnostic_says_what_failed(err: Error, target: Seq<char>, username: Seq<char>)
    ensures
        auth_failure(err) <==> err is Auth || said_by(err, "SYNO.API.Auth"@),
        ({
            let text = diagnostic_text(err, target, username);
            let head = if err is Auth || said_by(err, "SYNO.API.Auth"@) {
                "cannot log in to "@ + target + " as "@ + username
            } else {
                "cannot reach "@ + target
            };
            &&& head.is_prefix_of(text)
            &&& found_at(text, err.text(), (head.len() + "\n  "@.len()) as int)
        }),
{
    let text = diagnostic_text(err, target, username);
    let head = if auth_failure(err) {
        "cannot log in to "@ + target + " as "@ + username
    } else {
        "cannot reach "@ + target
    };
    let at = head.len() + "\n  "@.len();
    assert(head =~= text.take(head.len() as int));
    assert(text.subrange(at as int, (at + err.text().len()) as int) =~= err.text());
}

/// Whether a failure is an answer of this API.
pub open spec fn said_by(err: Error, by: Seq<char>) -> bool {
    err matches Error::Dsm { code, api } && api@ == by
}

/// Whose words a code is explained in: the login's own for the login API, File Station's own
/// for any of its APIs, the common ones below that range, and else the number alone.
pub proof fn law_whose_words_explain_a_code(code: i32, api: Seq<char>)
    ensures
        api == "SYNO.API.Auth"@ && 400 <= code <= 410 && code != 405 ==> auth_text(code) is Some
            && dsm_text(code, api) == auth_text(code)->0,
        "SYNO.FileStation"@.is_prefix_of(api) && api != "SYNO.API.Auth"@ && 400 <= code <= 414
            ==> file_station_text(code) is Some && dsm_text(code, api) == file_station_text(
            code,
        )->0,
        api != "SYNO.API.Auth"@ && !"SYNO.FileStation"@.is_prefix_of(api) && code >= 400
            ==> dsm_text(code, api) == "unrecognized DSM error code "@ + decimal_int(code as int),
        100 <= code <= 107 || code == 119 ==> common_text(code) is Some && dsm_text(code, api)
            == common_text(code)->0,
{
}

/// Which package an API belongs to.
pub proof fn law_which_package_an_api_is_of(rest: Seq<char>)
    ensures
        package_text("SYNO.DownloadStation"@ + rest) == Some("Download Station"@),
        package_text("SYNO.FileStation"@ + rest) == Some("File Station"@),
{
    let ds = "SYNO.DownloadStation"@ + rest;
    let fs = "SYNO.FileStation"@ + rest;
    reveal_strlit("SYNO.DownloadStation");
    reveal_strlit("SYNO.FileStation");
    assert(fs[5] == 'F');
    assert("SYNO.DownloadStation"@ =~= ds.take("SYNO.DownloadStation"@.len() as int));
    assert("SYNO.FileStation"@ =~= fs.take("SYNO.FileStation"@.len() as int));
    if "SYNO.DownloadStation"@.is_prefix_of(fs) {
        assert(fs.take("SYNO.DownloadStation"@.len() as int)[5] == 'D');
    }
}

} // verus!
