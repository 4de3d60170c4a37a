//! `SYNO.API.Auth`: login and logout.
//!
//! * **Logout happens only on request.** A normal quit leaves the session alive.
//! * **2FA is demand-driven.** DSM answers a login that needs a one-time code with
//!   error 403, so an absent code is the normal case.

use vstd::prelude::*;
use vstd::string::StringExecFns;
use crate::api::client::{pairs, Decode};
use crate::error::{Error, AUTH_API, OTP_REQUIRED_CODE};
use crate::json::{opt_flag_in, opt_text_in, read_opt_flag, read_opt_text, read_text, text_in, Doc, Json};
use crate::text::{debug_form, opt_view, quoted, same_text};

verus! {

/// DSM session name. Logout must name the same session that login did.
pub const AUTH_SESSION: &'static str = "DownloadStation";

/// Version range this client implements for `SYNO.API.Auth`. The floor is where
/// `otp_code` appears.
pub const AUTH_SUPPORTED: (u32, u32) = (3, 6);

/// What is needed to obtain a session, and to obtain another one silently when DSM
/// decides the first has expired.
#[derive(Clone, PartialEq, Eq)]
pub struct Credentials {
    pub username: String,
    pub password: String,
    /// A 2FA code, when one is already known.
    pub otp: Option<String>,
}

impl Credentials {
    pub fn new(username: &str, password: &str) -> (credentials: Self)
        ensures
            credentials.username@ == username@,
            credentials.password@ == password@,
            credentials.otp is None,
    {
        Credentials { username: username.to_owned(), password: password.to_owned(), otp: None }
    }

    /// Attach a one-time code; an empty one is no code.
    pub fn with_otp(self, otp: &str) -> (credentials: Self)
        ensures
            credentials.username == self.username,
            credentials.password == self.password,
            opt_view(credentials.otp) == (if otp@.len() > 0 {
                Some(otp@)
            } else {
                None::<Seq<char>>
            }),
    {
        let code = if otp.is_empty() {
            None
        } else {
            Some(otp.to_owned())
        };
        Credentials { username: self.username, password: self.password, otp: code }
    }

    /// The credentials in words, with neither the password nor the code in them.
    pub open spec fn redacted_text(self) -> Seq<char> {
        "Credentials { username: "@ + debug_form(self.username@)
            + ", password: \"<redacted>\", otp: "@ + (if self.otp is Some {
            "Some(\"<redacted>\")"@
        } else {
            "None"@
        }) + " }"@
    }

    /// The credentials in words, with neither the password nor the code in them.
    pub fn redacted(&self) -> (text: String)
        ensures
            text@ == self.redacted_text(),
    {
        let mut text = "Credentials { username: ".to_owned();
        let name = quoted(self.username.as_str());
        text.append(name.as_str());
        text.append(", password: \"<redacted>\", otp: ");
        if self.otp.is_some() {
            text.append("Some(\"<redacted>\")");
        } else {
            text.append("None");
        }
        text.append(" }");
        text
    }
}

/// The `data` object of a successful login.
#[derive(Debug, Clone, PartialEq, Eq)]
pub struct LoginData {
    pub sid: String,
    pub did: Option<String>,
    pub is_portal_port: Option<bool>,
}

/// The fields of a login's payload, in order. Without names, the first must be there.
pub const LOGIN_FIELDS: [&'static str; 3] = ["sid", "did", "is_portal_port"];

impl Decode for LoginData {
    open spec fn readable(json: Doc) -> bool {
        &&& json.fits(LOGIN_FIELDS@, 1)
        &&& json.field("sid"@, 0) is Some
        &&& text_in(json.field("sid"@, 0)) is Some
        &&& opt_text_in(json.field("did"@, 1)) is Some
        &&& opt_flag_in(json.field("is_portal_port"@, 2)) is Some
    }

    open spec fn reads(json: Doc, value: Self) -> bool {
        &&& text_in(json.field("sid"@, 0)) == Some(value.sid@)
        &&& opt_text_in(json.field("did"@, 1)) == Some(opt_view(value.did))
        &&& opt_flag_in(json.field("is_portal_port"@, 2)) == Some(value.is_portal_port)
    }

    fn decode(json: &Json) -> (value: Option<Self>) {
        if !json.holds(&LOGIN_FIELDS, 1) {
            return None;
        }
        let sid = match json.slot("sid", 0) {
            None => {
                return None;
            },
            found => read_text(found),
        };
        let did = read_opt_text(json.slot("did", 1));
        let portal = read_opt_flag(json.slot("is_portal_port", 2));
        match (sid, did, portal) {
            (Some(sid), Some(did), Some(is_portal_port)) => Some(
                LoginData { sid, did, is_portal_port },
            ),
            _ => None,
        }
    }
}

/// The parameters of a login; a code is sent only where one is known.
pub open spec fn login_pairs(credentials: Credentials, session: Seq<char>) -> Seq<
    (Seq<char>, Seq<char>),
> {
    let plain = seq![
        ("account"@, credentials.username@),
        ("passwd"@, credentials.password@),
        ("session"@, session),
        ("format"@, "sid"@),
    ];
    match credentials.otp {
        Some(otp) => if otp@.len() > 0 {
            plain.push(("otp_code"@, otp@))
        } else {
            plain
        },
        None => plain,
    }
}

/// Parameters for `method=login`. They belong in the form body of a POST, never in a
/// query string, which every server on the way writes to its log.
pub fn build_login_params(credentials: &Credentials, session: &str) -> (params: Vec<
    (&'static str, String),
>)
    ensures
        pairs(params@) == login_pairs(*credentials, session@),
{
    let mut params: Vec<(&'static str, String)> = Vec::new();
    params.push(("account", credentials.username.clone()));
    params.push(("passwd", credentials.password.clone()));
    params.push(("session", session.to_owned()));
    params.push(("format", "sid".to_owned()));
    if let Some(otp) = &credentials.otp {
        if !otp.as_str().is_empty() {
            params.push(("otp_code", otp.clone()));
        }
    }
    proof {
        assert(pairs(params@) =~= login_pairs(*credentials, session@));
    }
    params
}

/// Query parameters for `method=logout`.
pub fn build_logout_params(session: &str) -> (params: Vec<(&'static str, String)>)
    ensures
        pairs(params@) == seq![("session"@, session@)],
{
    let mut params: Vec<(&'static str, String)> = Vec::new();
    params.push(("session", session.to_owned()));
    proof {
        assert(pairs(params@) =~= seq![("session"@, session@)]);
    }
    params
}

/// True when DSM refused a login because it wants a 2-step verification code.
pub fn is_otp_required(error: &Error) -> (yes: bool)
    ensures
        yes == (error matches Error::Dsm { code, api } && *code == OTP_REQUIRED_CODE && api@
            == AUTH_API@),
{
    match error {
        Error::Dsm { code, api } => *code == OTP_REQUIRED_CODE && same_text(api.as_str(), AUTH_API),
        _ => false,
    }
}

/// What is shown of credentials does not depend on their secrets.
pub proof fn law_no_secret_is_shown(a: Credentials, b: Credentials)
    requires
        a.username@ == b.username@,
        a.otp is Some <==> b.otp is Some,
    ensures
        a.redacted_text() == b.redacted_text(),
{
}

/// A code is sent exactly where one that is not empty is known.
pub proof fn law_a_code_is_sent_only_where_one_is_known(
    credentials: Credentials,
    session: Seq<char>,
)
    ensures
        (exists|i: int|
            0 <= i < login_pairs(credentials, session).len() && (#[trigger] login_pairs(
                credentials,
                session,
            )[i]).0 == "otp_code"@) <==> (credentials.otp matches Some(otp) && otp@.len() > 0),
{
    reveal_strlit("otp_code");
    reveal_strlit("account");
    reveal_strlit("passwd");
    reveal_strlit("session");
    reveal_strlit("format");
    let pairs = login_pairs(credentials, session);
    assert("otp_code"@.len() == 8);
    assert("account"@.len() == 7 && "passwd"@.len() == 6 && "session"@.len() == 7
        && "format"@.len() == 6);
    if let Some(otp) = credentials.otp {
        if otp@.len() > 0 {
            assert(pairs[4].0 == "otp_code"@);
        }
    }
}

/// A login sends the account's own name and password, and asks for a session id.
pub proof fn law_a_login_sends_the_credentials(credentials: Credentials, session: Seq<char>)
    ensures
        login_pairs(credentials, session).contains(("account"@, credentials.username@)),
        login_pairs(credentials, session).contains(("passwd"@, credentials.password@)),
        login_pairs(credentials, session).contains(("session"@, session)),
        login_pairs(credentials, session).contains(("format"@, "sid"@)),
        credentials.otp matches Some(otp) ==> otp@.len() > 0 ==> login_pairs(
            credentials,
            session,
        ).contains(("otp_code"@, otp@)),
        login_pairs(credentials, session).len() <= 5,
{
    let pairs = login_pairs(credentials, session);
    assert(pairs[0] == ("account"@, credentials.username@));
    assert(pairs[1] == ("passwd"@, credentials.password@));
    assert(pairs[2] == ("session"@, session));
    assert(pairs[3] == ("format"@, "sid"@));
    if let Some(otp) = credentials.otp {
        if otp@.len() > 0 {
            assert(pairs[4] == ("otp_code"@, otp@));
        }
    }
}

/// A login gives the session id that stands in its answer, and one without it is none.
pub proof fn law_a_login_gives_its_session(json: Doc, data: LoginData, text: Seq<char>)
    requires
        json is Object,
        LoginData::readable(json),
        LoginData::reads(json, data),
    ensures
        json.at("sid"@) is Some,
        json.at("sid"@) == Some(Doc::Str(text)) ==> data.sid@ == text,
{
}

} // verus!
