//! What the REST endpoints decide, apart from the HTTP machinery that
//! carries it.

use vstd::prelude::*;
use crate::settings::GithubSettings;
use crate::text::{decimal, padded, push_two_columns, push_two_digits, text_of};

pub mod api;
pub mod auth;
pub mod body_parser;
pub mod clock;
pub mod github_login;
pub mod logger;
pub mod web;

verus! {

/// Read only config for the app
#[derive(Debug)]
pub struct AppConfig {
    pub github_client_id: String,
    pub github_client_secret: String,
    pub github_state: String,
    pub web_root: String,
    pub required_org: String,
    pub resource_dir: String,
}

/// What an [`AppConfig`] says, as mathematical values.
pub struct AppConfigView {
    pub github_client_id: Seq<char>,
    pub github_client_secret: Seq<char>,
    pub github_state: Seq<char>,
    pub web_root: Seq<char>,
    pub required_org: Seq<char>,
    pub resource_dir: Seq<char>,
}

impl View for AppConfig {
    type V = AppConfigView;

    open spec fn view(&self) -> AppConfigView {
        AppConfigView {
            github_client_id: self.github_client_id@,
            github_client_secret: self.github_client_secret@,
            github_state: self.github_state@,
            web_root: self.web_root@,
            required_org: self.required_org@,
            resource_dir: self.resource_dir@,
        }
    }
}

impl Clone for AppConfig {
    fn clone(&self) -> (copy: Self)
        ensures
            copy@ == self@,
    {
        AppConfig {
            github_client_id: self.github_client_id.clone(),
            github_client_secret: self.github_client_secret.clone(),
            github_state: self.github_state.clone(),
            web_root: self.web_root.clone(),
            required_org: self.required_org.clone(),
            resource_dir: self.resource_dir.clone(),
        }
    }
}

/// `text` without the slashes at its end.
pub open spec fn without_trailing_slashes(text: Seq<char>) -> Seq<char>
    decreases text.len(),
{
    if text.len() > 0 && text.last() == '/' {
        without_trailing_slashes(text.drop_last())
    } else {
        text
    }
}

/// Takes the slashes off the end of a web root, so that paths can be
/// appended to it with a slash of their own.
pub fn sanitize_web_root(web_root: &str) -> (root: String)
    ensures
        root@ == without_trailing_slashes(web_root@),
{
    let mut end = web_root.unicode_len();
    assert(web_root@.subrange(0, end as int) =~= web_root@);
    while end > 0 && web_root.get_char(end - 1) == '/'
        invariant
            end <= web_root@.len(),
            without_trailing_slashes(web_root@) == without_trailing_slashes(
                web_root@.subrange(0, end as int),
            ),
        decreases end,
    {
        assert(web_root@.subrange(0, end as int).drop_last() =~= web_root@.subrange(
            0,
            end - 1,
        ));
        end -= 1;
    }
    web_root.substring_char(0, end).to_owned()
}

impl AppConfig {
    /// The config of the app as the settings give it, the web root without
    /// slashes at its end.
    pub fn from_settings(github: &GithubSettings, web_root: &str, resource_dir: &str) -> (config:
        AppConfig)
        ensures
            config@ == (AppConfigView {
                github_client_id: github.client_id@,
                github_client_secret: github.client_secret@,
                github_state: github.state@,
                web_root: without_trailing_slashes(web_root@),
                required_org: github.required_org@,
                resource_dir: resource_dir@,
            }),
    {
        AppConfig {
            github_client_id: github.client_id.clone(),
            github_client_secret: github.client_secret.clone(),
            github_state: github.state.clone(),
            web_root: sanitize_web_root(web_root),
            required_org: github.required_org.clone(),
            resource_dir: resource_dir.to_owned(),
        }
    }
}

/// What is sent back to the client, as far as an endpoint decides it.
#[derive(Debug, PartialEq, Eq)]
pub struct Reply {
    /// The HTTP status code.
    pub status: u16,
    /// The `Location` header, if one is sent.
    pub location: Option<String>,
    /// The `Set-Cookie` header, if one is sent.
    pub set_cookie: Option<String>,
    /// The body.
    pub body: String,
}

/// What a [`Reply`] says, as mathematical values.
pub struct ReplyView {
    pub status: int,
    pub location: Option<Seq<char>>,
    pub set_cookie: Option<Seq<char>>,
    pub body: Seq<char>,
}

impl View for Reply {
    type V = ReplyView;

    open spec fn view(&self) -> ReplyView {
        ReplyView {
            status: self.status as int,
            location: text_of(self.location),
            set_cookie: text_of(self.set_cookie),
            body: self.body@,
        }
    }
}

/// A reply without headers.
pub open spec fn plain(status: int, body: Seq<char>) -> ReplyView {
    ReplyView { status, location: None, set_cookie: None, body }
}

/// The reply that sends the client on to `location` (302 Found).
pub open spec fn found(location: Seq<char>, body: Seq<char>) -> ReplyView {
    ReplyView { status: 302, location: Some(location), set_cookie: None, body }
}

impl Reply {
    /// A reply without headers.
    pub fn plain(status: u16, body: &str) -> (reply: Reply)
        ensures
            reply@ == plain(status as int, body@),
    {
        Reply { status, location: None, set_cookie: None, body: body.to_owned() }
    }

    /// The reply that sends the client on to `location`.
    pub fn found(location: String, body: &str) -> (reply: Reply)
        ensures
            reply@ == found(location@, body@),
    {
        Reply { status: 302, location: Some(location), set_cookie: None, body: body.to_owned() }
    }
}

/// The body of a incoming request shaft the given user.
#[derive(Debug)]
pub struct ShaftUserBody {
    /// The other party in the transaction.
    pub other_user: String,
    /// The amount in pence owed. Positive means shafter is owed money by other
    /// user, negative means shafer owes money.
    pub amount: i64,
    /// The human readable description of the transasction.
    pub reason: String,
}

/// An amount of pence written in pounds: a minus sign where it is negative,
/// the pound sign, the pounds in at least two columns, a point, and the
/// pence in two digits.
pub open spec fn pounds_text(pence: int) -> Seq<char> {
    let magnitude = (if pence < 0 { -pence } else { pence }) as nat;
    let sign = if pence < 0 { seq!['-'] } else { Seq::<char>::empty() };
    sign + seq!['£'] + padded(decimal(magnitude / 100), 2, ' ') + seq!['.'] + padded(
        decimal(magnitude % 100),
        2,
        '0',
    )
}

/// Format pence into a pretty pounds string
pub fn format_pence_as_pounds(pence: i64) -> (text: String)
    ensures
        text@ == pounds_text(pence as int),
{
    proof {
        reveal_strlit("-");
        reveal_strlit("£");
        reveal_strlit(".");
    }
    let mut text = String::new();
    let magnitude: u64 = if pence < 0 {
        text.append("-");
        (-(pence + 1)) as u64 + 1
    } else {
        pence as u64
    };
    let ghost sign = text@;
    assert(sign =~= if pence < 0 { seq!['-'] } else { Seq::<char>::empty() });
    text.append("£");
    assert("£"@ =~= seq!['£']);
    push_two_columns(&mut text, magnitude / 100);
    text.append(".");
    assert("."@ =~= seq!['.']);
    push_two_digits(&mut text, magnitude % 100);
    assert(text@ =~= pounds_text(pence as int));
    text
}

/// What the template helper that formats pence as pounds makes of its
/// parameter: the amount in pounds, where the parameter is a whole number
/// that fits 64 bits, and an error message otherwise.
pub fn format_pence_param(param: Option<i64>) -> (text: Result<String, String>)
    ensures
        match param {
            Some(pence) => text is Ok && text->Ok_0@ == pounds_text(pence as int),
            None => text is Err && text->Err_0@ == "Param must be a number"@,
        },
{
    match param {
        Some(pence) => Ok(format_pence_as_pounds(pence)),
        None => Err("Param must be a number".to_owned()),
    }
}

} // verus!
