//! Implements talking to the Github API: which requests to send, and what
//! to make of the answers. Sending them is left to the caller.

use vstd::prelude::*;
use crate::text::{decimal, decimal_string, text_of};

verus! {

/// Github API response to `/login/oauth/access_token`
#[derive(Debug, PartialEq, Eq)]
pub struct GithubCallbackAuthResponse {
    /// An access token for the user we're authed against.
    pub access_token: String,
    /// The permissions scope the token has.
    pub scope: String,
}

/// Github API repsonse to `/user`
#[derive(Debug, PartialEq, Eq)]
pub struct GithubUserResponse {
    /// The user's Github login ID
    pub login: String,
    /// The user's Github display name (if any)
    pub name: Option<String>,
}

/// Github API response to `/user/memberships/orgs/{org}`
#[derive(Debug, PartialEq, Eq)]
pub struct GithubOrganizationMembership {
    /// The user's membership state in the org
    pub state: String,
    /// The user's role in the org
    pub role: String,
}

/// An error occured talking to Github.
#[derive(Debug, PartialEq, Eq)]
pub enum HttpError {
    /// Failed to parse response as expected JSON object/
    DeserializeError { message: String },
    /// HTTP request failed/
    Http { message: String },
    /// Got non-2xx response.
    Status { code: u16 },
}

/// What an [`HttpError`] says, as mathematical values.
pub enum HttpErrorView {
    DeserializeError { message: Seq<char> },
    Http { message: Seq<char> },
    Status { code: int },
}

impl View for HttpError {
    type V = HttpErrorView;

    open spec fn view(&self) -> HttpErrorView {
        match self {
            HttpError::DeserializeError { message } => HttpErrorView::DeserializeError {
                message: message@,
            },
            HttpError::Http { message } => HttpErrorView::Http { message: message@ },
            HttpError::Status { code } => HttpErrorView::Status { code: *code as int },
        }
    }
}

/// An HTTP status as the `http` crate writes it, the code and the reason
/// that belongs to it (`403 Forbidden`); `None` where the crate takes the
/// number for no status code.
pub uninterp spec fn status_text(code: int) -> Option<Seq<char>>;

/// `StatusCode::from_u16` of the `http` crate, as `hyper` hands it on, then
/// the status written out (`to_string`). `None` where `from_u16` refuses the
/// number. The result depends on the number alone.
#[verifier::external_body]
fn status_line(code: u16) -> (text: Option<String>)
    ensures
        text_of(text) == status_text(code as int),
{
    hyper::StatusCode::from_u16(code).ok().map(|status| status.to_string())
}

/// How a status is named in a message: as the `http` crate writes it, or
/// by its bare number where the crate refuses it.
pub open spec fn status_name(code: int) -> Seq<char> {
    match status_text(code) {
        Some(text) => text,
        None => decimal(code as nat),
    }
}

impl HttpError {
    /// What the error says, in words.
    pub open spec fn message_text(self) -> Seq<char> {
        match self {
            HttpError::DeserializeError { message } => "Failed to parse JSON response from GitHub: "@
                + message@,
            HttpError::Http { message } => "Failed to send request to GitHub: "@ + message@,
            HttpError::Status { code } => "Got non-200 response from GitHub: "@ + status_name(
                code as int,
            ),
        }
    }

    /// What the error says, in words.
    pub fn message(&self) -> (text: String)
        ensures
            text@ == self.message_text(),
    {
        match self {
            HttpError::DeserializeError { message } => {
                "Failed to parse JSON response from GitHub: ".to_owned().concat(message.as_str())
            },
            HttpError::Http { message } => "Failed to send request to GitHub: ".to_owned().concat(
                message.as_str(),
            ),
            HttpError::Status { code } => {
                let status = match status_line(*code) {
                    Some(text) => text,
                    None => decimal_string(*code as u64),
                };
                "Got non-200 response from GitHub: ".to_owned().concat(status.as_str())
            },
        }
    }
}

/// A request to the Github API. Every request asks for JSON
/// (`Accept: application/json`) and has an empty body.
#[derive(Debug, PartialEq, Eq)]
pub struct ApiRequest {
    /// Whether the request is a POST; otherwise it is a GET.
    pub post: bool,
    /// The URL to send it to.
    pub url: String,
    /// The `User-Agent` header, if one is sent.
    pub user_agent: Option<String>,
    /// The `Authorization` header, if one is sent.
    pub authorization: Option<String>,
}

/// What an [`ApiRequest`] says, as mathematical values.
pub struct ApiRequestView {
    pub post: bool,
    pub url: Seq<char>,
    pub user_agent: Option<Seq<char>>,
    pub authorization: Option<Seq<char>>,
}

impl View for ApiRequest {
    type V = ApiRequestView;

    open spec fn view(&self) -> ApiRequestView {
        ApiRequestView {
            post: self.post,
            url: self.url@,
            user_agent: text_of(self.user_agent),
            authorization: text_of(self.authorization),
        }
    }
}

/// The longest text, in characters, that is handed to the URL library.
pub const MAX_URL_TEXT: usize = 0x0400_0000;

/// The text of the URL that comes of parsing `url` and appending the pair
/// `key=value` to its query, as the `url` crate encodes it; `None` where
/// `url` is no absolute URL.
pub uninterp spec fn with_query_pair(url: Seq<char>, key: Seq<char>, value: Seq<char>) -> Option<
    Seq<char>,
>;

/// [`with_query_pair`], for texts of at most [`MAX_URL_TEXT`] characters;
/// `None` for longer ones.
pub open spec fn with_short_query_pair(url: Seq<char>, key: Seq<char>, value: Seq<char>) -> Option<
    Seq<char>,
> {
    if url.len() <= MAX_URL_TEXT && key.len() <= MAX_URL_TEXT && value.len() <= MAX_URL_TEXT {
        with_query_pair(url, key, value)
    } else {
        None
    }
}

/// `Url::parse` of the `url` crate, then `query_pairs_mut().append_pair(key,
/// value)` on what it gave, then the serialization of the URL (`String::from`).
/// The result depends on the three texts alone. Texts are kept short because
/// the crate counts the bytes of a URL in 32 bits and panics beyond them; a
/// character takes at most four bytes, twelve once it is percent-encoded.
#[verifier::external_body]
fn append_query_pair(url: &str, key: &str, value: &str) -> (extended: Option<String>)
    requires
        url@.len() <= MAX_URL_TEXT,
        key@.len() <= MAX_URL_TEXT,
        value@.len() <= MAX_URL_TEXT,
    ensures
        text_of(extended) == with_query_pair(url@, key@, value@),
{
    let mut parsed = url::Url::parse(url).ok()?;
    parsed.query_pairs_mut().append_pair(key, value);
    Some(String::from(parsed))
}

/// Appends a pair to the query of a URL, where the texts are short enough
/// for the URL library.
pub fn append_short_query_pair(url: &str, key: &str, value: &str) -> (extended: Option<String>)
    ensures
        text_of(extended) == with_short_query_pair(url@, key@, value@),
{
    if url.unicode_len() <= MAX_URL_TEXT && key.unicode_len() <= MAX_URL_TEXT
        && value.unicode_len() <= MAX_URL_TEXT {
        append_query_pair(url, key, value)
    } else {
        None
    }
}

/// The URL with three pairs appended to its query, one after the other.
pub open spec fn with_three_pairs(
    url: Seq<char>,
    first: (Seq<char>, Seq<char>),
    second: (Seq<char>, Seq<char>),
    third: (Seq<char>, Seq<char>),
) -> Option<Seq<char>> {
    match with_short_query_pair(url, first.0, first.1) {
        Some(one) => match with_short_query_pair(one, second.0, second.1) {
            Some(two) => with_short_query_pair(two, third.0, third.1),
            None => None,
        },
        None => None,
    }
}

/// Appends three pairs to the query of a URL, one after the other.
pub fn append_three_pairs(
    url: &str,
    first: (&str, &str),
    second: (&str, &str),
    third: (&str, &str),
) -> (extended: Option<String>)
    ensures
        text_of(extended) == with_three_pairs(
            url@,
            (first.0@, first.1@),
            (second.0@, second.1@),
            (third.0@, third.1@),
        ),
{
    let one = append_short_query_pair(url, first.0, first.1)?;
    let two = append_short_query_pair(one.as_str(), second.0, second.1)?;
    append_short_query_pair(two.as_str(), third.0, third.1)
}

/// The URL at which an OAuth code is exchanged for an access token.
pub open spec fn exchange_url(client_id: Seq<char>, client_secret: Seq<char>, code: Seq<char>)
    -> Option<Seq<char>> {
    with_three_pairs(
        "https://github.com/login/oauth/access_token"@,
        ("client_id"@, client_id),
        ("client_secret"@, client_secret),
        ("code"@, code),
    )
}

/// The `Authorization` header that presents an access token.
pub open spec fn token_header(token: Seq<char>) -> Seq<char> {
    "token "@ + token
}

/// The URL that tells whether the user is a member of `org`.
pub open spec fn membership_url(org: Seq<char>) -> Seq<char> {
    "https://api.github.com/user/memberships/orgs/"@ + org
}

/// The request that exchanges a received OAuth code with Github; `None`
/// where no URL can be made of the three texts.
pub fn exchange_oauth_code_request(client_id: &str, client_secret: &str, code: &str) -> (request:
    Option<ApiRequest>)
    ensures
        match request {
            Some(r) => exchange_url(client_id@, client_secret@, code@) == Some(r@.url) && r@.post
                && r@.user_agent is None && r@.authorization is None,
            None => exchange_url(client_id@, client_secret@, code@) is None,
        },
{
    let url = append_three_pairs(
        "https://github.com/login/oauth/access_token",
        ("client_id", client_id),
        ("client_secret", client_secret),
        ("code", code),
    )?;
    Some(ApiRequest { post: true, url, user_agent: None, authorization: None })
}

/// A GET request to the Github API on behalf of the user with the given
/// access token.
fn get_as_user(url: String, token: &str) -> (request: ApiRequest)
    ensures
        request@ == (ApiRequestView {
            post: false,
            url: url@,
            user_agent: Some("rust shaft"@),
            authorization: Some(token_header(token@)),
        }),
{
    let authorization = "token ".to_owned().concat(token);
    ApiRequest {
        post: false,
        url,
        user_agent: Some("rust shaft".to_owned()),
        authorization: Some(authorization),
    }
}

/// The request that, given a user access token from Github, gets the user's
/// Github ID and display name.
pub fn get_authenticated_user_request(token: &str) -> (request: ApiRequest)
    ensures
        request@ == (ApiRequestView {
            post: false,
            url: "https://api.github.com/user"@,
            user_agent: Some("rust shaft"@),
            authorization: Some(token_header(token@)),
        }),
{
    get_as_user("https://api.github.com/user".to_owned(), token)
}

/// The request that checks if the Github user with given access token is a
/// member of the org.
pub fn get_if_member_of_org_request(token: &str, org: &str) -> (request: ApiRequest)
    ensures
        request@ == (ApiRequestView {
            post: false,
            url: membership_url(org@),
            user_agent: Some("rust shaft"@),
            authorization: Some(token_header(token@)),
        }),
{
    get_as_user("https://api.github.com/user/memberships/orgs/".to_owned().concat(org), token)
}

/// Whether an HTTP status code reports success: the codes 200 to 299.
pub open spec fn is_success(code: int) -> bool {
    200 <= code < 300
}

/// Tells the answers to read from those to give up on: any status but a
/// 2xx is an error.
pub fn check_status(code: u16) -> (checked: Result<(), HttpError>)
    ensures
        match checked {
            Ok(_) => is_success(code as int),
            Err(e) => !is_success(code as int) && e@ == (HttpErrorView::Status { code: code as int }),
        },
{
    if 200 <= code && code < 300 {
        Ok(())
    } else {
        Err(HttpError::Status { code })
    }
}

/// What the answer to a membership request means: the membership, or `None`
/// where Github answered 403 (the user is no member). Every other error
/// stays an error.
pub fn membership_from_response(answer: Result<GithubOrganizationMembership, HttpError>) -> (membership:
    Result<Option<GithubOrganizationMembership>, HttpError>)
    ensures
        match answer {
            Ok(m) => membership == Ok::<Option<GithubOrganizationMembership>, HttpError>(Some(m)),
            Err(HttpError::Status { code }) if code == 403 => membership == Ok::<
                Option<GithubOrganizationMembership>,
                HttpError,
            >(None),
            Err(e) => membership == Err::<Option<GithubOrganizationMembership>, HttpError>(e),
        },
{
    match answer {
        Ok(m) => Ok(Some(m)),
        Err(HttpError::Status { code }) => {
            if code == 403 {
                Ok(None)
            } else {
                Err(HttpError::Status { code })
            }
        },
        Err(e) => Err(e),
    }
}

} // verus!
