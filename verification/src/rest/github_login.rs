//! Handles login flow using Github OAuth.
//!
//! The flow talks to Github three times. What is sent and what is made of
//! each answer is decided here; the sending is left to the caller, who
//! comes back with each answer as an event.

use vstd::prelude::*;
use crate::db::DatabaseError;
use crate::db::memory::MemoryDatabase;
use crate::db::model::DatabaseView;
use crate::db::token::is_token;
use crate::github::{
    append_three_pairs, exchange_oauth_code_request, exchange_url, get_authenticated_user_request,
    get_if_member_of_org_request, membership_url, token_header, with_three_pairs,
    ApiRequest, ApiRequestView, GithubCallbackAuthResponse, GithubOrganizationMembership,
    GithubUserResponse, HttpError,
};
use crate::rest::{found, plain, AppConfig, AppConfigView, Reply, ReplyView};
use crate::rest::clock::{expires_text, get_expires_string};
use crate::text::text_of;

verus! {

/// The page at Github that asks the user to let this app know who they are.
pub open spec fn authorize_url(client_id: Seq<char>, state: Seq<char>) -> Option<Seq<char>> {
    with_three_pairs(
        "https://github.com/login/oauth/authorize"@,
        ("client_id"@, client_id),
        ("state"@, state),
        ("scope"@, "read:org"@),
    )
}

/// Handles inbound `/github/login` request to start OAuth flow: sends the
/// client on to Github. `None` where no URL can be made of the config.
pub fn github_login(config: &AppConfig) -> (reply: Option<Reply>)
    ensures
        match authorize_url(config@.github_client_id, config@.github_state) {
            Some(url) => reply is Some && reply->Some_0@ == found(
                url,
                "Redirecting to "@ + url + "\n"@,
            ),
            None => reply is None,
        },
{
    let redirect_url = append_three_pairs(
        "https://github.com/login/oauth/authorize",
        ("client_id", config.github_client_id.as_str()),
        ("state", config.github_state.as_str()),
        ("scope", "read:org"),
    )?;
    let body = "Redirecting to ".to_owned().concat(redirect_url.as_str()).concat("\n");
    Some(Reply { status: 302, location: Some(redirect_url), set_cookie: None, body })
}

/// The Github API request recived at `/github/callback`
#[derive(Debug, PartialEq, Eq)]
pub struct GithubCallbackRequest {
    /// Code that can be exchanged for a user token.
    pub code: String,
    /// A string that we expect to match the configured state string.
    pub state: String,
}

/// How far a login has come.
#[derive(Debug, PartialEq, Eq)]
pub enum LoginState {
    /// Github was asked to exchange the OAuth code for an access token.
    ExchangingCode,
    /// Github was asked who the user with the access token is.
    FetchingUser { access_token: String },
    /// The user is not on the roster, and Github was asked whether they are
    /// a member of the required organization.
    CheckingMembership { github_user_id: String, github_name: Option<String> },
    /// The client has its reply.
    Done,
}

/// An answer of Github.
#[derive(Debug, PartialEq, Eq)]
#[allow(inconsistent_fields)]
pub enum LoginEvent {
    /// The answer to the exchange of the OAuth code.
    CodeExchanged { answer: Result<GithubCallbackAuthResponse, HttpError> },
    /// The answer to the question who the user is.
    UserFetched { answer: Result<GithubUserResponse, HttpError> },
    /// The answer to the question whether the user is a member.
    MembershipChecked { answer: Result<Option<GithubOrganizationMembership>, HttpError> },
}

/// What the caller is to do next.
#[derive(Debug, PartialEq, Eq)]
pub enum LoginAction {
    /// Send this request to Github and come back with the answer.
    Send { request: ApiRequest },
    /// Send this reply to the client.
    Respond { reply: Reply },
}

/// One step of a login: the state it leads to, and what is to be done.
#[derive(Debug, PartialEq, Eq)]
pub struct LoginStep {
    pub state: LoginState,
    pub action: LoginAction,
}

/// Whether the step asks for `request` to be sent.
pub open spec fn sends(step: LoginStep, request: ApiRequestView) -> bool {
    step.action matches LoginAction::Send { request: r } && r@ == request
}

/// Whether the step ends the login with `reply`.
pub open spec fn responds(step: LoginStep, reply: ReplyView) -> bool {
    step.state is Done && (step.action matches LoginAction::Respond { reply: r } && r@ == reply)
}

/// The cookie that hands a session token to the client.
pub open spec fn session_cookie(token: Seq<char>, expires: Seq<char>) -> Seq<char> {
    "token="@ + token + "; HttpOnly; Secure; Path=/; Expires="@ + expires + "; SameSite=lax"@
}

/// The reply to a login that succeeded: the token in a cookie, and the
/// client sent on to the web root.
pub open spec fn logged_in(web_root: Seq<char>, token: Seq<char>, expires: Seq<char>) -> ReplyView {
    ReplyView {
        status: 302,
        location: Some(web_root + "/"@),
        set_cookie: Some(session_cookie(token, expires)),
        body: Seq::empty(),
    }
}

/// The reply to a login that succeeded.
pub fn login_reply(config: &AppConfig, token: &str, expires: &str) -> (reply: Reply)
    ensures
        reply@ == logged_in(config@.web_root, token@, expires@),
{
    proof {
        reveal_strlit("");
        assert(""@ =~= Seq::<char>::empty());
    }
    let cookie = "token=".to_owned().concat(token).concat(
        "; HttpOnly; Secure; Path=/; Expires=",
    ).concat(expires).concat("; SameSite=lax");
    Reply {
        status: 302,
        location: Some(config.web_root.clone().concat("/")),
        set_cookie: Some(cookie),
        body: "".to_owned(),
    }
}

/// Ends a login with a reply without headers.
fn respond(status: u16, body: &str) -> (step: LoginStep)
    ensures
        responds(step, plain(status as int, body@)),
{
    LoginStep { state: LoginState::Done, action: LoginAction::Respond { reply: Reply::plain(status, body) } }
}

/// The reply that ends a login, given the expiry of the cookie and what
/// came of creating the token: the cookie with the token, or a 500 that
/// says why there is none.
pub open spec fn session_reply_of(
    config: AppConfigView,
    expires: Seq<char>,
    issued: Result<String, DatabaseError>,
) -> ReplyView {
    match issued {
        Ok(token) => logged_in(config.web_root, token@, expires),
        Err(e) => plain(500, e.message_text()),
    }
}

/// Ends a login, given the expiry of the cookie and what came of creating
/// the token.
pub fn session_reply(config: &AppConfig, expires: &str, issued: Result<String, DatabaseError>) -> (step:
    LoginStep)
    ensures
        responds(step, session_reply_of(config@, expires@, issued)),
{
    match issued {
        Ok(token) => LoginStep {
            state: LoginState::Done,
            action: LoginAction::Respond { reply: login_reply(config, token.as_str(), expires) },
        },
        Err(e) => respond(500, e.message().as_str()),
    }
}

/// Whether `step` may come of starting a session for a user with a cookie
/// that expires at `expires`:
///
/// - the user has a new token, which the reply hands to the client in the
///   cookie;
/// - or the store is as it was and the reply is a 500: for a conflict,
///   which takes a store that holds a token of the shape that is drawn; for
///   a random source that failed; or for a user who is not known.
pub open spec fn issues_session(
    config: AppConfigView,
    before: DatabaseView,
    user_id: Seq<char>,
    expires: Seq<char>,
    after: DatabaseView,
    step: LoginStep,
) -> bool {
    ||| exists|token: Seq<char>|
        {
            &&& before.knows(user_id)
            &&& is_token(token)
            &&& !before.tokens.contains_key(token)
            &&& after == before.with_token(token, user_id)
            &&& responds(step, #[trigger] logged_in(config.web_root, token, expires))
        }
    ||| {
        &&& after == before
        &&& before.knows(user_id)
        &&& before.holds_token_shape()
        &&& responds(step, plain(500, DatabaseError::Conflict.message_text()))
    }
    ||| {
        &&& after == before
        &&& before.knows(user_id)
        &&& responds(step, plain(500, DatabaseError::ResourceUnavailable.message_text()))
    }
    ||| {
        &&& after == before
        &&& !before.knows(user_id)
        &&& responds(step, plain(500, "Unknown user: "@ + user_id))
    }
}

/// Whether `step` may come of starting a session, given what came of
/// writing the expiry of the cookie: without an expiry the store is as it
/// was and the reply is a 500.
pub open spec fn starts_session_at(
    config: AppConfigView,
    before: DatabaseView,
    user_id: Seq<char>,
    expires: Option<Seq<char>>,
    after: DatabaseView,
    step: LoginStep,
) -> bool {
    match expires {
        Some(text) => issues_session(config, before, user_id, text, after, step),
        None => after == before && responds(step, plain(500, "Cannot date the session"@)),
    }
}

/// Starts a session for a user, given what came of writing the expiry of
/// the cookie.
pub fn start_session_at(
    config: &AppConfig,
    db: &mut MemoryDatabase,
    user_id: String,
    expires: Option<String>,
) -> (step: LoginStep)
    requires
        old(db).wf(),
    ensures
        final(db).wf(),
        starts_session_at(config@, old(db)@, user_id@, text_of(expires), final(db)@, step),
{
    let expires = match expires {
        Some(expires) => expires,
        None => { return respond(500, "Cannot date the session"); },
    };
    let issued = db.create_token_for_user(user_id);
    let ghost outcome = issued;
    let step = session_reply(config, expires.as_str(), issued);
    proof {
        if outcome is Ok {
            assert(responds(step, logged_in(config@.web_root, outcome->Ok_0@, expires@)));
        }
    }
    step
}

/// Whether a text is the expiry of a cookie set at some moment since 1970.
pub open spec fn is_expiry(text: Seq<char>) -> bool {
    exists|now: int| 0 <= now <= i64::MAX && #[trigger] expires_text(now) == Some(text)
}

/// Whether `step` may come of starting a session now: a session with a
/// cookie that expires two weeks after some moment since 1970, or what
/// comes of it where the expiry cannot be written.
pub open spec fn starts_session(
    config: AppConfigView,
    before: DatabaseView,
    user_id: Seq<char>,
    after: DatabaseView,
    step: LoginStep,
) -> bool {
    ||| starts_session_at(config, before, user_id, None, after, step)
    ||| exists|expires: Seq<char>|
        is_expiry(expires) && #[trigger] starts_session_at(
            config,
            before,
            user_id,
            Some(expires),
            after,
            step,
        )
}

/// Starts a session for a user.
fn start_session(config: &AppConfig, db: &mut MemoryDatabase, user_id: String) -> (step: LoginStep)
    requires
        old(db).wf(),
    ensures
        final(db).wf(),
        starts_session(config@, old(db)@, user_id@, final(db)@, step),
{
    let expires = get_expires_string();
    let ghost text = text_of(expires);
    let step = start_session_at(config, db, user_id, expires);
    proof {
        if text is Some {
            assert(is_expiry(text->Some_0));
            assert(starts_session_at(config@, old(db)@, user_id@, Some(text->Some_0), db@, step));
        }
    }
    step
}

/// Whether `step` may come of the callback that opens a login: where the
/// state parameter is not the configured one, a 400; else the request that
/// exchanges the code.
pub open spec fn opens_login(config: AppConfigView, query: GithubCallbackRequest, step: LoginStep)
    -> bool {
    if query.state@ != config.github_state {
        responds(step, plain(400, "State param mismatch"@))
    } else {
        match exchange_url(config.github_client_id, config.github_client_secret, query.code@) {
            Some(url) => step.state is ExchangingCode && sends(
                step,
                ApiRequestView { post: true, url, user_agent: None, authorization: None },
            ),
            None => responds(step, plain(500, "Cannot address GitHub"@)),
        }
    }
}

/// Handles inbound `/github/callback` request from github that includes code we
/// can exchange for a user's access token.
pub fn github_callback(config: &AppConfig, query: &GithubCallbackRequest) -> (step: LoginStep)
    ensures
        opens_login(config@, *query, step),
{
    if query.state != config.github_state {
        return respond(400, "State param mismatch");
    }
    match exchange_oauth_code_request(
        config.github_client_id.as_str(),
        config.github_client_secret.as_str(),
        query.code.as_str(),
    ) {
        Some(request) => LoginStep {
            state: LoginState::ExchangingCode,
            action: LoginAction::Send { request },
        },
        None => respond(500, "Cannot address GitHub"),
    }
}

/// The request that asks Github who the user with the access token is.
pub open spec fn user_request(access_token: Seq<char>) -> ApiRequestView {
    ApiRequestView {
        post: false,
        url: "https://api.github.com/user"@,
        user_agent: Some("rust shaft"@),
        authorization: Some(token_header(access_token)),
    }
}

/// The request that asks Github whether the user with the access token is
/// a member of `org`.
pub open spec fn membership_request(access_token: Seq<char>, org: Seq<char>) -> ApiRequestView {
    ApiRequestView {
        post: false,
        url: membership_url(org),
        user_agent: Some("rust shaft"@),
        authorization: Some(token_header(access_token)),
    }
}

/// The display name of a new user: the name that Github has for them, or
/// their login where it has none.
pub open spec fn name_or_login(name: Option<String>, login: Seq<char>) -> Seq<char> {
    match name {
        Some(name) => name@,
        None => login,
    }
}

/// Whether `step` and the store `after` may come of an answer of Github
/// that arrives in `state` with the store as `before`.
///
/// - The code was exchanged: Github is asked who the user is. An error is
///   answered with a 503.
/// - The user was fetched: for a user on the roster a session starts; for
///   any other, Github is asked whether they are a member of the required
///   organization. An error is answered with a 500.
/// - The membership was checked: a member is added to the roster, under
///   their login and the name Github has for them, and a session starts; for
///   one who is no member the answer is a 403, for an error a 500.
/// - An answer that the state did not wait for is answered with a 500.
///
/// Only the start of a session changes the store, and the addition of the
/// user before it.
pub open spec fn continues_login(
    config: AppConfigView,
    before: DatabaseView,
    state: LoginState,
    event: LoginEvent,
    after: DatabaseView,
    step: LoginStep,
) -> bool {
    match (state, event) {
        (LoginState::ExchangingCode, LoginEvent::CodeExchanged { answer }) => {
            &&& after == before
            &&& match answer {
                Ok(granted) => {
                    &&& step.state matches LoginState::FetchingUser { access_token }
                        && access_token@ == granted.access_token@
                    &&& sends(step, user_request(granted.access_token@))
                },
                Err(e) => responds(step, plain(503, e.message_text())),
            }
        },
        (LoginState::FetchingUser { access_token }, LoginEvent::UserFetched { answer }) => {
            match answer {
                Ok(user) => if before.knows(user.login@) {
                    starts_session(config, before, user.login@, after, step)
                } else {
                    &&& after == before
                    &&& step.state matches LoginState::CheckingMembership {
                        github_user_id,
                        github_name,
                    } && github_user_id@ == user.login@ && text_of(github_name) == text_of(user.name)
                    &&& sends(step, membership_request(access_token@, config.required_org))
                },
                Err(e) => after == before && responds(step, plain(500, e.message_text())),
            }
        },
        (
            LoginState::CheckingMembership { github_user_id, github_name },
            LoginEvent::MembershipChecked { answer },
        ) => {
            match answer {
                Ok(Some(_)) => if before.knows(github_user_id@) {
                    after == before && responds(
                        step,
                        plain(500, DatabaseError::Conflict.message_text()),
                    )
                } else {
                    starts_session(
                        config,
                        before.with_user(github_user_id@, name_or_login(github_name, github_user_id@)),
                        github_user_id@,
                        after,
                        step,
                    )
                },
                Ok(None) => after == before && responds(step, plain(403, "user not in org"@)),
                Err(e) => after == before && responds(step, plain(500, e.message_text())),
            }
        },
        _ => after == before && responds(step, plain(500, "Unexpected answer"@)),
    }
}

/// Takes a login one step further, on an answer of Github.
pub fn github_callback_step(
    config: &AppConfig,
    db: &mut MemoryDatabase,
    state: LoginState,
    event: LoginEvent,
) -> (step: LoginStep)
    requires
        old(db).wf(),
    ensures
        final(db).wf(),
        continues_login(config@, old(db)@, state, event, final(db)@, step),
{
    match (state, event) {
        (LoginState::ExchangingCode, LoginEvent::CodeExchanged { answer }) => {
            match answer {
                Ok(granted) => {
                    let request = get_authenticated_user_request(granted.access_token.as_str());
                    LoginStep {
                        state: LoginState::FetchingUser { access_token: granted.access_token },
                        action: LoginAction::Send { request },
                    }
                },
                Err(e) => respond(503, e.message().as_str()),
            }
        },
        (LoginState::FetchingUser { access_token }, LoginEvent::UserFetched { answer }) => {
            match answer {
                Ok(user) => {
                    match db.get_user_by_github_id(user.login.clone()) {
                        Ok(Some(user_id)) => start_session(config, db, user_id),
                        Ok(None) => {
                            let request = get_if_member_of_org_request(
                                access_token.as_str(),
                                config.required_org.as_str(),
                            );
                            LoginStep {
                                state: LoginState::CheckingMembership {
                                    github_user_id: user.login,
                                    github_name: user.name,
                                },
                                action: LoginAction::Send { request },
                            }
                        },
                        Err(e) => respond(500, e.message().as_str()),
                    }
                },
                Err(e) => respond(500, e.message().as_str()),
            }
        },
        (
            LoginState::CheckingMembership { github_user_id, github_name },
            LoginEvent::MembershipChecked { answer },
        ) => {
            match answer {
                Ok(Some(_)) => {
                    let display_name = match github_name {
                        Some(name) => name,
                        None => github_user_id.clone(),
                    };
                    match db.add_user_by_github_id(github_user_id, display_name) {
                        Ok(user_id) => {
                            proof {
                                let added = db@;
                                assert(added.users.last().user_id == user_id@);
                                assert(added.knows(user_id@));
                            }
                            start_session(config, db, user_id)
                        },
                        Err(e) => respond(500, e.message().as_str()),
                    }
                },
                Ok(None) => respond(403, "user not in org"),
                Err(e) => respond(500, e.message().as_str()),
            }
        },
        _ => respond(500, "Unexpected answer"),
    }
}

} // verus!
