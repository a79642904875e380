use shaft::db::memory::MemoryDatabase;
use shaft::db::{DatabaseError, Transaction, User};
use shaft::error::ShaftError;
use shaft::github::{
    check_status, membership_from_response, ApiRequest, GithubCallbackAuthResponse,
    GithubOrganizationMembership, GithubUserResponse, HttpError,
};
use shaft::rest::api;
use shaft::rest::auth::{authenticate, require_session, AuthenticatedUser};
use shaft::rest::body_parser::{FormUrlEncoded, JsonBody};
use shaft::rest::clock::{current_timestamp, expires_string_at, get_expires_string};
use shaft::rest::github_login::{
    github_callback, github_callback_step, github_login, login_reply, session_reply,
    start_session_at, GithubCallbackRequest, LoginAction, LoginEvent, LoginState, LoginStep,
};
use shaft::rest::logger::RequestID;
use shaft::rest::web;
use shaft::rest::{format_pence_param, AppConfig, Reply, ShaftUserBody};
use shaft::text::decimal_string;

fn config() -> AppConfig {
    AppConfig {
        github_client_id: "fake_client_id".to_owned(),
        github_client_secret: "fake_client_secret".to_owned(),
        github_state: "fake_state".to_owned(),
        web_root: String::new(),
        required_org: "fake_org".to_owned(),
        resource_dir: "res".to_owned(),
    }
}

fn alice() -> AuthenticatedUser {
    AuthenticatedUser { user_id: "alice".to_string(), display_name: "Alice".to_string() }
}

fn store() -> MemoryDatabase {
    let mut db = MemoryDatabase::new();
    db.add_user_by_github_id("alice".to_string(), "Alice".to_string()).unwrap();
    db.add_user_by_github_id("bob".to_string(), "Bob".to_string()).unwrap();
    db
}

fn body(other_user: &str, amount: i64, reason: &str) -> ShaftUserBody {
    ShaftUserBody { other_user: other_user.to_string(), amount, reason: reason.to_string() }
}

fn reply_of(step: LoginStep) -> Reply {
    assert_eq!(step.state, LoginState::Done);
    match step.action {
        LoginAction::Respond { reply } => reply,
        LoginAction::Send { request } => panic!("asked to send {:?}", request),
    }
}

fn request_of(step: &LoginStep) -> &ApiRequest {
    match &step.action {
        LoginAction::Send { request } => request,
        LoginAction::Respond { reply } => panic!("replied {:?}", reply),
    }
}

#[test]
fn test_initial_redirect() {
    let db = MemoryDatabase::new();
    let reply = web::root(&db, None).unwrap();
    assert_eq!(reply.status, 302);
    assert_eq!(reply.location.as_deref(), Some("login"));
    assert_eq!(reply.set_cookie, None);
    assert_eq!(reply.body, "");
}

#[test]
fn the_root_sends_a_session_home() {
    let mut db = store();
    db.bind_token("alice".to_string(), "tok".to_string()).unwrap();
    let reply = web::root(&db, Some("tok".to_string())).unwrap();
    assert_eq!(
        reply,
        Reply { status: 302, location: Some("home".to_string()), set_cookie: None, body: String::new() }
    );
    let reply = web::root(&db, Some("stale".to_string())).unwrap();
    assert_eq!(reply.location.as_deref(), Some("login"));
}

#[test]
fn test_github_login() {
    let config = config();
    let reply = github_login(&config).unwrap();
    assert_eq!(reply.status, 302);
    let location = reply.location.expect("location header");
    assert_eq!(
        location,
        "https://github.com/login/oauth/authorize?client_id=fake_client_id&state=fake_state&scope=read%3Aorg"
    );
    assert_eq!(reply.body, format!("Redirecting to {}\n", location));
    assert_eq!(reply.set_cookie, None);
}

#[test]
fn test_github_callback() {
    let config = config();
    let mut db = MemoryDatabase::new();
    let query = GithubCallbackRequest { code: "1234".to_string(), state: "fake_state".to_string() };

    let step = github_callback(&config, &query);
    assert_eq!(step.state, LoginState::ExchangingCode);
    assert!(request_of(&step).post);
    assert_eq!(
        request_of(&step).url,
        "https://github.com/login/oauth/access_token?client_id=fake_client_id&client_secret=fake_client_secret&code=1234"
    );

    let step = github_callback_step(
        &config,
        &mut db,
        step.state,
        LoginEvent::CodeExchanged {
            answer: Ok(GithubCallbackAuthResponse {
                access_token: "fake_token".to_string(),
                scope: "fake_scope".to_string(),
            }),
        },
    );
    assert_eq!(step.state, LoginState::FetchingUser { access_token: "fake_token".to_string() });
    assert!(!request_of(&step).post);
    assert_eq!(request_of(&step).url, "https://api.github.com/user");
    assert_eq!(request_of(&step).authorization.as_deref(), Some("token fake_token"));

    let step = github_callback_step(
        &config,
        &mut db,
        step.state,
        LoginEvent::UserFetched {
            answer: Ok(GithubUserResponse {
                login: "fake_login".to_string(),
                name: Some("fake_name".to_string()),
            }),
        },
    );
    assert_eq!(
        step.state,
        LoginState::CheckingMembership {
            github_user_id: "fake_login".to_string(),
            github_name: Some("fake_name".to_string()),
        }
    );
    assert_eq!(request_of(&step).url, "https://api.github.com/user/memberships/orgs/fake_org");
    assert_eq!(db.get_user_by_github_id("fake_login".to_string()), Ok(None));

    let step = github_callback_step(
        &config,
        &mut db,
        step.state,
        LoginEvent::MembershipChecked {
            answer: Ok(Some(GithubOrganizationMembership {
                state: "fake_state".to_string(),
                role: "fake_role".to_string(),
            })),
        },
    );
    let reply = reply_of(step);

    // We should get redirected back to root.
    assert_eq!(reply.status, 302);
    assert_eq!(reply.location.as_deref(), Some("/"));

    // We should have a set cookie header
    let cookie = reply.set_cookie.expect("cookie");
    let fields: Vec<&str> = cookie.split("; ").collect();
    assert_eq!(fields.len(), 6);
    assert_eq!(fields[1], "HttpOnly");
    assert_eq!(fields[2], "Secure");
    assert_eq!(fields[3], "Path=/");
    assert!(fields[4].starts_with("Expires="));
    assert_eq!(fields[5], "SameSite=lax");
    let token = fields[0].strip_prefix("token=").expect("token");
    assert!(token.len() > 10, "Token length too small: {}", token);

    // With the token the balances can be read
    let session = authenticate(&db, Some(token.to_string())).unwrap().expect("a session");
    assert_eq!(
        session,
        AuthenticatedUser {
            user_id: "fake_login".to_string(),
            display_name: "fake_name".to_string()
        }
    );
    let balances: Vec<(String, User)> = api::get_api_balances(&db, &session).unwrap().into();
    assert_eq!(
        balances,
        vec![(
            "fake_login".to_string(),
            User {
                user_id: "fake_login".to_string(),
                display_name: "fake_name".to_string(),
                balance: 0
            }
        )]
    );
}

#[test]
fn test_github_callback_wrong_org() {
    let config = config();
    let mut db = MemoryDatabase::new();
    let query = GithubCallbackRequest { code: "1234".to_string(), state: "fake_state".to_string() };

    let step = github_callback(&config, &query);
    assert!(request_of(&step).post);
    assert!(request_of(&step).url.starts_with("https://github.com/login/oauth/access_token?"));

    let step = github_callback_step(
        &config,
        &mut db,
        step.state,
        LoginEvent::CodeExchanged {
            answer: Ok(GithubCallbackAuthResponse {
                access_token: "fake_token".to_string(),
                scope: "fake_scope".to_string(),
            }),
        },
    );
    assert_eq!(request_of(&step).url, "https://api.github.com/user");

    let step = github_callback_step(
        &config,
        &mut db,
        step.state,
        LoginEvent::UserFetched {
            answer: Ok(GithubUserResponse {
                login: "fake_login".to_string(),
                name: Some("fake_name".to_string()),
            }),
        },
    );
    assert_eq!(request_of(&step).url, "https://api.github.com/user/memberships/orgs/fake_org");

    // Github answers the membership request with a 403
    let answer: Result<GithubOrganizationMembership, HttpError> =
        check_status(403).map(|_| GithubOrganizationMembership {
            state: String::new(),
            role: String::new(),
        });
    let step = github_callback_step(
        &config,
        &mut db,
        step.state,
        LoginEvent::MembershipChecked { answer: membership_from_response(answer) },
    );
    let reply = reply_of(step);
    assert_eq!(reply.status, 403);
    assert_eq!(reply.body, "user not in org");
    assert_eq!(reply.set_cookie, None);
    assert_eq!(db.get_user_by_github_id("fake_login".to_string()), Ok(None));
    assert_eq!(db.get_all_users().unwrap().len(), 0);
    assert_eq!(db.sessions(), vec![]);
}

#[test]
fn a_wrong_state_parameter_is_a_bad_request() {
    let query = GithubCallbackRequest { code: "1234".to_string(), state: "forged".to_string() };
    let reply = reply_of(github_callback(&config(), &query));
    assert_eq!(reply, Reply {
        status: 400,
        location: None,
        set_cookie: None,
        body: "State param mismatch".to_string(),
    });
}

#[test]
fn a_known_user_logs_in_without_a_membership_check() {
    let config = config();
    let mut db = store();
    let step = github_callback_step(
        &config,
        &mut db,
        LoginState::FetchingUser { access_token: "t".to_string() },
        LoginEvent::UserFetched {
            answer: Ok(GithubUserResponse { login: "alice".to_string(), name: None }),
        },
    );
    let reply = reply_of(step);
    assert_eq!(reply.status, 302);
    let cookie = reply.set_cookie.unwrap();
    let token = cookie.strip_prefix("token=").unwrap().split(';').next().unwrap().to_string();
    assert_eq!(token.len(), 32);
    assert_eq!(db.get_user_from_token(token).unwrap().unwrap().user_id, "alice");
}

#[test]
fn a_new_user_without_a_name_goes_by_their_login() {
    let config = config();
    let mut db = MemoryDatabase::new();
    let step = github_callback_step(
        &config,
        &mut db,
        LoginState::CheckingMembership { github_user_id: "carol".to_string(), github_name: None },
        LoginEvent::MembershipChecked {
            answer: Ok(Some(GithubOrganizationMembership {
                state: "active".to_string(),
                role: "member".to_string(),
            })),
        },
    );
    assert_eq!(reply_of(step).status, 302);
    let listed: Vec<(String, User)> = db.get_all_users().unwrap().into();
    assert_eq!(listed.len(), 1);
    assert_eq!(listed[0].1.display_name, "carol");
}

#[test]
fn failures_of_github_end_the_login() {
    let config = config();
    let mut db = MemoryDatabase::new();
    let reply = reply_of(github_callback_step(
        &config,
        &mut db,
        LoginState::ExchangingCode,
        LoginEvent::CodeExchanged { answer: Err(HttpError::Status { code: 500 }) },
    ));
    assert_eq!(reply.status, 503);
    assert_eq!(reply.body, "Got non-200 response from GitHub: 500 Internal Server Error");

    let reply = reply_of(github_callback_step(
        &config,
        &mut db,
        LoginState::FetchingUser { access_token: "t".to_string() },
        LoginEvent::UserFetched { answer: Err(HttpError::Http { message: "down".to_string() }) },
    ));
    assert_eq!(reply.status, 500);
    assert_eq!(reply.body, "Failed to send request to GitHub: down");

    let reply = reply_of(github_callback_step(
        &config,
        &mut db,
        LoginState::CheckingMembership { github_user_id: "x".to_string(), github_name: None },
        LoginEvent::MembershipChecked { answer: Err(HttpError::Status { code: 404 }) },
    ));
    assert_eq!(reply.status, 500);

    let reply = reply_of(github_callback_step(
        &config,
        &mut db,
        LoginState::ExchangingCode,
        LoginEvent::MembershipChecked { answer: Ok(None) },
    ));
    assert_eq!(reply.status, 500);
    assert_eq!(reply.body, "Unexpected answer");
    let reply = reply_of(github_callback_step(
        &config,
        &mut db,
        LoginState::Done,
        LoginEvent::UserFetched { answer: Err(HttpError::Status { code: 1 }) },
    ));
    assert_eq!(reply.status, 500);
    assert_eq!(db.get_all_users().unwrap().len(), 0);
}

#[test]
fn a_member_who_is_on_the_roster_by_now_is_a_conflict() {
    let config = config();
    let mut db = store();
    let reply = reply_of(github_callback_step(
        &config,
        &mut db,
        LoginState::CheckingMembership { github_user_id: "alice".to_string(), github_name: None },
        LoginEvent::MembershipChecked {
            answer: Ok(Some(GithubOrganizationMembership {
                state: "active".to_string(),
                role: "member".to_string(),
            })),
        },
    ));
    assert_eq!(reply.status, 500);
    assert_eq!(reply.body, DatabaseError::Conflict.message());
    assert_eq!(db.get_all_users().unwrap().len(), 2);
}

#[test]
fn the_login_reply_sets_the_cookie() {
    let mut config = config();
    config.web_root = "/shaft".to_string();
    assert_eq!(
        login_reply(&config, "abc", "Thu, 15 Jan 1970 00:00:00 +0000"),
        Reply {
            status: 302,
            location: Some("/shaft/".to_string()),
            set_cookie: Some(
                "token=abc; HttpOnly; Secure; Path=/; Expires=Thu, 15 Jan 1970 00:00:00 +0000; SameSite=lax"
                    .to_string()
            ),
            body: String::new(),
        }
    );
}

#[test]
fn cookies_expire_two_weeks_later() {
    assert_eq!(expires_string_at(0), Some("Thu, 15 Jan 1970 00:00:00 +0000".to_string()));
    assert_eq!(
        expires_string_at(-1_209_600),
        Some("Thu, 1 Jan 1970 00:00:00 +0000".to_string())
    );
    assert_eq!(
        expires_string_at(1_600_000_000),
        Some("Sun, 27 Sep 2020 12:26:40 +0000".to_string())
    );
    assert_eq!(expires_string_at(i64::MAX), None);
    assert_eq!(expires_string_at(i64::MAX - 1_209_600), None);
    // the year 10000 has no place in the format
    assert_eq!(expires_string_at(253_402_300_800 - 1_209_600), None);
    assert_eq!(
        expires_string_at(253_402_300_799 - 1_209_600),
        Some("Fri, 31 Dec 9999 23:59:59 +0000".to_string())
    );
    let now = get_expires_string().expect("a date");
    assert!(now.ends_with(" +0000"));
}

#[test]
fn requests_without_a_token_have_no_session() {
    let mut db = store();
    db.bind_token("bob".to_string(), "tok".to_string()).unwrap();
    assert_eq!(authenticate(&db, None), Ok(None));
    assert_eq!(authenticate(&db, Some("nope".to_string())), Ok(None));
    assert_eq!(
        authenticate(&db, Some("tok".to_string())),
        Ok(Some(AuthenticatedUser { user_id: "bob".to_string(), display_name: "Bob".to_string() }))
    );
    db.shaft_user(Transaction {
        shafter: "bob".to_string(),
        shaftee: "alice".to_string(),
        amount: i64::MIN,
        datetime: 0,
        reason: String::new(),
    })
    .unwrap();
    db.shaft_user(Transaction {
        shafter: "bob".to_string(),
        shaftee: "alice".to_string(),
        amount: -1,
        datetime: 0,
        reason: String::new(),
    })
    .unwrap();
    assert_eq!(authenticate(&db, Some("tok".to_string())), Err(DatabaseError::Corrupt));
    assert_eq!(web::root(&db, Some("tok".to_string())), Err(DatabaseError::Corrupt));
}

#[test]
fn endpoints_that_need_a_session_send_others_to_the_login() {
    let mut config = config();
    assert_eq!(require_session(Some(alice()), &config), Ok(alice()));
    assert_eq!(
        require_session(None, &config),
        Err(Reply {
            status: 302,
            location: Some("/login".to_string()),
            set_cookie: None,
            body: String::new()
        })
    );
    config.web_root = "/shaft".to_string();
    assert_eq!(
        require_session(None, &config).unwrap_err().location.as_deref(),
        Some("/shaft/login")
    );
}

#[test]
fn the_api_posts_a_transaction_for_the_session() {
    let mut db = store();
    assert_eq!(api::shaft_user_at(&mut db, &alice(), body("bob", 500, "lunch"), 1234), Ok(()));
    let recent = api::get_api_transactions(&db, &alice()).unwrap();
    assert_eq!(
        recent,
        vec![Transaction {
            shafter: "alice".to_string(),
            shaftee: "bob".to_string(),
            amount: 500,
            datetime: 1234,
            reason: "lunch".to_string(),
        }]
    );
    assert_eq!(
        api::shaft_user_at(&mut db, &alice(), body("ghost", 1, "boo"), 1235),
        Err(ShaftError::DatabaseError {
            source: DatabaseError::UnknownUser { user_id: "ghost".to_string() }
        })
    );
    assert_eq!(api::get_api_transactions(&db, &alice()).unwrap().len(), 1);

    assert_eq!(api::shaft_user(&mut db, &alice(), body("bob", -20, "now")), Ok(()));
    let recent = api::get_api_transactions(&db, &alice()).unwrap();
    assert_eq!(recent.len(), 2);
    assert_eq!(recent[0].amount, -20);
    assert_eq!(recent[0].shafter, "alice");
    assert_eq!(recent[0].shaftee, "bob");
    assert_eq!(recent[0].reason, "now");
    assert!(recent[0].datetime > 1_600_000_000);
    assert_eq!(
        api::shaft_user(&mut db, &alice(), body("ghost", 1, "boo")).unwrap_err().message(),
        "Unknown user: ghost"
    );
}

#[test]
fn the_api_lists_at_most_twenty_transactions() {
    let mut db = store();
    for i in 0..25 {
        api::shaft_user_at(&mut db, &alice(), body("bob", i, "again"), i).unwrap();
    }
    let recent = api::get_api_transactions(&db, &alice()).unwrap();
    assert_eq!(recent.len(), 20);
    assert_eq!(recent[0].amount, 24);
    assert_eq!(recent[19].amount, 5);
}

#[test]
fn the_form_posts_a_transaction_and_sends_the_client_back() {
    let mut db = store();
    let reply = web::shaft_user(&mut db, &alice(), body("bob", 7, "tea")).unwrap();
    assert_eq!(
        reply,
        Reply {
            status: 302,
            location: Some(".".to_string()),
            set_cookie: None,
            body: "Success\n".to_string()
        }
    );
    assert_eq!(db.get_balance_for_user("bob".to_string()), Ok(-7));
    assert_eq!(
        web::shaft_user(&mut db, &alice(), body("ghost", 7, "tea")),
        Err(DatabaseError::UnknownUser { user_id: "ghost".to_string() })
    );
    assert_eq!(db.get_last_transactions(9).unwrap().len(), 1);
}

#[test]
fn the_home_page_lists_balances_in_ascending_order() {
    let mut db = store();
    db.add_user_by_github_id("carol".to_string(), "Carol".to_string()).unwrap();
    api::shaft_user_at(&mut db, &alice(), body("bob", 500, "lunch"), 1).unwrap();
    let page = web::get_balances(&db, &alice()).unwrap();
    assert_eq!(page.display_name, "Alice");
    let shown: Vec<(&str, i64)> =
        page.balances.iter().map(|u| (u.display_name.as_str(), u.balance)).collect();
    assert_eq!(shown, vec![("Bob", -500), ("Carol", 0), ("Alice", 500)]);
}

#[test]
fn the_transactions_page_names_the_parties_and_the_day() {
    let mut db = store();
    api::shaft_user_at(&mut db, &alice(), body("bob", 500, "lunch"), 1_600_000_000).unwrap();
    db.shaft_user(Transaction {
        shafter: "ghost".to_string(),
        shaftee: "alice".to_string(),
        amount: -3,
        datetime: 86_400 * 4,
        reason: "haunting".to_string(),
    })
    .unwrap();
    let page = web::get_transactions(&db, &alice()).unwrap();
    assert_eq!(page.display_name, "Alice");
    assert_eq!(
        page.transactions,
        vec![
            web::TransactionRow {
                amount: -3,
                shafter_id: "ghost".to_string(),
                shafter_name: "ghost".to_string(),
                shaftee_id: "alice".to_string(),
                shaftee_name: "Alice".to_string(),
                date: "05 Jan 1970".to_string(),
                reason: "haunting".to_string(),
            },
            web::TransactionRow {
                amount: 500,
                shafter_id: "alice".to_string(),
                shafter_name: "Alice".to_string(),
                shaftee_id: "bob".to_string(),
                shaftee_name: "Bob".to_string(),
                date: "13 Sep 2020".to_string(),
                reason: "lunch".to_string(),
            },
        ]
    );
}

#[test]
fn a_transaction_without_a_date_is_corrupt() {
    let mut db = store();
    api::shaft_user_at(&mut db, &alice(), body("bob", 1, "the end of time"), i64::MAX).unwrap();
    assert_eq!(web::get_transactions(&db, &alice()), Err(DatabaseError::Corrupt));
}

#[test]
fn logging_out_revokes_the_token() {
    let mut db = store();
    db.bind_token("alice".to_string(), "tok".to_string()).unwrap();
    db.bind_token("alice".to_string(), "other".to_string()).unwrap();
    let expected = Reply {
        status: 302,
        location: Some(".".to_string()),
        set_cookie: Some(
            "token=; HttpOnly; Secure; Path=/; Expires=Thu, 01 Jan 1970 00:00:00 GMT; SameSite=lax"
                .to_string(),
        ),
        body: "Signed out\n".to_string(),
    };
    assert_eq!(web::logout(&mut db, Some("tok".to_string())).as_ref(), Ok(&expected));
    assert_eq!(authenticate(&db, Some("tok".to_string())), Ok(None));
    assert_eq!(web::logout(&mut db, Some("tok".to_string())).as_ref(), Ok(&expected));
    assert_eq!(web::logout(&mut db, None).as_ref(), Ok(&expected));
    assert!(authenticate(&db, Some("other".to_string())).unwrap().is_some());
}

#[test]
fn the_template_helper_wants_a_number() {
    assert_eq!(format_pence_param(Some(1234)), Ok("£12.34".to_string()));
    assert_eq!(format_pence_param(Some(-1)), Ok("-£ 0.01".to_string()));
    assert_eq!(format_pence_param(None), Err("Param must be a number".to_string()));
}

#[test]
fn numbers_are_written_in_decimal() {
    assert_eq!(decimal_string(0), "0");
    assert_eq!(decimal_string(7), "7");
    assert_eq!(decimal_string(10), "10");
    assert_eq!(decimal_string(1234567890), "1234567890");
    assert_eq!(decimal_string(u64::MAX), u64::MAX.to_string());
}

#[test]
fn body_markers_hand_out_what_they_hold() {
    let form = FormUrlEncoded(body("bob", 1, "x"));
    assert_eq!(form.as_ref().other_user, "bob");
    assert_eq!(form.amount, 1);
    assert_eq!((*form).reason, "x");
    let json = JsonBody(42u8);
    assert_eq!(*json.as_ref(), 42);
    assert_eq!(*json, 42);
    assert_eq!(json.0, 42);
    assert_eq!(RequestID(7).0, 7);
    assert_eq!(RequestID(7), RequestID(7));
}

#[test]
fn the_clock_reads_a_time_since_1970() {
    let now = current_timestamp().expect("a time");
    assert!(now > 1_600_000_000);
}

#[test]
fn the_form_posts_a_transaction_dated_as_told() {
    let mut db = store();
    let reply = web::shaft_user_at(&mut db, &alice(), body("bob", 7, "tea"), 42).unwrap();
    assert_eq!(reply.status, 302);
    assert_eq!(db.get_last_transactions(1).unwrap()[0].datetime, 42);
    assert_eq!(
        web::shaft_user_at(&mut db, &alice(), body("ghost", 7, "tea"), 43),
        Err(DatabaseError::UnknownUser { user_id: "ghost".to_string() })
    );
}

#[test]
fn a_session_starts_with_the_expiry_it_is_given() {
    let config = config();
    let mut db = store();
    let reply = reply_of(start_session_at(
        &config,
        &mut db,
        "alice".to_string(),
        Some("Thu, 15 Jan 1970 00:00:00 +0000".to_string()),
    ));
    assert_eq!(reply.status, 302);
    assert_eq!(reply.location.as_deref(), Some("/"));
    let sessions = db.sessions();
    assert_eq!(sessions.len(), 1);
    assert_eq!(sessions[0].1, "alice");
    assert_eq!(
        reply.set_cookie,
        Some(format!(
            "token={}; HttpOnly; Secure; Path=/; Expires=Thu, 15 Jan 1970 00:00:00 +0000; SameSite=lax",
            sessions[0].0
        ))
    );

    let reply = reply_of(start_session_at(&config, &mut db, "alice".to_string(), None));
    assert_eq!(reply, Reply {
        status: 500,
        location: None,
        set_cookie: None,
        body: "Cannot date the session".to_string(),
    });
    assert_eq!(db.sessions().len(), 1);

    let reply = reply_of(start_session_at(
        &config,
        &mut db,
        "ghost".to_string(),
        Some("whenever".to_string()),
    ));
    assert_eq!(reply.status, 500);
    assert_eq!(reply.body, "Unknown user: ghost");
    assert_eq!(db.sessions().len(), 1);
}

#[test]
fn a_login_ends_as_the_token_decides() {
    let config = config();
    assert_eq!(
        reply_of(session_reply(&config, "soon", Ok("abc".to_string()))),
        login_reply(&config, "abc", "soon")
    );
    let reply = reply_of(session_reply(&config, "soon", Err(DatabaseError::Conflict)));
    assert_eq!(reply.status, 500);
    assert_eq!(reply.body, "Already recorded");
    let reply = reply_of(session_reply(&config, "soon", Err(DatabaseError::ResourceUnavailable)));
    assert_eq!(reply.status, 500);
    assert_eq!(reply.body, "Store unavailable");
}
