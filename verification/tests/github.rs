use shaft::db::DatabaseError;
use shaft::error::ShaftError;
use shaft::github::{
    append_short_query_pair, check_status, exchange_oauth_code_request,
    get_authenticated_user_request, get_if_member_of_org_request, membership_from_response,
    ApiRequest, GithubOrganizationMembership, HttpError,
};

#[test]
fn query_pairs_are_appended_and_encoded() {
    assert_eq!(
        append_short_query_pair("https://example.net/", "a", "b"),
        Some("https://example.net/?a=b".to_string())
    );
    assert_eq!(
        append_short_query_pair("https://example.net/?a=b#nav", "foo", "bar & baz"),
        Some("https://example.net/?a=b&foo=bar+%26+baz#nav".to_string())
    );
    assert_eq!(
        append_short_query_pair("https://example.net", "saisons", "Été+hiver"),
        Some("https://example.net/?saisons=%C3%89t%C3%A9%2Bhiver".to_string())
    );
    assert_eq!(append_short_query_pair("not a url", "a", "b"), None);
    assert_eq!(append_short_query_pair("", "a", "b"), None);
}

#[test]
fn the_code_is_exchanged_by_post() {
    let request = exchange_oauth_code_request("id", "s3cr&t", "12 34").unwrap();
    assert_eq!(
        request,
        ApiRequest {
            post: true,
            url: "https://github.com/login/oauth/access_token?client_id=id&client_secret=s3cr%26t&code=12+34"
                .to_string(),
            user_agent: None,
            authorization: None,
        }
    );
}

#[test]
fn the_user_is_asked_for_with_the_access_token() {
    assert_eq!(
        get_authenticated_user_request("fake_token"),
        ApiRequest {
            post: false,
            url: "https://api.github.com/user".to_string(),
            user_agent: Some("rust shaft".to_string()),
            authorization: Some("token fake_token".to_string()),
        }
    );
}

#[test]
fn the_membership_is_asked_for_by_org() {
    assert_eq!(
        get_if_member_of_org_request("fake_token", "fake_org"),
        ApiRequest {
            post: false,
            url: "https://api.github.com/user/memberships/orgs/fake_org".to_string(),
            user_agent: Some("rust shaft".to_string()),
            authorization: Some("token fake_token".to_string()),
        }
    );
}

#[test]
fn only_2xx_is_success() {
    assert_eq!(check_status(200), Ok(()));
    assert_eq!(check_status(204), Ok(()));
    assert_eq!(check_status(299), Ok(()));
    assert_eq!(check_status(199), Err(HttpError::Status { code: 199 }));
    assert_eq!(check_status(300), Err(HttpError::Status { code: 300 }));
    assert_eq!(check_status(403), Err(HttpError::Status { code: 403 }));
    assert_eq!(check_status(0), Err(HttpError::Status { code: 0 }));
    assert_eq!(check_status(u16::MAX), Err(HttpError::Status { code: u16::MAX }));
}

#[test]
fn a_403_means_no_member() {
    let member = GithubOrganizationMembership {
        state: "fake_state".to_string(),
        role: "fake_role".to_string(),
    };
    assert_eq!(
        membership_from_response(Ok(GithubOrganizationMembership {
            state: "fake_state".to_string(),
            role: "fake_role".to_string(),
        })),
        Ok(Some(member))
    );
    assert_eq!(membership_from_response(Err(HttpError::Status { code: 403 })), Ok(None));
    assert_eq!(
        membership_from_response(Err(HttpError::Status { code: 404 })),
        Err(HttpError::Status { code: 404 })
    );
    assert_eq!(
        membership_from_response(Err(HttpError::Http { message: "down".to_string() })),
        Err(HttpError::Http { message: "down".to_string() })
    );
    assert_eq!(
        membership_from_response(Err(HttpError::DeserializeError { message: "eof".to_string() })),
        Err(HttpError::DeserializeError { message: "eof".to_string() })
    );
}

#[test]
fn errors_say_what_went_wrong() {
    assert_eq!(
        HttpError::Status { code: 403 }.message(),
        "Got non-200 response from GitHub: 403 Forbidden"
    );
    assert_eq!(
        HttpError::Status { code: 299 }.message(),
        "Got non-200 response from GitHub: 299 <unknown status code>"
    );
    assert_eq!(HttpError::Status { code: 99 }.message(), "Got non-200 response from GitHub: 99");
    assert_eq!(
        HttpError::Status { code: 1000 }.message(),
        "Got non-200 response from GitHub: 1000"
    );
    assert_eq!(
        HttpError::Http { message: "timed out".to_string() }.message(),
        "Failed to send request to GitHub: timed out"
    );
    assert_eq!(
        HttpError::DeserializeError { message: "eof".to_string() }.message(),
        "Failed to parse JSON response from GitHub: eof"
    );
}

#[test]
fn an_error_of_an_endpoint_says_what_its_source_says() {
    assert_eq!(
        ShaftError::GithubError { source: HttpError::Status { code: 502 } }.message(),
        "Got non-200 response from GitHub: 502 Bad Gateway"
    );
    assert_eq!(
        ShaftError::DatabaseError { source: DatabaseError::Conflict }.message(),
        "Already recorded"
    );
}
