//! Handles authenticating an incoming request.

use vstd::prelude::*;
use crate::db::{DatabaseError, DatabaseErrorView};
use crate::db::memory::MemoryDatabase;
use crate::db::model::{representable, DatabaseView};
use crate::rest::{found, AppConfig, Reply};
use crate::text::text_of;

verus! {

/// An authenticated user session.
#[derive(Debug, PartialEq, Eq)]
pub struct AuthenticatedUser {
    pub user_id: String,
    pub display_name: String,
}

/// What an [`AuthenticatedUser`] says, as mathematical values.
pub struct AuthenticatedUserView {
    pub user_id: Seq<char>,
    pub display_name: Seq<char>,
}

impl View for AuthenticatedUser {
    type V = AuthenticatedUserView;

    open spec fn view(&self) -> AuthenticatedUserView {
        AuthenticatedUserView { user_id: self.user_id@, display_name: self.display_name@ }
    }
}

impl Clone for AuthenticatedUser {
    fn clone(&self) -> (copy: Self)
        ensures
            copy@ == self@,
    {
        AuthenticatedUser {
            user_id: self.user_id.clone(),
            display_name: self.display_name.clone(),
        }
    }
}

impl DatabaseView {
    /// The session that a request belongs to: that of the user its token
    /// resolves to, or none where it brings no token or one that is not
    /// bound.
    pub open spec fn session_of(self, token: Option<Seq<char>>) -> Option<AuthenticatedUserView> {
        match token {
            Some(t) => match self.resolve(t) {
                Some(user) => Some(
                    AuthenticatedUserView {
                        user_id: user.user_id,
                        display_name: user.display_name,
                    },
                ),
                None => None,
            },
            None => None,
        }
    }

    /// Whether resolving the token of a request runs into a balance beyond
    /// 64 bits.
    pub open spec fn session_is_corrupt(self, token: Option<Seq<char>>) -> bool {
        match token {
            Some(t) => match self.resolve(t) {
                Some(user) => !representable(user.balance),
                None => false,
            },
            None => false,
        }
    }
}

/// Annotates a request with valid user authentication: finds the session
/// that the token in its cookie, if any, stands for.
///
/// **Note**: Does not deny unauthenticated requests.
pub fn authenticate(db: &MemoryDatabase, token: Option<String>) -> (session: Result<
    Option<AuthenticatedUser>,
    DatabaseError,
>)
    requires
        db.wf(),
    ensures
        match session {
            Ok(Some(user)) => !db@.session_is_corrupt(text_of(token)) && db@.session_of(
                text_of(token),
            ) == Some(user@),
            Ok(None) => !db@.session_is_corrupt(text_of(token)) && db@.session_of(
                text_of(token),
            ) is None,
            Err(e) => db@.session_is_corrupt(text_of(token)) && e@ == DatabaseErrorView::Corrupt,
        },
{
    let token = match token {
        Some(token) => token,
        None => { return Ok(None); },
    };
    match db.get_user_from_token(token)? {
        Some(user) => Ok(
            Some(AuthenticatedUser { user_id: user.user_id, display_name: user.display_name }),
        ),
        None => Ok(None),
    }
}

/// Where a client without a session is sent.
pub open spec fn login_url(web_root: Seq<char>) -> Seq<char> {
    web_root + "/login"@
}

/// Requires a valid session for an endpoint: hands on the session of the
/// request, or the reply that sends the client to the login page.
pub fn require_session(session: Option<AuthenticatedUser>, config: &AppConfig) -> (admitted: Result<
    AuthenticatedUser,
    Reply,
>)
    ensures
        match session {
            Some(user) => admitted == Ok::<AuthenticatedUser, Reply>(user),
            None => admitted is Err && admitted->Err_0@ == found(
                login_url(config@.web_root),
                Seq::empty(),
            ),
        },
{
    match session {
        Some(user) => Ok(user),
        None => {
            proof {
                reveal_strlit("");
                assert(""@ =~= Seq::<char>::empty());
            }
            let location = config.web_root.clone().concat("/login");
            Err(Reply::found(location, ""))
        },
    }
}

} // verus!
