//! The JSON API for interacting with shaft

use vstd::prelude::*;
use linear_map::LinearMap;
use crate::db::{
    transaction_views, DatabaseError, DatabaseErrorView, Transaction, TransactionView, User,
};
use crate::db::linear::entries;
use crate::db::memory::MemoryDatabase;
use crate::error::{ShaftError, ShaftErrorView};
use crate::rest::ShaftUserBody;
use crate::rest::auth::{AuthenticatedUser, AuthenticatedUserView};
use crate::rest::clock::current_timestamp;

verus! {

/// How many transactions a listing shows.
pub const LISTED_TRANSACTIONS: u32 = 20;

/// Get all user's balances as a map from user ID to [User](crate::db::User)
/// object.
pub fn get_api_balances(db: &MemoryDatabase, _user: &AuthenticatedUser) -> (balances: Result<
    LinearMap<String, User>,
    DatabaseError,
>)
    requires
        db.wf(),
    ensures
        match balances {
            Ok(map) => !db@.has_unrepresentable_balance() && db@.is_balance_listing(entries(map)),
            Err(e) => e@ == DatabaseErrorView::Corrupt && db@.has_unrepresentable_balance(),
        },
{
    db.get_all_users()
}

/// Get most recent transactions
pub fn get_api_transactions(db: &MemoryDatabase, _user: &AuthenticatedUser) -> (recent: Result<
    Vec<Transaction>,
    DatabaseError,
>)
    ensures
        recent is Ok,
        recent->Ok_0.len() == db@.recent(LISTED_TRANSACTIONS as nat).len(),
        transaction_views(recent->Ok_0@) == db@.recent(LISTED_TRANSACTIONS as nat),
{
    db.get_last_transactions(LISTED_TRANSACTIONS)
}

/// The transaction that a user posts with a request body at a given time.
pub open spec fn posted(user: AuthenticatedUserView, body: ShaftUserBody, now: int)
    -> TransactionView {
    TransactionView {
        shafter: user.user_id,
        shaftee: body.other_user@,
        amount: body.amount as int,
        datetime: now,
        reason: body.reason@,
    }
}

/// Create a new transaction, dated `now`, with the authenticated user as
/// the shafter.
pub fn shaft_user_at(db: &mut MemoryDatabase, user: &AuthenticatedUser, body: ShaftUserBody, now: i64)
    -> (done: Result<(), ShaftError>)
    requires
        old(db).wf(),
    ensures
        final(db).wf(),
        match done {
            Ok(_) => {
                &&& old(db)@.knows(body.other_user@)
                &&& final(db)@ == old(db)@.with_transaction(posted(user@, body, now as int))
            },
            Err(e) => {
                &&& !old(db)@.knows(body.other_user@)
                &&& e@ == (ShaftErrorView::DatabaseError {
                    source: DatabaseErrorView::UnknownUser { user_id: body.other_user@ },
                })
                &&& final(db)@ == old(db)@
            },
        },
{
    let ShaftUserBody { other_user, amount, reason } = body;
    let transaction = Transaction {
        shafter: user.user_id.clone(),
        shaftee: other_user,
        amount,
        datetime: now,
        reason,
    };
    match db.shaft_user(transaction) {
        Ok(_) => Ok(()),
        Err(source) => Err(ShaftError::DatabaseError { source }),
    }
}

/// Create a new transaction, dated now. Where the clock gives no time
/// nothing is recorded and the error is `ResourceUnavailable`.
pub fn shaft_user(db: &mut MemoryDatabase, user: &AuthenticatedUser, body: ShaftUserBody) -> (done:
    Result<(), ShaftError>)
    requires
        old(db).wf(),
    ensures
        final(db).wf(),
        match done {
            Ok(_) => {
                &&& old(db)@.knows(body.other_user@)
                &&& exists|now: int|
                    0 <= now <= i64::MAX && final(db)@ == old(db)@.with_transaction(
                        #[trigger] posted(user@, body, now),
                    )
            },
            Err(e) => {
                &&& final(db)@ == old(db)@
                &&& e@ == (ShaftErrorView::DatabaseError {
                    source: DatabaseErrorView::ResourceUnavailable,
                }) || (!old(db)@.knows(body.other_user@) && e@ == (ShaftErrorView::DatabaseError {
                    source: DatabaseErrorView::UnknownUser { user_id: body.other_user@ },
                }))
            },
        },
{
    let now = match current_timestamp() {
        Some(now) => now,
        None => {
            return Err(ShaftError::DatabaseError { source: DatabaseError::ResourceUnavailable });
        },
    };
    let done = shaft_user_at(db, user, body, now);
    proof {
        if done is Ok {
            assert(db@ == old(db)@.with_transaction(posted(user@, body, now as int)));
        }
    }
    done
}

} // verus!
