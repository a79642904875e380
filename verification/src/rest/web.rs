//! The web form API for interacting with shaft.

use vstd::prelude::*;
use linear_map::LinearMap;
use crate::db::{DatabaseError, DatabaseErrorView, Transaction, TransactionView, User, UserView};
use crate::db::linear::{entries, entry_values, get_entry};
use crate::db::memory::MemoryDatabase;
use crate::db::model::{first_with_key, has_key, DatabaseView};
use crate::db::order::{ascending, goes_before, lemma_sorted_stays, sort_by_balance, user_views};
use crate::rest::{found, Reply, ReplyView, ShaftUserBody};
use crate::rest::api::{posted, LISTED_TRANSACTIONS};
use crate::rest::auth::{authenticate, AuthenticatedUser};
use crate::rest::clock::{current_timestamp, format_timestamp, formatted_time};
use crate::text::text_of;

verus! {

/// The top level root. Redirects to /home or /login.
pub fn root(db: &MemoryDatabase, token: Option<String>) -> (reply: Result<Reply, DatabaseError>)
    requires
        db.wf(),
    ensures
        match reply {
            Ok(r) => {
                &&& !db@.session_is_corrupt(text_of(token))
                &&& r@ == found(
                    if db@.session_of(text_of(token)) is Some {
                        "home"@
                    } else {
                        "login"@
                    },
                    Seq::empty(),
                )
            },
            Err(e) => db@.session_is_corrupt(text_of(token)) && e@ == DatabaseErrorView::Corrupt,
        },
{
    proof {
        reveal_strlit("");
        assert(""@ =~= Seq::<char>::empty());
    }
    match authenticate(db, token)? {
        Some(_) => Ok(Reply::found("home".to_owned(), "")),
        None => Ok(Reply::found("login".to_owned(), "")),
    }
}

/// What the home page shows.
#[derive(Debug, PartialEq, Eq)]
pub struct BalancesPage {
    /// The display name of the user who looks at the page.
    pub display_name: String,
    /// All users, in ascending order of balance.
    pub balances: Vec<User>,
}

/// The records of a list, each under the id of its user.
pub open spec fn keyed(records: Seq<UserView>) -> Seq<(Seq<char>, UserView)> {
    Seq::new(records.len(), |i: int| (records[i].user_id, records[i]))
}

/// Get home page with current balances of all users.
pub fn get_balances(db: &MemoryDatabase, user: &AuthenticatedUser) -> (page: Result<
    BalancesPage,
    DatabaseError,
>)
    requires
        db.wf(),
    ensures
        match page {
            Ok(p) => {
                &&& !db@.has_unrepresentable_balance()
                &&& p.display_name@ == user.display_name@
                &&& db@.is_balance_listing(keyed(user_views(p.balances@)))
            },
            Err(e) => e@ == DatabaseErrorView::Corrupt && db@.has_unrepresentable_balance(),
        },
{
    let all_users = db.get_all_users()?;
    let values = entry_values(&all_users);
    let ghost listing = entries(all_users);
    let mut rows: Vec<User> = Vec::new();
    let mut i: usize = 0;
    while i < values.len()
        invariant
            i <= values.len(),
            rows.len() == i,
            values.len() == listing.len(),
            forall|k: int| 0 <= k < values.len() ==> (#[trigger] values[k])@ == listing[k].1,
            forall|k: int| 0 <= k < i ==> (#[trigger] rows[k])@ == listing[k].1,
        decreases values.len() - i,
    {
        rows.push(values[i].clone());
        i += 1;
    }
    let (sorted, Ghost(place)) = sort_by_balance(&rows);
    proof {
        let records = user_views(rows@);
        assert(keyed(records) =~= listing) by {
            assert forall|k: int| 0 <= k < listing.len() implies #[trigger] keyed(records)[k]
                == listing[k] by {
                assert(rows[k]@ == listing[k].1);
                assert(listing[k].1 == db@.record_of(listing[k].0));
            }
        }
        assert(ascending(records)) by {
            assert forall|a: int, b: int| 0 <= a < b < records.len() implies (
            #[trigger] records[a]).balance <= (#[trigger] records[b]).balance by {
                assert(goes_before(
                    db@.balance_of(listing[a].0),
                    db@.index_of(listing[a].0),
                    db@.balance_of(listing[b].0),
                    db@.index_of(listing[b].0),
                ));
                assert(listing[a].1 == db@.record_of(listing[a].0));
                assert(listing[b].1 == db@.record_of(listing[b].0));
                assert(rows[a]@ == listing[a].1);
                assert(rows[b]@ == listing[b].1);
            }
        }
        lemma_sorted_stays(records, user_views(sorted@), place);
    }
    Ok(BalancesPage { display_name: user.display_name.clone(), balances: sorted })
}

/// One line of the list of transactions.
#[derive(Debug, PartialEq, Eq)]
pub struct TransactionRow {
    pub amount: i64,
    pub shafter_id: String,
    pub shafter_name: String,
    pub shaftee_id: String,
    pub shaftee_name: String,
    /// The day of the transaction, such as `05 Mar 2021`.
    pub date: String,
    pub reason: String,
}

/// What a [`TransactionRow`] says, as mathematical values.
pub struct TransactionRowView {
    pub amount: int,
    pub shafter_id: Seq<char>,
    pub shafter_name: Seq<char>,
    pub shaftee_id: Seq<char>,
    pub shaftee_name: Seq<char>,
    pub date: Seq<char>,
    pub reason: Seq<char>,
}

impl View for TransactionRow {
    type V = TransactionRowView;

    open spec fn view(&self) -> TransactionRowView {
        TransactionRowView {
            amount: self.amount as int,
            shafter_id: self.shafter_id@,
            shafter_name: self.shafter_name@,
            shaftee_id: self.shaftee_id@,
            shaftee_name: self.shaftee_name@,
            date: self.date@,
            reason: self.reason@,
        }
    }
}

/// What the page of recent transactions shows.
#[derive(Debug, PartialEq, Eq)]
pub struct TransactionsPage {
    /// The display name of the user who looks at the page.
    pub display_name: String,
    /// The most recent transactions, the latest first.
    pub transactions: Vec<TransactionRow>,
}

/// The day of a transaction as the list shows it; `None` where the
/// timestamp stands for no date.
pub open spec fn day_of(timestamp: int) -> Option<Seq<char>> {
    formatted_time(timestamp, "%d %b %Y"@)
}

/// The line that shows a transaction, given the name of each party and the
/// day.
pub open spec fn row_with(
    t: TransactionView,
    shafter_name: Seq<char>,
    shaftee_name: Seq<char>,
    date: Seq<char>,
) -> TransactionRowView {
    TransactionRowView {
        amount: t.amount,
        shafter_id: t.shafter,
        shafter_name,
        shaftee_id: t.shaftee,
        shaftee_name,
        date,
        reason: t.reason,
    }
}

impl DatabaseView {
    /// The line that shows a transaction: each party under their display
    /// name, or under their id where they are not on the roster.
    pub open spec fn row_of(self, t: TransactionView) -> Option<TransactionRowView> {
        match day_of(t.datetime) {
            Some(date) => Some(row_with(t, self.name_of(t.shafter), self.name_of(t.shaftee), date)),
            None => None,
        }
    }

    /// Whether one of the transactions to be listed has a timestamp that
    /// stands for no date.
    pub open spec fn has_undated_transaction(self) -> bool {
        exists|i: int|
            0 <= i < self.recent(LISTED_TRANSACTIONS as nat).len() && day_of(
                (#[trigger] self.recent(LISTED_TRANSACTIONS as nat)[i]).datetime,
            ) is None
    }
}

/// The display name that a map of users has for an id, or the id itself
/// where the map has none.
fn name_in(all_users: &LinearMap<String, User>, user_id: &String) -> (name: String)
    ensures
        name@ == if has_key(entries(*all_users), user_id@) {
            entries(*all_users)[first_with_key(entries(*all_users), user_id@)].1.display_name
        } else {
            user_id@
        },
{
    match get_entry(all_users, user_id) {
        Some(user) => user.display_name.clone(),
        None => user_id.clone(),
    }
}

/// Get list of recent transcations page.
pub fn get_transactions(db: &MemoryDatabase, user: &AuthenticatedUser) -> (page: Result<
    TransactionsPage,
    DatabaseError,
>)
    requires
        db.wf(),
    ensures
        match page {
            Ok(p) => {
                &&& !db@.has_unrepresentable_balance()
                &&& !db@.has_undated_transaction()
                &&& p.display_name@ == user.display_name@
                &&& p.transactions.len() == db@.recent(LISTED_TRANSACTIONS as nat).len()
                &&& forall|i: int|
                    0 <= i < p.transactions.len() ==> db@.row_of(
                        db@.recent(LISTED_TRANSACTIONS as nat)[i],
                    ) == Some((#[trigger] p.transactions[i])@)
            },
            Err(e) => {
                &&& e@ == DatabaseErrorView::Corrupt
                &&& db@.has_unrepresentable_balance() || db@.has_undated_transaction()
            },
        },
{
    let all_users = db.get_all_users()?;
    let transactions = db.get_last_transactions(LISTED_TRANSACTIONS)?;
    let ghost recent = db@.recent(LISTED_TRANSACTIONS as nat);
    let ghost listing = entries(all_users);
    proof {
        db.lemma_valid();
    }
    let mut rows: Vec<TransactionRow> = Vec::new();
    let mut i: usize = 0;
    while i < transactions.len()
        invariant
            db@.valid(),
            db@.is_balance_listing(listing),
            listing == entries(all_users),
            recent == db@.recent(LISTED_TRANSACTIONS as nat),
            i <= transactions.len(),
            transactions.len() == recent.len(),
            forall|k: int| 0 <= k < transactions.len() ==> (#[trigger] transactions[k])@ == recent[k],
            rows.len() == i,
            forall|k: int| 0 <= k < i ==> db@.row_of(recent[k]) == Some((#[trigger] rows[k])@),
        decreases transactions.len() - i,
    {
        let txn = &transactions[i];
        let date = match format_timestamp(txn.datetime, "%d %b %Y") {
            Some(date) => date,
            None => {
                assert(day_of(recent[i as int].datetime) is None);
                return Err(DatabaseError::Corrupt);
            },
        };
        proof {
            db@.lemma_listing_lookup(listing, txn.shafter@);
            db@.lemma_listing_lookup(listing, txn.shaftee@);
        }
        rows.push(
            TransactionRow {
                amount: txn.amount,
                shafter_id: txn.shafter.clone(),
                shafter_name: name_in(&all_users, &txn.shafter),
                shaftee_id: txn.shaftee.clone(),
                shaftee_name: name_in(&all_users, &txn.shaftee),
                date,
                reason: txn.reason.clone(),
            },
        );
        i += 1;
    }
    proof {
        if db@.has_undated_transaction() {
            let k = choose|k: int|
                0 <= k < recent.len() && day_of((#[trigger] recent[k]).datetime) is None;
            assert(db@.row_of(recent[k]) == Some(rows[k]@));
        }
    }
    Ok(TransactionsPage { display_name: user.display_name.clone(), transactions: rows })
}

/// Commit a new tranaction request, dated `now`, and send the client back
/// to where it came from.
pub fn shaft_user_at(db: &mut MemoryDatabase, user: &AuthenticatedUser, body: ShaftUserBody, now: i64)
    -> (reply: Result<Reply, DatabaseError>)
    requires
        old(db).wf(),
    ensures
        final(db).wf(),
        match reply {
            Ok(r) => {
                &&& r@ == found("."@, "Success\n"@)
                &&& old(db)@.knows(body.other_user@)
                &&& final(db)@ == old(db)@.with_transaction(posted(user@, body, now as int))
            },
            Err(e) => {
                &&& !old(db)@.knows(body.other_user@)
                &&& e@ == DatabaseErrorView::UnknownUser { user_id: body.other_user@ }
                &&& final(db)@ == old(db)@
            },
        },
{
    let ShaftUserBody { other_user, amount, reason } = body;
    let transaction = Transaction {
        shafter: user.user_id.clone(),
        shaftee: other_user,
        amount,
        datetime: now,
        reason,
    };
    db.shaft_user(transaction)?;
    Ok(Reply::found(".".to_owned(), "Success\n"))
}

/// Commit a new tranaction request, dated now. Where the clock gives no
/// time nothing is recorded and the error is `ResourceUnavailable`.
pub fn shaft_user(db: &mut MemoryDatabase, user: &AuthenticatedUser, body: ShaftUserBody) -> (reply:
    Result<Reply, DatabaseError>)
    requires
        old(db).wf(),
    ensures
        final(db).wf(),
        match reply {
            Ok(r) => {
                &&& r@ == found("."@, "Success\n"@)
                &&& old(db)@.knows(body.other_user@)
                &&& exists|now: int|
                    0 <= now <= i64::MAX && final(db)@ == old(db)@.with_transaction(
                        #[trigger] posted(user@, body, now),
                    )
            },
            Err(e) => {
                &&& final(db)@ == old(db)@
                &&& e@ == DatabaseErrorView::ResourceUnavailable || (!old(db)@.knows(
                    body.other_user@,
                ) && e@ == DatabaseErrorView::UnknownUser { user_id: body.other_user@ })
            },
        },
{
    let now = match current_timestamp() {
        Some(now) => now,
        None => { return Err(DatabaseError::ResourceUnavailable); },
    };
    let reply = shaft_user_at(db, user, body, now);
    proof {
        if reply is Ok {
            assert(db@ == old(db)@.with_transaction(posted(user@, body, now as int)));
        }
    }
    reply
}

/// The cookie that makes the client forget its token.
pub open spec fn expired_cookie() -> Seq<char> {
    "token=; HttpOnly; Secure; Path=/; Expires=Thu, 01 Jan 1970 00:00:00 GMT; SameSite=lax"@
}

/// Logout user session.
pub fn logout(db: &mut MemoryDatabase, token: Option<String>) -> (reply: Result<
    Reply,
    DatabaseError,
>)
    requires
        old(db).wf(),
    ensures
        final(db).wf(),
        reply is Ok,
        reply->Ok_0@ == (ReplyView {
            status: 302,
            location: Some("."@),
            set_cookie: Some(expired_cookie()),
            body: "Signed out\n"@,
        }),
        final(db)@ == match token {
            Some(t) => old(db)@.without_token(t@),
            None => old(db)@,
        },
{
    let reply = Reply {
        status: 302,
        location: Some(".".to_owned()),
        set_cookie: Some(
            "token=; HttpOnly; Secure; Path=/; Expires=Thu, 01 Jan 1970 00:00:00 GMT; SameSite=lax".to_owned(),
        ),
        body: "Signed out\n".to_owned(),
    };
    if let Some(token) = token {
        db.delete_token(token)?;
    }
    Ok(reply)
}

} // verus!
