//! A store that keeps everything in memory.

use vstd::prelude::*;
use crate::db::{DatabaseError, DatabaseErrorView, Transaction, User};
use crate::db::ledger::{balance, lemma_balance_bound, lemma_balance_push};
use crate::db::linear::{empty_map, entries, insert_entry};
use crate::db::model::{has_key, later, representable, AccountView, DatabaseView};
use crate::db::order::{goes_before, is_stable_order, sort_by_balance, user_views};
use crate::db::token::{is_token, random_alphanumeric, TOKEN_DRAWS, TOKEN_LENGTH};
use crate::db::transaction_views;
use linear_map::LinearMap;

verus! {

/// One row of the user roster.
struct Account {
    user_id: String,
    display_name: String,
}

impl View for Account {
    type V = AccountView;

    closed spec fn view(&self) -> AccountView {
        AccountView { user_id: self.user_id@, display_name: self.display_name@ }
    }
}

/// A session token and the user it is bound to.
struct Session {
    token: String,
    user_id: String,
}

/// The map from tokens to users that a list of sessions stands for.
spec fn bindings(sessions: Seq<Session>) -> Map<Seq<char>, Seq<char>>
    decreases sessions.len(),
{
    if sessions.len() == 0 {
        Map::empty()
    } else {
        bindings(sessions.drop_last()).insert(sessions.last().token@, sessions.last().user_id@)
    }
}

/// Whether no token occurs twice in a list of sessions.
spec fn distinct_tokens(sessions: Seq<Session>) -> bool {
    forall|i: int, j: int|
        0 <= i < j < sessions.len() ==> (#[trigger] sessions[i]).token@ != (
        #[trigger] sessions[j]).token@
}

/// A token is bound exactly if some session holds it.
proof fn lemma_bindings_dom(sessions: Seq<Session>, token: Seq<char>)
    ensures
        bindings(sessions).contains_key(token) <==> exists|i: int|
            0 <= i < sessions.len() && (#[trigger] sessions[i]).token@ == token,
    decreases sessions.len(),
{
    if sessions.len() > 0 {
        let rest = sessions.drop_last();
        lemma_bindings_dom(rest, token);
        if bindings(sessions).contains_key(token) {
            if sessions.last().token@ == token {
                assert(sessions[sessions.len() - 1].token@ == token);
            } else {
                let i = choose|i: int| 0 <= i < rest.len() && (#[trigger] rest[i]).token@ == token;
                assert(sessions[i].token@ == token);
            }
        } else {
            assert forall|i: int| 0 <= i < sessions.len() implies (#[trigger] sessions[i]).token@
                != token by {
                if i < rest.len() {
                    assert(rest[i].token@ != token);
                }
            }
        }
    }
}

/// Where tokens are distinct, each is bound to the user of its own session.
proof fn lemma_bindings_value(sessions: Seq<Session>, i: int)
    requires
        distinct_tokens(sessions),
        0 <= i < sessions.len(),
    ensures
        bindings(sessions).contains_key(sessions[i].token@),
        bindings(sessions)[sessions[i].token@] == sessions[i].user_id@,
    decreases sessions.len(),
{
    let rest = sessions.drop_last();
    if i < sessions.len() - 1 {
        assert(distinct_tokens(rest)) by {
            assert forall|a: int, b: int| 0 <= a < b < rest.len() implies (#[trigger] rest[a]).token@
                != (#[trigger] rest[b]).token@ by {
                assert(sessions[a].token@ != sessions[b].token@);
            }
        }
        lemma_bindings_value(rest, i);
        assert(sessions[i].token@ != sessions[sessions.len() - 1].token@);
    }
}

/// Where tokens are distinct, taking a session out unbinds its token and
/// leaves every other binding as it was.
proof fn lemma_bindings_remove(sessions: Seq<Session>, i: int)
    requires
        distinct_tokens(sessions),
        0 <= i < sessions.len(),
    ensures
        distinct_tokens(sessions.remove(i)),
        bindings(sessions.remove(i)) == bindings(sessions).remove(sessions[i].token@),
    decreases sessions.len(),
{
    let rest = sessions.drop_last();
    let gone = sessions[i].token@;
    assert(distinct_tokens(sessions.remove(i))) by {
        let kept = sessions.remove(i);
        assert forall|a: int, b: int| 0 <= a < b < kept.len() implies (#[trigger] kept[a]).token@
            != (#[trigger] kept[b]).token@ by {
            let a0 = if a < i { a } else { a + 1 };
            let b0 = if b < i { b } else { b + 1 };
            assert(sessions[a0].token@ != sessions[b0].token@);
        }
    }
    if i == sessions.len() - 1 {
        assert(sessions.remove(i) =~= rest);
        lemma_bindings_dom(rest, gone);
        if bindings(rest).contains_key(gone) {
            let k = choose|k: int| 0 <= k < rest.len() && (#[trigger] rest[k]).token@ == gone;
            assert(sessions[k].token@ != sessions[i].token@);
        }
        assert(bindings(rest) =~= bindings(sessions).remove(gone));
    } else {
        assert(distinct_tokens(rest)) by {
            assert forall|a: int, b: int| 0 <= a < b < rest.len() implies (#[trigger] rest[a]).token@
                != (#[trigger] rest[b]).token@ by {
                assert(sessions[a].token@ != sessions[b].token@);
            }
        }
        lemma_bindings_remove(rest, i);
        assert(sessions.remove(i).drop_last() =~= rest.remove(i));
        assert(sessions.remove(i).last() == sessions.last());
        assert(sessions[i].token@ != sessions[sessions.len() - 1].token@);
        assert(bindings(sessions.remove(i)) =~= bindings(sessions).remove(gone));
    }
}

/// An implementation of the store that keeps its relations in memory.
pub struct MemoryDatabase {
    users: Vec<Account>,
    sessions: Vec<Session>,
    transactions: Vec<Transaction>,
}

impl View for MemoryDatabase {
    type V = DatabaseView;

    closed spec fn view(&self) -> DatabaseView {
        DatabaseView {
            users: self.users@.map_values(|a: Account| a@),
            tokens: bindings(self.sessions@),
            transactions: self.transactions@.map_values(|t: Transaction| t@),
        }
    }
}

impl MemoryDatabase {
    /// Whether the representation is sound: the state is valid and no token
    /// is stored twice.
    pub closed spec fn wf(&self) -> bool {
        &&& self@.valid()
        &&& distinct_tokens(self.sessions@)
    }

    /// Create an empty store.
    pub fn new() -> (db: MemoryDatabase)
        ensures
            db.wf(),
            db@ == DatabaseView::empty(),
    {
        let db = MemoryDatabase { users: Vec::new(), sessions: Vec::new(), transactions: Vec::new() };
        assert(db@.users =~= Seq::empty());
        assert(db@.transactions =~= Seq::empty());
        db
    }

    /// A well-formed store is in a valid state.
    pub proof fn lemma_valid(&self)
        requires
            self.wf(),
        ensures
            self@.valid(),
    {
    }

    /// Where on the roster a user stands.
    fn find_user(&self, user_id: &String) -> (found: Option<usize>)
        ensures
            match found {
                Some(i) => i < self@.users.len() && self@.users[i as int].user_id == user_id@,
                None => !self@.knows(user_id@),
            },
    {
        let mut i: usize = 0;
        while i < self.users.len()
            invariant
                i <= self.users.len(),
                forall|k: int| 0 <= k < i ==> (#[trigger] self@.users[k]).user_id != user_id@,
            decreases self.users.len() - i,
        {
            if self.users[i].user_id == *user_id {
                return Some(i);
            }
            i += 1;
        }
        None
    }

    /// Get local user ID by their Github login ID
    pub fn get_user_by_github_id(&self, github_user_id: String) -> (found: Result<
        Option<String>,
        DatabaseError,
    >)
        ensures
            found is Ok,
            match found->Ok_0 {
                Some(user_id) => Some(user_id@) == self@.linked_user(github_user_id@),
                None => self@.linked_user(github_user_id@) is None,
            },
    {
        match self.find_user(&github_user_id) {
            Some(_) => Ok(Some(github_user_id)),
            None => Ok(None),
        }
    }

    /// Add a new user from github
    pub fn add_user_by_github_id(&mut self, github_user_id: String, display_name: String) -> (added:
        Result<String, DatabaseError>)
        requires
            old(self).wf(),
        ensures
            final(self).wf(),
            match added {
                Ok(user_id) => {
                    &&& old(self)@.linked_user(github_user_id@) is None
                    &&& user_id@ == github_user_id@
                    &&& final(self)@ == old(self)@.with_user(github_user_id@, display_name@)
                },
                Err(e) => {
                    &&& old(self)@.linked_user(github_user_id@) is Some
                    &&& e@ == DatabaseErrorView::Conflict
                    &&& final(self)@ == old(self)@
                },
            },
    {
        match self.find_user(&github_user_id) {
            Some(_) => Err(DatabaseError::Conflict),
            None => {
                let user_id = github_user_id.clone();
                self.users.push(Account { user_id: github_user_id, display_name });
                proof {
                    let before = old(self)@;
                    let after = self@;
                    assert(after.users =~= before.users.push(
                        AccountView { user_id: user_id@, display_name: display_name@ },
                    ));
                    assert forall|u: Seq<char>| before.knows(u) implies after.knows(u) by {
                        let i = before.index_of(u);
                        assert(after.users[i].user_id == u);
                    }
                    assert(after.tokens == before.tokens);
                    assert(after.transactions == before.transactions);
                    assert forall|i: int, j: int| 0 <= i < j < after.users.len() implies (
                    #[trigger] after.users[i]).user_id != (#[trigger] after.users[j]).user_id by {
                        if j == before.users.len() {
                            assert(before.users[i].user_id != user_id@);
                        }
                    }
                    assert(after.valid());
                }
                Ok(user_id)
            },
        }
    }

    /// Where among the sessions a token stands.
    fn find_session(&self, token: &String) -> (found: Option<usize>)
        requires
            self.wf(),
        ensures
            match found {
                Some(i) => {
                    &&& i < self.sessions.len()
                    &&& self.sessions[i as int].token@ == token@
                    &&& self@.tokens.contains_key(token@)
                    &&& self@.tokens[token@] == self.sessions[i as int].user_id@
                },
                None => !self@.tokens.contains_key(token@),
            },
    {
        let mut i: usize = 0;
        while i < self.sessions.len()
            invariant
                self.wf(),
                i <= self.sessions.len(),
                forall|k: int| 0 <= k < i ==> (#[trigger] self.sessions[k]).token@ != token@,
            decreases self.sessions.len() - i,
        {
            if self.sessions[i].token == *token {
                proof {
                    lemma_bindings_value(self.sessions@, i as int);
                }
                return Some(i);
            }
            i += 1;
        }
        proof {
            lemma_bindings_dom(self.sessions@, token@);
        }
        None
    }

    /// The net balance of a user, as wide as a ledger in memory can make it.
    fn net_balance(&self, user_id: &String) -> (net: i128)
        ensures
            net == self@.balance_of(user_id@),
    {
        let ghost txns = self@.transactions;
        let mut net: i128 = 0;
        let mut i: usize = 0;
        while i < self.transactions.len()
            invariant
                i <= self.transactions.len(),
                txns == self@.transactions,
                txns.len() == self.transactions.len(),
                net == balance(txns.take(i as int), user_id@),
            decreases self.transactions.len() - i,
        {
            let t = &self.transactions[i];
            proof {
                let done = txns.take(i as int);
                assert(txns[i as int] == t@);
                assert(txns.take(i + 1) =~= done.push(t@));
                lemma_balance_push(done, t@, user_id@);
                assert forall|k: int| 0 <= k < done.len() implies i64::MIN <= (
                #[trigger] done[k]).amount <= i64::MAX by {
                    assert(done[k] == self.transactions[k]@);
                }
                lemma_balance_bound(done, user_id@);
            }
            if t.shafter == *user_id {
                net = net + t.amount as i128;
            }
            if t.shaftee == *user_id {
                net = net - t.amount as i128;
            }
            i += 1;
        }
        assert(txns.take(i as int) =~= txns);
        net
    }

    /// Narrows a balance to the 64 bits of a user record.
    fn narrow(net: i128) -> (narrowed: Result<i64, DatabaseError>)
        ensures
            match narrowed {
                Ok(amount) => amount == net,
                Err(e) => e@ == DatabaseErrorView::Corrupt && !representable(net as int),
            },
    {
        if net < i64::MIN as i128 || net > i64::MAX as i128 {
            Err(DatabaseError::Corrupt)
        } else {
            Ok(net as i64)
        }
    }

    /// Binds a given token to a user. The user must be known and the token
    /// must not be bound yet.
    pub fn bind_token(&mut self, user_id: String, token: String) -> (bound: Result<
        (),
        DatabaseError,
    >)
        requires
            old(self).wf(),
        ensures
            final(self).wf(),
            match bound {
                Ok(_) => {
                    &&& old(self)@.knows(user_id@)
                    &&& !old(self)@.tokens.contains_key(token@)
                    &&& final(self)@ == old(self)@.with_token(token@, user_id@)
                },
                Err(e) => {
                    &&& final(self)@ == old(self)@
                    &&& if old(self)@.knows(user_id@) {
                        old(self)@.tokens.contains_key(token@) && e@ == DatabaseErrorView::Conflict
                    } else {
                        e@ == DatabaseErrorView::UnknownUser { user_id: user_id@ }
                    }
                },
            },
    {
        if self.find_user(&user_id).is_none() {
            return Err(DatabaseError::UnknownUser { user_id });
        }
        if self.find_session(&token).is_some() {
            return Err(DatabaseError::Conflict);
        }
        proof {
            lemma_bindings_dom(self.sessions@, token@);
        }
        self.sessions.push(Session { token, user_id });
        proof {
            assert(self.sessions@.drop_last() =~= old(self).sessions@);
            assert(self@.users == old(self)@.users);
            assert(self@.transactions == old(self)@.transactions);
            assert(self@.tokens == old(self)@.tokens.insert(token@, user_id@));
            assert forall|u: Seq<char>| old(self)@.knows(u) implies self@.knows(u) by {
                let i = old(self)@.index_of(u);
                assert(self@.users[i].user_id == u);
            }
        }
        Ok(())
    }

    /// Binds what was drawn for a token to a user and hands it back: the
    /// user must be known, something must have been drawn, and it must not
    /// be bound yet.
    pub fn issue_token(&mut self, user_id: String, drawn: Option<String>) -> (issued: Result<
        String,
        DatabaseError,
    >)
        requires
            old(self).wf(),
        ensures
            final(self).wf(),
            match issued {
                Ok(token) => {
                    &&& old(self)@.knows(user_id@)
                    &&& drawn is Some
                    &&& token@ == drawn->Some_0@
                    &&& !old(self)@.tokens.contains_key(token@)
                    &&& final(self)@ == old(self)@.with_token(token@, user_id@)
                },
                Err(e) => {
                    &&& final(self)@ == old(self)@
                    &&& e@ == if !old(self)@.knows(user_id@) {
                        DatabaseErrorView::UnknownUser { user_id: user_id@ }
                    } else if drawn is None {
                        DatabaseErrorView::ResourceUnavailable
                    } else {
                        DatabaseErrorView::Conflict
                    }
                    &&& old(self)@.knows(user_id@) && drawn is Some
                        ==> old(self)@.tokens.contains_key(drawn->Some_0@)
                },
            },
    {
        if self.find_user(&user_id).is_none() {
            return Err(DatabaseError::UnknownUser { user_id });
        }
        let token = match drawn {
            Some(token) => token,
            None => { return Err(DatabaseError::ResourceUnavailable); },
        };
        match self.bind_token(user_id, token.clone()) {
            Ok(_) => Ok(token),
            Err(e) => Err(e),
        }
    }

    /// Create a new Shaft access token
    ///
    /// The token is drawn at random, and drawn anew, up to [`TOKEN_DRAWS`]
    /// times, where the one drawn is bound already. For a known user this
    /// fails only where the random source fails (`ResourceUnavailable`) or
    /// every draw was bound already (`Conflict`), which takes a store that
    /// holds a token of the shape that is drawn.
    pub fn create_token_for_user(&mut self, user_id: String) -> (created: Result<
        String,
        DatabaseError,
    >)
        requires
            old(self).wf(),
        ensures
            final(self).wf(),
            match created {
                Ok(token) => {
                    &&& is_token(token@)
                    &&& old(self)@.knows(user_id@)
                    &&& !old(self)@.tokens.contains_key(token@)
                    &&& final(self)@ == old(self)@.with_token(token@, user_id@)
                },
                Err(e) => {
                    &&& final(self)@ == old(self)@
                    &&& if !old(self)@.knows(user_id@) {
                        e@ == DatabaseErrorView::UnknownUser { user_id: user_id@ }
                    } else if e@ == DatabaseErrorView::Conflict {
                        old(self)@.holds_token_shape()
                    } else {
                        e@ == DatabaseErrorView::ResourceUnavailable
                    }
                },
            },
    {
        if self.find_user(&user_id).is_none() {
            return Err(DatabaseError::UnknownUser { user_id });
        }
        let mut draws: usize = 0;
        while draws < TOKEN_DRAWS
            invariant
                self.wf(),
                self@ == old(self)@,
                self@.knows(user_id@),
                draws > 0 ==> self@.holds_token_shape(),
            decreases TOKEN_DRAWS - draws,
        {
            let drawn = random_alphanumeric(TOKEN_LENGTH);
            match self.issue_token(user_id.clone(), drawn) {
                Ok(token) => { return Ok(token); },
                Err(DatabaseError::Conflict) => {
                    assert(is_token(drawn->Some_0@) && self@.tokens.contains_key(drawn->Some_0@));
                },
                Err(e) => { return Err(e); },
            }
            draws += 1;
        }
        Err(DatabaseError::Conflict)
    }

    /// Delete a Shaft access token.
    ///
    /// Never fails: a token that is not bound is left unbound.
    pub fn delete_token(&mut self, token: String) -> (deleted: Result<(), DatabaseError>)
        requires
            old(self).wf(),
        ensures
            final(self).wf(),
            deleted is Ok,
            final(self)@ == old(self)@.without_token(token@),
    {
        match self.find_session(&token) {
            Some(i) => {
                proof {
                    lemma_bindings_remove(self.sessions@, i as int);
                }
                self.sessions.remove(i);
                proof {
                    assert(self@.users == old(self)@.users);
                    assert(self@.transactions == old(self)@.transactions);
                    assert(self@.tokens == old(self)@.tokens.remove(token@));
                }
            },
            None => {
                assert(self@.tokens =~= self@.tokens.remove(token@));
            },
        }
        Ok(())
    }

    /// Get a user by Shaft access token.
    pub fn get_user_from_token(&self, token: String) -> (found: Result<
        Option<User>,
        DatabaseError,
    >)
        requires
            self.wf(),
        ensures
            match found {
                Ok(Some(user)) => self@.resolve(token@) == Some(user@),
                Ok(None) => self@.resolve(token@) is None,
                Err(e) => {
                    &&& e@ == DatabaseErrorView::Corrupt
                    &&& self@.resolve(token@) is Some
                    &&& !representable(self@.resolve(token@)->Some_0.balance)
                },
            },
    {
        let s = match self.find_session(&token) {
            Some(s) => s,
            None => { return Ok(None); },
        };
        let user_id = self.sessions[s].user_id.clone();
        let u = match self.find_user(&user_id) {
            Some(u) => u,
            None => { return Ok(None); },
        };
        proof {
            let k = self@.index_of(user_id@);
            assert(self@.users[u as int].user_id == user_id@);
            assert(k == u);
        }
        let balance = Self::narrow(self.net_balance(&user_id))?;
        Ok(Some(User { user_id, display_name: self.users[u].display_name.clone(), balance }))
    }

    /// Get a user's balance in pence
    ///
    /// A user without transactions, known or not, has a balance of zero.
    pub fn get_balance_for_user(&self, user: String) -> (found: Result<i64, DatabaseError>)
        ensures
            match found {
                Ok(amount) => amount == self@.balance_of(user@),
                Err(e) => e@ == DatabaseErrorView::Corrupt && !representable(
                    self@.balance_of(user@),
                ),
            },
    {
        Self::narrow(self.net_balance(&user))
    }

    /// The records of all users, in the order of the roster.
    fn roster_records(&self) -> (records: Result<Vec<User>, DatabaseError>)
        requires
            self.wf(),
        ensures
            match records {
                Ok(rows) => {
                    &&& !self@.has_unrepresentable_balance()
                    &&& rows.len() == self@.users.len()
                    &&& forall|k: int|
                        0 <= k < rows.len() ==> (#[trigger] rows[k])@ == self@.record_of(
                            self@.users[k].user_id,
                        )
                },
                Err(e) => e@ == DatabaseErrorView::Corrupt && self@.has_unrepresentable_balance(),
            },
    {
        let mut rows: Vec<User> = Vec::new();
        let mut k: usize = 0;
        while k < self.users.len()
            invariant
                self.wf(),
                k <= self.users.len(),
                rows.len() == k,
                forall|j: int|
                    0 <= j < k ==> (#[trigger] rows[j])@ == self@.record_of(self@.users[j].user_id),
            decreases self.users.len() - k,
        {
            let account = &self.users[k];
            proof {
                assert(self@.users[k as int].user_id == account.user_id@);
                assert(self@.index_of(account.user_id@) == k);
            }
            let balance = match Self::narrow(self.net_balance(&account.user_id)) {
                Ok(balance) => balance,
                Err(e) => { return Err(e); },
            };
            rows.push(
                User {
                    user_id: account.user_id.clone(),
                    display_name: account.display_name.clone(),
                    balance,
                },
            );
            k += 1;
        }
        proof {
            if self@.has_unrepresentable_balance() {
                let i = choose|i: int|
                    0 <= i < self@.users.len() && !representable(
                        self@.balance_of((#[trigger] self@.users[i]).user_id),
                    );
                assert(rows[i]@.balance == self@.balance_of(self@.users[i].user_id));
            }
        }
        Ok(rows)
    }

    /// Get a map of all users from local user ID to [User] object
    ///
    /// The map holds the users in ascending order of balance.
    pub fn get_all_users(&self) -> (found: Result<LinearMap<String, User>, DatabaseError>)
        requires
            self.wf(),
        ensures
            match found {
                Ok(map) => !self@.has_unrepresentable_balance() && self@.is_balance_listing(
                    entries(map),
                ),
                Err(e) => e@ == DatabaseErrorView::Corrupt && self@.has_unrepresentable_balance(),
            },
    {
        let rows = self.roster_records()?;
        let (sorted, Ghost(place)) = sort_by_balance(&rows);
        let mut map = empty_map();
        let mut i: usize = 0;
        proof {
            assert forall|a: int| 0 <= a < sorted.len() implies 0 <= (#[trigger] place[a])
                < rows.len() && sorted[a]@ == rows[place[a]]@ by {
                assert(user_views(sorted@)[a] == user_views(rows@)[place[a]]);
            }
        }
        while i < sorted.len()
            invariant
                self.wf(),
                i <= sorted.len(),
                sorted.len() == rows.len(),
                rows.len() == self@.users.len(),
                place.len() == rows.len(),
                is_stable_order(user_views(rows@), user_views(sorted@), place),
                forall|k: int|
                    0 <= k < rows.len() ==> (#[trigger] rows[k])@ == self@.record_of(
                        self@.users[k].user_id,
                    ),
                forall|a: int|
                    0 <= a < sorted.len() ==> 0 <= (#[trigger] place[a]) < rows.len() && sorted[a]@
                        == rows[place[a]]@,
                entries(map).len() == i,
                forall|a: int|
                    0 <= a < i ==> (#[trigger] entries(map)[a]) == (sorted[a].user_id@, sorted[a]@),
            decreases sorted.len() - i,
        {
            let user = sorted[i].clone();
            let key = user.user_id.clone();
            let ghost listed = entries(map);
            proof {
                if has_key(listed, key@) {
                    let a = choose|a: int| 0 <= a < listed.len() && (#[trigger] listed[a]).0 == key@;
                    assert(goes_before(
                        user_views(sorted@)[a].balance,
                        place[a],
                        user_views(sorted@)[i as int].balance,
                        place[i as int],
                    ));
                    assert(sorted[a]@.user_id == self@.users[place[a]].user_id);
                    assert(sorted[i as int]@.user_id == self@.users[place[i as int]].user_id);
                    assert(false);
                }
            }
            let previous = insert_entry(&mut map, key, user);
            assert(previous is None);
            i += 1;
        }
        proof {
            let view = self@;
            let listing = entries(map);
            assert forall|a: int| 0 <= a < listing.len() implies view.knows(
                (#[trigger] listing[a]).0,
            ) && listing[a].1 == view.record_of(listing[a].0) && view.index_of(listing[a].0)
                == place[a] by {
                assert(sorted[a]@ == rows[place[a]]@);
                assert(view.users[place[a]].user_id == listing[a].0);
            }
            assert forall|k: int| 0 <= k < view.users.len() implies has_key(
                listing,
                (#[trigger] view.users[k]).user_id,
            ) by {
                assert(place.contains(k));
                let a = choose|a: int| 0 <= a < place.len() && place[a] == k;
                assert(listing[a].0 == view.users[k].user_id);
            }
            assert forall|a: int, b: int| 0 <= a < b < listing.len() implies #[trigger] goes_before(
                view.balance_of(listing[a].0),
                view.index_of(listing[a].0),
                view.balance_of(listing[b].0),
                view.index_of(listing[b].0),
            ) by {
                assert(goes_before(
                    user_views(sorted@)[a].balance,
                    place[a],
                    user_views(sorted@)[b].balance,
                    place[b],
                ));
                assert(listing[a].1 == view.record_of(listing[a].0));
                assert(listing[b].1 == view.record_of(listing[b].0));
            }
        }
        Ok(map)
    }

    /// Commit a new Shaft [Transaction]
    ///
    /// The shaftee must be a known user. The shafter is taken on trust: it is
    /// the caller who has authenticated them.
    pub fn shaft_user(&mut self, transaction: Transaction) -> (done: Result<(), DatabaseError>)
        requires
            old(self).wf(),
        ensures
            final(self).wf(),
            match done {
                Ok(_) => {
                    &&& old(self)@.knows(transaction@.shaftee)
                    &&& final(self)@ == old(self)@.with_transaction(transaction@)
                },
                Err(e) => {
                    &&& !old(self)@.knows(transaction@.shaftee)
                    &&& e@ == DatabaseErrorView::UnknownUser { user_id: transaction@.shaftee }
                    &&& final(self)@ == old(self)@
                },
            },
    {
        if self.find_user(&transaction.shaftee).is_none() {
            return Err(DatabaseError::UnknownUser { user_id: transaction.shaftee });
        }
        let ghost t = transaction@;
        self.transactions.push(transaction);
        proof {
            assert(self@.users == old(self)@.users);
            assert(self@.tokens == old(self)@.tokens);
            assert(self@.transactions =~= old(self)@.transactions.push(t));
        }
        Ok(())
    }

    /// Get a list of the most recent Shaft transactions
    pub fn get_last_transactions(&self, limit: u32) -> (found: Result<
        Vec<Transaction>,
        DatabaseError,
    >)
        ensures
            found is Ok,
            found->Ok_0.len() == self@.recent(limit as nat).len(),
            transaction_views(found->Ok_0@) == self@.recent(limit as nat),
    {
        let total = self.transactions.len();
        let count = if (limit as usize) < total { limit as usize } else { total };
        let mut list: Vec<Transaction> = Vec::new();
        let mut i: usize = 0;
        while i < count
            invariant
                i <= count <= total,
                total == self.transactions.len(),
                list.len() == i,
                forall|k: int| 0 <= k < i ==> (#[trigger] list[k])@ == self.transactions[total - 1 - k]@,
            decreases count - i,
        {
            list.push(self.transactions[total - 1 - i].clone());
            i += 1;
        }
        assert(transaction_views(list@) =~= self@.recent(limit as nat));
        Ok(list)
    }

    /// The roster: the id and the display name of each user, in order of
    /// creation.
    pub fn roster(&self) -> (list: Vec<(String, String)>)
        ensures
            list.len() == self@.users.len(),
            forall|i: int|
                0 <= i < list.len() ==> (#[trigger] list[i]).0@ == self@.users[i].user_id
                    && list[i].1@ == self@.users[i].display_name,
    {
        let mut list: Vec<(String, String)> = Vec::new();
        let mut i: usize = 0;
        while i < self.users.len()
            invariant
                i <= self.users.len(),
                list.len() == i,
                forall|k: int|
                    0 <= k < i ==> (#[trigger] list[k]).0@ == self@.users[k].user_id && list[k].1@
                        == self@.users[k].display_name,
            decreases self.users.len() - i,
        {
            list.push((self.users[i].user_id.clone(), self.users[i].display_name.clone()));
            i += 1;
        }
        list
    }

    /// The live session tokens, each once, with the id of the user it is
    /// bound to.
    pub fn sessions(&self) -> (list: Vec<(String, String)>)
        requires
            self.wf(),
        ensures
            forall|i: int|
                0 <= i < list.len() ==> self@.tokens.contains_key((#[trigger] list[i]).0@)
                    && self@.tokens[list[i].0@] == list[i].1@,
            forall|i: int, j: int|
                0 <= i < j < list.len() ==> (#[trigger] list[i]).0@ != (#[trigger] list[j]).0@,
            forall|token: Seq<char>| #[trigger]
                self@.tokens.contains_key(token) ==> exists|i: int|
                    0 <= i < list.len() && (#[trigger] list[i]).0@ == token,
    {
        let mut list: Vec<(String, String)> = Vec::new();
        let mut i: usize = 0;
        while i < self.sessions.len()
            invariant
                self.wf(),
                i <= self.sessions.len(),
                list.len() == i,
                forall|k: int|
                    0 <= k < i ==> (#[trigger] list[k]).0@ == self.sessions[k].token@ && list[k].1@
                        == self.sessions[k].user_id@,
            decreases self.sessions.len() - i,
        {
            list.push((self.sessions[i].token.clone(), self.sessions[i].user_id.clone()));
            i += 1;
        }
        proof {
            assert forall|k: int| 0 <= k < list.len() implies self@.tokens.contains_key(
                (#[trigger] list[k]).0@,
            ) && self@.tokens[list[k].0@] == list[k].1@ by {
                lemma_bindings_value(self.sessions@, k);
            }
            assert forall|a: int, b: int| 0 <= a < b < list.len() implies (#[trigger] list[a]).0@
                != (#[trigger] list[b]).0@ by {
                assert(self.sessions[a].token@ != self.sessions[b].token@);
            }
            assert forall|token: Seq<char>| #[trigger]
                self@.tokens.contains_key(token) implies exists|k: int|
                0 <= k < list.len() && (#[trigger] list[k]).0@ == token by {
                lemma_bindings_dom(self.sessions@, token);
                let k = choose|k: int|
                    0 <= k < self.sessions.len() && (#[trigger] self.sessions[k]).token@ == token;
                assert(list[k].0@ == token);
            }
        }
        list
    }

    /// Whether a token is bound to a user.
    pub fn is_bound(&self, token: &String) -> (bound: bool)
        requires
            self.wf(),
        ensures
            bound == self@.tokens.contains_key(token@),
    {
        self.find_session(token).is_some()
    }

    /// The transactions on the ledger from place `start` on, in the order
    /// in which they were appended; none where the ledger is no longer.
    pub fn transactions_from(&self, start: usize) -> (list: Vec<Transaction>)
        ensures
            transaction_views(list@) == later(self@.transactions, start as nat),
    {
        let mut list: Vec<Transaction> = Vec::new();
        let mut i: usize = start;
        while i < self.transactions.len()
            invariant
                start <= i,
                start <= self.transactions.len() ==> i <= self.transactions.len(),
                i <= self.transactions.len() || list.len() == 0,
                i <= self.transactions.len() ==> list.len() == i - start,
                forall|k: int|
                    0 <= k < list.len() ==> (#[trigger] list[k])@ == self.transactions[start + k]@,
            decreases self.transactions.len() - i,
        {
            list.push(self.transactions[i].clone());
            i += 1;
        }
        proof {
            let views = transaction_views(list@);
            let expected = later(self@.transactions, start as nat);
            if start <= self.transactions.len() {
                assert(views.len() == expected.len());
                assert forall|k: int| 0 <= k < views.len() implies views[k] == expected[k] by {
                    assert(list[k]@ == self.transactions[start + k]@);
                }
            }
            assert(views =~= expected);
        }
        list
    }

    /// The number of transactions on the ledger.
    pub fn transaction_count(&self) -> (count: usize)
        ensures
            count == self@.transactions.len(),
    {
        self.transactions.len()
    }
}

} // verus!
