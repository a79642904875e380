//! The mathematical model of the store: what it holds, which states are
//! valid, and what each operation makes of a state.

use vstd::prelude::*;
use crate::db::{TransactionView, UserView};
use crate::db::ledger::balance;
use crate::db::order::goes_before;
use crate::db::token::is_token;

verus! {

/// Whether a balance fits the 64 bits that a [`crate::db::User`] record has for it.
pub open spec fn representable(amount: int) -> bool {
    i64::MIN <= amount <= i64::MAX
}

/// Whether some entry of a listing of users has this key.
pub open spec fn has_key(listing: Seq<(Seq<char>, UserView)>, key: Seq<char>) -> bool {
    exists|i: int| 0 <= i < listing.len() && (#[trigger] listing[i]).0 == key
}

/// The place of the first entry of a listing of users with this key.
pub open spec fn first_with_key(listing: Seq<(Seq<char>, UserView)>, key: Seq<char>) -> int {
    choose|i: int|
        0 <= i < listing.len() && (#[trigger] listing[i]).0 == key && forall|j: int|
            0 <= j < i ==> (#[trigger] listing[j]).0 != key
}

/// What a sequence holds from place `start` on; nothing where it is no
/// longer than that.
pub open spec fn later<A>(list: Seq<A>, start: nat) -> Seq<A> {
    if start <= list.len() {
        list.skip(start as int)
    } else {
        Seq::empty()
    }
}

/// One row of the user roster.
pub struct AccountView {
    pub user_id: Seq<char>,
    pub display_name: Seq<char>,
}

/// The state of the store.
///
/// A user's id is the external identity they first logged in with, so the
/// link from external identities to users is the identity on the roster.
pub struct DatabaseView {
    /// The user roster, in order of creation.
    pub users: Seq<AccountView>,
    /// The live session tokens, each with the id of the user it is bound to.
    pub tokens: Map<Seq<char>, Seq<char>>,
    /// The ledger, in order of appending.
    pub transactions: Seq<TransactionView>,
}

impl DatabaseView {
    /// The store before anything was recorded.
    pub open spec fn empty() -> DatabaseView {
        DatabaseView { users: Seq::empty(), tokens: Map::empty(), transactions: Seq::empty() }
    }

    /// Whether a user with this id is on the roster.
    pub open spec fn knows(self, user_id: Seq<char>) -> bool {
        exists|i: int| 0 <= i < self.users.len() && (#[trigger] self.users[i]).user_id == user_id
    }

    /// The place of a known user on the roster.
    pub open spec fn index_of(self, user_id: Seq<char>) -> int {
        choose|i: int| 0 <= i < self.users.len() && (#[trigger] self.users[i]).user_id == user_id
    }

    /// The display name of a known user.
    pub open spec fn display_name_of(self, user_id: Seq<char>) -> Seq<char> {
        self.users[self.index_of(user_id)].display_name
    }

    /// The user that an external identity is linked to, if any.
    pub open spec fn linked_user(self, external_id: Seq<char>) -> Option<Seq<char>> {
        if self.knows(external_id) {
            Some(external_id)
        } else {
            None
        }
    }

    /// The net balance of a user, derived from the ledger alone.
    pub open spec fn balance_of(self, user_id: Seq<char>) -> int {
        balance(self.transactions, user_id)
    }

    /// The full record of a known user: id, display name, current balance.
    pub open spec fn record_of(self, user_id: Seq<char>) -> UserView {
        UserView {
            user_id,
            display_name: self.display_name_of(user_id),
            balance: self.balance_of(user_id),
        }
    }

    /// The ids on the roster, in order of creation.
    pub open spec fn user_ids(self) -> Seq<Seq<char>> {
        Seq::new(self.users.len(), |i: int| self.users[i].user_id)
    }

    /// What holds of every state that the store can reach: no user id is on
    /// the roster twice, every token is bound to a known user, and every
    /// transaction was made against a known user.
    pub open spec fn valid(self) -> bool {
        &&& forall|i: int, j: int|
            0 <= i < j < self.users.len() ==> (#[trigger] self.users[i]).user_id != (
            #[trigger] self.users[j]).user_id
        &&& forall|token: Seq<char>| #[trigger]
            self.tokens.contains_key(token) ==> self.knows(self.tokens[token])
        &&& forall|i: int|
            0 <= i < self.transactions.len() ==> self.knows(
                (#[trigger] self.transactions[i]).shaftee,
            )
    }

    /// The state after a user was added at the end of the roster.
    pub open spec fn with_user(self, user_id: Seq<char>, display_name: Seq<char>) -> DatabaseView {
        DatabaseView { users: self.users.push(AccountView { user_id, display_name }), ..self }
    }

    /// The state after a token was bound to a user.
    pub open spec fn with_token(self, token: Seq<char>, user_id: Seq<char>) -> DatabaseView {
        DatabaseView { tokens: self.tokens.insert(token, user_id), ..self }
    }

    /// The state after a token was revoked.
    pub open spec fn without_token(self, token: Seq<char>) -> DatabaseView {
        DatabaseView { tokens: self.tokens.remove(token), ..self }
    }

    /// The state after a transaction was appended to the ledger.
    pub open spec fn with_transaction(self, t: TransactionView) -> DatabaseView {
        DatabaseView { transactions: self.transactions.push(t), ..self }
    }

    /// Whether some bound token has the shape of the tokens that are drawn
    /// at random. Only in such a state can a draw meet a bound token.
    pub open spec fn holds_token_shape(self) -> bool {
        exists|token: Seq<char>| is_token(token) && #[trigger] self.tokens.contains_key(token)
    }

    /// The user that a token stands for, with their current balance.
    pub open spec fn resolve(self, token: Seq<char>) -> Option<UserView> {
        if self.tokens.contains_key(token) {
            Some(self.record_of(self.tokens[token]))
        } else {
            None
        }
    }

    /// The `limit` most recent transactions, the latest first.
    pub open spec fn recent(self, limit: nat) -> Seq<TransactionView> {
        let n = if limit <= self.transactions.len() {
            limit
        } else {
            self.transactions.len()
        };
        Seq::new(n, |i: int| self.transactions[self.transactions.len() - 1 - i])
    }

    /// Whether some known user has a balance beyond 64 bits.
    pub open spec fn has_unrepresentable_balance(self) -> bool {
        exists|i: int|
            0 <= i < self.users.len() && !representable(
                self.balance_of((#[trigger] self.users[i]).user_id),
            )
    }

    /// Whether `listing` is the roster with balances: one entry for each
    /// known user, under their id, holding their full record; the entries in
    /// ascending order of balance, the most indebted user first, and users of
    /// equal balance in the order in which they were created.
    pub open spec fn is_balance_listing(self, listing: Seq<(Seq<char>, UserView)>) -> bool {
        &&& listing.len() == self.users.len()
        &&& forall|i: int|
            0 <= i < listing.len() ==> self.knows((#[trigger] listing[i]).0) && listing[i].1
                == self.record_of(listing[i].0)
        &&& forall|k: int|
            0 <= k < self.users.len() ==> has_key(listing, (#[trigger] self.users[k]).user_id)
        &&& forall|i: int, j: int|
            0 <= i < j < listing.len() ==> #[trigger] goes_before(
                self.balance_of(listing[i].0),
                self.index_of(listing[i].0),
                self.balance_of(listing[j].0),
                self.index_of(listing[j].0),
            )
    }

    /// The name to show for a user: their display name, or their id where
    /// they are not on the roster.
    pub open spec fn name_of(self, user_id: Seq<char>) -> Seq<char> {
        if self.knows(user_id) {
            self.display_name_of(user_id)
        } else {
            user_id
        }
    }

    /// A listing of the roster has an entry for an id exactly if the user is
    /// known, and the first entry for it, which is the only one, holds their
    /// record.
    pub proof fn lemma_listing_lookup(self, listing: Seq<(Seq<char>, UserView)>, user_id: Seq<char>)
        requires
            self.valid(),
            self.is_balance_listing(listing),
        ensures
            has_key(listing, user_id) == self.knows(user_id),
            self.knows(user_id) ==> {
                let first = first_with_key(listing, user_id);
                &&& 0 <= first < listing.len()
                &&& listing[first].0 == user_id
                &&& listing[first].1 == self.record_of(user_id)
            },
    {
        if self.knows(user_id) {
            let k = self.index_of(user_id);
            assert(has_key(listing, self.users[k].user_id));
        }
        if has_key(listing, user_id) {
            let i = choose|i: int| 0 <= i < listing.len() && (#[trigger] listing[i]).0 == user_id;
            assert(self.knows(listing[i].0));
            assert forall|j: int| 0 <= j < i implies (#[trigger] listing[j]).0 != user_id by {
                assert(goes_before(
                    self.balance_of(listing[j].0),
                    self.index_of(listing[j].0),
                    self.balance_of(listing[i].0),
                    self.index_of(listing[i].0),
                ));
            }
            let first = first_with_key(listing, user_id);
            assert(listing[first].1 == self.record_of(listing[first].0));
        }
    }

}

} // verus!
