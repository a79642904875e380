//! What holds of every state of the store, proved from the model alone.

use vstd::prelude::*;
use crate::db::{TransactionView, UserView};
use crate::db::order::goes_before;
use crate::db::ledger::{balance, effect, lemma_balance_push, total_balance};
use crate::db::model::{has_key, DatabaseView};

verus! {

/// Whether no id occurs twice in the list.
pub open spec fn distinct(ids: Seq<Seq<char>>) -> bool {
    forall|i: int, j: int| 0 <= i < j < ids.len() ==> #[trigger] ids[i] != #[trigger] ids[j]
}

/// What one transaction adds to the balances of the listed users, summed.
pub open spec fn total_effect(t: TransactionView, ids: Seq<Seq<char>>) -> int
    decreases ids.len(),
{
    if ids.len() == 0 {
        0
    } else {
        total_effect(t, ids.drop_last()) + effect(t, ids.last())
    }
}

/// Over a list of distinct users, a transaction adds its amount once if its
/// shafter is listed and takes it away once if its shaftee is listed.
proof fn lemma_total_effect(t: TransactionView, ids: Seq<Seq<char>>)
    requires
        distinct(ids),
    ensures
        total_effect(t, ids) == (if ids.contains(t.shafter) { t.amount } else { 0 }) - (
        if ids.contains(t.shaftee) { t.amount } else { 0 }),
    decreases ids.len(),
{
    if ids.len() > 0 {
        let rest = ids.drop_last();
        let last = ids.last();
        assert(distinct(rest)) by {
            assert forall|i: int, j: int| 0 <= i < j < rest.len() implies #[trigger] rest[i]
                != #[trigger] rest[j] by {
                assert(ids[i] != ids[j]);
            }
        }
        lemma_total_effect(t, rest);
        assert(!rest.contains(last)) by {
            if rest.contains(last) {
                let i = choose|i: int| 0 <= i < rest.len() && rest[i] == last;
                assert(ids[i] != ids[ids.len() - 1]);
            }
        }
        assert forall|x: Seq<char>| ids.contains(x) <==> (rest.contains(x) || x == last) by {
            if ids.contains(x) {
                let i = choose|i: int| 0 <= i < ids.len() && ids[i] == x;
                if i < rest.len() {
                    assert(rest[i] == x);
                }
            }
            if rest.contains(x) {
                let i = choose|i: int| 0 <= i < rest.len() && rest[i] == x;
                assert(ids[i] == x);
            }
            if x == last {
                assert(ids[ids.len() - 1] == x);
            }
        }
    } else {
        assert(!ids.contains(t.shafter));
        assert(!ids.contains(t.shaftee));
    }
}

/// Appending a transaction moves the sum of any users' balances by the
/// transaction's effect on those users.
proof fn lemma_total_balance_push(txns: Seq<TransactionView>, t: TransactionView, ids: Seq<Seq<char>>)
    ensures
        total_balance(txns.push(t), ids) == total_balance(txns, ids) + total_effect(t, ids),
    decreases ids.len(),
{
    if ids.len() > 0 {
        lemma_total_balance_push(txns, t, ids.drop_last());
        lemma_balance_push(txns, t, ids.last());
    }
}

/// Without transactions every sum of balances is zero.
proof fn lemma_total_balance_empty(ids: Seq<Seq<char>>)
    ensures
        total_balance(Seq::<TransactionView>::empty(), ids) == 0,
    decreases ids.len(),
{
    if ids.len() > 0 {
        lemma_total_balance_empty(ids.drop_last());
    }
}

/// Over any list of distinct users that holds both parties of every
/// transaction, the balances sum to exactly zero.
pub proof fn lemma_conservation_over(txns: Seq<TransactionView>, ids: Seq<Seq<char>>)
    requires
        distinct(ids),
        forall|i: int|
            0 <= i < txns.len() ==> ids.contains((#[trigger] txns[i]).shafter) && ids.contains(
                txns[i].shaftee,
            ),
    ensures
        total_balance(txns, ids) == 0,
    decreases txns.len(),
{
    if txns.len() == 0 {
        assert(txns =~= Seq::empty());
        lemma_total_balance_empty(ids);
    } else {
        let t = txns.last();
        let earlier = txns.drop_last();
        assert forall|i: int| 0 <= i < earlier.len() implies ids.contains(
            (#[trigger] earlier[i]).shafter,
        ) && ids.contains(earlier[i].shaftee) by {
            assert(earlier[i] == txns[i]);
        }
        lemma_conservation_over(earlier, ids);
        assert(txns[txns.len() - 1] == t);
        lemma_total_balance_push(earlier, t, ids);
        lemma_total_effect(t, ids);
        assert(earlier.push(t) =~= txns);
    }
}

/// The sum of the balances that a listing of users shows.
pub open spec fn listed_total(listing: Seq<(Seq<char>, UserView)>) -> int
    decreases listing.len(),
{
    if listing.len() == 0 {
        0
    } else {
        listed_total(listing.drop_last()) + listing.last().1.balance
    }
}

/// The ids that a listing of users is keyed by, in its order.
pub open spec fn listed_ids(listing: Seq<(Seq<char>, UserView)>) -> Seq<Seq<char>> {
    Seq::new(listing.len(), |i: int| listing[i].0)
}

impl DatabaseView {
    /// The balances that the first `upto` entries of a listing of the roster
    /// show sum to the balances of the users listed there.
    proof fn lemma_listed_total(self, listing: Seq<(Seq<char>, UserView)>, upto: int)
        requires
            self.is_balance_listing(listing),
            0 <= upto <= listing.len(),
        ensures
            listed_total(listing.take(upto)) == total_balance(
                self.transactions,
                listed_ids(listing).take(upto),
            ),
        decreases upto,
    {
        if upto > 0 {
            self.lemma_listed_total(listing, upto - 1);
            assert(listing.take(upto).drop_last() =~= listing.take(upto - 1));
            assert(listed_ids(listing).take(upto).drop_last() =~= listed_ids(listing).take(
                upto - 1,
            ));
            assert(listing[upto - 1].1 == self.record_of(listing[upto - 1].0));
        }
    }

    /// Conservation, as a listing of the roster shows it: in every valid
    /// state whose transactions were all created by known users, the
    /// balances that the listing holds sum to exactly zero, in whatever
    /// order it holds them.
    pub proof fn lemma_listing_conserves(self, listing: Seq<(Seq<char>, UserView)>)
        requires
            self.valid(),
            self.shafters_known(),
            self.is_balance_listing(listing),
        ensures
            listed_total(listing) == 0,
    {
        let ids = listed_ids(listing);
        assert(distinct(ids)) by {
            assert forall|i: int, j: int| 0 <= i < j < ids.len() implies #[trigger] ids[i]
                != #[trigger] ids[j] by {
                assert(goes_before(
                    self.balance_of(listing[i].0),
                    self.index_of(listing[i].0),
                    self.balance_of(listing[j].0),
                    self.index_of(listing[j].0),
                ));
            }
        }
        assert forall|user_id: Seq<char>| self.knows(user_id) implies ids.contains(user_id) by {
            assert(has_key(listing, self.users[self.index_of(user_id)].user_id));
            let i = choose|i: int| 0 <= i < listing.len() && (#[trigger] listing[i]).0 == user_id;
            assert(ids[i] == user_id);
        }
        lemma_conservation_over(self.transactions, ids);
        self.lemma_listed_total(listing, listing.len() as int);
        assert(listing.take(listing.len() as int) =~= listing);
        assert(ids.take(listing.len() as int) =~= ids);
    }

    /// Who is known depends on the roster alone.
    proof fn lemma_same_roster(self, other: DatabaseView, user_id: Seq<char>)
        requires
            self.users == other.users,
        ensures
            self.knows(user_id) == other.knows(user_id),
    {
        if self.knows(user_id) {
            let i = self.index_of(user_id);
            assert(other.users[i].user_id == user_id);
        }
        if other.knows(user_id) {
            let i = other.index_of(user_id);
            assert(self.users[i].user_id == user_id);
        }
    }

    /// Whether every transaction on the ledger was created by a known user.
    pub open spec fn shafters_known(self) -> bool {
        forall|i: int|
            0 <= i < self.transactions.len() ==> self.knows(
                (#[trigger] self.transactions[i]).shafter,
            )
    }

    /// The sum of the balances of all known users.
    pub open spec fn total(self) -> int {
        total_balance(self.transactions, self.user_ids())
    }

    /// Appending a transaction between two known users leaves the sum of all
    /// balances as it was: what one of them gains the other loses.
    pub proof fn lemma_append_conserves(self, t: TransactionView)
        requires
            self.valid(),
            self.knows(t.shafter),
            self.knows(t.shaftee),
        ensures
            self.with_transaction(t).total() == self.total(),
    {
        let ids = self.user_ids();
        assert(self.with_transaction(t).user_ids() =~= ids);
        lemma_total_balance_push(self.transactions, t, ids);
        self.lemma_ids(t.shafter);
        self.lemma_ids(t.shaftee);
        lemma_total_effect(t, ids);
    }

    /// The ids on the roster are distinct, and they are the known users.
    proof fn lemma_ids(self, user_id: Seq<char>)
        requires
            self.valid(),
        ensures
            distinct(self.user_ids()),
            self.user_ids().contains(user_id) <==> self.knows(user_id),
    {
        let ids = self.user_ids();
        assert forall|i: int, j: int| 0 <= i < j < ids.len() implies #[trigger] ids[i]
            != #[trigger] ids[j] by {
            assert(self.users[i].user_id != self.users[j].user_id);
        }
        if self.knows(user_id) {
            let i = self.index_of(user_id);
            assert(ids[i] == user_id);
        }
        if ids.contains(user_id) {
            let i = choose|i: int| 0 <= i < ids.len() && ids[i] == user_id;
            assert(self.users[i].user_id == user_id);
        }
    }

    /// Conservation: in every valid state whose transactions were all
    /// created by known users, the balances of all users sum to exactly zero.
    pub proof fn lemma_conservation(self)
        requires
            self.valid(),
            self.shafters_known(),
        ensures
            self.total() == 0,
        decreases self.transactions.len(),
    {
        if self.transactions.len() == 0 {
            assert(self.transactions =~= Seq::empty());
            lemma_total_balance_empty(self.user_ids());
        } else {
            let t = self.transactions.last();
            let earlier = DatabaseView { transactions: self.transactions.drop_last(), ..self };
            assert(earlier.valid()) by {
                assert forall|i: int| 0 <= i < earlier.transactions.len() implies earlier.knows(
                    (#[trigger] earlier.transactions[i]).shaftee,
                ) by {
                    assert(self.knows(self.transactions[i].shaftee));
                    self.lemma_same_roster(earlier, self.transactions[i].shaftee);
                }
                assert forall|token: Seq<char>| #[trigger]
                    earlier.tokens.contains_key(token) implies earlier.knows(
                    earlier.tokens[token],
                ) by {
                    self.lemma_same_roster(earlier, self.tokens[token]);
                }
            }
            assert(earlier.shafters_known()) by {
                assert forall|i: int| 0 <= i < earlier.transactions.len() implies earlier.knows(
                    (#[trigger] earlier.transactions[i]).shafter,
                ) by {
                    assert(self.knows(self.transactions[i].shafter));
                    self.lemma_same_roster(earlier, self.transactions[i].shafter);
                }
            }
            earlier.lemma_conservation();
            assert(earlier.knows(t.shafter)) by {
                assert(self.knows(self.transactions[self.transactions.len() - 1].shafter));
                self.lemma_same_roster(earlier, t.shafter);
            }
            assert(earlier.knows(t.shaftee)) by {
                assert(self.knows(self.transactions[self.transactions.len() - 1].shaftee));
                self.lemma_same_roster(earlier, t.shaftee);
            }
            earlier.lemma_append_conserves(t);
            assert(earlier.with_transaction(t).transactions =~= self.transactions);
        }
    }

    /// The balance of a user is the sum of the amounts of the transactions
    /// they created minus the sum of those made against them; appending a
    /// transaction adds its amount to the shafter's balance, takes it from
    /// the shaftee's, and leaves every other balance alone.
    pub proof fn lemma_append_moves_balance(self, t: TransactionView, user_id: Seq<char>)
        ensures
            self.with_transaction(t).balance_of(user_id) == self.balance_of(user_id) + effect(
                t,
                user_id,
            ),
    {
        lemma_balance_push(self.transactions, t, user_id);
    }

    /// A user who took part in no transaction has a balance of zero.
    pub proof fn lemma_bystander_balance(self, user_id: Seq<char>)
        requires
            forall|i: int|
                0 <= i < self.transactions.len() ==> (#[trigger] self.transactions[i]).shafter
                    != user_id && self.transactions[i].shaftee != user_id,
        ensures
            self.balance_of(user_id) == 0,
        decreases self.transactions.len(),
    {
        if self.transactions.len() > 0 {
            let earlier = DatabaseView { transactions: self.transactions.drop_last(), ..self };
            assert forall|i: int| 0 <= i < earlier.transactions.len() implies (
            #[trigger] earlier.transactions[i]).shafter != user_id
                && earlier.transactions[i].shaftee != user_id by {
                assert(self.transactions[i].shafter != user_id);
            }
            earlier.lemma_bystander_balance(user_id);
            assert(self.transactions[self.transactions.len() - 1].shafter != user_id);
        }
    }

    /// The listing of recent transactions shows the latest first: of three
    /// transactions appended one after the other, the two most recent are
    /// the third and then the second, whatever was on the ledger before.
    pub proof fn lemma_recent_is_latest_first(
        self,
        first: TransactionView,
        second: TransactionView,
        third: TransactionView,
    )
        ensures
            self.with_transaction(first).with_transaction(second).with_transaction(third).recent(2)
                == seq![third, second],
    {
        let after = self.with_transaction(first).with_transaction(second).with_transaction(third);
        assert(after.recent(2) =~= seq![third, second]);
    }

    /// The listing of recent transactions never shows more than asked for,
    /// shows all there are where fewer are on the ledger, and goes back in
    /// time from the transaction appended last.
    pub proof fn lemma_recent_goes_back(self, limit: nat, i: int)
        requires
            0 <= i < limit,
            i < self.transactions.len(),
        ensures
            self.recent(limit).len() <= limit,
            self.recent(limit).len() <= self.transactions.len(),
            self.recent(limit).len() == limit || self.recent(limit).len()
                == self.transactions.len(),
            self.recent(limit)[i] == self.transactions[self.transactions.len() - 1 - i],
    {
    }

    /// Revoking is idempotent: after a token was revoked, revoking it again
    /// changes nothing, and the token resolves to no user after either.
    pub proof fn lemma_revoke_idempotent(self, token: Seq<char>)
        ensures
            self.without_token(token).without_token(token) == self.without_token(token),
            self.without_token(token).resolve(token) is None,
    {
        assert(self.tokens.remove(token).remove(token) =~= self.tokens.remove(token));
    }

    /// Revoking a token leaves every balance, the roster, the ledger and
    /// what every other token resolves to as they were.
    pub proof fn lemma_revoke_spares_others(self, token: Seq<char>, other: Seq<char>)
        requires
            other != token,
        ensures
            self.without_token(token).resolve(other) == self.resolve(other),
            self.without_token(token).users == self.users,
            self.without_token(token).transactions == self.transactions,
    {
    }

    /// A token resolves to the user it was bound to, with their balance as
    /// the ledger has it at that moment.
    pub proof fn lemma_bound_token_resolves(self, token: Seq<char>, user_id: Seq<char>)
        ensures
            self.with_token(token, user_id).resolve(token) == Some(self.record_of(user_id)),
    {
    }

    /// Every operation of the store leads from valid states to valid states.
    pub proof fn lemma_valid_is_kept(
        self,
        user_id: Seq<char>,
        display_name: Seq<char>,
        token: Seq<char>,
        t: TransactionView,
    )
        requires
            self.valid(),
        ensures
            DatabaseView::empty().valid(),
            !self.knows(user_id) ==> self.with_user(user_id, display_name).valid(),
            self.knows(user_id) ==> self.with_token(token, user_id).valid(),
            self.without_token(token).valid(),
            self.knows(t.shaftee) ==> self.with_transaction(t).valid(),
    {
        let grown = self.with_user(user_id, display_name);
        assert forall|u: Seq<char>| self.knows(u) implies grown.knows(u) by {
            let i = self.index_of(u);
            assert(grown.users[i].user_id == u);
        }
        if !self.knows(user_id) {
            assert forall|i: int, j: int| 0 <= i < j < grown.users.len() implies (
            #[trigger] grown.users[i]).user_id != (#[trigger] grown.users[j]).user_id by {
                if j == self.users.len() {
                    assert(self.users[i].user_id != user_id);
                } else {
                    assert(self.users[i].user_id != self.users[j].user_id);
                }
            }
            assert forall|i: int| 0 <= i < grown.transactions.len() implies grown.knows(
                (#[trigger] grown.transactions[i]).shaftee,
            ) by {
                assert(self.knows(self.transactions[i].shaftee));
            }
        }
        if self.knows(user_id) {
            let bound = self.with_token(token, user_id);
            assert forall|k: Seq<char>| #[trigger] bound.tokens.contains_key(k) implies bound.knows(
                bound.tokens[k],
            ) by {
                self.lemma_same_roster(bound, bound.tokens[k]);
                if k != token {
                    assert(self.tokens.contains_key(k));
                }
            }
            assert forall|i: int| 0 <= i < bound.transactions.len() implies bound.knows(
                (#[trigger] bound.transactions[i]).shaftee,
            ) by {
                assert(self.knows(self.transactions[i].shaftee));
                self.lemma_same_roster(bound, self.transactions[i].shaftee);
            }
        }
        let freed = self.without_token(token);
        assert forall|k: Seq<char>| #[trigger] freed.tokens.contains_key(k) implies freed.knows(
            freed.tokens[k],
        ) by {
            assert(self.tokens.contains_key(k));
            self.lemma_same_roster(freed, freed.tokens[k]);
        }
        assert forall|i: int| 0 <= i < freed.transactions.len() implies freed.knows(
            (#[trigger] freed.transactions[i]).shaftee,
        ) by {
            assert(self.knows(self.transactions[i].shaftee));
            self.lemma_same_roster(freed, self.transactions[i].shaftee);
        }
        if self.knows(t.shaftee) {
            let longer = self.with_transaction(t);
            assert forall|k: Seq<char>| #[trigger] longer.tokens.contains_key(k) implies longer.knows(
                longer.tokens[k],
            ) by {
                self.lemma_same_roster(longer, longer.tokens[k]);
            }
            assert forall|i: int| 0 <= i < longer.transactions.len() implies longer.knows(
                (#[trigger] longer.transactions[i]).shaftee,
            ) by {
                if i < self.transactions.len() {
                    assert(self.knows(self.transactions[i].shaftee));
                }
                self.lemma_same_roster(longer, longer.transactions[i].shaftee);
            }
        }
    }

    /// Two listings of the roster agree in their first `upto` entries.
    proof fn lemma_listings_agree(
        self,
        one: Seq<(Seq<char>, UserView)>,
        other: Seq<(Seq<char>, UserView)>,
        upto: int,
    )
        requires
            self.valid(),
            self.is_balance_listing(one),
            self.is_balance_listing(other),
            0 <= upto <= one.len(),
        ensures
            forall|i: int| 0 <= i < upto ==> one[i] == other[i],
        decreases upto,
    {
        if upto > 0 {
            self.lemma_listings_agree(one, other, upto - 1);
            let i = upto - 1;
            let x = one[i].0;
            let y = other[i].0;
            assert(self.knows(x));
            assert(self.knows(y));
            assert(has_key(other, self.users[self.index_of(x)].user_id));
            assert(has_key(one, self.users[self.index_of(y)].user_id));
            let k = choose|k: int| 0 <= k < other.len() && (#[trigger] other[k]).0 == x;
            let m = choose|m: int| 0 <= m < one.len() && (#[trigger] one[m]).0 == y;
            if k < i {
                assert(one[k] == other[k]);
                assert(goes_before(
                    self.balance_of(one[k].0),
                    self.index_of(one[k].0),
                    self.balance_of(one[i].0),
                    self.index_of(one[i].0),
                ));
            }
            if m < i {
                assert(one[m] == other[m]);
                assert(goes_before(
                    self.balance_of(other[m].0),
                    self.index_of(other[m].0),
                    self.balance_of(other[i].0),
                    self.index_of(other[i].0),
                ));
            }
            if k > i {
                assert(goes_before(
                    self.balance_of(other[i].0),
                    self.index_of(other[i].0),
                    self.balance_of(other[k].0),
                    self.index_of(other[k].0),
                ));
            }
            if m > i {
                assert(goes_before(
                    self.balance_of(one[i].0),
                    self.index_of(one[i].0),
                    self.balance_of(one[m].0),
                    self.index_of(one[m].0),
                ));
            }
            assert(k == i);
            assert(one[i].1 == self.record_of(x));
            assert(other[i].1 == self.record_of(x));
        }
    }

    /// A valid state has one listing of its roster by balance and no other:
    /// what [`DatabaseView::is_balance_listing`] asks for settles every entry.
    pub proof fn lemma_balance_listing_is_unique(
        self,
        one: Seq<(Seq<char>, UserView)>,
        other: Seq<(Seq<char>, UserView)>,
    )
        requires
            self.valid(),
            self.is_balance_listing(one),
            self.is_balance_listing(other),
        ensures
            one == other,
    {
        self.lemma_listings_agree(one, other, one.len() as int);
        assert(one =~= other);
    }
}

} // verus!
