//! What has to be written to a durable copy of the store.
//!
//! The store lives in memory. A copy of it on disk is brought up to date by
//! writing what the store holds beyond the copy: the roster and the ledger
//! only grow, so the copy is told by how many of each it holds, and tokens
//! come and go, so the copy is told by the tokens it holds.

use vstd::prelude::*;
use crate::db::{transaction_views, Transaction};
use crate::db::memory::MemoryDatabase;
use crate::db::model::{later, AccountView};

verus! {

/// What a durable copy of the store holds.
#[derive(Debug, PartialEq, Eq)]
pub struct Stored {
    /// How many users of the roster it holds.
    pub users: usize,
    /// How many transactions of the ledger it holds.
    pub transactions: usize,
    /// The tokens it holds.
    pub tokens: Vec<String>,
}

/// What is to be written to a durable copy to bring it up to date.
#[derive(Debug, PartialEq, Eq)]
pub struct Pending {
    /// The users to add, each with id and display name, in order of
    /// creation.
    pub users: Vec<(String, String)>,
    /// The tokens to bind, each with the id of its user.
    pub bound: Vec<(String, String)>,
    /// The tokens to take out.
    pub revoked: Vec<String>,
    /// The transactions to append, in order.
    pub transactions: Vec<Transaction>,
}

/// What a list of strings says, as mathematical values.
pub open spec fn texts(list: Seq<String>) -> Seq<Seq<char>> {
    list.map_values(|s: String| s@)
}

/// What a list of pairs of id and display name says, as rows of the roster.
pub open spec fn account_views(list: Seq<(String, String)>) -> Seq<AccountView> {
    list.map_values(|pair: (String, String)| AccountView { user_id: pair.0@, display_name: pair.1@ })
}

/// The tokens of a list of pairs of token and user id.
pub open spec fn tokens_of(list: Seq<(String, String)>) -> Seq<Seq<char>> {
    list.map_values(|pair: (String, String)| pair.0@)
}

/// Whether a list of strings holds this text.
fn holds(list: &Vec<String>, text: &String) -> (found: bool)
    ensures
        found == texts(list@).contains(text@),
{
    let mut i: usize = 0;
    while i < list.len()
        invariant
            i <= list.len(),
            forall|k: int| 0 <= k < i ==> (#[trigger] list[k])@ != text@,
        decreases list.len() - i,
    {
        if list[i] == *text {
            assert(texts(list@)[i as int] == text@);
            return true;
        }
        i += 1;
    }
    proof {
        if texts(list@).contains(text@) {
            let k = choose|k: int| 0 <= k < texts(list@).len() && texts(list@)[k] == text@;
            assert(list[k]@ != text@);
        }
    }
    false
}

/// The pairs whose first part is not in `known`, in their order. `from` says
/// where in `pairs` each of them stands.
fn pairs_beyond(pairs: &Vec<(String, String)>, known: &Vec<String>) -> (beyond: (
    Vec<(String, String)>,
    Ghost<Seq<int>>,
))
    ensures
        beyond.1@.len() == beyond.0.len(),
        forall|k: int|
            0 <= k < beyond.0.len() ==> {
                let from = #[trigger] beyond.1@[k];
                &&& 0 <= from < pairs.len()
                &&& beyond.0[k].0@ == pairs[from].0@
                &&& beyond.0[k].1@ == pairs[from].1@
                &&& !texts(known@).contains(pairs[from].0@)
            },
        forall|a: int, b: int|
            0 <= a < b < beyond.0.len() ==> (#[trigger] beyond.1@[a]) < (#[trigger] beyond.1@[b]),
        forall|from: int|
            0 <= from < pairs.len() && !texts(known@).contains((#[trigger] pairs[from]).0@)
                ==> beyond.1@.contains(from),
{
    let mut list: Vec<(String, String)> = Vec::new();
    let ghost mut places: Seq<int> = Seq::empty();
    let mut s: usize = 0;
    while s < pairs.len()
        invariant
            s <= pairs.len(),
            places.len() == list.len(),
            forall|k: int|
                0 <= k < list.len() ==> {
                    let from = #[trigger] places[k];
                    &&& 0 <= from < s
                    &&& list[k].0@ == pairs[from].0@
                    &&& list[k].1@ == pairs[from].1@
                    &&& !texts(known@).contains(pairs[from].0@)
                },
            forall|a: int, b: int|
                0 <= a < b < list.len() ==> (#[trigger] places[a]) < (#[trigger] places[b]),
            forall|from: int|
                0 <= from < s && !texts(known@).contains((#[trigger] pairs[from]).0@)
                    ==> places.contains(from),
        decreases pairs.len() - s,
    {
        if !holds(known, &pairs[s].0) {
            let ghost before = places;
            list.push((pairs[s].0.clone(), pairs[s].1.clone()));
            proof {
                places = before.push(s as int);
                assert forall|from: int|
                    0 <= from < s + 1 && !texts(known@).contains(
                        (#[trigger] pairs[from]).0@,
                    ) implies places.contains(from) by {
                    if from < s {
                        assert(before.contains(from));
                        let k = choose|k: int| 0 <= k < before.len() && before[k] == from;
                        assert(places[k] == from);
                    } else {
                        assert(places[places.len() - 1] == from);
                    }
                }
            }
        }
        s += 1;
    }
    (list, Ghost(places))
}

impl MemoryDatabase {
    /// What a durable copy holds once everything was written to it.
    pub fn stored(&self) -> (stored: Stored)
        requires
            self.wf(),
        ensures
            stored.users == self@.users.len(),
            stored.transactions == self@.transactions.len(),
            forall|token: Seq<char>|
                self@.tokens.contains_key(token) <==> #[trigger] texts(stored.tokens@).contains(
                    token,
                ),
    {
        let sessions = self.sessions();
        let mut tokens: Vec<String> = Vec::new();
        let mut i: usize = 0;
        while i < sessions.len()
            invariant
                i <= sessions.len(),
                tokens.len() == i,
                forall|k: int| 0 <= k < i ==> (#[trigger] tokens[k])@ == sessions[k].0@,
            decreases sessions.len() - i,
        {
            tokens.push(sessions[i].0.clone());
            i += 1;
        }
        proof {
            assert forall|token: Seq<char>|
                self@.tokens.contains_key(token) <==> #[trigger] texts(tokens@).contains(
                    token,
                ) by {
                if self@.tokens.contains_key(token) {
                    let k = choose|k: int|
                        0 <= k < sessions.len() && (#[trigger] sessions[k]).0@ == token;
                    assert(texts(tokens@)[k] == token);
                }
                if texts(tokens@).contains(token) {
                    let k = choose|k: int|
                        0 <= k < texts(tokens@).len() && texts(tokens@)[k] == token;
                    assert(sessions[k].0@ == token);
                }
            }
        }
        Stored { users: self.roster().len(), transactions: self.transaction_count(), tokens }
    }

    /// The users beyond the first `start` of the roster, in order of
    /// creation.
    fn users_from(&self, start: usize) -> (list: Vec<(String, String)>)
        ensures
            account_views(list@) == later(self@.users, start as nat),
    {
        let roster = self.roster();
        let mut list: Vec<(String, String)> = Vec::new();
        let mut i: usize = start;
        while i < roster.len()
            invariant
                start <= i,
                start <= roster.len() ==> i <= roster.len(),
                i <= roster.len() || list.len() == 0,
                i <= roster.len() ==> list.len() == i - start,
                forall|k: int|
                    0 <= k < list.len() ==> (#[trigger] list[k]).0@ == roster[start + k].0@
                        && list[k].1@ == roster[start + k].1@,
            decreases roster.len() - i,
        {
            list.push((roster[i].0.clone(), roster[i].1.clone()));
            i += 1;
        }
        proof {
            let views = account_views(list@);
            let expected = later(self@.users, start as nat);
            if start <= roster.len() {
                assert(views.len() == expected.len());
                assert forall|k: int| 0 <= k < views.len() implies views[k] == expected[k] by {
                    assert(list[k].0@ == roster[start + k].0@);
                    assert(roster[start + k].0@ == self@.users[start + k].user_id);
                }
            }
            assert(views =~= expected);
        }
        list
    }

    /// Those of the given tokens that are not bound, in their order.
    fn unbound_of(&self, tokens: &Vec<String>) -> (list: Vec<String>)
        requires
            self.wf(),
        ensures
            forall|k: int|
                0 <= k < list.len() ==> texts(tokens@).contains((#[trigger] list[k])@)
                    && !self@.tokens.contains_key(list[k]@),
            forall|j: int|
                0 <= j < tokens.len() && !self@.tokens.contains_key((#[trigger] tokens[j])@)
                    ==> texts(list@).contains(tokens[j]@),
    {
        let mut list: Vec<String> = Vec::new();
        let mut r: usize = 0;
        while r < tokens.len()
            invariant
                self.wf(),
                r <= tokens.len(),
                forall|k: int|
                    0 <= k < list.len() ==> texts(tokens@).contains((#[trigger] list[k])@)
                        && !self@.tokens.contains_key(list[k]@),
                forall|j: int|
                    0 <= j < r && !self@.tokens.contains_key((#[trigger] tokens[j])@) ==> texts(
                        list@,
                    ).contains(tokens[j]@),
            decreases tokens.len() - r,
        {
            if !self.is_bound(&tokens[r]) {
                let ghost before = list@;
                list.push(tokens[r].clone());
                proof {
                    let last = list.len() - 1;
                    assert(texts(tokens@)[r as int] == tokens[r as int]@);
                    assert forall|k: int| 0 <= k < list.len() implies texts(tokens@).contains(
                        (#[trigger] list[k])@,
                    ) && !self@.tokens.contains_key(list[k]@) by {
                        if k < last {
                            assert(list[k] == before[k]);
                        }
                    }
                    assert forall|j: int|
                        0 <= j < r + 1 && !self@.tokens.contains_key(
                            (#[trigger] tokens[j])@,
                        ) implies texts(list@).contains(tokens[j]@) by {
                        if j < r {
                            assert(texts(before).contains(tokens[j]@));
                            let k = choose|k: int|
                                0 <= k < texts(before).len() && texts(before)[k] == tokens[j]@;
                            assert(list[k] == before[k]);
                            assert(texts(list@)[k] == tokens[j]@);
                        } else {
                            assert(texts(list@)[last] == tokens[j]@);
                        }
                    }
                }
            }
            r += 1;
        }
        list
    }

    /// What is to be written to a durable copy that holds `stored`:
    ///
    /// - the users and the transactions beyond those it holds, in order;
    /// - each live token that it does not hold, once, with its user;
    /// - each token that it holds and that is not live.
    pub fn pending(&self, stored: &Stored) -> (pending: Pending)
        requires
            self.wf(),
        ensures
            account_views(pending.users@) == later(self@.users, stored.users as nat),
            transaction_views(pending.transactions@) == later(
                self@.transactions,
                stored.transactions as nat,
            ),
            forall|i: int|
                0 <= i < pending.bound.len() ==> {
                    let token = (#[trigger] pending.bound[i]).0@;
                    &&& self@.tokens.contains_key(token)
                    &&& self@.tokens[token] == pending.bound[i].1@
                    &&& !texts(stored.tokens@).contains(token)
                },
            forall|i: int, j: int|
                0 <= i < j < pending.bound.len() ==> (#[trigger] pending.bound[i]).0@ != (
                #[trigger] pending.bound[j]).0@,
            forall|token: Seq<char>|
                #[trigger] self@.tokens.contains_key(token) && !texts(stored.tokens@).contains(token)
                    ==> tokens_of(pending.bound@).contains(token),
            forall|i: int|
                0 <= i < pending.revoked.len() ==> texts(stored.tokens@).contains(
                    (#[trigger] pending.revoked[i])@,
                ) && !self@.tokens.contains_key(pending.revoked[i]@),
            forall|j: int|
                0 <= j < stored.tokens.len() && !self@.tokens.contains_key(
                    (#[trigger] stored.tokens[j])@,
                ) ==> texts(pending.revoked@).contains(stored.tokens[j]@),
    {
        let users = self.users_from(stored.users);
        let sessions = self.sessions();
        let (bound, Ghost(places)) = pairs_beyond(&sessions, &stored.tokens);
        let revoked = self.unbound_of(&stored.tokens);
        let transactions = self.transactions_from(stored.transactions);
        proof {
            assert forall|k: int| 0 <= k < bound.len() implies {
                let token = (#[trigger] bound[k]).0@;
                &&& self@.tokens.contains_key(token)
                &&& self@.tokens[token] == bound[k].1@
                &&& !texts(stored.tokens@).contains(token)
            } by {
                let from = places[k];
                assert(self@.tokens.contains_key(sessions[from].0@));
            }
            assert forall|a: int, b: int| 0 <= a < b < bound.len() implies (#[trigger] bound[a]).0@
                != (#[trigger] bound[b]).0@ by {
                assert(places[a] < places[b]);
                assert(sessions[places[a]].0@ != sessions[places[b]].0@);
            }
            assert forall|token: Seq<char>|
                #[trigger] self@.tokens.contains_key(token) && !texts(stored.tokens@).contains(
                    token,
                ) implies tokens_of(bound@).contains(token) by {
                let from = choose|from: int|
                    0 <= from < sessions.len() && (#[trigger] sessions[from]).0@ == token;
                assert(places.contains(from));
                let k = choose|k: int| 0 <= k < places.len() && places[k] == from;
                assert(tokens_of(bound@)[k] == token);
            }
        }
        Pending { users, bound, revoked, transactions }
    }
}

} // verus!
