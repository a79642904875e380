//! The arithmetic of the ledger: what a sequence of transactions means for
//! the balance of each user.

use vstd::prelude::*;
use crate::db::TransactionView;

verus! {

/// What one transaction adds to the balance of `user`: the amount where
/// `user` is the shafter, minus the amount where `user` is the shaftee.
pub open spec fn effect(t: TransactionView, user: Seq<char>) -> int {
    (if t.shafter == user { t.amount } else { 0 }) - (if t.shaftee == user { t.amount } else { 0 })
}

/// The sum of the amounts of the transactions that `user` created.
pub open spec fn credited(txns: Seq<TransactionView>, user: Seq<char>) -> int
    decreases txns.len(),
{
    if txns.len() == 0 {
        0
    } else {
        credited(txns.drop_last(), user) + (if txns.last().shafter == user {
            txns.last().amount
        } else {
            0
        })
    }
}

/// The sum of the amounts of the transactions made against `user`.
pub open spec fn debited(txns: Seq<TransactionView>, user: Seq<char>) -> int
    decreases txns.len(),
{
    if txns.len() == 0 {
        0
    } else {
        debited(txns.drop_last(), user) + (if txns.last().shaftee == user {
            txns.last().amount
        } else {
            0
        })
    }
}

/// The net balance of `user`: everything they are owed minus everything
/// they owe.
pub open spec fn balance(txns: Seq<TransactionView>, user: Seq<char>) -> int {
    credited(txns, user) - debited(txns, user)
}

/// The sum of the balances of the users listed in `users`.
pub open spec fn total_balance(txns: Seq<TransactionView>, users: Seq<Seq<char>>) -> int
    decreases users.len(),
{
    if users.len() == 0 {
        0
    } else {
        total_balance(txns, users.drop_last()) + balance(txns, users.last())
    }
}

/// A user without transactions has a balance of zero.
pub proof fn lemma_balance_empty(user: Seq<char>)
    ensures
        balance(Seq::<TransactionView>::empty(), user) == 0,
{
}

/// Appending one transaction changes each balance by that transaction's
/// effect and by nothing else.
pub proof fn lemma_balance_push(txns: Seq<TransactionView>, t: TransactionView, user: Seq<char>)
    ensures
        balance(txns.push(t), user) == balance(txns, user) + effect(t, user),
{
    assert(txns.push(t).drop_last() =~= txns);
}

/// No balance can leave the range that its transactions span: each of them
/// moves it by at most 2^63.
pub proof fn lemma_balance_bound(txns: Seq<TransactionView>, user: Seq<char>)
    requires
        forall|i: int| 0 <= i < txns.len() ==> i64::MIN <= (#[trigger] txns[i]).amount <= i64::MAX,
    ensures
        -(txns.len() * 0x8000_0000_0000_0000) <= balance(txns, user) <= txns.len()
            * 0x8000_0000_0000_0000,
    decreases txns.len(),
{
    if txns.len() > 0 {
        let t = txns.last();
        lemma_balance_bound(txns.drop_last(), user);
        assert(txns.drop_last().push(t) =~= txns);
        lemma_balance_push(txns.drop_last(), t, user);
    }
}

} // verus!
