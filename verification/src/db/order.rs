//! Ordering user records by balance, the most indebted first.

use vstd::prelude::*;
use crate::db::{User, UserView};

verus! {

/// What a list of user records says, as mathematical values.
pub open spec fn user_views(list: Seq<User>) -> Seq<UserView> {
    list.map_values(|u: User| u@)
}

/// Whether a record with balance `low`, from place `first`, belongs before
/// one with balance `high`, from place `second`.
pub open spec fn goes_before(low: int, first: int, high: int, second: int) -> bool {
    low < high || (low == high && first < second)
}

/// Whether `sorted` holds the records of `rows` in ascending order of
/// balance, records of equal balance in the order they have in `rows`.
/// `place` says where in `rows` each record of `sorted` stands.
pub open spec fn is_stable_order(rows: Seq<UserView>, sorted: Seq<UserView>, place: Seq<int>) -> bool {
    &&& sorted.len() == rows.len()
    &&& place.len() == rows.len()
    &&& forall|a: int|
        0 <= a < sorted.len() ==> 0 <= (#[trigger] place[a]) < rows.len() && sorted[a]
            == rows[place[a]]
    &&& forall|a: int, b: int|
        0 <= a < b < sorted.len() ==> #[trigger] goes_before(
            sorted[a].balance,
            place[a],
            sorted[b].balance,
            place[b],
        )
    &&& forall|r: int| 0 <= r < rows.len() ==> #[trigger] place.contains(r)
}

/// Whether the records stand in ascending order of balance.
pub open spec fn ascending(rows: Seq<UserView>) -> bool {
    forall|i: int, j: int|
        0 <= i < j < rows.len() ==> (#[trigger] rows[i]).balance <= (#[trigger] rows[j]).balance
}

/// In a stable order of records that were ascending already, no place is
/// below its index.
proof fn lemma_place_from_below(rows: Seq<UserView>, sorted: Seq<UserView>, place: Seq<int>, a: int)
    requires
        is_stable_order(rows, sorted, place),
        ascending(rows),
        0 <= a < rows.len(),
    ensures
        place[a] >= a,
    decreases a,
{
    if a > 0 {
        lemma_place_from_below(rows, sorted, place, a - 1);
        assert(goes_before(sorted[a - 1].balance, place[a - 1], sorted[a].balance, place[a]));
        if place[a - 1] > place[a] {
            assert(rows[place[a]].balance <= rows[place[a - 1]].balance);
        }
    }
}

/// In a stable order of records that were ascending already, no place is
/// above its index.
proof fn lemma_place_from_above(rows: Seq<UserView>, sorted: Seq<UserView>, place: Seq<int>, a: int)
    requires
        is_stable_order(rows, sorted, place),
        ascending(rows),
        0 <= a < rows.len(),
    ensures
        place[a] <= a,
    decreases rows.len() - a,
{
    if a < rows.len() - 1 {
        lemma_place_from_above(rows, sorted, place, a + 1);
        assert(goes_before(sorted[a].balance, place[a], sorted[a + 1].balance, place[a + 1]));
        if place[a] > place[a + 1] {
            assert(rows[place[a + 1]].balance <= rows[place[a]].balance);
        }
    }
}

/// Sorting leaves records alone that are in ascending order already.
pub proof fn lemma_sorted_stays(rows: Seq<UserView>, sorted: Seq<UserView>, place: Seq<int>)
    requires
        is_stable_order(rows, sorted, place),
        ascending(rows),
    ensures
        sorted == rows,
{
    assert forall|a: int| 0 <= a < rows.len() implies sorted[a] == rows[a] by {
        lemma_place_from_below(rows, sorted, place, a);
        lemma_place_from_above(rows, sorted, place, a);
    }
    assert(sorted =~= rows);
}

/// Sorts user records by balance, ascending. The sort is stable. Besides
/// the sorted records it says where each of them came from.
pub(crate) fn sort_by_balance(rows: &Vec<User>) -> (sorted: (Vec<User>, Ghost<Seq<int>>))
    ensures
        is_stable_order(user_views(rows@), user_views(sorted.0@), sorted.1@),
{
    let mut sorted: Vec<User> = Vec::new();
    let ghost mut place: Seq<int> = Seq::empty();
    let mut k: usize = 0;
    while k < rows.len()
        invariant
            k <= rows.len(),
            sorted.len() == k,
            place.len() == k,
            forall|a: int|
                0 <= a < k ==> 0 <= (#[trigger] place[a]) < k && sorted[a]@ == rows[place[a]]@,
            forall|a: int, b: int|
                0 <= a < b < k ==> #[trigger] goes_before(
                    sorted[a].balance as int,
                    place[a],
                    sorted[b].balance as int,
                    place[b],
                ),
            forall|r: int| 0 <= r < k ==> #[trigger] place.contains(r),
        decreases rows.len() - k,
    {
        let row = rows[k].clone();
        let mut p: usize = 0;
        while p < sorted.len() && sorted[p].balance <= row.balance
            invariant
                p <= sorted.len(),
                forall|a: int| 0 <= a < p ==> (#[trigger] sorted[a]).balance <= row.balance,
            decreases sorted.len() - p,
        {
            p += 1;
        }
        let ghost before = sorted@;
        let ghost before_place = place;
        sorted.insert(p, row);
        proof {
            place = before_place.insert(p as int, k as int);
            assert forall|a: int| 0 <= a < k + 1 implies 0 <= (#[trigger] place[a]) < k + 1
                && sorted[a]@ == rows[place[a]]@ by {
                if a < p {
                    assert(place[a] == before_place[a]);
                    assert(sorted[a] == before[a]);
                } else if a > p {
                    assert(place[a] == before_place[a - 1]);
                    assert(sorted[a] == before[a - 1]);
                }
            }
            assert forall|a: int, b: int| 0 <= a < b < k + 1 implies #[trigger] goes_before(
                sorted[a].balance as int,
                place[a],
                sorted[b].balance as int,
                place[b],
            ) by {
                assert(sorted[p as int] == row);
                assert(place[p as int] == k);
                if b < p {
                    assert(place[a] == before_place[a] && sorted[a] == before[a]);
                    assert(place[b] == before_place[b] && sorted[b] == before[b]);
                    assert(goes_before(
                        before[a].balance as int,
                        before_place[a],
                        before[b].balance as int,
                        before_place[b],
                    ));
                } else if b == p {
                    assert(place[a] == before_place[a] && sorted[a] == before[a]);
                    assert(before[a].balance <= row.balance);
                } else if a < p {
                    assert(place[a] == before_place[a] && sorted[a] == before[a]);
                    assert(place[b] == before_place[b - 1] && sorted[b] == before[b - 1]);
                    assert(goes_before(
                        before[a].balance as int,
                        before_place[a],
                        before[b - 1].balance as int,
                        before_place[b - 1],
                    ));
                } else if a == p {
                    assert(place[b] == before_place[b - 1] && sorted[b] == before[b - 1]);
                    assert(before[p as int].balance > row.balance);
                    if p < b - 1 {
                        assert(goes_before(
                            before[p as int].balance as int,
                            before_place[p as int],
                            before[b - 1].balance as int,
                            before_place[b - 1],
                        ));
                    }
                } else {
                    assert(place[a] == before_place[a - 1] && sorted[a] == before[a - 1]);
                    assert(place[b] == before_place[b - 1] && sorted[b] == before[b - 1]);
                    assert(goes_before(
                        before[a - 1].balance as int,
                        before_place[a - 1],
                        before[b - 1].balance as int,
                        before_place[b - 1],
                    ));
                }
            }
            assert forall|r: int| 0 <= r < k + 1 implies #[trigger] place.contains(r) by {
                if r == k {
                    assert(place[p as int] == r);
                } else {
                    assert(before_place.contains(r));
                    let a0 = choose|a: int| 0 <= a < k && before_place[a] == r;
                    let a = if a0 < p { a0 } else { a0 + 1 };
                    assert(place[a] == r);
                }
            }
        }
        k += 1;
    }
    proof {
        let from = user_views(rows@);
        let to = user_views(sorted@);
        assert forall|a: int| 0 <= a < to.len() implies 0 <= (#[trigger] place[a]) < from.len()
            && to[a] == from[place[a]] by {
            assert(sorted[a]@ == rows[place[a]]@);
        }
        assert forall|a: int, b: int| 0 <= a < b < to.len() implies #[trigger] goes_before(
            to[a].balance,
            place[a],
            to[b].balance,
            place[b],
        ) by {
            assert(goes_before(
                sorted[a].balance as int,
                place[a],
                sorted[b].balance as int,
                place[b],
            ));
        }
    }
    (sorted, Ghost(place))
}

} // verus!
