//! The insertion-ordered map of users that the roster is handed out in.
//!
//! The map is the `LinearMap` of the `linear_map` crate, a vector of
//! key-value pairs that is searched from the front. Nothing in here is
//! proved: each function states what the crate's source shows of one method.

use vstd::prelude::*;
use linear_map::LinearMap;
use crate::db::{User, UserView};
use crate::db::model::{first_with_key, has_key};

verus! {

/// `LinearMap` of the `linear_map` crate. What a map of users holds is told
/// by [`entries`] alone.
#[verifier::external_type_specification]
#[verifier::external_body]
#[verifier::reject_recursive_types(K)]
#[verifier::reject_recursive_types(V)]
pub struct ExLinearMap<K, V>(LinearMap<K, V>);

/// The key-value pairs that a map of users holds, in the order of its
/// backing vector: the order in which the keys were first inserted, as long
/// as nothing was removed. This is the order in which it is iterated.
pub uninterp spec fn entries(map: LinearMap<String, User>) -> Seq<(Seq<char>, UserView)>;

/// `LinearMap::new`: a map without entries.
#[verifier::external_body]
pub(crate) fn empty_map() -> (map: LinearMap<String, User>)
    ensures
        entries(map) == Seq::<(Seq<char>, UserView)>::empty(),
{
    LinearMap::new()
}

/// `LinearMap::insert`: where no entry has the key, the pair is pushed
/// behind the last entry and `None` comes back. Otherwise the value of the
/// first entry with that key is replaced, in its place, and the value it had
/// comes back.
#[verifier::external_body]
pub(crate) fn insert_entry(map: &mut LinearMap<String, User>, key: String, value: User) -> (previous:
    Option<User>)
    ensures
        match previous {
            None => {
                &&& !has_key(entries(*old(map)), key@)
                &&& entries(*final(map)) == entries(*old(map)).push((key@, value@))
            },
            Some(replaced) => {
                let at = first_with_key(entries(*old(map)), key@);
                &&& has_key(entries(*old(map)), key@)
                &&& replaced@ == entries(*old(map))[at].1
                &&& entries(*final(map)) == entries(*old(map)).update(at, (key@, value@))
            },
        },
{
    map.insert(key, value)
}

/// `LinearMap::get`: the value of the first entry with the key, or `None`
/// where no entry has it.
#[verifier::external_body]
pub(crate) fn get_entry<'a>(map: &'a LinearMap<String, User>, key: &String) -> (found: Option<
    &'a User,
>)
    ensures
        match found {
            None => !has_key(entries(*map), key@),
            Some(user) => has_key(entries(*map), key@) && user@ == entries(*map)[first_with_key(
                entries(*map),
                key@,
            )].1,
        },
{
    map.get(key)
}

/// `LinearMap::values`, collected: the values of all entries, in the order
/// of the entries.
#[verifier::external_body]
pub(crate) fn entry_values<'a>(map: &'a LinearMap<String, User>) -> (values: Vec<&'a User>)
    ensures
        values.len() == entries(*map).len(),
        forall|i: int| 0 <= i < values.len() ==> (#[trigger] values[i])@ == entries(*map)[i].1,
{
    map.values().collect()
}

} // verus!
