//! The concurrent maps that hold the crate's state, and what is assumed of them.
//!
//! `dashmap::DashMap` changes its contents through shared references. Here
//! every operation that changes a map takes it by `&mut`, so that a contract
//! can speak of the contents before and after the call; a caller that shares
//! a map between tasks has to provide that exclusive access itself. Nothing
//! in this file is proved: each function is a single call into `dashmap`
//! (`fresh_lock` into `tokio`), and its contract says what that call does
//! to the contents.

use vstd::prelude::*;
use dashmap::DashMap;
use std::sync::Arc;
use tokio::sync::Mutex;
use crate::types::{models, ProxyToken, TokenModel};

verus! {

#[verifier::external_type_specification]
#[verifier::external_body]
#[verifier::reject_recursive_types(K)]
#[verifier::reject_recursive_types(V)]
#[verifier::reject_recursive_types(S)]
pub struct ExDashMap<K, V, S>(DashMap<K, V, S>);

#[verifier::external_type_specification]
#[verifier::external_body]
#[verifier::reject_recursive_types(T)]
pub struct ExMutex<T: ?Sized>(Mutex<T>);

/// The bindings that a map from text to text holds.
pub uninterp spec fn binding_map(m: DashMap<String, String>) -> Map<Seq<char>, Seq<char>>;

/// `DashMap::new`: a map without entries.
#[verifier::external_body]
pub(crate) fn bindings_new() -> (made: DashMap<String, String>)
    ensures
        binding_map(made).dom() == Set::<Seq<char>>::empty(),
{
    DashMap::new()
}

/// `DashMap::get`, with the value cloned out of the guard: the value stored
/// under `key`, if there is one.
#[verifier::external_body]
pub(crate) fn bindings_get(m: &DashMap<String, String>, key: &str) -> (found: Option<String>)
    ensures
        match found {
            Some(v) => binding_map(*m).contains_key(key@) && binding_map(*m)[key@] == v@,
            None => !binding_map(*m).contains_key(key@),
        },
{
    m.get(key).map(|v| v.clone())
}

/// `DashMap::insert`: afterwards `key` maps to `value`, replacing any
/// earlier value, and no other entry has changed.
#[verifier::external_body]
pub(crate) fn bindings_insert(m: &mut DashMap<String, String>, key: String, value: String)
    ensures
        binding_map(*final(m)) == binding_map(*old(m)).insert(key@, value@),
{
    m.insert(key, value);
}

/// `DashMap::remove`: the entry under `key` leaves the map and its value is
/// returned; without such an entry the map stays as it is.
#[verifier::external_body]
pub(crate) fn bindings_remove(m: &mut DashMap<String, String>, key: &str) -> (removed: Option<String>)
    ensures
        binding_map(*final(m)) == binding_map(*old(m)).remove(key@),
        match removed {
            Some(v) => binding_map(*old(m)).contains_key(key@) && binding_map(*old(m))[key@] == v@,
            None => !binding_map(*old(m)).contains_key(key@),
        },
{
    m.remove(key).map(|kv| kv.1)
}

/// `DashMap::clear`: afterwards the map has no entries.
#[verifier::external_body]
pub(crate) fn bindings_clear(m: &mut DashMap<String, String>)
    ensures
        binding_map(*final(m)).dom() == Set::<Seq<char>>::empty(),
{
    m.clear();
}

/// `DashMap::len`: the number of entries.
#[verifier::external_body]
pub(crate) fn bindings_len(m: &DashMap<String, String>) -> (n: usize)
    ensures
        n == binding_map(*m).dom().len(),
{
    m.len()
}

/// `DashMap::is_empty`: whether the map has no entries.
#[verifier::external_body]
pub(crate) fn bindings_is_empty(m: &DashMap<String, String>) -> (empty: bool)
    ensures
        empty == (binding_map(*m).dom() == Set::<Seq<char>>::empty()),
{
    m.is_empty()
}

/// The counters that a map from text to counters holds.
pub uninterp spec fn cursor_map(m: DashMap<String, usize>) -> Map<Seq<char>, usize>;

/// `DashMap::new`: a map without entries.
#[verifier::external_body]
pub(crate) fn cursors_new() -> (made: DashMap<String, usize>)
    ensures
        cursor_map(made).dom() == Set::<Seq<char>>::empty(),
{
    DashMap::new()
}

/// `DashMap::get`, with the value copied out of the guard: the counter
/// stored under `key`, if there is one.
#[verifier::external_body]
pub(crate) fn cursors_get(m: &DashMap<String, usize>, key: &str) -> (found: Option<usize>)
    ensures
        match found {
            Some(v) => cursor_map(*m).contains_key(key@) && cursor_map(*m)[key@] == v,
            None => !cursor_map(*m).contains_key(key@),
        },
{
    m.get(key).map(|v| *v)
}

/// `DashMap::insert`: afterwards `key` maps to `value`, replacing any
/// earlier value, and no other entry has changed.
#[verifier::external_body]
pub(crate) fn cursors_insert(m: &mut DashMap<String, usize>, key: String, value: usize)
    ensures
        cursor_map(*final(m)) == cursor_map(*old(m)).insert(key@, value),
{
    m.insert(key, value);
}

/// None of the map's entries holds the handle.
pub open spec fn new_to(locks: Map<Seq<char>, Arc<Mutex<()>>>, handle: Arc<Mutex<()>>) -> bool {
    forall|k: Seq<char>| #[trigger] locks.contains_key(k) ==> locks[k] != handle
}

/// `tokio::sync::Mutex::new`, in a new `Arc`: a mutex of its own, so the
/// handle that comes back differs from every handle that the map holds.
/// The map is taken only so that the contract can speak of it.
#[verifier::external_body]
#[allow(unused_variables)]
pub(crate) fn fresh_lock(held: &DashMap<String, Arc<Mutex<()>>>) -> (made: Arc<Mutex<()>>)
    ensures
        new_to(lock_map(*held), made),
{
    Arc::new(Mutex::new(()))
}

/// The lock handles that a map from account ids to locks holds.
pub uninterp spec fn lock_map(m: DashMap<String, Arc<Mutex<()>>>) -> Map<Seq<char>, Arc<Mutex<()>>>;

/// The locks after a handle was asked for under `key` and `handle` came
/// back: the handle already stored there, or else a new entry with it.
pub open spec fn locks_after(
    before: Map<Seq<char>, Arc<Mutex<()>>>,
    key: Seq<char>,
    handle: Arc<Mutex<()>>,
) -> Map<Seq<char>, Arc<Mutex<()>>> {
    if before.contains_key(key) {
        before
    } else {
        before.insert(key, handle)
    }
}

/// `DashMap::new`: a map without entries.
#[verifier::external_body]
pub(crate) fn locks_new() -> (made: DashMap<String, Arc<Mutex<()>>>)
    ensures
        lock_map(made).dom() == Set::<Seq<char>>::empty(),
{
    DashMap::new()
}

/// `DashMap::get`, with the handle cloned out of the guard: the handle
/// stored under `key`, if there is one.
#[verifier::external_body]
pub(crate) fn locks_get(m: &DashMap<String, Arc<Mutex<()>>>, key: &str) -> (found: Option<Arc<Mutex<()>>>)
    ensures
        match found {
            Some(h) => lock_map(*m).contains_key(key@) && lock_map(*m)[key@] == h,
            None => !lock_map(*m).contains_key(key@),
        },
{
    m.get(key).map(|h| h.clone())
}

/// `DashMap::insert`: afterwards `key` maps to `handle`, and no other
/// entry has changed.
#[verifier::external_body]
pub(crate) fn locks_insert(m: &mut DashMap<String, Arc<Mutex<()>>>, key: String, handle: Arc<Mutex<()>>)
    ensures
        lock_map(*final(m)) == lock_map(*old(m)).insert(key@, handle),
{
    m.insert(key, handle);
}

/// The token records that a map from account ids to tokens holds.
pub uninterp spec fn account_map(m: DashMap<String, ProxyToken>) -> Map<Seq<char>, TokenModel>;

/// `values` lists what `map` holds: one value for each key, each key once,
/// in some order.
pub open spec fn is_listing(values: Seq<TokenModel>, map: Map<Seq<char>, TokenModel>) -> bool {
    exists|keys: Seq<Seq<char>>|
        {
            &&& keys.len() == values.len()
            &&& keys.no_duplicates()
            &&& #[trigger] keys.to_set() == map.dom()
            &&& forall|i: int| 0 <= i < keys.len() ==> map[#[trigger] keys[i]] == values[i]
        }
}

/// `DashMap::new`: a map without entries.
#[verifier::external_body]
pub(crate) fn accounts_new() -> (made: DashMap<String, ProxyToken>)
    ensures
        account_map(made).dom() == Set::<Seq<char>>::empty(),
{
    DashMap::new()
}

/// `DashMap::get`, with the value cloned out of the guard: the record
/// stored under `key`, if there is one.
#[verifier::external_body]
pub(crate) fn accounts_get(m: &DashMap<String, ProxyToken>, key: &str) -> (found: Option<ProxyToken>)
    ensures
        match found {
            Some(t) => account_map(*m).contains_key(key@) && account_map(*m)[key@] == t@,
            None => !account_map(*m).contains_key(key@),
        },
{
    m.get(key).map(|t| t.clone())
}

/// `DashMap::insert`: afterwards `key` maps to `value`, replacing any
/// earlier value, and no other entry has changed.
#[verifier::external_body]
pub(crate) fn accounts_insert(m: &mut DashMap<String, ProxyToken>, key: String, value: ProxyToken)
    ensures
        account_map(*final(m)) == account_map(*old(m)).insert(key@, value@),
{
    m.insert(key, value);
}

/// `DashMap::remove`: the entry under `key` leaves the map; without such
/// an entry the map stays as it is.
#[verifier::external_body]
pub(crate) fn accounts_remove(m: &mut DashMap<String, ProxyToken>, key: &str)
    ensures
        account_map(*final(m)) == account_map(*old(m)).remove(key@),
{
    m.remove(key);
}

/// `DashMap::clear`: afterwards the map has no entries.
#[verifier::external_body]
pub(crate) fn accounts_clear(m: &mut DashMap<String, ProxyToken>)
    ensures
        account_map(*final(m)).dom() == Set::<Seq<char>>::empty(),
{
    m.clear();
}

/// `DashMap::len`: the number of entries.
#[verifier::external_body]
pub(crate) fn accounts_len(m: &DashMap<String, ProxyToken>) -> (n: usize)
    ensures
        n == account_map(*m).dom().len(),
{
    m.len()
}

/// `DashMap::is_empty`: whether the map has no entries.
#[verifier::external_body]
pub(crate) fn accounts_is_empty(m: &DashMap<String, ProxyToken>) -> (empty: bool)
    ensures
        empty == (account_map(*m).dom() == Set::<Seq<char>>::empty()),
{
    m.is_empty()
}

/// `DashMap::iter`, with each value cloned into a vector: every record of
/// the map once. The order is the map's own and nothing is stated of it.
#[verifier::external_body]
pub(crate) fn accounts_values(m: &DashMap<String, ProxyToken>) -> (listed: Vec<ProxyToken>)
    ensures
        is_listing(models(listed@), account_map(*m)),
{
    m.iter().map(|e| e.value().clone()).collect()
}

} // verus!
