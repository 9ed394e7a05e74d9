//! Which account each client session was last served by.
//!
//! A binding is kept under the text `"{scope}::{session_id}"`.

use vstd::prelude::*;
use vstd::string::StringExecFns;
use dashmap::DashMap;
use crate::shared_map::{
    binding_map, bindings_clear, bindings_get, bindings_insert, bindings_is_empty, bindings_len,
    bindings_new, bindings_remove,
};

verus! {

/// The key under which the binding of a session in a scope is kept.
pub open spec fn session_key_text(scope: Seq<char>, session_id: Seq<char>) -> Seq<char> {
    scope + "::"@ + session_id
}

/// Session to account bindings.
pub struct SessionManager {
    bindings: DashMap<String, String>,
}

impl View for SessionManager {
    type V = Map<Seq<char>, Seq<char>>;

    closed spec fn view(&self) -> Map<Seq<char>, Seq<char>> {
        binding_map(self.bindings)
    }
}

/// The account bound to a session in a scope, if any.
pub open spec fn bound_account(
    bindings: Map<Seq<char>, Seq<char>>,
    scope: Seq<char>,
    session_id: Seq<char>,
) -> Option<Seq<char>> {
    if bindings.contains_key(session_key_text(scope, session_id)) {
        Some(bindings[session_key_text(scope, session_id)])
    } else {
        None
    }
}

impl SessionManager {
    /// A manager without bindings.
    pub fn new() -> (r: Self)
        ensures
            r@ == Map::<Seq<char>, Seq<char>>::empty(),
    {
        let r = SessionManager { bindings: bindings_new() };
        assert(r@ =~= Map::<Seq<char>, Seq<char>>::empty());
        r
    }

    /// The key of a session in a scope: `"{scope}::{session_id}"`.
    pub fn session_key(quota_group: &str, session_id: &str) -> (r: String)
        ensures
            r@ == session_key_text(quota_group@, session_id@),
    {
        let mut key = String::from_str(quota_group);
        key.append("::");
        key.append(session_id);
        key
    }

    /// The account bound to the session, if any.
    pub fn get_binding(&self, quota_group: &str, session_id: &str) -> (r: Option<String>)
        ensures
            crate::types::opt_text(r) == bound_account(self@, quota_group@, session_id@),
    {
        let key = Self::session_key(quota_group, session_id);
        bindings_get(&self.bindings, key.as_str())
    }

    /// Binds the session to the account, replacing any earlier binding.
    pub fn set_binding(&mut self, quota_group: &str, session_id: &str, account_id: &str)
        ensures
            final(self)@ == old(self)@.insert(
                session_key_text(quota_group@, session_id@),
                account_id@,
            ),
    {
        let key = Self::session_key(quota_group, session_id);
        bindings_insert(&mut self.bindings, key, String::from_str(account_id));
    }

    /// Removes the session's binding; returns whether there was one.
    pub fn remove_binding(&mut self, quota_group: &str, session_id: &str) -> (r: bool)
        ensures
            r == old(self)@.contains_key(session_key_text(quota_group@, session_id@)),
            final(self)@ == old(self)@.remove(session_key_text(quota_group@, session_id@)),
    {
        let key = Self::session_key(quota_group, session_id);
        bindings_remove(&mut self.bindings, key.as_str()).is_some()
    }

    /// Removes every binding.
    pub fn clear_all(&mut self)
        ensures
            final(self)@ == Map::<Seq<char>, Seq<char>>::empty(),
    {
        bindings_clear(&mut self.bindings);
        assert(self@ =~= Map::<Seq<char>, Seq<char>>::empty());
    }

    /// The number of bindings.
    pub fn len(&self) -> (r: usize)
        ensures
            r == self@.len(),
    {
        bindings_len(&self.bindings)
    }

    /// Whether there is no binding.
    pub fn is_empty(&self) -> (r: bool)
        ensures
            r == (self@ == Map::<Seq<char>, Seq<char>>::empty()),
    {
        let empty = bindings_is_empty(&self.bindings);
        proof {
            if empty {
                assert(self@ =~= Map::<Seq<char>, Seq<char>>::empty());
            } else {
                assert(self@.dom() != Map::<Seq<char>, Seq<char>>::empty().dom());
            }
        }
        empty
    }
}

impl Default for SessionManager {
    fn default() -> (r: Self)
        ensures
            r@ == Map::<Seq<char>, Seq<char>>::empty(),
    {
        SessionManager::new()
    }
}

/// A binding that was set is the one found, until it is set again or
/// removed, and setting one session's binding changes no other key's.
pub proof fn binding_set_then_get(
    bindings: Map<Seq<char>, Seq<char>>,
    scope: Seq<char>,
    session_id: Seq<char>,
    account: Seq<char>,
    other_key: Seq<char>,
)
    ensures
        bound_account(
            bindings.insert(session_key_text(scope, session_id), account),
            scope,
            session_id,
        ) == Some(account),
        other_key != session_key_text(scope, session_id) ==> (bindings.insert(
            session_key_text(scope, session_id),
            account,
        ).contains_key(other_key) <==> bindings.contains_key(other_key)),
        bound_account(
            bindings.remove(session_key_text(scope, session_id)),
            scope,
            session_id,
        ) is None,
{
}

} // verus!
