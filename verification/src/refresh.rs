//! Refreshing access tokens: one lock per account, the check that decides
//! whether a refresh is still needed, and what a refresh persists.

use vstd::prelude::*;
use vstd::string::StringExecFns;
use dashmap::DashMap;
use std::sync::Arc;
use tokio::sync::Mutex;
use crate::account_file::{
    refresh_changes, refreshed_account_text, rewrite_result, token_settable, token_updated,
};
use crate::clock::epoch_seconds;
use crate::shared_map::{
    fresh_lock, lock_map, locks_after, locks_get, locks_insert, locks_new, new_to,
};
use crate::text::{has_substring, text_contains};
use crate::types::{expired_at, ProxyToken, EXPIRY_MARGIN_SECONDS};

verus! {

/// New credentials, as the authorization server issued them.
#[derive(Debug)]
pub struct TokenResponse {
    pub access_token: String,
    pub expires_in: i64,
}

impl Clone for TokenResponse {
    fn clone(&self) -> (r: Self)
        ensures
            r == *self,
    {
        TokenResponse { access_token: self.access_token.clone(), expires_in: self.expires_in }
    }
}

/// No two accounts of the map hold one handle.
pub open spec fn distinct_handles(locks: Map<Seq<char>, Arc<Mutex<()>>>) -> bool {
    forall|a: Seq<char>, b: Seq<char>|
        #![trigger locks.contains_key(a), locks.contains_key(b)]
        locks.contains_key(a) && locks.contains_key(b) && a != b ==> locks[a] != locks[b]
}

/// The registry of refresh locks: one lock per account id ever asked for.
pub struct RefreshCoordinator {
    refresh_locks: DashMap<String, Arc<Mutex<()>>>,
}

impl RefreshCoordinator {
    /// The lock handles, by account id.
    pub closed spec fn locks(&self) -> Map<Seq<char>, Arc<Mutex<()>>> {
        lock_map(self.refresh_locks)
    }

    /// A coordinator without locks.
    pub fn new() -> (r: Self)
        ensures
            r.locks() == Map::<Seq<char>, Arc<Mutex<()>>>::empty(),
            distinct_handles(r.locks()),
    {
        let r = RefreshCoordinator { refresh_locks: locks_new() };
        assert(r.locks() =~= Map::<Seq<char>, Arc<Mutex<()>>>::empty());
        r
    }

    /// The lock of an account, made on first use. Every later call for the
    /// same account returns the handle stored then; no lock is ever removed
    /// or replaced. A lock made for a new account is held by no other
    /// account, so distinct accounts keep distinct locks.
    pub fn get_lock(&mut self, account_id: &str) -> (r: Arc<Mutex<()>>)
        ensures
            final(self).locks() == locks_after(old(self).locks(), account_id@, r),
            final(self).locks().contains_key(account_id@),
            final(self).locks()[account_id@] == r,
            old(self).locks().contains_key(account_id@) ==> r == old(self).locks()[account_id@],
            !old(self).locks().contains_key(account_id@) ==> new_to(old(self).locks(), r),
            distinct_handles(old(self).locks()) ==> distinct_handles(final(self).locks()),
    {
        match locks_get(&self.refresh_locks, account_id) {
            Some(handle) => handle,
            None => {
                let handle = fresh_lock(&self.refresh_locks);
                locks_insert(&mut self.refresh_locks, String::from_str(account_id), handle.clone());
                handle
            },
        }
    }

    /// Whether a refresh of this token is still due at `now`: the refresh
    /// token to exchange if it is, and the refusal if the token is not
    /// expired any more.
    pub fn refresh_request_at(token: &ProxyToken, now: i64) -> (r: Result<String, String>)
        ensures
            match r {
                Ok(refresh_token) => expired_at(token.timestamp, now) && refresh_token@
                    == token@.refresh_token,
                Err(e) => !expired_at(token.timestamp, now) && e@ == "Token no longer needs refresh"@,
            },
    {
        if !token.is_expired_at(now) {
            Err(String::from_str("Token no longer needs refresh"))
        } else {
            Ok(token.refresh_token.clone())
        }
    }

    /// Whether a refresh of this token is still due, by the system clock:
    /// the answer of `refresh_request_at` for the time that the clock gave.
    /// A token whose margin reaches below the earliest time is always due.
    pub fn refresh_request(token: &ProxyToken) -> (r: Result<String, String>)
        ensures
            exists|now: i64|
                match r {
                    Ok(refresh_token) => #[trigger] expired_at(token.timestamp, now)
                        && refresh_token@ == token@.refresh_token,
                    Err(e) => !expired_at(token.timestamp, now) && e@
                        == "Token no longer needs refresh"@,
                },
            token.timestamp - EXPIRY_MARGIN_SECONDS <= i64::MIN ==> r is Ok,
    {
        let now = epoch_seconds();
        Self::refresh_request_at(token, now)
    }

    /// The text of an account file after the credentials in `response`,
    /// issued at `now`, were written into it.
    pub fn refreshed_file_text(content: &str, response: &TokenResponse, now: i64) -> (r: Result<
        String,
        String,
    >)
        ensures
            rewrite_result(
                content@,
                |d: serde_json::Value| token_settable(d),
                |d: serde_json::Value, a: serde_json::Value|
                    token_updated(
                        d,
                        a,
                        refresh_changes(response.access_token@, response.expires_in, now),
                    ),
                r,
            ),
    {
        refreshed_account_text(content, response.access_token.as_str(), response.expires_in, now)
    }

    /// Whether a refresh error means that the account must be disabled:
    /// it does when the error text contains `invalid_grant`.
    pub fn is_permanent_error(error: &str) -> (r: bool)
        ensures
            r == has_substring(error@, "invalid_grant"@),
    {
        text_contains(error, "invalid_grant")
    }
}

impl Default for RefreshCoordinator {
    fn default() -> (r: Self)
        ensures
            r.locks() == Map::<Seq<char>, Arc<Mutex<()>>>::empty(),
    {
        RefreshCoordinator::new()
    }
}

/// Asking twice for the lock of one account yields one handle, whichever
/// other lock was asked for in between, and asking for a lock never
/// changes the handle of another account. The three handles are what
/// `get_lock` returned, in turn, for `account`, `other` and `account`.
pub proof fn lock_is_per_account(
    locks: Map<Seq<char>, Arc<Mutex<()>>>,
    account: Seq<char>,
    first: Arc<Mutex<()>>,
    other: Seq<char>,
    between: Arc<Mutex<()>>,
    second: Arc<Mutex<()>>,
)
    requires
        locks_after(locks, account, first)[account] == first,
        locks_after(
            locks_after(locks_after(locks, account, first), other, between),
            account,
            second,
        )[account] == second,
    ensures
        second == first,
        other != account && locks.contains_key(other) ==> locks_after(locks, account, first)[other]
            == locks[other],
{
}

/// Distinct accounts get distinct locks. `first` and `second` are what
/// `get_lock` returned, in turn, for the accounts `a` and `b`, starting
/// from a registry in which no two accounts hold one handle; every
/// registry that grew from an empty one by `get_lock` is such a registry.
pub proof fn distinct_accounts_get_distinct_locks(
    locks: Map<Seq<char>, Arc<Mutex<()>>>,
    a: Seq<char>,
    first: Arc<Mutex<()>>,
    b: Seq<char>,
    second: Arc<Mutex<()>>,
)
    requires
        distinct_handles(locks),
        a != b,
        locks_after(locks, a, first)[a] == first,
        !locks.contains_key(a) ==> new_to(locks, first),
        locks_after(locks_after(locks, a, first), b, second)[b] == second,
        !locks_after(locks, a, first).contains_key(b) ==> new_to(
            locks_after(locks, a, first),
            second,
        ),
    ensures
        second != first,
        distinct_handles(locks_after(locks, a, first)),
        distinct_handles(locks_after(locks_after(locks, a, first), b, second)),
{
    let one = locks_after(locks, a, first);
    assert(one.contains_key(a));
    assert(distinct_handles(one)) by {
        assert forall|x: Seq<char>, y: Seq<char>|
            #![trigger one.contains_key(x), one.contains_key(y)]
            one.contains_key(x) && one.contains_key(y) && x != y implies one[x] != one[y] by {
            if !locks.contains_key(a) {
                if x == a {
                    assert(locks.contains_key(y));
                } else if y == a {
                    assert(locks.contains_key(x));
                } else {
                    assert(locks.contains_key(x) && locks.contains_key(y));
                }
            }
        }
    }
    let two = locks_after(one, b, second);
    assert(distinct_handles(two)) by {
        assert forall|x: Seq<char>, y: Seq<char>|
            #![trigger two.contains_key(x), two.contains_key(y)]
            two.contains_key(x) && two.contains_key(y) && x != y implies two[x] != two[y] by {
            if !one.contains_key(b) {
                if x == b {
                    assert(one.contains_key(y));
                } else if y == b {
                    assert(one.contains_key(x));
                } else {
                    assert(one.contains_key(x) && one.contains_key(y));
                }
            }
        }
    }
    if one.contains_key(b) {
        assert(one.contains_key(a) && one.contains_key(b));
    }
}

} // verus!
