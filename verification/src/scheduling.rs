//! Choosing the account for a request: tier order, rate-limit avoidance,
//! session stickiness and round-robin rotation.

use vstd::prelude::*;
use vstd::string::StringExecFns;
use vstd::multiset::Multiset;
use vstd::seq_lib::lemma_multiset_commutative;
use dashmap::DashMap;
use crate::clock::epoch_seconds;
use crate::rate_limit::{limited_in, reset_in, wait_in, Limits, RateLimitTracker};
use crate::shared_map::{cursor_map, cursors_get, cursors_insert, cursors_new};
use crate::sticky_config::{SchedulingMode, StickySessionConfig};
use crate::text::same_text;
use crate::types::{models, tier_rank, ProxyToken, TokenModel, UNKNOWN_TIER_PRIORITY};

verus! {

/// Wait reported when every account is unavailable and none has a known reset time.
pub const DEFAULT_WAIT_SECONDS: u64 = 60;

/// The texts of a sequence of strings.
pub open spec fn texts(items: Seq<String>) -> Seq<Seq<char>> {
    Seq::new(items.len(), |i: int| items[i]@)
}

/// The scope under which rate limits and round-robin cursors are kept: the
/// quota group, with `::image_gen` appended for image generation requests.
pub open spec fn scope_key(quota_group: Seq<char>, request_type: Seq<char>) -> Seq<char> {
    if request_type == "image_gen"@ {
        quota_group + "::image_gen"@
    } else {
        quota_group
    }
}

/// The tokens of one tier rank, in the order in which they stand in `tokens`.
pub open spec fn tier_bucket(tokens: Seq<TokenModel>, rank: u8) -> Seq<TokenModel>
    decreases tokens.len(),
{
    if tokens.len() == 0 {
        Seq::empty()
    } else if tier_rank(tokens.last().subscription_tier) == rank {
        tier_bucket(tokens.drop_last(), rank).push(tokens.last())
    } else {
        tier_bucket(tokens.drop_last(), rank)
    }
}

/// `tokens` sorted by tier rank, tokens of one rank keeping their order.
pub open spec fn stable_by_tier(tokens: Seq<TokenModel>) -> Seq<TokenModel> {
    tier_bucket(tokens, 0) + tier_bucket(tokens, 1) + tier_bucket(tokens, 2) + tier_bucket(
        tokens,
        3,
    )
}

proof fn lemma_bucket_ranks(tokens: Seq<TokenModel>, rank: u8)
    ensures
        tier_bucket(tokens, rank).len() <= tokens.len(),
        forall|i: int|
            0 <= i < tier_bucket(tokens, rank).len() ==> tier_rank(
                (#[trigger] tier_bucket(tokens, rank)[i]).subscription_tier,
            ) == rank,
    decreases tokens.len(),
{
    if tokens.len() > 0 {
        lemma_bucket_ranks(tokens.drop_last(), rank);
    }
}

proof fn lemma_bucket_concat(a: Seq<TokenModel>, b: Seq<TokenModel>, rank: u8)
    ensures
        tier_bucket(a + b, rank) == tier_bucket(a, rank) + tier_bucket(b, rank),
    decreases b.len(),
{
    if b.len() == 0 {
        assert(a + b =~= a);
        assert(tier_bucket(a, rank) + tier_bucket(b, rank) =~= tier_bucket(a, rank));
    } else {
        assert((a + b).drop_last() =~= a + b.drop_last());
        assert((a + b).last() == b.last());
        lemma_bucket_concat(a, b.drop_last(), rank);
        assert(tier_bucket(a + b, rank) =~= tier_bucket(a, rank) + tier_bucket(b, rank));
    }
}

proof fn lemma_bucket_of_bucket(tokens: Seq<TokenModel>, inner: u8, outer: u8)
    ensures
        tier_bucket(tier_bucket(tokens, inner), outer) == if inner == outer {
            tier_bucket(tokens, inner)
        } else {
            Seq::<TokenModel>::empty()
        },
    decreases tokens.len(),
{
    if tokens.len() > 0 {
        lemma_bucket_of_bucket(tokens.drop_last(), inner, outer);
        if tier_rank(tokens.last().subscription_tier) == inner {
            let rest = tier_bucket(tokens.drop_last(), inner);
            assert(rest.push(tokens.last()).drop_last() =~= rest);
        }
    }
}

proof fn lemma_bucket_multisets(tokens: Seq<TokenModel>)
    ensures
        tokens.to_multiset() == tier_bucket(tokens, 0).to_multiset().add(
            tier_bucket(tokens, 1).to_multiset(),
        ).add(tier_bucket(tokens, 2).to_multiset()).add(tier_bucket(tokens, 3).to_multiset()),
    decreases tokens.len(),
{
    broadcast use {vstd::seq_lib::to_multiset_build, vstd::multiset::group_multiset_axioms};

    let b0 = tier_bucket(tokens, 0).to_multiset();
    let b1 = tier_bucket(tokens, 1).to_multiset();
    let b2 = tier_bucket(tokens, 2).to_multiset();
    let b3 = tier_bucket(tokens, 3).to_multiset();
    if tokens.len() == 0 {
        let none = Seq::<TokenModel>::empty();
        assert(tokens =~= none);
        none.to_multiset_ensures();
        assert forall|t: TokenModel| none.to_multiset().count(t) == 0 by {
            assert(!none.contains(t));
        }
        assert(none.to_multiset() =~= Multiset::<TokenModel>::empty());
        assert(tokens.to_multiset() =~= b0.add(b1).add(b2).add(b3));
    } else {
        let rest = tokens.drop_last();
        let last = tokens.last();
        lemma_bucket_multisets(rest);
        assert(tokens =~= rest.push(last));
        assert(tokens.to_multiset() =~= rest.to_multiset().insert(last));
        assert(tier_rank(last.subscription_tier) <= 3);
        assert(tokens.to_multiset() =~= b0.add(b1).add(b2).add(b3));
    }
}

/// The tier sort orders by rank, keeps every token, and keeps the tokens
/// of each rank in the order in which they came.
pub proof fn tier_sort_is_stable_permutation(tokens: Seq<TokenModel>)
    ensures
        stable_by_tier(tokens).len() == tokens.len(),
        stable_by_tier(tokens).to_multiset() == tokens.to_multiset(),
        forall|i: int, j: int|
            0 <= i <= j < tokens.len() ==> tier_rank(
                (#[trigger] stable_by_tier(tokens)[i]).subscription_tier,
            ) <= tier_rank((#[trigger] stable_by_tier(tokens)[j]).subscription_tier),
        forall|rank: u8| #[trigger]
            tier_bucket(stable_by_tier(tokens), rank) == tier_bucket(tokens, rank),
{
    let b0 = tier_bucket(tokens, 0);
    let b1 = tier_bucket(tokens, 1);
    let b2 = tier_bucket(tokens, 2);
    let b3 = tier_bucket(tokens, 3);
    let out = stable_by_tier(tokens);
    lemma_bucket_multisets(tokens);
    lemma_multiset_commutative(b0, b1);
    lemma_multiset_commutative(b0 + b1, b2);
    lemma_multiset_commutative(b0 + b1 + b2, b3);
    vstd::seq_lib::to_multiset_len(out);
    vstd::seq_lib::to_multiset_len(tokens);
    lemma_bucket_ranks(tokens, 0);
    lemma_bucket_ranks(tokens, 1);
    lemma_bucket_ranks(tokens, 2);
    lemma_bucket_ranks(tokens, 3);
    assert forall|rank: u8| #[trigger] tier_bucket(out, rank) == tier_bucket(tokens, rank) by {
        lemma_bucket_concat(b0 + b1 + b2, b3, rank);
        lemma_bucket_concat(b0 + b1, b2, rank);
        lemma_bucket_concat(b0, b1, rank);
        lemma_bucket_of_bucket(tokens, 0, rank);
        lemma_bucket_of_bucket(tokens, 1, rank);
        lemma_bucket_of_bucket(tokens, 2, rank);
        lemma_bucket_of_bucket(tokens, 3, rank);
        if rank > 3 {
            lemma_bucket_ranks(tokens, rank);
            if tier_bucket(tokens, rank).len() > 0 {
                assert(tier_rank(tier_bucket(tokens, rank)[0].subscription_tier) == rank);
            }
        }
        assert(tier_bucket(out, rank) =~= tier_bucket(tokens, rank));
    }
}

fn push_bucket(tokens: &Vec<ProxyToken>, rank: u8, out: &mut Vec<ProxyToken>)
    ensures
        models(final(out)@) == models(old(out)@) + tier_bucket(models(tokens@), rank),
{
    let ghost start = models(out@);
    let mut i: usize = 0;
    assert(models(tokens@).take(0) =~= Seq::<TokenModel>::empty());
    assert(models(out@) =~= start + tier_bucket(models(tokens@).take(0), rank));
    while i < tokens.len()
        invariant
            i <= tokens@.len(),
            models(out@) == start + tier_bucket(models(tokens@).take(i as int), rank),
        decreases tokens@.len() - i,
    {
        let ghost before = models(out@);
        proof {
            let longer = models(tokens@).take(i + 1);
            assert(longer.drop_last() =~= models(tokens@).take(i as int));
            assert(longer.last() == tokens@[i as int]@);
        }
        if tokens[i].tier_priority() == rank {
            out.push(tokens[i].clone());
            assert(models(out@) =~= before.push(tokens@[i as int]@));
        }
        i = i + 1;
        assert(models(out@) =~= start + tier_bucket(models(tokens@).take(i as int), rank));
    }
    assert(models(tokens@).take(i as int) =~= models(tokens@));
}

/// The account of `tokens` that a scan starting at position `start` and
/// wrapping round reaches first, from the given offset on, among those that
/// were not attempted and are not limited in the scope at `now`.
pub open spec fn scan_from(
    tokens: Seq<TokenModel>,
    start: int,
    offset: int,
    limits: Limits,
    scope: Seq<char>,
    attempted: Seq<Seq<char>>,
    now: i64,
) -> Option<TokenModel>
    decreases tokens.len() - offset,
{
    if offset < 0 || offset >= tokens.len() {
        None
    } else if eligible(tokens[(start + offset) % (tokens.len() as int)], limits, scope, attempted, now) {
        Some(tokens[(start + offset) % (tokens.len() as int)])
    } else {
        scan_from(tokens, start, offset + 1, limits, scope, attempted, now)
    }
}

/// A token may be chosen by rotation: it was not attempted in this request
/// and is not limited in the scope at `now`.
pub open spec fn eligible(
    token: TokenModel,
    limits: Limits,
    scope: Seq<char>,
    attempted: Seq<Seq<char>>,
    now: i64,
) -> bool {
    !attempted.contains(token.account_id) && !limited_in(limits, scope, token.account_id, now)
}

/// The round-robin choice with the scope's cursor at `cursor`.
pub open spec fn round_robin_pick(
    tokens: Seq<TokenModel>,
    cursor: usize,
    limits: Limits,
    scope: Seq<char>,
    attempted: Seq<Seq<char>>,
    now: i64,
) -> Option<TokenModel> {
    if tokens.len() == 0 {
        None
    } else {
        scan_from(tokens, cursor as int % (tokens.len() as int), 0, limits, scope, attempted, now)
    }
}

/// The value of a scope's cursor; a scope without one counts from zero.
pub open spec fn cursor_of(cursors: Map<Seq<char>, usize>, scope: Seq<char>) -> usize {
    if cursors.contains_key(scope) {
        cursors[scope]
    } else {
        0
    }
}

/// The cursor after one more selection; it wraps at the largest value.
pub open spec fn next_cursor(cursor: usize) -> usize {
    if cursor == usize::MAX {
        0
    } else {
        (cursor + 1) as usize
    }
}

/// The cursors after one round-robin selection over a pool of `total` tokens.
pub open spec fn cursors_after(cursors: Map<Seq<char>, usize>, scope: Seq<char>, total: nat) -> Map<
    Seq<char>,
    usize,
> {
    if total == 0 {
        cursors
    } else {
        cursors.insert(scope, next_cursor(cursor_of(cursors, scope)))
    }
}

/// The first token of `tokens` with the given account id.
pub open spec fn first_with_id(tokens: Seq<TokenModel>, id: Seq<char>) -> Option<TokenModel>
    decreases tokens.len(),
{
    if tokens.len() == 0 {
        None
    } else if tokens[0].account_id == id {
        Some(tokens[0])
    } else {
        first_with_id(tokens.drop_first(), id)
    }
}

/// The smaller of two optional waits, an absent one counting as no bound.
pub open spec fn sooner(a: Option<u64>, b: Option<u64>) -> Option<u64> {
    match (a, b) {
        (Some(x), Some(y)) => if x <= y {
            Some(x)
        } else {
            Some(y)
        },
        (Some(x), None) => Some(x),
        (None, other) => other,
    }
}

/// The shortest time until one of the tokens' limits in the scope ends,
/// if any of them is limited.
pub open spec fn min_reset(tokens: Seq<TokenModel>, limits: Limits, scope: Seq<char>, now: i64) -> Option<
    u64,
>
    decreases tokens.len(),
{
    if tokens.len() == 0 {
        None
    } else {
        sooner(
            min_reset(tokens.drop_last(), limits, scope, now),
            reset_in(limits, scope, tokens.last().account_id, now),
        )
    }
}

/// What a scheduling decision says, over token models.
pub enum DecisionModel {
    UseAccount(TokenModel),
    WaitAndUse { token: TokenModel, wait_seconds: u64 },
    AllUnavailable { min_wait_seconds: u64 },
}

/// The outcome of one scheduling decision.
#[derive(Debug)]
pub enum SchedulingDecision {
    /// Use this account immediately.
    UseAccount(ProxyToken),
    /// Wait for the rate limit to clear, then use the account.
    WaitAndUse { token: ProxyToken, wait_seconds: u64 },
    /// No account can be used now.
    AllUnavailable { min_wait_seconds: u64 },
}

impl View for SchedulingDecision {
    type V = DecisionModel;

    open spec fn view(&self) -> DecisionModel {
        match self {
            SchedulingDecision::UseAccount(t) => DecisionModel::UseAccount(t@),
            SchedulingDecision::WaitAndUse { token, wait_seconds } => DecisionModel::WaitAndUse {
                token: token@,
                wait_seconds: *wait_seconds,
            },
            SchedulingDecision::AllUnavailable { min_wait_seconds } => DecisionModel::AllUnavailable {
                min_wait_seconds: *min_wait_seconds,
            },
        }
    }
}

impl Clone for SchedulingDecision {
    fn clone(&self) -> (r: Self)
        ensures
            r == *self,
    {
        match self {
            SchedulingDecision::UseAccount(t) => SchedulingDecision::UseAccount(t.clone()),
            SchedulingDecision::WaitAndUse { token, wait_seconds } => SchedulingDecision::WaitAndUse {
                token: token.clone(),
                wait_seconds: *wait_seconds,
            },
            SchedulingDecision::AllUnavailable { min_wait_seconds } => {
                SchedulingDecision::AllUnavailable { min_wait_seconds: *min_wait_seconds }
            },
        }
    }
}

/// What the session's bound account decides, if it decides: it is used at
/// once when it is not limited, was not attempted and is in the pool; it is
/// waited for when it is limited, the policy is `CacheFirst`, the wait is
/// within the policy's bound and it is in the pool.
pub open spec fn bound_choice(
    tokens: Seq<TokenModel>,
    bound: Option<Seq<char>>,
    policy: StickySessionConfig,
    limits: Limits,
    scope: Seq<char>,
    attempted: Seq<Seq<char>>,
    now: i64,
) -> Option<DecisionModel> {
    match bound {
        None => None,
        Some(id) => {
            let wait = wait_in(limits, scope, id, now);
            if wait > 0 {
                if policy.mode == SchedulingMode::CacheFirst && wait <= policy.max_wait_seconds {
                    match first_with_id(tokens, id) {
                        Some(t) => Some(DecisionModel::WaitAndUse { token: t, wait_seconds: wait }),
                        None => None,
                    }
                } else {
                    None
                }
            } else if !attempted.contains(id) {
                match first_with_id(tokens, id) {
                    Some(t) => Some(DecisionModel::UseAccount(t)),
                    None => None,
                }
            } else {
                None
            }
        },
    }
}

/// The decision by rotation: the round-robin choice, or the report that
/// nothing is available, with the shortest known wait.
pub open spec fn rotation_choice(
    tokens: Seq<TokenModel>,
    cursor: usize,
    limits: Limits,
    scope: Seq<char>,
    attempted: Seq<Seq<char>>,
    now: i64,
) -> DecisionModel {
    match round_robin_pick(tokens, cursor, limits, scope, attempted, now) {
        Some(t) => DecisionModel::UseAccount(t),
        None => DecisionModel::AllUnavailable {
            min_wait_seconds: match min_reset(tokens, limits, scope, now) {
                Some(w) => w,
                None => DEFAULT_WAIT_SECONDS,
            },
        },
    }
}

/// The decision for a request of a session.
pub open spec fn session_decision(
    tokens: Seq<TokenModel>,
    bound: Option<Seq<char>>,
    policy: StickySessionConfig,
    cursor: usize,
    limits: Limits,
    scope: Seq<char>,
    attempted: Seq<Seq<char>>,
    now: i64,
) -> DecisionModel {
    match bound_choice(tokens, bound, policy, limits, scope, attempted, now) {
        Some(d) => d,
        None => rotation_choice(tokens, cursor, limits, scope, attempted, now),
    }
}

/// The tokens that are not limited in the scope at `now`, in pool order.
pub open spec fn healthy_of(tokens: Seq<TokenModel>, limits: Limits, scope: Seq<char>, now: i64) -> Seq<
    TokenModel,
>
    decreases tokens.len(),
{
    if tokens.len() == 0 {
        Seq::empty()
    } else if limited_in(limits, scope, tokens.last().account_id, now) {
        healthy_of(tokens.drop_last(), limits, scope, now)
    } else {
        healthy_of(tokens.drop_last(), limits, scope, now).push(tokens.last())
    }
}

/// The number of tokens that are limited in the scope at `now`.
pub open spec fn limited_count(tokens: Seq<TokenModel>, limits: Limits, scope: Seq<char>, now: i64) -> nat
    decreases tokens.len(),
{
    if tokens.len() == 0 {
        0
    } else if limited_in(limits, scope, tokens.last().account_id, now) {
        limited_count(tokens.drop_last(), limits, scope, now) + 1
    } else {
        limited_count(tokens.drop_last(), limits, scope, now)
    }
}

/// View of an optional token.
pub open spec fn opt_model(t: Option<ProxyToken>) -> Option<TokenModel> {
    match t {
        Some(x) => Some(x@),
        None => None,
    }
}

/// Whether `id` is among `items`.
pub fn contains_text(items: &Vec<String>, id: &str) -> (r: bool)
    ensures
        r == texts(items@).contains(id@),
{
    let mut i: usize = 0;
    while i < items.len()
        invariant
            i <= items@.len(),
            forall|k: int| 0 <= k < i ==> texts(items@)[k] != id@,
        decreases items@.len() - i,
    {
        if same_text(items[i].as_str(), id) {
            assert(texts(items@)[i as int] == id@);
            return true;
        }
        i = i + 1;
    }
    false
}

/// The first token of the pool with the given account id.
pub fn find_account(tokens: &Vec<ProxyToken>, id: &str) -> (r: Option<ProxyToken>)
    ensures
        opt_model(r) == first_with_id(models(tokens@), id@),
        r matches Some(t) ==> tokens@.contains(t),
{
    let mut i: usize = 0;
    assert(models(tokens@).skip(0) =~= models(tokens@));
    while i < tokens.len()
        invariant
            i <= tokens@.len(),
            first_with_id(models(tokens@), id@) == first_with_id(
                models(tokens@).skip(i as int),
                id@,
            ),
        decreases tokens@.len() - i,
    {
        proof {
            let rest = models(tokens@).skip(i as int);
            assert(rest[0] == tokens@[i as int]@);
            assert(rest.drop_first() =~= models(tokens@).skip(i + 1));
        }
        if same_text(tokens[i].account_id.as_str(), id) {
            return Some(tokens[i].clone());
        }
        i = i + 1;
    }
    None
}

/// Account selection with a round-robin cursor per scope and the
/// rate-limit tracker it consults.
pub struct AccountScheduler {
    round_robin_index: DashMap<String, usize>,
    rate_limit_tracker: RateLimitTracker,
}

impl AccountScheduler {
    /// The round-robin cursors, by scope.
    pub closed spec fn cursors(&self) -> Map<Seq<char>, usize> {
        cursor_map(self.round_robin_index)
    }

    /// The rate-limit deadlines that the scheduler consults.
    pub closed spec fn limits(&self) -> Limits {
        self.rate_limit_tracker@
    }

    /// A scheduler over the given tracker, with every cursor at its start.
    pub fn new(rate_limit_tracker: RateLimitTracker) -> (r: Self)
        ensures
            r.limits() == rate_limit_tracker@,
            r.cursors() == Map::<Seq<char>, usize>::empty(),
    {
        let r = AccountScheduler { round_robin_index: cursors_new(), rate_limit_tracker };
        assert(r.cursors() =~= Map::<Seq<char>, usize>::empty());
        r
    }

    /// The tracker that the scheduler consults.
    pub fn tracker(&self) -> (r: &RateLimitTracker)
        ensures
            r@ == self.limits(),
    {
        &self.rate_limit_tracker
    }

    /// Records at `now` that the account is limited in the scope for `seconds`.
    pub fn mark_limited_at(&mut self, scope: &str, account_id: &str, seconds: u64, now: i64)
        ensures
            final(self).limits() == old(self).limits().insert(
                (scope@, account_id@),
                crate::rate_limit::deadline_after(now, seconds),
            ),
            final(self).cursors() == old(self).cursors(),
    {
        self.rate_limit_tracker.mark_limited_at(scope, account_id, seconds, now);
    }

    /// Records, by the system clock, that the account is limited in the
    /// scope for `seconds`.
    pub fn mark_limited(&mut self, scope: &str, account_id: &str, seconds: u64)
        ensures
            final(self).cursors() == old(self).cursors(),
            exists|now: i64|
                final(self).limits() == old(self).limits().insert(
                    (scope@, account_id@),
                    #[trigger] crate::rate_limit::deadline_after(now, seconds),
                ),
    {
        let now = epoch_seconds();
        self.mark_limited_at(scope, account_id, seconds, now);
    }

    /// Records at `now` the limit that an upstream error announces; returns
    /// the seconds recorded.
    pub fn record_error_at(
        &mut self,
        scope: &str,
        account_id: &str,
        status: u16,
        retry_after_header: Option<&str>,
        body: &str,
        now: i64,
    ) -> (seconds: u64)
        ensures
            seconds == crate::rate_limit::retry_seconds(
                crate::rate_limit::opt_str_view(retry_after_header),
            ),
            final(self).limits() == old(self).limits().insert(
                (scope@, account_id@),
                crate::rate_limit::deadline_after(now, seconds),
            ),
            final(self).cursors() == old(self).cursors(),
    {
        self.rate_limit_tracker.parse_from_error_at(
            scope,
            account_id,
            status,
            retry_after_header,
            body,
            now,
        )
    }

    /// The scope key of a quota group and request type.
    pub fn scope_group(quota_group: &str, request_type: &str) -> (r: String)
        ensures
            r@ == scope_key(quota_group@, request_type@),
    {
        if same_text(request_type, "image_gen") {
            let mut key = String::from_str(quota_group);
            key.append("::image_gen");
            key
        } else {
            String::from_str(quota_group)
        }
    }

    /// Sorts the tokens by tier, best first; tokens of one tier keep their order.
    pub fn sort_by_tier(tokens: &mut Vec<ProxyToken>)
        ensures
            models(final(tokens)@) == stable_by_tier(models(old(tokens)@)),
    {
        let mut out: Vec<ProxyToken> = Vec::new();
        assert(models(out@) =~= Seq::<TokenModel>::empty());
        push_bucket(tokens, 0, &mut out);
        push_bucket(tokens, 1, &mut out);
        push_bucket(tokens, 2, &mut out);
        push_bucket(tokens, UNKNOWN_TIER_PRIORITY, &mut out);
        assert(models(out@) =~= stable_by_tier(models(tokens@)));
        *tokens = out;
    }

    /// Takes the scope's cursor value for a pool of `total` tokens and
    /// moves the cursor on by one.
    fn get_next_index(&mut self, scope_group: &str, total: usize) -> (r: usize)
        requires
            total > 0,
        ensures
            r == cursor_of(old(self).cursors(), scope_group@) as int % (total as int),
            final(self).cursors() == cursors_after(old(self).cursors(), scope_group@, total as nat),
            final(self).limits() == old(self).limits(),
    {
        let current = match cursors_get(&self.round_robin_index, scope_group) {
            Some(c) => c,
            None => 0,
        };
        let next = if current == usize::MAX {
            0
        } else {
            current + 1
        };
        cursors_insert(&mut self.round_robin_index, String::from_str(scope_group), next);
        current % total
    }

    /// Round-robin selection at `now`: starting at the scope's cursor, the
    /// first token that was not attempted and is not limited. The cursor
    /// moves on by one unless the pool is empty.
    pub fn select_round_robin_at(
        &mut self,
        tokens: &Vec<ProxyToken>,
        scope_group: &str,
        attempted: &Vec<String>,
        now: i64,
    ) -> (r: Option<ProxyToken>)
        ensures
            opt_model(r) == round_robin_pick(
                models(tokens@),
                cursor_of(old(self).cursors(), scope_group@),
                old(self).limits(),
                scope_group@,
                texts(attempted@),
                now,
            ),
            r matches Some(t) ==> tokens@.contains(t),
            final(self).cursors() == cursors_after(
                old(self).cursors(),
                scope_group@,
                tokens@.len(),
            ),
            final(self).limits() == old(self).limits(),
    {
        let total = tokens.len();
        if total == 0 {
            return None;
        }
        let start_idx = self.get_next_index(scope_group, total);
        let mut offset: usize = 0;
        while offset < total
            invariant
                total == tokens@.len(),
                total > 0,
                start_idx < total,
                start_idx as int == cursor_of(old(self).cursors(), scope_group@) as int % (
                total as int),
                offset <= total,
                self.limits() == old(self).limits(),
                self.cursors() == cursors_after(old(self).cursors(), scope_group@, tokens@.len()),
                scan_from(
                    models(tokens@),
                    start_idx as int,
                    0,
                    self.limits(),
                    scope_group@,
                    texts(attempted@),
                    now,
                ) == scan_from(
                    models(tokens@),
                    start_idx as int,
                    offset as int,
                    self.limits(),
                    scope_group@,
                    texts(attempted@),
                    now,
                ),
            decreases total - offset,
        {
            let idx = if offset < total - start_idx {
                start_idx + offset
            } else {
                offset - (total - start_idx)
            };
            assert(idx as int == (start_idx + offset) % (total as int)) by {
                if offset < total - start_idx {
                    vstd::arithmetic::div_mod::lemma_small_mod((start_idx + offset) as nat, total as nat);
                } else {
                    vstd::arithmetic::div_mod::lemma_mod_sub_multiples_vanish(
                        (start_idx + offset) as int,
                        total as int,
                    );
                    vstd::arithmetic::div_mod::lemma_small_mod(idx as nat, total as nat);
                }
            }
            let candidate = &tokens[idx];
            assert(models(tokens@)[idx as int] == candidate@);
            if !contains_text(attempted, candidate.account_id.as_str())
                && !self.rate_limit_tracker.is_rate_limited_at(
                scope_group,
                candidate.account_id.as_str(),
                now,
            ) {
                let chosen = candidate.clone();
                assert(eligible(
                    models(tokens@)[(start_idx + offset) % (total as int)],
                    self.limits(),
                    scope_group@,
                    texts(attempted@),
                    now,
                ));
                assert(scan_from(
                    models(tokens@),
                    start_idx as int,
                    offset as int,
                    self.limits(),
                    scope_group@,
                    texts(attempted@),
                    now,
                ) == Some(chosen@));
                return Some(chosen);
            }
            offset = offset + 1;
        }
        None
    }

    /// Round-robin selection by the system clock.
    pub fn select_round_robin(
        &mut self,
        tokens: &Vec<ProxyToken>,
        scope_group: &str,
        attempted: &Vec<String>,
    ) -> (r: Option<ProxyToken>)
        ensures
            exists|now: i64|
                opt_model(r) == #[trigger] round_robin_pick(
                    models(tokens@),
                    cursor_of(old(self).cursors(), scope_group@),
                    old(self).limits(),
                    scope_group@,
                    texts(attempted@),
                    now,
                ),
            r matches Some(t) ==> tokens@.contains(t),
            final(self).cursors() == cursors_after(
                old(self).cursors(),
                scope_group@,
                tokens@.len(),
            ),
            final(self).limits() == old(self).limits(),
    {
        let now = epoch_seconds();
        self.select_round_robin_at(tokens, scope_group, attempted, now)
    }

    /// The shortest time at `now` until a limit of one of the tokens ends.
    fn min_reset_at(&self, tokens: &Vec<ProxyToken>, scope_group: &str, now: i64) -> (r: Option<u64>)
        ensures
            r == min_reset(models(tokens@), self.limits(), scope_group@, now),
    {
        let mut best: Option<u64> = None;
        let mut i: usize = 0;
        assert(models(tokens@).take(0) =~= Seq::<TokenModel>::empty());
        while i < tokens.len()
            invariant
                i <= tokens@.len(),
                best == min_reset(models(tokens@).take(i as int), self.limits(), scope_group@, now),
            decreases tokens@.len() - i,
        {
            proof {
                let longer = models(tokens@).take(i + 1);
                assert(longer.drop_last() =~= models(tokens@).take(i as int));
                assert(longer.last() == tokens@[i as int]@);
            }
            let reset = self.rate_limit_tracker.get_reset_seconds_at(
                scope_group,
                tokens[i].account_id.as_str(),
                now,
            );
            best = match (best, reset) {
                (Some(x), Some(y)) => if x <= y {
                    Some(x)
                } else {
                    Some(y)
                },
                (Some(x), None) => Some(x),
                (None, other) => other,
            };
            i = i + 1;
        }
        assert(models(tokens@).take(i as int) =~= models(tokens@));
        best
    }

    /// Selection for a request of a session at `now`. The session's bound
    /// account is used when it is free, or waited for when the policy
    /// allows; otherwise the choice falls to rotation, and only then does
    /// the scope's cursor move.
    pub fn select_with_session_at(
        &mut self,
        tokens: &Vec<ProxyToken>,
        scope_group: &str,
        bound_account_id: Option<&str>,
        scheduling: &StickySessionConfig,
        attempted: &Vec<String>,
        now: i64,
    ) -> (r: SchedulingDecision)
        ensures
            r@ == session_decision(
                models(tokens@),
                crate::rate_limit::opt_str_view(bound_account_id),
                *scheduling,
                cursor_of(old(self).cursors(), scope_group@),
                old(self).limits(),
                scope_group@,
                texts(attempted@),
                now,
            ),
            final(self).limits() == old(self).limits(),
            final(self).cursors() == if bound_choice(
                models(tokens@),
                crate::rate_limit::opt_str_view(bound_account_id),
                *scheduling,
                old(self).limits(),
                scope_group@,
                texts(attempted@),
                now,
            ) is Some {
                old(self).cursors()
            } else {
                cursors_after(old(self).cursors(), scope_group@, tokens@.len())
            },
    {
        if let Some(bound_id) = bound_account_id {
            let remaining_wait = self.rate_limit_tracker.get_remaining_wait_at(
                scope_group,
                bound_id,
                now,
            );
            if remaining_wait > 0 {
                let waits = match scheduling.mode {
                    SchedulingMode::CacheFirst => remaining_wait <= scheduling.max_wait_seconds,
                    SchedulingMode::Balance => false,
                };
                if waits {
                    if let Some(token) = find_account(tokens, bound_id) {
                        return SchedulingDecision::WaitAndUse { token, wait_seconds: remaining_wait };
                    }
                }
            } else if !contains_text(attempted, bound_id) {
                if let Some(token) = find_account(tokens, bound_id) {
                    return SchedulingDecision::UseAccount(token);
                }
            }
        }
        match self.select_round_robin_at(tokens, scope_group, attempted, now) {
            Some(token) => SchedulingDecision::UseAccount(token),
            None => {
                let min_wait = match self.min_reset_at(tokens, scope_group, now) {
                    Some(w) => w,
                    None => DEFAULT_WAIT_SECONDS,
                };
                SchedulingDecision::AllUnavailable { min_wait_seconds: min_wait }
            },
        }
    }

    /// Selection for a request of a session, by the system clock.
    pub fn select_with_session(
        &mut self,
        tokens: &Vec<ProxyToken>,
        scope_group: &str,
        bound_account_id: Option<&str>,
        scheduling: &StickySessionConfig,
        attempted: &Vec<String>,
    ) -> (r: SchedulingDecision)
        ensures
            exists|now: i64|
                {
                    &&& r@ == #[trigger] session_decision(
                        models(tokens@),
                        crate::rate_limit::opt_str_view(bound_account_id),
                        *scheduling,
                        cursor_of(old(self).cursors(), scope_group@),
                        old(self).limits(),
                        scope_group@,
                        texts(attempted@),
                        now,
                    )
                    &&& final(self).cursors() == if bound_choice(
                        models(tokens@),
                        crate::rate_limit::opt_str_view(bound_account_id),
                        *scheduling,
                        old(self).limits(),
                        scope_group@,
                        texts(attempted@),
                        now,
                    ) is Some {
                        old(self).cursors()
                    } else {
                        cursors_after(old(self).cursors(), scope_group@, tokens@.len())
                    }
                },
            final(self).limits() == old(self).limits(),
    {
        let now = epoch_seconds();
        self.select_with_session_at(tokens, scope_group, bound_account_id, scheduling, attempted, now)
    }

    /// The tokens that are not limited in the scope at `now`, in pool order.
    pub fn get_healthy_accounts_at<'a>(
        &self,
        tokens: &'a Vec<ProxyToken>,
        scope_group: &str,
        now: i64,
    ) -> (r: Vec<&'a ProxyToken>)
        ensures
            ref_models(r@) == healthy_of(models(tokens@), self.limits(), scope_group@, now),
    {
        let mut out: Vec<&'a ProxyToken> = Vec::new();
        let mut i: usize = 0;
        assert(models(tokens@).take(0) =~= Seq::<TokenModel>::empty());
        assert(ref_models(out@) =~= Seq::<TokenModel>::empty());
        while i < tokens.len()
            invariant
                i <= tokens@.len(),
                ref_models(out@) == healthy_of(
                    models(tokens@).take(i as int),
                    self.limits(),
                    scope_group@,
                    now,
                ),
            decreases tokens@.len() - i,
        {
            let ghost before = ref_models(out@);
            proof {
                let longer = models(tokens@).take(i + 1);
                assert(longer.drop_last() =~= models(tokens@).take(i as int));
                assert(longer.last() == tokens@[i as int]@);
            }
            let t = &tokens[i];
            if !self.rate_limit_tracker.is_rate_limited_at(scope_group, t.account_id.as_str(), now) {
                out.push(t);
                assert(ref_models(out@) =~= before.push(tokens@[i as int]@));
            }
            i = i + 1;
        }
        assert(models(tokens@).take(i as int) =~= models(tokens@));
        out
    }

    /// The tokens that are not limited in the scope, by the system clock.
    pub fn get_healthy_accounts<'a>(&self, tokens: &'a Vec<ProxyToken>, scope_group: &str) -> (r: Vec<
        &'a ProxyToken,
    >)
        ensures
            exists|now: i64|
                ref_models(r@) == #[trigger] healthy_of(
                    models(tokens@),
                    self.limits(),
                    scope_group@,
                    now,
                ),
    {
        let now = epoch_seconds();
        self.get_healthy_accounts_at(tokens, scope_group, now)
    }

    /// The number of tokens that are limited in the scope at `now`.
    pub fn count_limited_accounts_at(&self, tokens: &Vec<ProxyToken>, scope_group: &str, now: i64) -> (r:
        usize)
        ensures
            r == limited_count(models(tokens@), self.limits(), scope_group@, now),
    {
        let mut count: usize = 0;
        let mut i: usize = 0;
        assert(models(tokens@).take(0) =~= Seq::<TokenModel>::empty());
        while i < tokens.len()
            invariant
                i <= tokens@.len(),
                count <= i,
                count == limited_count(
                    models(tokens@).take(i as int),
                    self.limits(),
                    scope_group@,
                    now,
                ),
            decreases tokens@.len() - i,
        {
            proof {
                let longer = models(tokens@).take(i + 1);
                assert(longer.drop_last() =~= models(tokens@).take(i as int));
                assert(longer.last() == tokens@[i as int]@);
            }
            if self.rate_limit_tracker.is_rate_limited_at(
                scope_group,
                tokens[i].account_id.as_str(),
                now,
            ) {
                count = count + 1;
            }
            i = i + 1;
        }
        assert(models(tokens@).take(i as int) =~= models(tokens@));
        count
    }

    /// The number of tokens that are limited in the scope, by the system clock.
    pub fn count_limited_accounts(&self, tokens: &Vec<ProxyToken>, scope_group: &str) -> (r: usize)
        ensures
            exists|now: i64|
                r == #[trigger] limited_count(models(tokens@), self.limits(), scope_group@, now),
    {
        let now = epoch_seconds();
        self.count_limited_accounts_at(tokens, scope_group, now)
    }
}

/// The models of a sequence of borrowed tokens.
pub open spec fn ref_models(tokens: Seq<&ProxyToken>) -> Seq<TokenModel> {
    Seq::new(tokens.len(), |i: int| tokens[i]@)
}

proof fn lemma_scan(
    tokens: Seq<TokenModel>,
    start: int,
    offset: int,
    limits: Limits,
    scope: Seq<char>,
    attempted: Seq<Seq<char>>,
    now: i64,
)
    requires
        0 <= start < tokens.len(),
        0 <= offset,
    ensures
        match scan_from(tokens, start, offset, limits, scope, attempted, now) {
            Some(t) => tokens.contains(t) && eligible(t, limits, scope, attempted, now),
            None => forall|k: int|
                offset <= k < tokens.len() ==> !eligible(
                    #[trigger] tokens[(start + k) % (tokens.len() as int)],
                    limits,
                    scope,
                    attempted,
                    now,
                ),
        },
    decreases tokens.len() - offset,
{
    if offset < tokens.len() {
        let at = (start + offset) % (tokens.len() as int);
        assert(0 <= at < tokens.len());
        lemma_scan(tokens, start, offset + 1, limits, scope, attempted, now);
    }
}

/// Round-robin selection returns only a token of the pool that was not
/// attempted and is not limited, and returns none only when the pool holds
/// no such token.
pub proof fn round_robin_law(
    tokens: Seq<TokenModel>,
    cursor: usize,
    limits: Limits,
    scope: Seq<char>,
    attempted: Seq<Seq<char>>,
    now: i64,
)
    ensures
        match round_robin_pick(tokens, cursor, limits, scope, attempted, now) {
            Some(t) => {
                &&& tokens.contains(t)
                &&& !attempted.contains(t.account_id)
                &&& !limited_in(limits, scope, t.account_id, now)
            },
            None => forall|i: int|
                0 <= i < tokens.len() ==> {
                    ||| attempted.contains((#[trigger] tokens[i]).account_id)
                    ||| limited_in(limits, scope, tokens[i].account_id, now)
                },
        },
{
    if tokens.len() > 0 {
        let n = tokens.len() as int;
        let start = cursor as int % n;
        lemma_scan(tokens, start, 0, limits, scope, attempted, now);
        if round_robin_pick(tokens, cursor, limits, scope, attempted, now) is None {
            assert forall|i: int| 0 <= i < tokens.len() implies {
                ||| attempted.contains((#[trigger] tokens[i]).account_id)
                ||| limited_in(limits, scope, tokens[i].account_id, now)
            } by {
                let k = if i >= start {
                    i - start
                } else {
                    i - start + n
                };
                if i >= start {
                    vstd::arithmetic::div_mod::lemma_small_mod(i as nat, n as nat);
                } else {
                    vstd::arithmetic::div_mod::lemma_mod_sub_multiples_vanish(i + n, n);
                    vstd::arithmetic::div_mod::lemma_small_mod(i as nat, n as nat);
                }
                assert((start + k) % n == i);
                assert(!eligible(tokens[(start + k) % n], limits, scope, attempted, now));
            }
        }
    }
}

proof fn lemma_first_with_id(tokens: Seq<TokenModel>, id: Seq<char>)
    ensures
        match first_with_id(tokens, id) {
            Some(t) => tokens.contains(t) && t.account_id == id,
            None => forall|i: int| 0 <= i < tokens.len() ==> (#[trigger] tokens[i]).account_id != id,
        },
    decreases tokens.len(),
{
    if tokens.len() > 0 {
        let rest = tokens.drop_first();
        lemma_first_with_id(rest, id);
        if tokens[0].account_id != id {
            match first_with_id(rest, id) {
                Some(t) => {
                    let k = choose|k: int| 0 <= k < rest.len() && rest[k] == t;
                    assert(tokens[k + 1] == t);
                },
                None => {
                    assert forall|i: int| 0 <= i < tokens.len() implies (#[trigger] tokens[i]).account_id
                        != id by {
                        if i > 0 {
                            assert(rest[i - 1] == tokens[i]);
                        }
                    }
                },
            }
        }
    }
}

proof fn lemma_min_reset(tokens: Seq<TokenModel>, limits: Limits, scope: Seq<char>, now: i64)
    ensures
        match min_reset(tokens, limits, scope, now) {
            Some(m) => {
                &&& exists|i: int|
                    0 <= i < tokens.len() && reset_in(
                        limits,
                        scope,
                        (#[trigger] tokens[i]).account_id,
                        now,
                    ) == Some(m)
                &&& forall|i: int|
                    0 <= i < tokens.len() ==> match reset_in(
                        limits,
                        scope,
                        (#[trigger] tokens[i]).account_id,
                        now,
                    ) {
                        Some(w) => m <= w,
                        None => true,
                    }
            },
            None => forall|i: int|
                0 <= i < tokens.len() ==> reset_in(
                    limits,
                    scope,
                    (#[trigger] tokens[i]).account_id,
                    now,
                ) is None,
        },
    decreases tokens.len(),
{
    if tokens.len() > 0 {
        let rest = tokens.drop_last();
        let last = tokens.last();
        lemma_min_reset(rest, limits, scope, now);
        assert forall|i: int| 0 <= i < rest.len() implies rest[i] == tokens[i] by {}
        match min_reset(tokens, limits, scope, now) {
            Some(m) => {
                if reset_in(limits, scope, last.account_id, now) == Some(m) {
                    assert(tokens[tokens.len() - 1] == last);
                } else {
                    let k = choose|k: int|
                        0 <= k < rest.len() && reset_in(
                            limits,
                            scope,
                            (#[trigger] rest[k]).account_id,
                            now,
                        ) == Some(m);
                    assert(tokens[k] == rest[k]);
                }
                assert forall|i: int| 0 <= i < tokens.len() implies match reset_in(
                    limits,
                    scope,
                    (#[trigger] tokens[i]).account_id,
                    now,
                ) {
                    Some(w) => m <= w,
                    None => true,
                } by {
                    if i < rest.len() {
                        assert(rest[i] == tokens[i]);
                    }
                }
            },
            None => {
                assert forall|i: int| 0 <= i < tokens.len() implies reset_in(
                    limits,
                    scope,
                    (#[trigger] tokens[i]).account_id,
                    now,
                ) is None by {
                    if i < rest.len() {
                        assert(rest[i] == tokens[i]);
                    }
                }
            },
        }
    }
}

/// What a decision for a session can be. An account used at once is in the
/// pool, was not attempted and is not limited. An account waited for is in
/// the pool, is the bound one, and its wait is the time its limit has left,
/// within the policy's bound, under `CacheFirst`. Nothing is reported
/// available only when every token was attempted or is limited, and the
/// wait reported then is the shortest reset time among the pool's tokens,
/// or the default when none is known.
pub proof fn session_decision_law(
    tokens: Seq<TokenModel>,
    bound: Option<Seq<char>>,
    policy: StickySessionConfig,
    cursor: usize,
    limits: Limits,
    scope: Seq<char>,
    attempted: Seq<Seq<char>>,
    now: i64,
)
    ensures
        match session_decision(tokens, bound, policy, cursor, limits, scope, attempted, now) {
            DecisionModel::UseAccount(t) => {
                &&& tokens.contains(t)
                &&& !attempted.contains(t.account_id)
                &&& !limited_in(limits, scope, t.account_id, now)
            },
            DecisionModel::WaitAndUse { token, wait_seconds } => {
                &&& tokens.contains(token)
                &&& bound == Some(token.account_id)
                &&& policy.mode == SchedulingMode::CacheFirst
                &&& 0 < wait_seconds <= policy.max_wait_seconds
                &&& wait_seconds == wait_in(limits, scope, token.account_id, now)
            },
            DecisionModel::AllUnavailable { min_wait_seconds } => {
                &&& forall|i: int|
                    0 <= i < tokens.len() ==> {
                        ||| attempted.contains((#[trigger] tokens[i]).account_id)
                        ||| limited_in(limits, scope, tokens[i].account_id, now)
                    }
                &&& forall|i: int|
                    0 <= i < tokens.len() ==> match reset_in(
                        limits,
                        scope,
                        (#[trigger] tokens[i]).account_id,
                        now,
                    ) {
                        Some(w) => min_wait_seconds <= w,
                        None => true,
                    }
                &&& min_wait_seconds == DEFAULT_WAIT_SECONDS || exists|i: int|
                    0 <= i < tokens.len() && reset_in(
                        limits,
                        scope,
                        (#[trigger] tokens[i]).account_id,
                        now,
                    ) == Some(min_wait_seconds)
            },
        },
{
    round_robin_law(tokens, cursor, limits, scope, attempted, now);
    lemma_min_reset(tokens, limits, scope, now);
    if let Some(id) = bound {
        lemma_first_with_id(tokens, id);
    }
}

/// The scope of an image generation request is the quota group followed by
/// `::image_gen`; the scope of any other request is the quota group itself.
pub proof fn scope_key_law(quota_group: Seq<char>, request_type: Seq<char>)
    ensures
        scope_key(quota_group, "image_gen"@) == quota_group + "::image_gen"@,
        request_type != "image_gen"@ ==> scope_key(quota_group, request_type) == quota_group,
{
}

} // verus!
