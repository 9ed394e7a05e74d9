//! Which accounts are rate-limited in which scope, and until when.
//!
//! The tracker keeps one deadline (epoch seconds) per scope and account. An
//! account is limited in a scope while the clock is before that deadline.
//! Where the list of entries names a scope and account more than once, the
//! last entry counts.

use vstd::prelude::*;
use crate::clock::epoch_seconds;
use crate::text::same_text;

verus! {

/// Seconds recorded when an upstream error names no usable retry time.
pub const DEFAULT_RETRY_SECONDS: u64 = 60;

/// The deadlines a tracker holds: scope and account to epoch seconds.
pub type Limits = Map<(Seq<char>, Seq<char>), i64>;

/// The deadline of a limit of `seconds` recorded at `now`; it stops at the
/// largest representable time.
pub open spec fn deadline_after(now: i64, seconds: u64) -> i64 {
    if now + seconds > i64::MAX {
        i64::MAX
    } else {
        (now + seconds) as i64
    }
}

/// The account is limited in the scope at `now`.
pub open spec fn limited_in(limits: Limits, scope: Seq<char>, account: Seq<char>, now: i64) -> bool {
    limits.contains_key((scope, account)) && now < limits[(scope, account)]
}

/// Seconds until the account's limit in the scope ends; zero when it is not limited.
pub open spec fn wait_in(limits: Limits, scope: Seq<char>, account: Seq<char>, now: i64) -> u64 {
    if limited_in(limits, scope, account, now) {
        (limits[(scope, account)] - now) as u64
    } else {
        0
    }
}

/// Seconds until the account's limit in the scope ends, if it is limited.
pub open spec fn reset_in(limits: Limits, scope: Seq<char>, account: Seq<char>, now: i64) -> Option<u64> {
    if limited_in(limits, scope, account, now) {
        Some((limits[(scope, account)] - now) as u64)
    } else {
        None
    }
}

/// A decimal digit.
pub open spec fn is_digit(c: char) -> bool {
    '0' <= c && c <= '9'
}

/// The number that a run of decimal digits writes.
pub open spec fn digits_value(s: Seq<char>) -> nat
    decreases s.len(),
{
    if s.len() == 0 {
        0
    } else {
        (digits_value(s.drop_last()) * 10 + (s.last() as u32 - '0' as u32)) as nat
    }
}

/// Every character of `s` is a decimal digit.
pub open spec fn all_digits(s: Seq<char>) -> bool {
    forall|i: int| 0 <= i < s.len() ==> is_digit(#[trigger] s[i])
}

/// The seconds that a retry-after header names: the header must be a
/// non-empty run of decimal digits whose value fits in 64 bits.
pub open spec fn header_seconds(text: Seq<char>) -> Option<u64> {
    if text.len() > 0 && all_digits(text) && digits_value(text) <= u64::MAX {
        Some(digits_value(text) as u64)
    } else {
        None
    }
}

/// The seconds recorded for an upstream error with this retry-after header.
pub open spec fn retry_seconds(header: Option<Seq<char>>) -> u64 {
    match header {
        Some(text) => match header_seconds(text) {
            Some(n) => n,
            None => DEFAULT_RETRY_SECONDS,
        },
        None => DEFAULT_RETRY_SECONDS,
    }
}

struct LimitEntry {
    scope: String,
    account_id: String,
    reset_at: i64,
}

spec fn entry_key(e: LimitEntry) -> (Seq<char>, Seq<char>) {
    (e.scope@, e.account_id@)
}

spec fn deadlines(s: Seq<LimitEntry>) -> Limits
    decreases s.len(),
{
    if s.len() == 0 {
        Map::empty()
    } else {
        deadlines(s.drop_last()).insert(entry_key(s.last()), s.last().reset_at)
    }
}

spec fn last_with_key(s: Seq<LimitEntry>, key: (Seq<char>, Seq<char>), at: int) -> bool {
    &&& 0 <= at < s.len()
    &&& entry_key(s[at]) == key
    &&& forall|j: int| at < j < s.len() ==> entry_key(#[trigger] s[j]) != key
}

proof fn lemma_absent_key(s: Seq<LimitEntry>, key: (Seq<char>, Seq<char>))
    requires
        forall|i: int| 0 <= i < s.len() ==> entry_key(#[trigger] s[i]) != key,
    ensures
        !deadlines(s).contains_key(key),
    decreases s.len(),
{
    if s.len() > 0 {
        let rest = s.drop_last();
        assert forall|i: int| 0 <= i < rest.len() implies entry_key(#[trigger] rest[i]) != key by {
            assert(rest[i] == s[i]);
        }
        lemma_absent_key(rest, key);
    }
}

proof fn lemma_present_key(s: Seq<LimitEntry>, key: (Seq<char>, Seq<char>), at: int)
    requires
        last_with_key(s, key, at),
    ensures
        deadlines(s).contains_key(key),
        deadlines(s)[key] == s[at].reset_at,
    decreases s.len(),
{
    let rest = s.drop_last();
    if at < s.len() - 1 {
        assert forall|j: int| at < j < rest.len() implies entry_key(#[trigger] rest[j]) != key by {
            assert(rest[j] == s[j]);
        }
        assert(rest[at] == s[at]);
        lemma_present_key(rest, key, at);
        assert(entry_key(s[s.len() - 1]) != key);
    }
}

proof fn lemma_replaced_key(s: Seq<LimitEntry>, at: int, e: LimitEntry)
    requires
        last_with_key(s, entry_key(e), at),
    ensures
        deadlines(s.update(at, e)) == deadlines(s).insert(entry_key(e), e.reset_at),
    decreases s.len(),
{
    let t = s.update(at, e);
    let rest = s.drop_last();
    if at == s.len() - 1 {
        assert(t.drop_last() =~= rest);
        assert(deadlines(t) =~= deadlines(s).insert(entry_key(e), e.reset_at));
    } else {
        assert forall|j: int| at < j < rest.len() implies entry_key(#[trigger] rest[j]) != entry_key(
            e,
        ) by {
            assert(rest[j] == s[j]);
        }
        assert(rest[at] == s[at]);
        lemma_replaced_key(rest, at, e);
        assert(t.drop_last() =~= rest.update(at, e));
        assert(t.last() == s.last());
        assert(entry_key(s[s.len() - 1]) != entry_key(e));
        assert(deadlines(t) =~= deadlines(s).insert(entry_key(e), e.reset_at));
    }
}

proof fn lemma_digits_grow(s: Seq<char>, k: int)
    requires
        0 <= k <= s.len(),
        all_digits(s),
    ensures
        digits_value(s.take(k)) <= digits_value(s),
    decreases s.len() - k,
{
    if k < s.len() {
        let longer = s.take(k + 1);
        assert(longer.drop_last() =~= s.take(k));
        assert(longer.last() == s[k]);
        assert(is_digit(s[k]));
        lemma_digits_grow(s, k + 1);
    } else {
        assert(s.take(k) =~= s);
    }
}

/// Reads a retry-after header as a number of seconds.
pub fn parse_seconds(text: &str) -> (r: Option<u64>)
    ensures
        r == header_seconds(text@),
{
    let mut value: u64 = 0;
    let mut seen: bool = false;
    for c in it: text.chars()
        invariant
            it.seq() == text@,
            seen == (it.index() > 0),
            all_digits(text@.take(it.index() as int)),
            value == digits_value(text@.take(it.index() as int)),
    {
        let ghost count = it.index() as int;
        let ghost before = text@.take(count);
        let ghost after = text@.take(count + 1);
        proof {
            assert(after.drop_last() =~= before);
            assert(after.last() == c);
        }
        if !('0' <= c && c <= '9') {
            assert(!is_digit(text@[count]));
            return None;
        }
        let digit: u64 = (c as u32 - '0' as u32) as u64;
        if value > (u64::MAX - digit) / 10 {
            proof {
                assert(digits_value(after) == value * 10 + digit);
                assert(digits_value(after) > u64::MAX);
                if all_digits(text@) {
                    lemma_digits_grow(text@, count + 1);
                }
            }
            return None;
        }
        value = value * 10 + digit;
        seen = true;
        proof {
            assert forall|i: int| 0 <= i < after.len() implies is_digit(#[trigger] after[i]) by {
                if i < before.len() {
                    assert(before[i] == after[i]);
                }
            }
        }
    }
    proof {
        assert(text@.take(text@.len() as int) =~= text@);
    }
    if seen {
        Some(value)
    } else {
        None
    }
}

/// Per-scope, per-account rate-limit deadlines.
pub struct RateLimitTracker {
    entries: Vec<LimitEntry>,
}

impl View for RateLimitTracker {
    type V = Limits;

    closed spec fn view(&self) -> Limits {
        deadlines(self.entries@)
    }
}

impl RateLimitTracker {
    /// A tracker with no limits.
    pub fn new() -> (r: Self)
        ensures
            r@ == Limits::empty(),
    {
        RateLimitTracker { entries: Vec::new() }
    }

    fn position(&self, scope: &str, account_id: &str) -> (r: Option<usize>)
        ensures
            match r {
                Some(i) => last_with_key(self.entries@, (scope@, account_id@), i as int),
                None => forall|i: int|
                    0 <= i < self.entries@.len() ==> entry_key(#[trigger] self.entries@[i]) != (
                        scope@,
                        account_id@,
                    ),
            },
    {
        let mut i: usize = self.entries.len();
        while i > 0
            invariant
                i <= self.entries@.len(),
                forall|k: int|
                    i <= k < self.entries@.len() ==> entry_key(#[trigger] self.entries@[k]) != (
                        scope@,
                        account_id@,
                    ),
            decreases i,
        {
            i = i - 1;
            let e = &self.entries[i];
            if same_text(e.scope.as_str(), scope) && same_text(e.account_id.as_str(), account_id) {
                return Some(i);
            }
        }
        None
    }

    fn deadline(&self, scope: &str, account_id: &str) -> (r: Option<i64>)
        ensures
            match r {
                Some(d) => self@.contains_key((scope@, account_id@)) && self@[(scope@, account_id@)]
                    == d,
                None => !self@.contains_key((scope@, account_id@)),
            },
    {
        match self.position(scope, account_id) {
            Some(i) => {
                proof {
                    lemma_present_key(self.entries@, (scope@, account_id@), i as int);
                }
                Some(self.entries[i].reset_at)
            },
            None => {
                proof {
                    lemma_absent_key(self.entries@, (scope@, account_id@));
                }
                None
            },
        }
    }

    /// Records at `now` that the account is limited in the scope for `seconds`.
    pub fn mark_limited_at(&mut self, scope: &str, account_id: &str, seconds: u64, now: i64)
        ensures
            final(self)@ == old(self)@.insert((scope@, account_id@), deadline_after(now, seconds)),
    {
        let sum: i128 = now as i128 + seconds as i128;
        let reset_at: i64 = if sum > i64::MAX as i128 {
            i64::MAX
        } else {
            sum as i64
        };
        let entry = LimitEntry {
            scope: scope.to_owned(),
            account_id: account_id.to_owned(),
            reset_at,
        };
        match self.position(scope, account_id) {
            Some(i) => {
                proof {
                    lemma_replaced_key(self.entries@, i as int, entry);
                }
                self.entries.set(i, entry);
            },
            None => {
                let ghost before = self.entries@;
                self.entries.push(entry);
                proof {
                    assert(self.entries@.drop_last() =~= before);
                    assert(self.entries@.last() == entry);
                }
            },
        }
    }

    /// Whether the account is limited in the scope at `now`.
    pub fn is_rate_limited_at(&self, scope: &str, account_id: &str, now: i64) -> (r: bool)
        ensures
            r == limited_in(self@, scope@, account_id@, now),
    {
        match self.deadline(scope, account_id) {
            Some(d) => now < d,
            None => false,
        }
    }

    /// Seconds left at `now` of the account's limit in the scope; zero when
    /// it is not limited.
    pub fn get_remaining_wait_at(&self, scope: &str, account_id: &str, now: i64) -> (r: u64)
        ensures
            r == wait_in(self@, scope@, account_id@, now),
            r == 0 <==> !limited_in(self@, scope@, account_id@, now),
    {
        match self.deadline(scope, account_id) {
            Some(d) => if now < d {
                span_seconds(now, d)
            } else {
                0
            },
            None => 0,
        }
    }

    /// Seconds left at `now` of the account's limit in the scope, if it is limited.
    pub fn get_reset_seconds_at(&self, scope: &str, account_id: &str, now: i64) -> (r: Option<u64>)
        ensures
            r == reset_in(self@, scope@, account_id@, now),
    {
        match self.deadline(scope, account_id) {
            Some(d) => if now < d {
                Some(span_seconds(now, d))
            } else {
                None
            },
            None => None,
        }
    }

    /// Records at `now` the limit that an upstream error announces. The wait
    /// is the retry-after header where it is a plain number of seconds, and
    /// `DEFAULT_RETRY_SECONDS` otherwise; status and body are accepted as the
    /// caller has them and are not inspected. Returns the seconds recorded.
    pub fn parse_from_error_at(
        &mut self,
        scope: &str,
        account_id: &str,
        status: u16,
        retry_after_header: Option<&str>,
        body: &str,
        now: i64,
    ) -> (seconds: u64)
        ensures
            seconds == retry_seconds(opt_str_view(retry_after_header)),
            final(self)@ == old(self)@.insert((scope@, account_id@), deadline_after(now, seconds)),
    {
        let seconds = match retry_after_header {
            Some(text) => match parse_seconds(text) {
                Some(n) => n,
                None => DEFAULT_RETRY_SECONDS,
            },
            None => DEFAULT_RETRY_SECONDS,
        };
        self.mark_limited_at(scope, account_id, seconds, now);
        seconds
    }

    /// Records, by the system clock, that the account is limited in the
    /// scope for `seconds`.
    pub fn mark_limited(&mut self, scope: &str, account_id: &str, seconds: u64)
        ensures
            exists|now: i64|
                final(self)@ == old(self)@.insert(
                    (scope@, account_id@),
                    #[trigger] deadline_after(now, seconds),
                ),
    {
        let now = epoch_seconds();
        self.mark_limited_at(scope, account_id, seconds, now);
    }

    /// Whether the account is limited in the scope by the system clock.
    pub fn is_rate_limited(&self, scope: &str, account_id: &str) -> (r: bool)
        ensures
            exists|now: i64| r == #[trigger] limited_in(self@, scope@, account_id@, now),
    {
        let now = epoch_seconds();
        self.is_rate_limited_at(scope, account_id, now)
    }

    /// Seconds left, by the system clock, of the account's limit in the scope.
    pub fn get_remaining_wait(&self, scope: &str, account_id: &str) -> (r: u64)
        ensures
            exists|now: i64| r == #[trigger] wait_in(self@, scope@, account_id@, now),
    {
        let now = epoch_seconds();
        self.get_remaining_wait_at(scope, account_id, now)
    }

    /// Seconds left, by the system clock, of the account's limit in the
    /// scope, if it is limited.
    pub fn get_reset_seconds(&self, scope: &str, account_id: &str) -> (r: Option<u64>)
        ensures
            exists|now: i64| r == #[trigger] reset_in(self@, scope@, account_id@, now),
    {
        let now = epoch_seconds();
        self.get_reset_seconds_at(scope, account_id, now)
    }

    /// Records, by the system clock, the limit that an upstream error
    /// announces; see `parse_from_error_at`.
    pub fn parse_from_error(
        &mut self,
        scope: &str,
        account_id: &str,
        status: u16,
        retry_after_header: Option<&str>,
        body: &str,
    ) -> (seconds: u64)
        ensures
            seconds == retry_seconds(opt_str_view(retry_after_header)),
            exists|now: i64|
                final(self)@ == old(self)@.insert(
                    (scope@, account_id@),
                    #[trigger] deadline_after(now, seconds),
                ),
    {
        let now = epoch_seconds();
        self.parse_from_error_at(scope, account_id, status, retry_after_header, body, now)
    }
}

/// View of an optional string slice.
pub open spec fn opt_str_view(s: Option<&str>) -> Option<Seq<char>> {
    match s {
        Some(t) => Some(t@),
        None => None,
    }
}

fn span_seconds(now: i64, deadline: i64) -> (r: u64)
    requires
        now < deadline,
    ensures
        r == deadline - now,
{
    if now >= 0 {
        (deadline - now) as u64
    } else if deadline < 0 {
        (deadline - now) as u64
    } else {
        let below: u64 = (-(now + 1)) as u64 + 1;
        (deadline as u64) + below
    }
}

/// A limit recorded at `marked_at` for `seconds` holds, whatever else the
/// tracker held, at every time before its deadline and at none from the
/// deadline on; the remaining wait is zero exactly when it does not hold.
pub proof fn limit_holds_until_deadline(
    limits: Limits,
    scope: Seq<char>,
    account: Seq<char>,
    seconds: u64,
    marked_at: i64,
    now: i64,
)
    ensures
        ({
            let after = limits.insert((scope, account), deadline_after(marked_at, seconds));
            &&& limited_in(after, scope, account, now) <==> now < deadline_after(marked_at, seconds)
            &&& marked_at + seconds <= i64::MAX ==> (limited_in(after, scope, account, now) <==> now
                < marked_at + seconds)
            &&& wait_in(after, scope, account, now) == 0 <==> !limited_in(after, scope, account, now)
            &&& reset_in(after, scope, account, now) is Some <==> limited_in(
                after,
                scope,
                account,
                now,
            )
        }),
{
}

/// Recording a limit for one scope and account leaves every other scope
/// and account as it was.
pub proof fn limit_is_per_scope_and_account(
    limits: Limits,
    scope: Seq<char>,
    account: Seq<char>,
    deadline: i64,
    other_scope: Seq<char>,
    other_account: Seq<char>,
    now: i64,
)
    requires
        other_scope != scope || other_account != account,
    ensures
        limited_in(limits.insert((scope, account), deadline), other_scope, other_account, now)
            == limited_in(limits, other_scope, other_account, now),
{
}

} // verus!
