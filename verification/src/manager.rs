//! The token manager: the account registry with its scheduling state, and
//! the steps of one token request.
//!
//! A request cannot be served in one call, because refreshing a token,
//! resolving a project id, writing an account file and waiting are the
//! caller's to do. `begin_request` opens a request and `advance` moves it
//! on: each call returns the action that the caller has to perform next,
//! and the caller reports the outcome as the event of the following call.

use vstd::prelude::*;
use vstd::string::StringExecFns;
use dashmap::DashMap;
use std::sync::Arc;
use tokio::sync::Mutex;
use crate::account_file::{
    account_in, expiry_after, expiry_time, load_single_account, project_changes,
    project_keeps_other_fields, refresh_changes, refresh_keeps_other_fields, token_updated,
};
use crate::clock::epoch_seconds;
use crate::json::json_parsed;
use crate::rate_limit::{
    deadline_after, limited_in, opt_str_view, retry_seconds, Limits, RateLimitTracker,
};
use crate::refresh::{distinct_handles, RefreshCoordinator, TokenResponse};
use crate::scheduling::{
    bound_choice, cursor_of, cursors_after, round_robin_pick, scope_key, session_decision,
    stable_by_tier, texts, AccountScheduler, DecisionModel, SchedulingDecision, DEFAULT_WAIT_SECONDS,
};
use crate::session::{bound_account, session_key_text, SessionManager};
use crate::shared_map::{
    account_map, accounts_clear, accounts_get, accounts_insert, accounts_is_empty, accounts_len,
    accounts_new, accounts_remove, accounts_values, is_listing, locks_after, new_to,
};
use crate::sticky_config::{default_policy, StickySessionConfig};
use crate::text::{decimal_string, decimal_text, has_substring, join};
use crate::types::{
    copy_opt_text, expired_at, models, opt_text, ProxyToken, SelectedToken, TokenModel,
};

verus! {

/// The state of a token manager, as mathematical values.
pub struct ManagerModel {
    /// The registry: account id to token record.
    pub accounts: Map<Seq<char>, TokenModel>,
    /// The session bindings, by session key.
    pub sessions: Map<Seq<char>, Seq<char>>,
    /// The rate-limit deadlines.
    pub limits: Limits,
    /// The round-robin cursors, by scope.
    pub cursors: Map<Seq<char>, usize>,
    /// The sticky-session policy.
    pub policy: StickySessionConfig,
}

/// The values of the credentials handed out for a request.
pub struct SelectedModel {
    pub access_token: Seq<char>,
    pub project_id: Seq<char>,
    pub email: Seq<char>,
    pub account_id: Seq<char>,
}

impl View for SelectedToken {
    type V = SelectedModel;

    open spec fn view(&self) -> SelectedModel {
        SelectedModel {
            access_token: self.access_token@,
            project_id: self.project_id@,
            email: self.email@,
            account_id: self.account_id@,
        }
    }
}

/// Where a request stands, over token models.
pub enum PhaseModel {
    Selecting,
    Waiting(TokenModel),
    Refreshing(TokenModel),
    Disabling(TokenModel, Seq<char>),
    Resolving(TokenModel),
    SavingProject(TokenModel, Seq<char>),
    Finished,
}

/// A request, as mathematical values.
pub struct RequestModel {
    pub pool: Seq<TokenModel>,
    pub scope: Seq<char>,
    pub policy: StickySessionConfig,
    pub bound: Option<Seq<char>>,
    pub session_id: Option<Seq<char>>,
    pub force_rotate: bool,
    pub attempted: Seq<Seq<char>>,
    pub last_error: Option<Seq<char>>,
    pub attempt: usize,
    pub phase: PhaseModel,
}

/// What the caller reports, as mathematical values.
pub enum EventModel {
    Start,
    Waited,
    Refreshed { access_token: Seq<char>, expires_in: i64, timestamp: i64 },
    RefreshFailed(Seq<char>),
    Disabled,
    ProjectFetched(Seq<char>),
    ProjectFetchFailed(Seq<char>),
    ProjectSaved,
    ProjectSaveFailed(Seq<char>),
}

/// What the caller is asked to do, as mathematical values.
pub enum ActionModel {
    Wait { seconds: u64 },
    Refresh { token: TokenModel },
    Disable { account_id: Seq<char>, known_path: Option<Seq<char>>, reason: Seq<char> },
    FetchProject { access_token: Seq<char> },
    SaveProject { account_path: Seq<char>, project_id: Seq<char> },
    Done(SelectedModel),
    Fail(Seq<char>),
}

/// Where a request stands.
#[derive(Debug)]
pub enum RequestPhase {
    /// The next candidate is to be chosen.
    Selecting,
    /// The caller waits for the limit of this account to end.
    Waiting(ProxyToken),
    /// The caller refreshes this account's token.
    Refreshing(ProxyToken),
    /// The caller disables this account after this refresh error.
    Disabling(ProxyToken, String),
    /// The caller resolves the project id of this account.
    Resolving(ProxyToken),
    /// The caller writes this project id into the account's file.
    SavingProject(ProxyToken, String),
    /// The request is over.
    Finished,
}

impl View for RequestPhase {
    type V = PhaseModel;

    open spec fn view(&self) -> PhaseModel {
        match self {
            RequestPhase::Selecting => PhaseModel::Selecting,
            RequestPhase::Waiting(t) => PhaseModel::Waiting(t@),
            RequestPhase::Refreshing(t) => PhaseModel::Refreshing(t@),
            RequestPhase::Disabling(t, e) => PhaseModel::Disabling(t@, e@),
            RequestPhase::Resolving(t) => PhaseModel::Resolving(t@),
            RequestPhase::SavingProject(t, p) => PhaseModel::SavingProject(t@, p@),
            RequestPhase::Finished => PhaseModel::Finished,
        }
    }
}

/// One token request in progress.
#[derive(Debug)]
pub struct TokenRequest {
    pub pool: Vec<ProxyToken>,
    pub scope: String,
    pub policy: StickySessionConfig,
    pub bound: Option<String>,
    pub session_id: Option<String>,
    pub force_rotate: bool,
    pub attempted: Vec<String>,
    pub last_error: Option<String>,
    pub attempt: usize,
    pub phase: RequestPhase,
}

impl View for TokenRequest {
    type V = RequestModel;

    open spec fn view(&self) -> RequestModel {
        RequestModel {
            pool: models(self.pool@),
            scope: self.scope@,
            policy: self.policy,
            bound: opt_text(self.bound),
            session_id: opt_text(self.session_id),
            force_rotate: self.force_rotate,
            attempted: texts(self.attempted@),
            last_error: opt_text(self.last_error),
            attempt: self.attempt,
            phase: self.phase@,
        }
    }
}

/// What the caller reports to `advance`.
#[derive(Debug)]
pub enum RequestEvent {
    /// The request was just opened.
    Start,
    /// The wait that was asked for is over.
    Waited,
    /// The token was refreshed, or found refreshed, and persisted.
    Refreshed { access_token: String, expires_in: i64, timestamp: i64 },
    /// The refresh failed with this error.
    RefreshFailed(String),
    /// The account file was marked disabled, or could not be.
    Disabled,
    /// The project id was resolved.
    ProjectFetched(String),
    /// The project id could not be resolved.
    ProjectFetchFailed(String),
    /// The project id was written into the account file.
    ProjectSaved,
    /// The project id could not be written.
    ProjectSaveFailed(String),
}

impl View for RequestEvent {
    type V = EventModel;

    open spec fn view(&self) -> EventModel {
        match self {
            RequestEvent::Start => EventModel::Start,
            RequestEvent::Waited => EventModel::Waited,
            RequestEvent::Refreshed { access_token, expires_in, timestamp } => EventModel::Refreshed {
                access_token: access_token@,
                expires_in: *expires_in,
                timestamp: *timestamp,
            },
            RequestEvent::RefreshFailed(e) => EventModel::RefreshFailed(e@),
            RequestEvent::Disabled => EventModel::Disabled,
            RequestEvent::ProjectFetched(p) => EventModel::ProjectFetched(p@),
            RequestEvent::ProjectFetchFailed(e) => EventModel::ProjectFetchFailed(e@),
            RequestEvent::ProjectSaved => EventModel::ProjectSaved,
            RequestEvent::ProjectSaveFailed(e) => EventModel::ProjectSaveFailed(e@),
        }
    }
}

/// What `advance` asks the caller to do next.
#[derive(Debug)]
pub enum RequestAction {
    /// Wait this long, then report `Waited`.
    Wait { seconds: u64 },
    /// Refresh this token under the account's lock and persist the result;
    /// report `Refreshed` or `RefreshFailed`.
    Refresh { token: ProxyToken },
    /// Mark the account's file disabled with this reason; report `Disabled`
    /// whatever came of it. The path is the registry's, where it knows the
    /// account.
    Disable { account_id: String, known_path: Option<String>, reason: String },
    /// Resolve the project id with this access token; report
    /// `ProjectFetched` or `ProjectFetchFailed`.
    FetchProject { access_token: String },
    /// Write the project id into the account file at this path; report
    /// `ProjectSaved` or `ProjectSaveFailed`.
    SaveProject { account_path: String, project_id: String },
    /// The request is served with these credentials.
    Done(SelectedToken),
    /// The request failed with this message.
    Fail(String),
}

impl View for RequestAction {
    type V = ActionModel;

    open spec fn view(&self) -> ActionModel {
        match self {
            RequestAction::Wait { seconds } => ActionModel::Wait { seconds: *seconds },
            RequestAction::Refresh { token } => ActionModel::Refresh { token: token@ },
            RequestAction::Disable { account_id, known_path, reason } => ActionModel::Disable {
                account_id: account_id@,
                known_path: opt_text(*known_path),
                reason: reason@,
            },
            RequestAction::FetchProject { access_token } => ActionModel::FetchProject {
                access_token: access_token@,
            },
            RequestAction::SaveProject { account_path, project_id } => ActionModel::SaveProject {
                account_path: account_path@,
                project_id: project_id@,
            },
            RequestAction::Done(t) => ActionModel::Done(t@),
            RequestAction::Fail(e) => ActionModel::Fail(e@),
        }
    }
}

/// The message of a request that found every account unavailable.
pub open spec fn limited_message(wait: u64) -> Seq<char> {
    "All accounts are currently limited. Please wait "@ + decimal_text(wait as nat) + "s."@
}

/// Whether the request's current attempt selects by rotation alone.
pub open spec fn rotating(q: RequestModel) -> bool {
    q.force_rotate || q.attempt > 0
}

/// The number of the attempt after `attempt`.
pub open spec fn next_attempt(attempt: usize) -> usize {
    if attempt == usize::MAX {
        attempt
    } else {
        (attempt + 1) as usize
    }
}

/// The record with refreshed credentials.
pub open spec fn with_credentials(
    t: TokenModel,
    access_token: Seq<char>,
    expires_in: i64,
    timestamp: i64,
) -> TokenModel {
    TokenModel { access_token: access_token, expires_in: expires_in, timestamp: timestamp, ..t }
}

/// The registry after the account's credentials were refreshed; an account
/// that has left the registry stays out.
pub open spec fn accounts_refreshed(
    accounts: Map<Seq<char>, TokenModel>,
    id: Seq<char>,
    access_token: Seq<char>,
    expires_in: i64,
    timestamp: i64,
) -> Map<Seq<char>, TokenModel> {
    if accounts.contains_key(id) {
        accounts.insert(id, with_credentials(accounts[id], access_token, expires_in, timestamp))
    } else {
        accounts
    }
}

/// The registry after the account's project id was resolved.
pub open spec fn accounts_resolved(
    accounts: Map<Seq<char>, TokenModel>,
    id: Seq<char>,
    project_id: Seq<char>,
) -> Map<Seq<char>, TokenModel> {
    if accounts.contains_key(id) {
        accounts.insert(id, TokenModel { project_id: Some(project_id), ..accounts[id] })
    } else {
        accounts
    }
}

/// The request is served with `t` and the given project id: the session is
/// bound to the account unless the attempt was a rotation.
pub open spec fn finish_step(m: ManagerModel, q: RequestModel, t: TokenModel, project_id: Seq<char>) -> (
    ManagerModel,
    RequestModel,
    ActionModel,
) {
    let sessions = match q.session_id {
        Some(sid) => if rotating(q) {
            m.sessions
        } else {
            m.sessions.insert(session_key_text(q.scope, sid), t.account_id)
        },
        None => m.sessions,
    };
    (
        ManagerModel { sessions: sessions, ..m },
        RequestModel { phase: PhaseModel::Finished, ..q },
        ActionModel::Done(
            SelectedModel {
                access_token: t.access_token,
                project_id: project_id,
                email: t.email,
                account_id: t.account_id,
            },
        ),
    )
}

/// The candidate `t` has usable credentials: the request is served if the
/// project id is known, and the caller is asked to resolve it otherwise.
pub open spec fn project_step(m: ManagerModel, q: RequestModel, t: TokenModel) -> (
    ManagerModel,
    RequestModel,
    ActionModel,
) {
    match t.project_id {
        Some(pid) => finish_step(m, q, t, pid),
        None => (
            m,
            RequestModel { phase: PhaseModel::Resolving(t), ..q },
            ActionModel::FetchProject { access_token: t.access_token },
        ),
    }
}

/// The candidate `t` was chosen: the caller is asked to refresh it if it
/// counts as expired at `now`.
pub open spec fn check_step(m: ManagerModel, q: RequestModel, t: TokenModel, now: i64) -> (
    ManagerModel,
    RequestModel,
    ActionModel,
) {
    if expired_at(t.timestamp, now) {
        (m, RequestModel { phase: PhaseModel::Refreshing(t), ..q }, ActionModel::Refresh { token: t })
    } else {
        project_step(m, q, t)
    }
}

/// The decision of the current attempt: by rotation alone once the request
/// rotates, with the session's binding otherwise.
pub open spec fn attempt_decision(m: ManagerModel, q: RequestModel, now: i64) -> DecisionModel {
    if rotating(q) {
        match round_robin_pick(q.pool, cursor_of(m.cursors, q.scope), m.limits, q.scope, q.attempted, now) {
            Some(t) => DecisionModel::UseAccount(t),
            None => DecisionModel::AllUnavailable { min_wait_seconds: DEFAULT_WAIT_SECONDS },
        }
    } else {
        session_decision(
            q.pool,
            q.bound,
            q.policy,
            cursor_of(m.cursors, q.scope),
            m.limits,
            q.scope,
            q.attempted,
            now,
        )
    }
}

/// The cursors after the decision of the current attempt.
pub open spec fn attempt_cursors(m: ManagerModel, q: RequestModel, now: i64) -> Map<Seq<char>, usize> {
    if !rotating(q) && bound_choice(q.pool, q.bound, q.policy, m.limits, q.scope, q.attempted, now)
        is Some {
        m.cursors
    } else {
        cursors_after(m.cursors, q.scope, q.pool.len())
    }
}

/// The next candidate is chosen. The request fails with its last error
/// once it has made as many attempts as the pool has tokens, and with the
/// wait to observe when nothing is available.
pub open spec fn select_step(m: ManagerModel, q: RequestModel, now: i64) -> (
    ManagerModel,
    RequestModel,
    ActionModel,
) {
    if q.attempt >= q.pool.len() {
        (
            m,
            RequestModel { phase: PhaseModel::Finished, ..q },
            ActionModel::Fail(
                match q.last_error {
                    Some(e) => e,
                    None => "All accounts failed"@,
                },
            ),
        )
    } else {
        let m1 = ManagerModel { cursors: attempt_cursors(m, q, now), ..m };
        match attempt_decision(m, q, now) {
            DecisionModel::AllUnavailable { min_wait_seconds } => (
                m1,
                RequestModel { phase: PhaseModel::Finished, ..q },
                ActionModel::Fail(limited_message(min_wait_seconds)),
            ),
            DecisionModel::WaitAndUse { token, wait_seconds } => (
                m1,
                RequestModel { phase: PhaseModel::Waiting(token), ..q },
                ActionModel::Wait { seconds: wait_seconds },
            ),
            DecisionModel::UseAccount(t) => check_step(m1, q, t, now),
        }
    }
}

/// The attempt with the account `id` failed with `message`: the account
/// counts as attempted and the next candidate is chosen.
pub open spec fn fail_step(m: ManagerModel, q: RequestModel, id: Seq<char>, message: Seq<char>, now: i64) -> (
    ManagerModel,
    RequestModel,
    ActionModel,
) {
    select_step(
        m,
        RequestModel {
            last_error: Some(message),
            attempted: q.attempted.push(id),
            attempt: next_attempt(q.attempt),
            phase: PhaseModel::Selecting,
            ..q
        },
        now,
    )
}

/// The path of an account's file, where the registry knows the account.
pub open spec fn registry_path(accounts: Map<Seq<char>, TokenModel>, id: Seq<char>) -> Option<Seq<char>> {
    if accounts.contains_key(id) {
        Some(accounts[id].account_path)
    } else {
        None
    }
}

/// One step of a request: what the manager and the request become, and
/// what the caller is asked to do, when `event` is reported at `now`. An
/// event that the request's phase does not expect ends the request.
pub open spec fn step(m: ManagerModel, q: RequestModel, event: EventModel, now: i64) -> (
    ManagerModel,
    RequestModel,
    ActionModel,
) {
    let base = RequestModel { phase: PhaseModel::Finished, ..q };
    match (q.phase, event) {
        (PhaseModel::Selecting, EventModel::Start) => select_step(m, base, now),
        (PhaseModel::Waiting(t), EventModel::Waited) => check_step(m, base, t, now),
        (
            PhaseModel::Refreshing(t),
            EventModel::Refreshed { access_token, expires_in, timestamp },
        ) => project_step(
            ManagerModel {
                accounts: accounts_refreshed(
                    m.accounts,
                    t.account_id,
                    access_token,
                    expires_in,
                    timestamp,
                ),
                ..m
            },
            base,
            with_credentials(t, access_token, expires_in, timestamp),
        ),
        (PhaseModel::Refreshing(t), EventModel::RefreshFailed(e)) => if has_substring(
            e,
            "invalid_grant"@,
        ) {
            (
                m,
                RequestModel { phase: PhaseModel::Disabling(t, e), ..q },
                ActionModel::Disable {
                    account_id: t.account_id,
                    known_path: registry_path(m.accounts, t.account_id),
                    reason: e,
                },
            )
        } else {
            fail_step(m, base, t.account_id, "Token refresh failed: "@ + e, now)
        },
        (PhaseModel::Disabling(t, e), EventModel::Disabled) => fail_step(
            ManagerModel { accounts: m.accounts.remove(t.account_id), ..m },
            base,
            t.account_id,
            "Token refresh failed: "@ + e,
            now,
        ),
        (PhaseModel::Resolving(t), EventModel::ProjectFetched(pid)) => if m.accounts.contains_key(
            t.account_id,
        ) {
            (
                ManagerModel { accounts: accounts_resolved(m.accounts, t.account_id, pid), ..m },
                RequestModel { phase: PhaseModel::SavingProject(t, pid), ..q },
                ActionModel::SaveProject {
                    account_path: m.accounts[t.account_id].account_path,
                    project_id: pid,
                },
            )
        } else {
            fail_step(m, base, t.account_id, "Failed to fetch project_id: Account not found"@, now)
        },
        (PhaseModel::Resolving(t), EventModel::ProjectFetchFailed(e)) => fail_step(
            m,
            base,
            t.account_id,
            "Failed to fetch project_id: Failed to fetch project_id: "@ + e,
            now,
        ),
        (PhaseModel::SavingProject(t, pid), EventModel::ProjectSaved) => finish_step(m, base, t, pid),
        (PhaseModel::SavingProject(t, pid), EventModel::ProjectSaveFailed(e)) => fail_step(
            m,
            base,
            t.account_id,
            "Failed to fetch project_id: "@ + e,
            now,
        ),
        _ => (m, base, ActionModel::Fail("Unexpected event"@)),
    }
}

/// A request as `begin_request` opens it over a listing of the registry.
pub open spec fn opened_request(
    listing: Seq<TokenModel>,
    m: ManagerModel,
    quota_group: Seq<char>,
    request_type: Seq<char>,
    force_rotate: bool,
    session_id: Option<Seq<char>>,
) -> RequestModel {
    RequestModel {
        pool: stable_by_tier(listing),
        scope: scope_key(quota_group, request_type),
        policy: m.policy,
        bound: match session_id {
            Some(sid) => bound_account(m.sessions, scope_key(quota_group, request_type), sid),
            None => None,
        },
        session_id: session_id,
        force_rotate: force_rotate,
        attempted: Seq::empty(),
        last_error: None,
        attempt: 0,
        phase: PhaseModel::Selecting,
    }
}

/// The text of one account file, with the path it was read from.
#[derive(Debug)]
pub struct AccountFile {
    pub path: String,
    pub content: String,
}

/// The record that an account file yields, if it yields one.
pub open spec fn file_account(path: Seq<char>, content: Seq<char>) -> Option<TokenModel> {
    match json_parsed(content) {
        Some(doc) => match account_in(doc, path) {
            Ok(Some(t)) => Some(t),
            _ => None,
        },
        None => None,
    }
}

/// The registry that loading the files yields: each accepted file's record
/// under its account id, a later file replacing an earlier one of that id.
pub open spec fn loaded(files: Seq<AccountFile>) -> Map<Seq<char>, TokenModel>
    decreases files.len(),
{
    if files.len() == 0 {
        Map::empty()
    } else {
        match file_account(files.last().path@, files.last().content@) {
            Some(t) => loaded(files.drop_last()).insert(t.account_id, t),
            None => loaded(files.drop_last()),
        }
    }
}

/// The number of files that yield a record.
pub open spec fn accepted(files: Seq<AccountFile>) -> nat
    decreases files.len(),
{
    if files.len() == 0 {
        0
    } else if file_account(files.last().path@, files.last().content@) is Some {
        accepted(files.drop_last()) + 1
    } else {
        accepted(files.drop_last())
    }
}

/// Credentials found in the registry, or the refresh token to exchange.
#[derive(Debug)]
pub enum RefreshPlan {
    /// The registry holds credentials that are not expired: use them.
    Reuse { access_token: String, expires_in: i64, timestamp: i64 },
    /// Exchange this refresh token for new credentials.
    Exchange { refresh_token: String },
}

/// What a refresh plan says, as mathematical values.
pub enum PlanModel {
    Reuse { access_token: Seq<char>, expires_in: i64, timestamp: i64 },
    Exchange { refresh_token: Seq<char> },
}

impl View for RefreshPlan {
    type V = PlanModel;

    open spec fn view(&self) -> PlanModel {
        match self {
            RefreshPlan::Reuse { access_token, expires_in, timestamp } => PlanModel::Reuse {
                access_token: access_token@,
                expires_in: *expires_in,
                timestamp: *timestamp,
            },
            RefreshPlan::Exchange { refresh_token } => PlanModel::Exchange {
                refresh_token: refresh_token@,
            },
        }
    }
}

/// The plan for refreshing `token` at `now`: the registry's credentials
/// where it holds the account with credentials that are not expired, and
/// an exchange of the token's refresh token otherwise.
pub open spec fn refresh_plan(
    accounts: Map<Seq<char>, TokenModel>,
    token: TokenModel,
    now: i64,
) -> PlanModel {
    if accounts.contains_key(token.account_id) && !expired_at(
        accounts[token.account_id].timestamp,
        now,
    ) {
        PlanModel::Reuse {
            access_token: accounts[token.account_id].access_token,
            expires_in: accounts[token.account_id].expires_in,
            timestamp: accounts[token.account_id].timestamp,
        }
    } else {
        PlanModel::Exchange { refresh_token: token.refresh_token }
    }
}

/// The path of an account's file: the one recorded in the registry, or
/// else `accounts/{id}.json` under the data directory.
pub open spec fn account_file_path(
    accounts: Map<Seq<char>, TokenModel>,
    data_dir: Seq<char>,
    id: Seq<char>,
) -> Seq<char> {
    if accounts.contains_key(id) {
        accounts[id].account_path
    } else {
        data_dir + "/accounts/"@ + id + ".json"@
    }
}

/// The event that reports credentials issued at `now`: their expiry time
/// is the one that the refreshed account file records for the same `now`.
pub fn refreshed_event(response: TokenResponse, now: i64) -> (r: RequestEvent)
    ensures
        r@ == (EventModel::Refreshed {
            access_token: response.access_token@,
            expires_in: response.expires_in,
            timestamp: expiry_after(now, response.expires_in),
        }),
{
    RequestEvent::Refreshed {
        timestamp: expiry_time(now, response.expires_in),
        access_token: response.access_token,
        expires_in: response.expires_in,
    }
}

/// The account registry with its scheduling state.
pub struct TokenManager {
    tokens: DashMap<String, ProxyToken>,
    data_dir: String,
    session_manager: SessionManager,
    refresh_coordinator: RefreshCoordinator,
    scheduler: AccountScheduler,
    sticky_config: StickySessionConfig,
}

impl View for TokenManager {
    type V = ManagerModel;

    closed spec fn view(&self) -> ManagerModel {
        ManagerModel {
            accounts: account_map(self.tokens),
            sessions: self.session_manager@,
            limits: self.scheduler.limits(),
            cursors: self.scheduler.cursors(),
            policy: self.sticky_config,
        }
    }
}

impl TokenManager {
    /// The data directory that the manager was made with.
    pub closed spec fn data_dir(&self) -> Seq<char> {
        self.data_dir@
    }

    /// The refresh locks, by account id.
    pub closed spec fn locks(&self) -> Map<Seq<char>, Arc<Mutex<()>>> {
        self.refresh_coordinator.locks()
    }

    /// A manager without accounts, bindings or limits, with the default policy.
    pub fn new(data_dir: &str) -> (r: Self)
        ensures
            r@.accounts == Map::<Seq<char>, TokenModel>::empty(),
            r@.sessions == Map::<Seq<char>, Seq<char>>::empty(),
            r@.limits == Limits::empty(),
            r@.cursors == Map::<Seq<char>, usize>::empty(),
            r@.policy == default_policy(),
            r.data_dir() == data_dir@,
            r.locks() == Map::<Seq<char>, Arc<Mutex<()>>>::empty(),
            distinct_handles(r.locks()),
    {
        let r = TokenManager {
            tokens: accounts_new(),
            data_dir: String::from_str(data_dir),
            session_manager: SessionManager::new(),
            refresh_coordinator: RefreshCoordinator::new(),
            scheduler: AccountScheduler::new(RateLimitTracker::new()),
            sticky_config: StickySessionConfig::default(),
        };
        assert(r@.accounts =~= Map::<Seq<char>, TokenModel>::empty());
        r
    }

    /// Replaces the registry by the records that the given account files
    /// yield and clears the session bindings. A file that is disabled, or
    /// that lacks a required member, or that is no JSON, is passed over.
    /// Returns the number of files accepted.
    pub fn load_accounts(&mut self, files: &Vec<AccountFile>) -> (count: usize)
        ensures
            count == accepted(files@),
            final(self)@ == (ManagerModel {
                accounts: loaded(files@),
                sessions: Map::empty(),
                ..old(self)@
            }),
            final(self).data_dir() == old(self).data_dir(),
            final(self).locks() == old(self).locks(),
    {
        accounts_clear(&mut self.tokens);
        self.session_manager.clear_all();
        assert(account_map(self.tokens) =~= Map::<Seq<char>, TokenModel>::empty());
        let mut count: usize = 0;
        let mut i: usize = 0;
        assert(files@.take(0) =~= Seq::<AccountFile>::empty());
        while i < files.len()
            invariant
                i <= files@.len(),
                count <= i,
                count == accepted(files@.take(i as int)),
                account_map(self.tokens) == loaded(files@.take(i as int)),
                self.session_manager@ == Map::<Seq<char>, Seq<char>>::empty(),
                self.scheduler == old(self).scheduler,
                self.sticky_config == old(self).sticky_config,
                self.data_dir == old(self).data_dir,
                self.refresh_coordinator == old(self).refresh_coordinator,
            decreases files@.len() - i,
        {
            proof {
                let longer = files@.take(i + 1);
                assert(longer.drop_last() =~= files@.take(i as int));
                assert(longer.last() == files@[i as int]);
            }
            let file = &files[i];
            match load_single_account(file.path.as_str(), file.content.as_str()) {
                Ok(Some(token)) => {
                    accounts_insert(&mut self.tokens, token.account_id.clone(), token);
                    count = count + 1;
                },
                _ => {},
            }
            i = i + 1;
        }
        assert(files@.take(i as int) =~= files@);
        count
    }

    /// The number of accounts in the registry.
    pub fn len(&self) -> (n: usize)
        ensures
            n == self@.accounts.len(),
    {
        accounts_len(&self.tokens)
    }

    /// Whether the registry holds no account.
    pub fn is_empty(&self) -> (r: bool)
        ensures
            r == (self@.accounts == Map::<Seq<char>, TokenModel>::empty()),
    {
        let empty = accounts_is_empty(&self.tokens);
        proof {
            if empty {
                assert(self@.accounts =~= Map::<Seq<char>, TokenModel>::empty());
            } else {
                assert(self@.accounts.dom() != Map::<Seq<char>, TokenModel>::empty().dom());
            }
        }
        empty
    }

    /// The registry's record of an account.
    pub fn get_account(&self, account_id: &str) -> (r: Option<ProxyToken>)
        ensures
            match r {
                Some(t) => self@.accounts.contains_key(account_id@) && self@.accounts[account_id@]
                    == t@,
                None => !self@.accounts.contains_key(account_id@),
            },
    {
        accounts_get(&self.tokens, account_id)
    }

    /// Records at `now` the rate limit that an upstream error announces
    /// for the account, under the scope of the request.
    pub fn mark_rate_limited_at(
        &mut self,
        quota_group: &str,
        request_type: &str,
        account_id: &str,
        status: u16,
        retry_after_header: Option<&str>,
        error_body: &str,
        now: i64,
    )
        ensures
            final(self)@ == (ManagerModel {
                limits: old(self)@.limits.insert(
                    (scope_key(quota_group@, request_type@), account_id@),
                    deadline_after(now, retry_seconds(opt_str_view(retry_after_header))),
                ),
                ..old(self)@
            }),
            final(self).data_dir() == old(self).data_dir(),
            final(self).locks() == old(self).locks(),
    {
        let scope_group = AccountScheduler::scope_group(quota_group, request_type);
        self.scheduler.record_error_at(
            scope_group.as_str(),
            account_id,
            status,
            retry_after_header,
            error_body,
            now,
        );
    }

    /// Records, by the system clock, the rate limit that an upstream error
    /// announces for the account.
    pub fn mark_rate_limited(
        &mut self,
        quota_group: &str,
        request_type: &str,
        account_id: &str,
        status: u16,
        retry_after_header: Option<&str>,
        error_body: &str,
    )
        ensures
            exists|now: i64|
                final(self)@ == (ManagerModel {
                    limits: old(self)@.limits.insert(
                        (scope_key(quota_group@, request_type@), account_id@),
                        #[trigger] deadline_after(
                            now,
                            retry_seconds(opt_str_view(retry_after_header)),
                        ),
                    ),
                    ..old(self)@
                }),
            final(self).data_dir() == old(self).data_dir(),
            final(self).locks() == old(self).locks(),
    {
        let now = epoch_seconds();
        self.mark_rate_limited_at(
            quota_group,
            request_type,
            account_id,
            status,
            retry_after_header,
            error_body,
            now,
        );
    }

    /// Whether the account is rate-limited at `now` under the scope of the request.
    pub fn is_rate_limited_at(&self, quota_group: &str, request_type: &str, account_id: &str, now: i64) -> (r:
        bool)
        ensures
            r == limited_in(self@.limits, scope_key(quota_group@, request_type@), account_id@, now),
    {
        let scope_group = AccountScheduler::scope_group(quota_group, request_type);
        self.scheduler.tracker().is_rate_limited_at(scope_group.as_str(), account_id, now)
    }

    /// Whether the account is rate-limited, by the system clock.
    pub fn is_rate_limited(&self, quota_group: &str, request_type: &str, account_id: &str) -> (r: bool)
        ensures
            exists|now: i64|
                r == #[trigger] limited_in(
                    self@.limits,
                    scope_key(quota_group@, request_type@),
                    account_id@,
                    now,
                ),
    {
        let now = epoch_seconds();
        self.is_rate_limited_at(quota_group, request_type, account_id, now)
    }

    /// The sticky-session policy.
    pub fn get_sticky_config(&self) -> (r: StickySessionConfig)
        ensures
            r == self@.policy,
    {
        self.sticky_config
    }

    /// Replaces the sticky-session policy.
    pub fn update_sticky_config(&mut self, new_config: StickySessionConfig)
        ensures
            final(self)@ == (ManagerModel { policy: new_config, ..old(self)@ }),
            final(self).data_dir() == old(self).data_dir(),
            final(self).locks() == old(self).locks(),
    {
        self.sticky_config = new_config;
    }

    /// Removes every session binding.
    pub fn clear_all_sessions(&mut self)
        ensures
            final(self)@ == (ManagerModel { sessions: Map::empty(), ..old(self)@ }),
            final(self).data_dir() == old(self).data_dir(),
            final(self).locks() == old(self).locks(),
    {
        self.session_manager.clear_all();
    }

    /// The account that the session is bound to in the scope, if any.
    pub fn get_session_binding(&self, scope_group: &str, session_id: &str) -> (r: Option<String>)
        ensures
            opt_text(r) == bound_account(self@.sessions, scope_group@, session_id@),
    {
        self.session_manager.get_binding(scope_group, session_id)
    }

    /// The refresh lock of an account, made on first use; see
    /// `RefreshCoordinator::get_lock`.
    pub fn refresh_lock(&mut self, account_id: &str) -> (r: Arc<Mutex<()>>)
        ensures
            final(self)@ == old(self)@,
            final(self).data_dir() == old(self).data_dir(),
            final(self).locks() == locks_after(old(self).locks(), account_id@, r),
            final(self).locks().contains_key(account_id@),
            final(self).locks()[account_id@] == r,
            old(self).locks().contains_key(account_id@) ==> r == old(self).locks()[account_id@],
            !old(self).locks().contains_key(account_id@) ==> new_to(old(self).locks(), r),
            distinct_handles(old(self).locks()) ==> distinct_handles(final(self).locks()),
    {
        self.refresh_coordinator.get_lock(account_id)
    }

    /// The plan for refreshing `token` at `now`. It is made while the
    /// account's refresh lock is held, so that a refresh that another
    /// request has completed in the meantime is reused.
    pub fn refresh_plan_at(&self, token: &ProxyToken, now: i64) -> (r: RefreshPlan)
        ensures
            r@ == refresh_plan(self@.accounts, token@, now),
    {
        match accounts_get(&self.tokens, token.account_id.as_str()) {
            Some(entry) => {
                if !entry.is_expired_at(now) {
                    RefreshPlan::Reuse {
                        access_token: entry.access_token,
                        expires_in: entry.expires_in,
                        timestamp: entry.timestamp,
                    }
                } else {
                    RefreshPlan::Exchange { refresh_token: token.refresh_token.clone() }
                }
            },
            None => RefreshPlan::Exchange { refresh_token: token.refresh_token.clone() },
        }
    }

    /// The plan for refreshing `token`, by the system clock.
    pub fn refresh_plan(&self, token: &ProxyToken) -> (r: RefreshPlan)
        ensures
            exists|now: i64| r@ == #[trigger] refresh_plan(self@.accounts, token@, now),
    {
        let now = epoch_seconds();
        self.refresh_plan_at(token, now)
    }

    /// The path of the account's file.
    pub fn account_path(&self, account_id: &str) -> (r: String)
        ensures
            r@ == account_file_path(self@.accounts, self.data_dir(), account_id@),
    {
        match accounts_get(&self.tokens, account_id) {
            Some(entry) => entry.account_path,
            None => {
                let mut path = self.data_dir.clone();
                path.append("/accounts/");
                path.append(account_id);
                path.append(".json");
                path
            },
        }
    }

    /// Opens a request: the registry is listed and sorted by tier, and the
    /// policy and the session's binding are read. Fails when the registry
    /// is empty.
    pub fn begin_request(
        &self,
        quota_group: &str,
        request_type: &str,
        force_rotate: bool,
        session_id: Option<&str>,
    ) -> (r: Result<TokenRequest, String>)
        ensures
            match r {
                Ok(req) => exists|listing: Seq<TokenModel>|
                    {
                        &&& is_listing(listing, self@.accounts)
                        &&& listing.len() > 0
                        &&& req@ == #[trigger] opened_request(
                            listing,
                            self@,
                            quota_group@,
                            request_type@,
                            force_rotate,
                            opt_str_view(session_id),
                        )
                    },
                Err(e) => e@ == "Token pool is empty"@ && self@.accounts == Map::<
                    Seq<char>,
                    TokenModel,
                >::empty(),
            },
    {
        let mut pool = accounts_values(&self.tokens);
        let ghost listing = models(pool@);
        if pool.len() == 0 {
            proof {
                let keys = choose|keys: Seq<Seq<char>>|
                    {
                        &&& keys.len() == listing.len()
                        &&& keys.no_duplicates()
                        &&& #[trigger] keys.to_set() == self@.accounts.dom()
                        &&& forall|i: int|
                            0 <= i < keys.len() ==> self@.accounts[#[trigger] keys[i]] == listing[i]
                    };
                assert(keys.to_set() =~= Set::<Seq<char>>::empty());
                assert(self@.accounts =~= Map::<Seq<char>, TokenModel>::empty());
            }
            return Err(String::from_str("Token pool is empty"));
        }
        AccountScheduler::sort_by_tier(&mut pool);
        let scope = AccountScheduler::scope_group(quota_group, request_type);
        let (bound, session) = match session_id {
            Some(sid) => (
                self.session_manager.get_binding(scope.as_str(), sid),
                Some(String::from_str(sid)),
            ),
            None => (None, None),
        };
        let req = TokenRequest {
            pool,
            scope,
            policy: self.sticky_config,
            bound,
            session_id: session,
            force_rotate,
            attempted: Vec::new(),
            last_error: None,
            attempt: 0,
            phase: RequestPhase::Selecting,
        };
        proof {
            let want = opened_request(
                listing,
                self@,
                quota_group@,
                request_type@,
                force_rotate,
                opt_str_view(session_id),
            );
            assert(req@.attempted =~= want.attempted);
            assert(req@ == want);
        }
        Ok(req)
    }

    fn finish(&mut self, req: TokenRequest, token: ProxyToken, project_id: String) -> (r: (
        TokenRequest,
        RequestAction,
    ))
        ensures
            (final(self)@, r.0@, r.1@) == finish_step(old(self)@, req@, token@, project_id@),
            final(self).data_dir() == old(self).data_dir(),
            final(self).locks() == old(self).locks(),
    {
        let mut req = req;
        let rotate = req.force_rotate || req.attempt > 0;
        if !rotate {
            if let Some(sid) = &req.session_id {
                self.session_manager.set_binding(
                    req.scope.as_str(),
                    sid.as_str(),
                    token.account_id.as_str(),
                );
            }
        }
        req.phase = RequestPhase::Finished;
        let selected = SelectedToken {
            access_token: token.access_token,
            project_id,
            email: token.email,
            account_id: token.account_id,
        };
        (req, RequestAction::Done(selected))
    }

    fn project(&mut self, req: TokenRequest, token: ProxyToken) -> (r: (TokenRequest, RequestAction))
        ensures
            (final(self)@, r.0@, r.1@) == project_step(old(self)@, req@, token@),
            final(self).data_dir() == old(self).data_dir(),
            final(self).locks() == old(self).locks(),
    {
        match copy_opt_text(&token.project_id) {
            Some(pid) => self.finish(req, token, pid),
            None => {
                let mut req = req;
                let action = RequestAction::FetchProject { access_token: token.access_token.clone() };
                req.phase = RequestPhase::Resolving(token);
                (req, action)
            },
        }
    }

    fn check_at(&mut self, req: TokenRequest, token: ProxyToken, now: i64) -> (r: (
        TokenRequest,
        RequestAction,
    ))
        ensures
            (final(self)@, r.0@, r.1@) == check_step(old(self)@, req@, token@, now),
            final(self).data_dir() == old(self).data_dir(),
            final(self).locks() == old(self).locks(),
    {
        if token.is_expired_at(now) {
            let mut req = req;
            req.phase = RequestPhase::Refreshing(token.clone());
            (req, RequestAction::Refresh { token })
        } else {
            self.project(req, token)
        }
    }

    fn select_at(&mut self, req: TokenRequest, now: i64) -> (r: (TokenRequest, RequestAction))
        ensures
            (final(self)@, r.0@, r.1@) == select_step(old(self)@, req@, now),
            final(self).data_dir() == old(self).data_dir(),
            final(self).locks() == old(self).locks(),
    {
        let mut req = req;
        if req.attempt >= req.pool.len() {
            let message = match &req.last_error {
                Some(e) => e.clone(),
                None => String::from_str("All accounts failed"),
            };
            req.phase = RequestPhase::Finished;
            return (req, RequestAction::Fail(message));
        }
        let rotate = req.force_rotate || req.attempt > 0;
        let decision = if rotate {
            match self.scheduler.select_round_robin_at(
                &req.pool,
                req.scope.as_str(),
                &req.attempted,
                now,
            ) {
                Some(token) => SchedulingDecision::UseAccount(token),
                None => SchedulingDecision::AllUnavailable { min_wait_seconds: DEFAULT_WAIT_SECONDS },
            }
        } else {
            let bound: Option<&str> = match &req.bound {
                Some(b) => Some(b.as_str()),
                None => None,
            };
            self.scheduler.select_with_session_at(
                &req.pool,
                req.scope.as_str(),
                bound,
                &req.policy,
                &req.attempted,
                now,
            )
        };
        assert(decision@ == attempt_decision(old(self)@, req@, now));
        assert(self@ == (ManagerModel { cursors: attempt_cursors(old(self)@, req@, now), ..old(self)@ }));
        match decision {
            SchedulingDecision::AllUnavailable { min_wait_seconds } => {
                let wait = decimal_string(min_wait_seconds);
                let mut message = String::from_str("All accounts are currently limited. Please wait ");
                message.append(wait.as_str());
                message.append("s.");
                req.phase = RequestPhase::Finished;
                (req, RequestAction::Fail(message))
            },
            SchedulingDecision::WaitAndUse { token, wait_seconds } => {
                req.phase = RequestPhase::Waiting(token);
                (req, RequestAction::Wait { seconds: wait_seconds })
            },
            SchedulingDecision::UseAccount(token) => self.check_at(req, token, now),
        }
    }

    fn fail_at(&mut self, req: TokenRequest, account_id: String, message: String, now: i64) -> (r: (
        TokenRequest,
        RequestAction,
    ))
        ensures
            (final(self)@, r.0@, r.1@) == fail_step(old(self)@, req@, account_id@, message@, now),
            final(self).data_dir() == old(self).data_dir(),
            final(self).locks() == old(self).locks(),
    {
        let mut req = req;
        let ghost before = req@;
        req.last_error = Some(message);
        req.attempted.push(account_id);
        if req.attempt < usize::MAX {
            req.attempt = req.attempt + 1;
        }
        req.phase = RequestPhase::Selecting;
        proof {
            assert(req@.attempted =~= before.attempted.push(account_id@));
        }
        self.select_at(req, now)
    }

    fn store_credentials(&mut self, account_id: &str, access_token: &str, expires_in: i64, timestamp: i64)
        ensures
            final(self)@ == (ManagerModel {
                accounts: accounts_refreshed(
                    old(self)@.accounts,
                    account_id@,
                    access_token@,
                    expires_in,
                    timestamp,
                ),
                ..old(self)@
            }),
            final(self).data_dir() == old(self).data_dir(),
            final(self).locks() == old(self).locks(),
    {
        match accounts_get(&self.tokens, account_id) {
            Some(entry) => {
                let mut entry = entry;
                entry.access_token = String::from_str(access_token);
                entry.expires_in = expires_in;
                entry.timestamp = timestamp;
                accounts_insert(&mut self.tokens, String::from_str(account_id), entry);
            },
            None => {},
        }
    }

    fn store_project(&mut self, account_id: &str, project_id: &str) -> (path: Option<String>)
        ensures
            opt_text(path) == registry_path(old(self)@.accounts, account_id@),
            final(self)@ == (ManagerModel {
                accounts: accounts_resolved(old(self)@.accounts, account_id@, project_id@),
                ..old(self)@
            }),
            final(self).data_dir() == old(self).data_dir(),
            final(self).locks() == old(self).locks(),
    {
        match accounts_get(&self.tokens, account_id) {
            Some(entry) => {
                let mut entry = entry;
                let path = entry.account_path.clone();
                entry.project_id = Some(String::from_str(project_id));
                accounts_insert(&mut self.tokens, String::from_str(account_id), entry);
                Some(path)
            },
            None => None,
        }
    }

    /// Moves a request on at `now`: applies the reported event and returns
    /// the request with the action that the caller has to perform next.
    pub fn advance_at(&mut self, req: TokenRequest, event: RequestEvent, now: i64) -> (r: (
        TokenRequest,
        RequestAction,
    ))
        ensures
            (final(self)@, r.0@, r.1@) == step(old(self)@, req@, event@, now),
            final(self).data_dir() == old(self).data_dir(),
            final(self).locks() == old(self).locks(),
    {
        let ghost q = req@;
        let TokenRequest {
            pool,
            scope,
            policy,
            bound,
            session_id,
            force_rotate,
            attempted,
            last_error,
            attempt,
            phase,
        } = req;
        let mut base = TokenRequest {
            pool,
            scope,
            policy,
            bound,
            session_id,
            force_rotate,
            attempted,
            last_error,
            attempt,
            phase: RequestPhase::Finished,
        };
        assert(base@ == (RequestModel { phase: PhaseModel::Finished, ..q }));
        match (phase, event) {
            (RequestPhase::Selecting, RequestEvent::Start) => self.select_at(base, now),
            (RequestPhase::Waiting(token), RequestEvent::Waited) => self.check_at(base, token, now),
            (
                RequestPhase::Refreshing(token),
                RequestEvent::Refreshed { access_token, expires_in, timestamp },
            ) => {
                self.store_credentials(
                    token.account_id.as_str(),
                    access_token.as_str(),
                    expires_in,
                    timestamp,
                );
                let mut token = token;
                token.access_token = access_token;
                token.expires_in = expires_in;
                token.timestamp = timestamp;
                self.project(base, token)
            },
            (RequestPhase::Refreshing(token), RequestEvent::RefreshFailed(error)) => {
                if RefreshCoordinator::is_permanent_error(error.as_str()) {
                    let known_path = match accounts_get(&self.tokens, token.account_id.as_str()) {
                        Some(entry) => Some(entry.account_path),
                        None => None,
                    };
                    let action = RequestAction::Disable {
                        account_id: token.account_id.clone(),
                        known_path,
                        reason: error.clone(),
                    };
                    base.phase = RequestPhase::Disabling(token, error);
                    (base, action)
                } else {
                    let message = join("Token refresh failed: ", error.as_str());
                    self.fail_at(base, token.account_id, message, now)
                }
            },
            (RequestPhase::Disabling(token, error), RequestEvent::Disabled) => {
                accounts_remove(&mut self.tokens, token.account_id.as_str());
                let message = join("Token refresh failed: ", error.as_str());
                self.fail_at(base, token.account_id, message, now)
            },
            (RequestPhase::Resolving(token), RequestEvent::ProjectFetched(project_id)) => {
                match self.store_project(token.account_id.as_str(), project_id.as_str()) {
                    Some(account_path) => {
                        let action = RequestAction::SaveProject {
                            account_path,
                            project_id: project_id.clone(),
                        };
                        base.phase = RequestPhase::SavingProject(token, project_id);
                        (base, action)
                    },
                    None => {
                        let message = String::from_str("Failed to fetch project_id: Account not found");
                        self.fail_at(base, token.account_id, message, now)
                    },
                }
            },
            (RequestPhase::Resolving(token), RequestEvent::ProjectFetchFailed(error)) => {
                let message = join(
                    "Failed to fetch project_id: Failed to fetch project_id: ",
                    error.as_str(),
                );
                self.fail_at(base, token.account_id, message, now)
            },
            (RequestPhase::SavingProject(token, project_id), RequestEvent::ProjectSaved) => {
                self.finish(base, token, project_id)
            },
            (RequestPhase::SavingProject(token, _), RequestEvent::ProjectSaveFailed(error)) => {
                let message = join("Failed to fetch project_id: ", error.as_str());
                self.fail_at(base, token.account_id, message, now)
            },
            _ => (base, RequestAction::Fail(String::from_str("Unexpected event"))),
        }
    }

    /// Moves a request on, by the system clock.
    pub fn advance(&mut self, req: TokenRequest, event: RequestEvent) -> (r: (TokenRequest, RequestAction))
        ensures
            exists|now: i64| (final(self)@, r.0@, r.1@) == #[trigger] step(old(self)@, req@, event@, now),
            final(self).data_dir() == old(self).data_dir(),
            final(self).locks() == old(self).locks(),
    {
        let now = epoch_seconds();
        self.advance_at(req, event, now)
    }
}

/// Once refreshed credentials are in the registry, a later plan for the
/// same account reuses them for as long as they are not expired: it takes
/// an exchange only before the first refresh has been recorded.
pub proof fn refreshed_credentials_are_reused(
    accounts: Map<Seq<char>, TokenModel>,
    token: TokenModel,
    access_token: Seq<char>,
    expires_in: i64,
    timestamp: i64,
    now: i64,
)
    requires
        accounts.contains_key(token.account_id),
        !expired_at(timestamp, now),
    ensures
        refresh_plan(
            accounts_refreshed(accounts, token.account_id, access_token, expires_in, timestamp),
            token,
            now,
        ) == (PlanModel::Reuse {
            access_token: access_token,
            expires_in: expires_in,
            timestamp: timestamp,
        }),
{
}

/// A step never changes the rate limits or the policy. It changes the
/// session bindings only when it serves the request, and then only by
/// binding the request's session to the account served, which it does
/// exactly when the request names a session, does not force rotation and
/// is served at its first attempt.
pub proof fn step_binds_only_when_served(m: ManagerModel, q: RequestModel, event: EventModel, now: i64)
    ensures
        step(m, q, event, now).0.limits == m.limits,
        step(m, q, event, now).0.policy == m.policy,
        match step(m, q, event, now).2 {
            ActionModel::Done(served) => step(m, q, event, now).0.sessions == (match q.session_id {
                Some(sid) => if q.force_rotate || step(m, q, event, now).1.attempt > 0 {
                    m.sessions
                } else {
                    m.sessions.insert(session_key_text(q.scope, sid), served.account_id)
                },
                None => m.sessions,
            }),
            _ => step(m, q, event, now).0.sessions == m.sessions,
        },
{
}

/// A step changes the registry only by recording refreshed credentials or
/// a resolved project id for the account in progress, or by evicting it
/// after it was disabled; it never adds an account.
pub proof fn step_never_adds_accounts(m: ManagerModel, q: RequestModel, event: EventModel, now: i64)
    ensures
        forall|id: Seq<char>| #[trigger]
            step(m, q, event, now).0.accounts.contains_key(id) ==> m.accounts.contains_key(id),
        (q.phase, event) matches (PhaseModel::Disabling(t, _), EventModel::Disabled) ==> !step(
            m,
            q,
            event,
            now,
        ).0.accounts.contains_key(t.account_id),
{
}

/// A finished request stays finished, whatever is reported to it.
pub proof fn finished_requests_stay_finished(m: ManagerModel, q: RequestModel, event: EventModel, now: i64)
    requires
        q.phase is Finished,
    ensures
        step(m, q, event, now) == (m, q, ActionModel::Fail("Unexpected event"@)),
{
}

/// Every record of the registry stands under its own account id.
pub open spec fn keyed_by_id(accounts: Map<Seq<char>, TokenModel>) -> bool {
    forall|id: Seq<char>| #[trigger] accounts.contains_key(id) ==> accounts[id].account_id == id
}

/// Loading puts every record under its own account id.
pub proof fn loading_keys_by_id(files: Seq<AccountFile>)
    ensures
        keyed_by_id(loaded(files)),
    decreases files.len(),
{
    if files.len() > 0 {
        loading_keys_by_id(files.drop_last());
    }
}

/// A step keeps every record of the registry under its own account id.
pub proof fn step_keeps_keys(m: ManagerModel, q: RequestModel, event: EventModel, now: i64)
    requires
        keyed_by_id(m.accounts),
    ensures
        keyed_by_id(step(m, q, event, now).0.accounts),
{
}

/// After a refresh the registry and the account file agree: where the
/// registry held the record that the file yielded, the record that the
/// refreshed file yields is the one that the registry holds once the
/// refresh made at the same time has been reported.
pub proof fn refresh_agrees_with_file(
    accounts: Map<Seq<char>, TokenModel>,
    before: serde_json::Value,
    after: serde_json::Value,
    path: Seq<char>,
    access_token: Seq<char>,
    expires_in: i64,
    now: i64,
)
    requires
        account_in(before, path) matches Ok(Some(t)) && accounts.contains_key(t.account_id)
            && accounts[t.account_id] == t,
        token_updated(before, after, refresh_changes(access_token, expires_in, now)),
    ensures
        account_in(after, path) == Ok::<Option<TokenModel>, Seq<char>>(
            Some(
                accounts_refreshed(
                    accounts,
                    account_in(before, path)->Ok_0->0.account_id,
                    access_token,
                    expires_in,
                    expiry_after(now, expires_in),
                )[account_in(before, path)->Ok_0->0.account_id],
            ),
        ),
{
    refresh_keeps_other_fields(before, after, path, access_token, expires_in, now);
}

/// After a project id was resolved the registry and the account file
/// agree in the same way.
pub proof fn project_agrees_with_file(
    accounts: Map<Seq<char>, TokenModel>,
    before: serde_json::Value,
    after: serde_json::Value,
    path: Seq<char>,
    project_id: Seq<char>,
)
    requires
        account_in(before, path) matches Ok(Some(t)) && accounts.contains_key(t.account_id)
            && accounts[t.account_id] == t,
        token_updated(before, after, project_changes(project_id)),
    ensures
        account_in(after, path) == Ok::<Option<TokenModel>, Seq<char>>(
            Some(
                accounts_resolved(accounts, account_in(before, path)->Ok_0->0.account_id, project_id)[account_in(
                    before,
                    path,
                )->Ok_0->0.account_id],
            ),
        ),
{
    project_keeps_other_fields(before, after, path, project_id);
}

/// Reporting the credentials of a `Reuse` plan leaves the registry as it is.
pub proof fn reuse_leaves_registry(accounts: Map<Seq<char>, TokenModel>, token: TokenModel, now: i64)
    ensures
        refresh_plan(accounts, token, now) matches PlanModel::Reuse {
            access_token,
            expires_in,
            timestamp,
        } ==> accounts_refreshed(accounts, token.account_id, access_token, expires_in, timestamp)
            == accounts,
{
    if let PlanModel::Reuse { access_token, expires_in, timestamp } = refresh_plan(
        accounts,
        token,
        now,
    ) {
        assert(accounts_refreshed(accounts, token.account_id, access_token, expires_in, timestamp)
            =~= accounts);
    }
}

/// A request that waits for its refresh and has a project id is served
/// with the credentials that are reported to it, never with the ones it
/// held, and the registry records them for the account.
pub proof fn refreshed_request_is_served_with_new_credentials(
    m: ManagerModel,
    q: RequestModel,
    access_token: Seq<char>,
    expires_in: i64,
    timestamp: i64,
    now: i64,
)
    requires
        q.phase matches PhaseModel::Refreshing(t) && t.project_id is Some,
    ensures
        ({
            let t = q.phase->Refreshing_0;
            let event = EventModel::Refreshed { access_token, expires_in, timestamp };
            &&& step(m, q, event, now).2 == ActionModel::Done(
                SelectedModel {
                    access_token: access_token,
                    project_id: t.project_id->0,
                    email: t.email,
                    account_id: t.account_id,
                },
            )
            &&& step(m, q, event, now).0.accounts == accounts_refreshed(
                m.accounts,
                t.account_id,
                access_token,
                expires_in,
                timestamp,
            )
        }),
{
}

/// The number of exchanges made when the given callers, each holding a
/// copy of a token, refresh in turn at `now`: each makes its plan against
/// the registry as the callers before it left it, an exchange yielding the
/// given credentials.
pub open spec fn exchanges_in_turn(
    accounts: Map<Seq<char>, TokenModel>,
    callers: Seq<TokenModel>,
    access_token: Seq<char>,
    expires_in: i64,
    timestamp: i64,
    now: i64,
) -> nat
    decreases callers.len(),
{
    if callers.len() == 0 {
        0
    } else {
        match refresh_plan(accounts, callers[0], now) {
            PlanModel::Exchange { refresh_token } => 1 + exchanges_in_turn(
                accounts_refreshed(
                    accounts,
                    callers[0].account_id,
                    access_token,
                    expires_in,
                    timestamp,
                ),
                callers.drop_first(),
                access_token,
                expires_in,
                timestamp,
                now,
            ),
            PlanModel::Reuse { access_token: held, expires_in: life, timestamp: until } => {
                exchanges_in_turn(
                    accounts_refreshed(accounts, callers[0].account_id, held, life, until),
                    callers.drop_first(),
                    access_token,
                    expires_in,
                    timestamp,
                    now,
                )
            },
        }
    }
}

proof fn lemma_no_exchange_once_refreshed(
    accounts: Map<Seq<char>, TokenModel>,
    callers: Seq<TokenModel>,
    id: Seq<char>,
    access_token: Seq<char>,
    expires_in: i64,
    timestamp: i64,
    now: i64,
)
    requires
        accounts.contains_key(id),
        !expired_at(accounts[id].timestamp, now),
        forall|i: int| 0 <= i < callers.len() ==> (#[trigger] callers[i]).account_id == id,
    ensures
        exchanges_in_turn(accounts, callers, access_token, expires_in, timestamp, now) == 0,
    decreases callers.len(),
{
    if callers.len() > 0 {
        reuse_leaves_registry(accounts, callers[0], now);
        let rest = callers.drop_first();
        assert forall|i: int| 0 <= i < rest.len() implies (#[trigger] rest[i]).account_id == id by {
            assert(rest[i] == callers[i + 1]);
        }
        lemma_no_exchange_once_refreshed(
            accounts,
            rest,
            id,
            access_token,
            expires_in,
            timestamp,
            now,
        );
    }
}

/// Callers that refresh one account in turn make exactly one exchange:
/// the first finds the registry's credentials expired and exchanges, and
/// every later one finds the new credentials and reuses them. Taking the
/// callers in turn is what the account's refresh lock provides.
pub proof fn one_exchange_in_turn(
    accounts: Map<Seq<char>, TokenModel>,
    callers: Seq<TokenModel>,
    id: Seq<char>,
    access_token: Seq<char>,
    expires_in: i64,
    timestamp: i64,
    now: i64,
)
    requires
        callers.len() > 0,
        accounts.contains_key(id),
        expired_at(accounts[id].timestamp, now),
        !expired_at(timestamp, now),
        forall|i: int| 0 <= i < callers.len() ==> (#[trigger] callers[i]).account_id == id,
    ensures
        exchanges_in_turn(accounts, callers, access_token, expires_in, timestamp, now) == 1,
        refresh_plan(accounts, callers[0], now) == (PlanModel::Exchange {
            refresh_token: callers[0].refresh_token,
        }),
{
    let after = accounts_refreshed(accounts, id, access_token, expires_in, timestamp);
    let rest = callers.drop_first();
    assert forall|i: int| 0 <= i < rest.len() implies (#[trigger] rest[i]).account_id == id by {
        assert(rest[i] == callers[i + 1]);
    }
    lemma_no_exchange_once_refreshed(after, rest, id, access_token, expires_in, timestamp, now);
}

} // verus!
