use std::sync::Arc;
use token_manager::{
    refreshed_event, AccountFile, RefreshPlan, RequestAction, RequestEvent, SchedulingMode,
    StickySessionConfig, TokenManager, TokenResponse,
};

fn account_json(id: &str, tier: Option<&str>, expiry: i64, project: Option<&str>) -> String {
    let quota = match tier {
        Some(t) => format!(r#""quota": {{ "subscription_tier": "{}" }},"#, t),
        None => String::new(),
    };
    let project = match project {
        Some(p) => format!(r#", "project_id": "{}""#, p),
        None => String::new(),
    };
    format!(
        r#"{{ "id": "{id}", "email": "{id}@example.com", {quota}
  "token": {{ "access_token": "at-{id}", "refresh_token": "rt-{id}", "expires_in": 3600,
             "expiry_timestamp": {expiry}{project} }} }}"#
    )
}

fn file(id: &str, tier: Option<&str>, expiry: i64, project: Option<&str>) -> AccountFile {
    AccountFile { path: format!("/data/accounts/{}.json", id), content: account_json(id, tier, expiry, project) }
}

#[test]
fn test_token_manager_creation() {
    let tm = TokenManager::new("/tmp");
    assert!(tm.is_empty());
    assert_eq!(tm.len(), 0);
}

#[test]
fn test_sticky_config_update() {
    let mut tm = TokenManager::new("/tmp");

    let initial = tm.get_sticky_config();
    assert_eq!(initial.max_wait_seconds, 120);

    let new_config = StickySessionConfig { mode: SchedulingMode::Balance, max_wait_seconds: 60 };

    tm.update_sticky_config(new_config.clone());

    let updated = tm.get_sticky_config();
    assert_eq!(updated.max_wait_seconds, 60);
}

#[test]
fn test_session_clearing() {
    let mut tm = TokenManager::new("/tmp");
    tm.load_accounts(&vec![file("account-1", None, 100_000, Some("p"))]);

    let req = tm.begin_request("gemini", "chat", false, Some("session-1")).unwrap();
    let (_, action) = tm.advance_at(req, RequestEvent::Start, 0);
    assert!(matches!(action, RequestAction::Done(_)));
    assert_eq!(tm.get_session_binding("gemini", "session-1"), Some("account-1".to_string()));

    tm.clear_all_sessions();
    assert_eq!(tm.get_session_binding("gemini", "session-1"), None);
}

#[test]
fn test_manager_initialization() {
    let manager = TokenManager::new("/tmp/antiproxy-test");

    assert!(manager.is_empty());
    assert_eq!(manager.len(), 0);
}

#[test]
fn test_scheduling_config_persistence() {
    let mut manager = TokenManager::new("/tmp/antiproxy-test");

    let config = manager.get_sticky_config();
    assert_eq!(config.mode, SchedulingMode::CacheFirst);
    assert_eq!(config.max_wait_seconds, 120);

    manager.update_sticky_config(StickySessionConfig {
        mode: SchedulingMode::Balance,
        max_wait_seconds: 60,
    });

    let updated = manager.get_sticky_config();
    assert_eq!(updated.mode, SchedulingMode::Balance);
    assert_eq!(updated.max_wait_seconds, 60);
}

#[test]
fn test_rate_limit_tracking() {
    let mut manager = TokenManager::new("/tmp/antiproxy-test");

    assert!(!manager.is_rate_limited("gemini", "chat", "account-1"));

    manager.mark_rate_limited(
        "gemini",
        "chat",
        "account-1",
        429,
        Some("60"),
        r#"{"error": "rate_limit_exceeded"}"#,
    );

    assert!(manager.is_rate_limited("gemini", "chat", "account-1"));

    assert!(!manager.is_rate_limited("openai", "chat", "account-1"));
}

#[test]
fn test_session_management() {
    let mut manager = TokenManager::new("/tmp/antiproxy-test");

    manager.clear_all_sessions();

    assert!(manager.is_empty());
}

#[test]
fn rate_limits_are_kept_per_scope() {
    let mut manager = TokenManager::new("d");
    manager.mark_rate_limited_at("gemini", "image_gen", "a", 429, Some("10"), "", 1_000);
    assert!(manager.is_rate_limited_at("gemini", "image_gen", "a", 1_009));
    assert!(!manager.is_rate_limited_at("gemini", "image_gen", "a", 1_010));
    assert!(!manager.is_rate_limited_at("gemini", "chat", "a", 1_000));
    assert!(!manager.is_rate_limited_at("gemini", "image_gen", "b", 1_000));
    manager.mark_rate_limited_at("gemini", "chat", "a", 429, None, "", 1_000);
    assert!(manager.is_rate_limited_at("gemini", "chat", "a", 1_059));
    assert!(!manager.is_rate_limited_at("gemini", "chat", "a", 1_060));
    manager.mark_rate_limited_at("gemini", "embed", "a", 500, Some("x"), "", 1_000);
    assert!(manager.is_rate_limited_at("gemini", "embed", "a", 1_059));
}

#[test]
fn loading_accepts_enabled_complete_files_only() {
    let mut manager = TokenManager::new("/data");
    let files = vec![
        file("a", Some("PRO"), 100, Some("p")),
        AccountFile { path: "x".to_string(), content: "{ broken".to_string() },
        AccountFile { path: "y".to_string(), content: r#"{"id":"y"}"#.to_string() },
        AccountFile { path: "z".to_string(), content: r#"{"disabled":true,"id":"z"}"#.to_string() },
        AccountFile { path: "w".to_string(), content: r#"{"proxy_disabled":true,"id":"w"}"#.to_string() },
        file("b", None, 200, None),
    ];
    assert_eq!(manager.load_accounts(&files), 2);
    assert_eq!(manager.len(), 2);
    assert!(!manager.is_empty());
    let a = manager.get_account("a").unwrap();
    assert_eq!(a.email, "a@example.com");
    assert_eq!(a.account_path, "/data/accounts/a.json");
    assert_eq!(a.subscription_tier.as_deref(), Some("PRO"));
    assert_eq!(a.timestamp, 100);
    let b = manager.get_account("b").unwrap();
    assert_eq!(b.project_id, None);
    assert!(manager.get_account("y").is_none());
    assert!(manager.get_account("z").is_none());
}

#[test]
fn loading_replaces_the_registry_and_clears_the_sessions() {
    let mut manager = TokenManager::new("/data");
    manager.load_accounts(&vec![file("a", None, 100_000, Some("p"))]);
    let req = manager.begin_request("gemini", "chat", false, Some("s")).unwrap();
    let _ = manager.advance_at(req, RequestEvent::Start, 0);
    assert_eq!(manager.get_session_binding("gemini", "s"), Some("a".to_string()));
    manager.mark_rate_limited_at("gemini", "chat", "a", 429, Some("10"), "", 0);
    assert_eq!(manager.load_accounts(&vec![file("b", None, 100_000, Some("p"))]), 1);
    assert_eq!(manager.len(), 1);
    assert!(manager.get_account("a").is_none());
    assert!(manager.get_account("b").is_some());
    assert_eq!(manager.get_session_binding("gemini", "s"), None);
    assert!(manager.is_rate_limited_at("gemini", "chat", "a", 5));
    assert_eq!(manager.load_accounts(&Vec::new()), 0);
    assert!(manager.is_empty());
}

#[test]
fn a_later_file_of_the_same_account_replaces_the_earlier_one() {
    let mut manager = TokenManager::new("/data");
    let mut second = file("a", Some("ULTRA"), 2, None);
    second.path = "/data/accounts/copy.json".to_string();
    assert_eq!(manager.load_accounts(&vec![file("a", Some("FREE"), 1, None), second]), 2);
    assert_eq!(manager.len(), 1);
    let a = manager.get_account("a").unwrap();
    assert_eq!(a.timestamp, 2);
    assert_eq!(a.account_path, "/data/accounts/copy.json");
}

#[test]
fn account_paths() {
    let mut manager = TokenManager::new("/data");
    manager.load_accounts(&vec![file("a", None, 1, None)]);
    assert_eq!(manager.account_path("a"), "/data/accounts/a.json");
    assert_eq!(manager.account_path("missing"), "/data/accounts/missing.json");
    let other = TokenManager::new("");
    assert_eq!(other.account_path("x"), "/accounts/x.json");
}

#[test]
fn an_empty_registry_opens_no_request() {
    let manager = TokenManager::new("/data");
    let err = manager.begin_request("gemini", "chat", false, None).unwrap_err();
    assert_eq!(err, "Token pool is empty");
    let err = manager.begin_request("gemini", "chat", true, Some("s")).unwrap_err();
    assert_eq!(err, "Token pool is empty");
}

#[test]
fn a_request_opens_over_the_sorted_registry() {
    let mut manager = TokenManager::new("/data");
    manager.load_accounts(&vec![
        file("f", Some("FREE"), 1, None),
        file("u", Some("ULTRA"), 1, None),
        file("n", None, 1, None),
        file("p", Some("PRO"), 1, None),
    ]);
    manager.update_sticky_config(StickySessionConfig { mode: SchedulingMode::Balance, max_wait_seconds: 7 });
    let req = manager.begin_request("gemini", "image_gen", true, Some("s")).unwrap();
    let ids: Vec<&str> = req.pool.iter().map(|t| t.account_id.as_str()).collect();
    assert_eq!(ids, vec!["u", "p", "f", "n"]);
    assert_eq!(req.scope, "gemini::image_gen");
    assert_eq!(req.policy.mode, SchedulingMode::Balance);
    assert_eq!(req.policy.max_wait_seconds, 7);
    assert_eq!(req.bound, None);
    assert_eq!(req.session_id.as_deref(), Some("s"));
    assert!(req.force_rotate);
    assert!(req.attempted.is_empty());
    assert_eq!(req.last_error, None);
    assert_eq!(req.attempt, 0);
}

#[test]
fn refresh_locks_are_per_account() {
    let mut manager = TokenManager::new("/data");
    let a1 = manager.refresh_lock("a");
    let b = manager.refresh_lock("b");
    let a2 = manager.refresh_lock("a");
    assert!(Arc::ptr_eq(&a1, &a2));
    assert!(!Arc::ptr_eq(&a1, &b));
}

#[test]
fn refresh_plans() {
    let mut manager = TokenManager::new("/data");
    manager.load_accounts(&vec![file("a", None, 10_000, None)]);
    let stale = manager.get_account("a").unwrap();
    match manager.refresh_plan_at(&stale, 9_700) {
        RefreshPlan::Exchange { refresh_token } => assert_eq!(refresh_token, "rt-a"),
        other => panic!("expected an exchange, got {:?}", other),
    }
    match manager.refresh_plan_at(&stale, 9_699) {
        RefreshPlan::Reuse { access_token, expires_in, timestamp } => {
            assert_eq!(access_token, "at-a");
            assert_eq!(expires_in, 3600);
            assert_eq!(timestamp, 10_000);
        }
        other => panic!("expected a reuse, got {:?}", other),
    }
    let mut unknown = stale.clone();
    unknown.account_id = "gone".to_string();
    unknown.refresh_token = "rt-gone".to_string();
    assert!(matches!(
        manager.refresh_plan_at(&unknown, 0),
        RefreshPlan::Exchange { ref refresh_token } if refresh_token == "rt-gone"
    ));
    let now = chrono::Utc::now().timestamp();
    manager.load_accounts(&vec![file("a", None, now + 10_000, None)]);
    assert!(matches!(manager.refresh_plan(&stale), RefreshPlan::Reuse { .. }));
    manager.load_accounts(&vec![file("a", None, now - 10_000, None)]);
    assert!(matches!(manager.refresh_plan(&stale), RefreshPlan::Exchange { .. }));
}

#[test]
fn unexpected_events_end_the_request() {
    let mut manager = TokenManager::new("/data");
    manager.load_accounts(&vec![file("a", None, 100_000, Some("p"))]);
    let req = manager.begin_request("gemini", "chat", false, None).unwrap();
    let (req, action) = manager.advance_at(req, RequestEvent::Waited, 0);
    assert!(matches!(action, RequestAction::Fail(ref m) if m == "Unexpected event"));
    let (req, action) = manager.advance_at(req, RequestEvent::Start, 0);
    assert!(matches!(action, RequestAction::Fail(ref m) if m == "Unexpected event"));
    let (_, action) = manager.advance_at(req, RequestEvent::ProjectSaved, 0);
    assert!(matches!(action, RequestAction::Fail(ref m) if m == "Unexpected event"));
    let req = manager.begin_request("gemini", "chat", false, None).unwrap();
    let (req, action) = manager.advance_at(req, RequestEvent::Start, 0);
    assert!(matches!(action, RequestAction::Done(_)));
    let (_, action) = manager.advance_at(req, RequestEvent::Disabled, 0);
    assert!(matches!(action, RequestAction::Fail(ref m) if m == "Unexpected event"));
}

#[test]
fn requests_advance_by_the_system_clock() {
    let now = chrono::Utc::now().timestamp();
    let mut manager = TokenManager::new("/data");
    manager.load_accounts(&vec![file("a", None, now + 100_000, Some("p"))]);
    let req = manager.begin_request("gemini", "chat", false, None).unwrap();
    let (_, action) = manager.advance(req, RequestEvent::Start);
    assert!(matches!(action, RequestAction::Done(ref t) if t.account_id == "a"));
    manager.load_accounts(&vec![file("a", None, now - 100_000, Some("p"))]);
    let req = manager.begin_request("gemini", "chat", false, None).unwrap();
    let (_, action) = manager.advance(req, RequestEvent::Start);
    assert!(matches!(action, RequestAction::Refresh { ref token } if token.account_id == "a"));
}

#[test]
fn refreshed_events_carry_the_expiry_time() {
    let event = refreshed_event(TokenResponse { access_token: "a".to_string(), expires_in: 100 }, 1_000);
    assert!(matches!(
        event,
        RequestEvent::Refreshed { ref access_token, expires_in: 100, timestamp: 1_100 } if access_token == "a"
    ));
    let event = refreshed_event(TokenResponse { access_token: String::new(), expires_in: i64::MAX }, 1);
    assert!(matches!(event, RequestEvent::Refreshed { timestamp: i64::MAX, .. }));
}
