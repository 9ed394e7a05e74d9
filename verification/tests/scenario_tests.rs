use std::collections::HashMap;
use token_manager::account_file::{
    disabled_account_text, expiry_time, project_account_text, refreshed_account_text,
};
use token_manager::{
    AccountFile, RefreshPlan, RequestAction, RequestEvent, SchedulingMode, SelectedToken,
    StickySessionConfig, TokenManager, TokenRequest,
};

/// What stands in for the disk, the authorization server, the project
/// resolver and the clock.
struct World {
    now: i64,
    files: HashMap<String, String>,
    exchanges: Vec<String>,
    exchange_results: HashMap<String, Result<(String, i64), String>>,
    project_results: HashMap<String, Result<String, String>>,
    waits: Vec<u64>,
    disabled: Vec<String>,
}

impl World {
    fn new(now: i64) -> World {
        World {
            now,
            files: HashMap::new(),
            exchanges: Vec::new(),
            exchange_results: HashMap::new(),
            project_results: HashMap::new(),
            waits: Vec::new(),
            disabled: Vec::new(),
        }
    }

    fn add(&mut self, id: &str, tier: Option<&str>, expiry: i64, project: Option<&str>) {
        let quota = match tier {
            Some(t) => format!(r#""quota": {{ "subscription_tier": "{}" }},"#, t),
            None => String::new(),
        };
        let project = match project {
            Some(p) => format!(r#", "project_id": "{}""#, p),
            None => String::new(),
        };
        let text = format!(
            r#"{{ "id": "{id}", "email": "{id}@example.com", {quota} "keep": [1, 2],
  "token": {{ "access_token": "at-{id}", "refresh_token": "rt-{id}", "expires_in": 3600,
             "expiry_timestamp": {expiry}{project} }} }}"#
        );
        self.files.insert(format!("/data/accounts/{}.json", id), text);
    }

    fn load(&self, manager: &mut TokenManager) -> usize {
        let mut paths: Vec<&String> = self.files.keys().collect();
        paths.sort();
        let files: Vec<AccountFile> = paths
            .into_iter()
            .map(|p| AccountFile { path: p.clone(), content: self.files[p].clone() })
            .collect();
        manager.load_accounts(&files)
    }

    fn doc(&self, id: &str) -> serde_json::Value {
        serde_json::from_str(&self.files[&format!("/data/accounts/{}.json", id)]).unwrap()
    }

    /// Performs one action and says what came of it.
    fn perform(&mut self, manager: &mut TokenManager, action: RequestAction) -> Result<RequestEvent, Result<SelectedToken, String>> {
        match action {
            RequestAction::Done(t) => Err(Ok(t)),
            RequestAction::Fail(e) => Err(Err(e)),
            RequestAction::Wait { seconds } => {
                self.waits.push(seconds);
                self.now += seconds as i64;
                Ok(RequestEvent::Waited)
            }
            RequestAction::Refresh { token } => {
                let _lock = manager.refresh_lock(&token.account_id);
                match manager.refresh_plan_at(&token, self.now) {
                    RefreshPlan::Reuse { access_token, expires_in, timestamp } => {
                        Ok(RequestEvent::Refreshed { access_token, expires_in, timestamp })
                    }
                    RefreshPlan::Exchange { refresh_token } => {
                        self.exchanges.push(refresh_token.clone());
                        let result = self
                            .exchange_results
                            .get(&refresh_token)
                            .cloned()
                            .unwrap_or(Ok((format!("new-{}", refresh_token), 3600)));
                        match result {
                            Ok((access_token, expires_in)) => {
                                let text = refreshed_account_text(
                                    &self.files[&token.account_path],
                                    &access_token,
                                    expires_in,
                                    self.now,
                                );
                                match text {
                                    Ok(text) => {
                                        self.files.insert(token.account_path.clone(), text);
                                        Ok(RequestEvent::Refreshed {
                                            access_token,
                                            expires_in,
                                            timestamp: expiry_time(self.now, expires_in),
                                        })
                                    }
                                    Err(e) => Ok(RequestEvent::RefreshFailed(e)),
                                }
                            }
                            Err(e) => Ok(RequestEvent::RefreshFailed(e)),
                        }
                    }
                }
            }
            RequestAction::Disable { account_id, known_path, reason } => {
                let path = known_path.unwrap_or(manager.account_path(&account_id));
                if let Some(content) = self.files.get(&path) {
                    if let Ok(text) = disabled_account_text(content, &reason, self.now) {
                        self.files.insert(path, text);
                    }
                }
                self.disabled.push(account_id);
                Ok(RequestEvent::Disabled)
            }
            RequestAction::FetchProject { access_token } => {
                match self.project_results.get(&access_token).cloned().unwrap_or(Ok(format!("proj-of-{}", access_token))) {
                    Ok(p) => Ok(RequestEvent::ProjectFetched(p)),
                    Err(e) => Ok(RequestEvent::ProjectFetchFailed(e)),
                }
            }
            RequestAction::SaveProject { account_path, project_id } => {
                match self.files.get(&account_path) {
                    None => Ok(RequestEvent::ProjectSaveFailed("Failed to read file: missing".to_string())),
                    Some(content) => match project_account_text(content, &project_id) {
                        Ok(text) => {
                            self.files.insert(account_path, text);
                            Ok(RequestEvent::ProjectSaved)
                        }
                        Err(e) => Ok(RequestEvent::ProjectSaveFailed(e)),
                    },
                }
            }
        }
    }

    /// Carries one request from its opening to its end.
    fn get_token(
        &mut self,
        manager: &mut TokenManager,
        quota_group: &str,
        request_type: &str,
        force_rotate: bool,
        session_id: Option<&str>,
    ) -> Result<SelectedToken, String> {
        let mut req: TokenRequest = manager.begin_request(quota_group, request_type, force_rotate, session_id)?;
        let mut event = RequestEvent::Start;
        loop {
            let (next, action) = manager.advance_at(req, event, self.now);
            req = next;
            match self.perform(manager, action) {
                Ok(e) => event = e,
                Err(outcome) => return outcome,
            }
        }
    }
}

#[test]
fn tier_precedence() {
    let mut world = World::new(1_000);
    world.add("free", Some("FREE"), 100_000, Some("p"));
    world.add("ultra", Some("ULTRA"), 100_000, Some("p"));
    world.add("pro", Some("PRO"), 100_000, Some("p"));
    let mut manager = TokenManager::new("/data");
    assert_eq!(world.load(&mut manager), 3);

    let first = world.get_token(&mut manager, "gemini", "chat", false, None).unwrap();
    assert_eq!(first.account_id, "ultra");
    assert_eq!(first.access_token, "at-ultra");
    assert_eq!(first.email, "ultra@example.com");
    assert_eq!(first.project_id, "p");

    manager.mark_rate_limited_at("gemini", "chat", "ultra", 429, Some("60"), "", world.now);
    let second = world.get_token(&mut manager, "gemini", "chat", false, None).unwrap();
    assert_eq!(second.account_id, "pro");

    let third = world.get_token(&mut manager, "gemini", "image_gen", false, None).unwrap();
    assert_eq!(third.account_id, "ultra");
    assert!(world.exchanges.is_empty());
    assert!(world.waits.is_empty());
}

#[test]
fn sticky_bind_then_reuse() {
    let mut world = World::new(1_000);
    world.add("a", Some("PRO"), 100_000, Some("p"));
    world.add("b", Some("PRO"), 100_000, Some("p"));
    let mut manager = TokenManager::new("/data");
    world.load(&mut manager);

    let first = world.get_token(&mut manager, "gemini", "chat", false, Some("s1")).unwrap();
    let bound = first.account_id.clone();
    let other = if bound == "a" { "b" } else { "a" };
    assert_eq!(manager.get_session_binding("gemini", "s1"), Some(bound.clone()));

    let second = world.get_token(&mut manager, "gemini", "chat", false, Some("s1")).unwrap();
    assert_eq!(second.account_id, bound);

    manager.mark_rate_limited_at("gemini", "chat", &bound, 429, Some("30"), "", world.now);
    assert_eq!(manager.get_sticky_config().mode, SchedulingMode::CacheFirst);
    assert_eq!(manager.get_sticky_config().max_wait_seconds, 120);
    let third = world.get_token(&mut manager, "gemini", "chat", false, Some("s1")).unwrap();
    assert_eq!(third.account_id, bound);
    assert_eq!(world.waits, vec![30]);
    assert_eq!(world.now, 1_030);

    manager.mark_rate_limited_at("gemini", "chat", &bound, 429, Some("30"), "", world.now);
    manager.update_sticky_config(StickySessionConfig { mode: SchedulingMode::Balance, max_wait_seconds: 120 });
    let fourth = world.get_token(&mut manager, "gemini", "chat", false, Some("s1")).unwrap();
    assert_eq!(fourth.account_id, other);
    assert_eq!(world.waits, vec![30]);
    assert_eq!(manager.get_session_binding("gemini", "s1"), Some(other.to_string()));
}

#[test]
fn rotation_override() {
    let mut world = World::new(1_000);
    world.add("a", None, 100_000, Some("p"));
    world.add("b", None, 100_000, Some("p"));
    let mut manager = TokenManager::new("/data");
    world.load(&mut manager);

    let first = world.get_token(&mut manager, "gemini", "chat", false, Some("s1")).unwrap();
    let bound = first.account_id.clone();
    let rotated = world.get_token(&mut manager, "gemini", "chat", true, Some("s1")).unwrap();
    assert_ne!(rotated.account_id, bound);
    assert_eq!(manager.get_session_binding("gemini", "s1"), Some(bound.clone()));

    let again = world.get_token(&mut manager, "gemini", "chat", false, Some("s1")).unwrap();
    assert_eq!(again.account_id, bound);

    let fresh = world.get_token(&mut manager, "gemini", "chat", true, Some("s2")).unwrap();
    assert!(fresh.account_id == "a" || fresh.account_id == "b");
    assert_eq!(manager.get_session_binding("gemini", "s2"), None);
}

#[test]
fn refresh_coalescing() {
    let mut world = World::new(50_000);
    world.add("a", None, 50_100, Some("p"));
    let mut manager = TokenManager::new("/data");
    world.load(&mut manager);

    let mut open = Vec::new();
    for _ in 0..10 {
        let req = manager.begin_request("gemini", "chat", false, None).unwrap();
        let (req, action) = manager.advance_at(req, RequestEvent::Start, world.now);
        assert!(matches!(action, RequestAction::Refresh { ref token } if token.access_token == "at-a"));
        open.push((req, action));
    }
    let mut served = Vec::new();
    for (req, action) in open {
        let mut req = req;
        let mut action = action;
        loop {
            match world.perform(&mut manager, action) {
                Ok(event) => {
                    let (next, a) = manager.advance_at(req, event, world.now);
                    req = next;
                    action = a;
                }
                Err(outcome) => {
                    served.push(outcome.unwrap());
                    break;
                }
            }
        }
    }
    assert_eq!(world.exchanges, vec!["rt-a".to_string()]);
    assert_eq!(served.len(), 10);
    for t in &served {
        assert_eq!(t.access_token, "new-rt-a");
        assert_eq!(t.account_id, "a");
    }
    let entry = manager.get_account("a").unwrap();
    assert_eq!(entry.access_token, "new-rt-a");
    assert_eq!(entry.expires_in, 3600);
    assert_eq!(entry.timestamp, 53_600);
    let doc = world.doc("a");
    assert_eq!(doc["token"]["access_token"], "new-rt-a");
    assert_eq!(doc["token"]["expires_in"], 3600);
    assert_eq!(doc["token"]["expiry_timestamp"], 53_600);
    assert_eq!(doc["token"]["refresh_token"], "rt-a");
    assert_eq!(doc["keep"], serde_json::from_str::<serde_json::Value>("[1, 2]").unwrap());

    let later = world.get_token(&mut manager, "gemini", "chat", false, None).unwrap();
    assert_eq!(later.access_token, "new-rt-a");
    assert_eq!(world.exchanges.len(), 1);
}

#[test]
fn permanent_refresh_error() {
    let mut world = World::new(50_000);
    world.add("a", Some("ULTRA"), 0, Some("p"));
    world.add("b", Some("FREE"), 100_000, Some("p"));
    world.exchange_results.insert("rt-a".to_string(), Err("OAuth error: invalid_grant".to_string()));
    let mut manager = TokenManager::new("/data");
    world.load(&mut manager);

    let served = world.get_token(&mut manager, "gemini", "chat", false, Some("s")).unwrap();
    assert_eq!(served.account_id, "b");
    assert_eq!(world.exchanges, vec!["rt-a".to_string()]);
    assert_eq!(world.disabled, vec!["a".to_string()]);
    assert!(manager.get_account("a").is_none());
    assert_eq!(manager.len(), 1);
    let doc = world.doc("a");
    assert_eq!(doc["disabled"], true);
    assert_eq!(doc["disabled_at"], 50_000);
    assert_eq!(doc["disabled_reason"], "OAuth error: invalid_grant");
    assert_eq!(doc["token"]["refresh_token"], "rt-a");
    assert_eq!(manager.get_session_binding("gemini", "s"), None);

    let mut reloaded = TokenManager::new("/data");
    assert_eq!(world.load(&mut reloaded), 1);
    assert!(reloaded.get_account("a").is_none());
}

#[test]
fn all_limited() {
    let mut world = World::new(1_000);
    world.add("a", None, 100_000, Some("p"));
    world.add("b", None, 100_000, Some("p"));
    world.add("c", None, 100_000, Some("p"));
    let mut manager = TokenManager::new("/data");
    world.load(&mut manager);
    manager.mark_rate_limited_at("gemini", "chat", "a", 429, Some("90"), "", world.now);
    manager.mark_rate_limited_at("gemini", "chat", "b", 429, Some("45"), "", world.now);
    manager.mark_rate_limited_at("gemini", "chat", "c", 429, Some("3000"), "", world.now);

    let err = world.get_token(&mut manager, "gemini", "chat", false, Some("s")).unwrap_err();
    assert_eq!(err, "All accounts are currently limited. Please wait 45s.");
    assert!(err.contains("45"));
    assert_eq!(manager.get_session_binding("gemini", "s"), None);

    let err = world.get_token(&mut manager, "gemini", "chat", true, Some("s")).unwrap_err();
    assert_eq!(err, "All accounts are currently limited. Please wait 60s.");
    assert!(world.get_token(&mut manager, "gemini", "image_gen", false, None).is_ok());
}

#[test]
fn transient_refresh_error_moves_to_the_next_account() {
    let mut world = World::new(50_000);
    world.add("a", Some("ULTRA"), 0, Some("p"));
    world.add("b", Some("PRO"), 0, Some("p"));
    world.exchange_results.insert("rt-a".to_string(), Err("network down".to_string()));
    let mut manager = TokenManager::new("/data");
    world.load(&mut manager);

    let served = world.get_token(&mut manager, "gemini", "chat", false, Some("s")).unwrap();
    assert_eq!(served.account_id, "b");
    assert_eq!(served.access_token, "new-rt-b");
    assert_eq!(world.exchanges, vec!["rt-a".to_string(), "rt-b".to_string()]);
    assert!(world.disabled.is_empty());
    assert!(manager.get_account("a").is_some());
    assert_eq!(world.doc("a").get("disabled"), None);
    assert_eq!(manager.get_session_binding("gemini", "s"), None);
}

#[test]
fn the_last_error_surfaces_when_every_account_fails() {
    let mut world = World::new(50_000);
    world.add("a", Some("ULTRA"), 0, Some("p"));
    world.add("b", Some("PRO"), 0, Some("p"));
    world.exchange_results.insert("rt-a".to_string(), Err("first".to_string()));
    world.exchange_results.insert("rt-b".to_string(), Err("second".to_string()));
    let mut manager = TokenManager::new("/data");
    world.load(&mut manager);
    let err = world.get_token(&mut manager, "gemini", "chat", false, None).unwrap_err();
    assert_eq!(err, "Token refresh failed: second");
    assert_eq!(world.exchanges.len(), 2);

    let mut world = World::new(50_000);
    world.add("a", None, 0, Some("p"));
    world.exchange_results.insert("rt-a".to_string(), Err("revoked: invalid_grant".to_string()));
    let mut manager = TokenManager::new("/data");
    world.load(&mut manager);
    let err = world.get_token(&mut manager, "gemini", "chat", false, None).unwrap_err();
    assert_eq!(err, "Token refresh failed: revoked: invalid_grant");
    assert!(manager.is_empty());
}

#[test]
fn a_missing_project_id_is_resolved_and_persisted() {
    let mut world = World::new(1_000);
    world.add("a", None, 100_000, None);
    let mut manager = TokenManager::new("/data");
    world.load(&mut manager);
    let served = world.get_token(&mut manager, "gemini", "chat", false, Some("s")).unwrap();
    assert_eq!(served.project_id, "proj-of-at-a");
    assert_eq!(manager.get_account("a").unwrap().project_id.as_deref(), Some("proj-of-at-a"));
    assert_eq!(world.doc("a")["token"]["project_id"], "proj-of-at-a");
    assert_eq!(world.doc("a")["token"]["access_token"], "at-a");
    assert_eq!(manager.get_session_binding("gemini", "s"), Some("a".to_string()));
}

#[test]
fn project_failures_move_to_the_next_account() {
    let mut world = World::new(1_000);
    world.add("a", Some("ULTRA"), 100_000, None);
    world.add("b", Some("PRO"), 100_000, Some("p"));
    world.project_results.insert("at-a".to_string(), Err("403".to_string()));
    let mut manager = TokenManager::new("/data");
    world.load(&mut manager);
    let served = world.get_token(&mut manager, "gemini", "chat", false, None).unwrap();
    assert_eq!(served.account_id, "b");
    assert_eq!(manager.get_account("a").unwrap().project_id, None);

    let mut world = World::new(1_000);
    world.add("a", None, 100_000, None);
    world.project_results.insert("at-a".to_string(), Err("403".to_string()));
    let mut manager = TokenManager::new("/data");
    world.load(&mut manager);
    let err = world.get_token(&mut manager, "gemini", "chat", false, None).unwrap_err();
    assert_eq!(err, "Failed to fetch project_id: Failed to fetch project_id: 403");

    let mut world = World::new(1_000);
    world.add("a", None, 100_000, None);
    let mut manager = TokenManager::new("/data");
    world.load(&mut manager);
    world.files.clear();
    let err = world.get_token(&mut manager, "gemini", "chat", false, None).unwrap_err();
    assert_eq!(err, "Failed to fetch project_id: Failed to read file: missing");
    assert_eq!(manager.get_account("a").unwrap().project_id.as_deref(), Some("proj-of-at-a"));
}

#[test]
fn a_project_for_an_evicted_account_is_not_saved() {
    let mut world = World::new(1_000);
    world.add("a", None, 100_000, None);
    let mut manager = TokenManager::new("/data");
    world.load(&mut manager);
    let req = manager.begin_request("gemini", "chat", false, None).unwrap();
    let (req, action) = manager.advance_at(req, RequestEvent::Start, world.now);
    assert!(matches!(action, RequestAction::FetchProject { ref access_token } if access_token == "at-a"));
    manager.load_accounts(&Vec::new());
    let (_, action) = manager.advance_at(req, RequestEvent::ProjectFetched("p".to_string()), world.now);
    assert!(matches!(action, RequestAction::Fail(ref m) if m == "Failed to fetch project_id: Account not found"));
}

#[test]
fn refresh_then_project_then_done() {
    let mut world = World::new(50_000);
    world.add("a", None, 0, None);
    world.exchange_results.insert("rt-a".to_string(), Ok(("fresh".to_string(), 100)));
    let mut manager = TokenManager::new("/data");
    world.load(&mut manager);
    let served = world.get_token(&mut manager, "gemini", "chat", false, None).unwrap();
    assert_eq!(served.access_token, "fresh");
    assert_eq!(served.project_id, "proj-of-fresh");
    let entry = manager.get_account("a").unwrap();
    assert_eq!(entry.access_token, "fresh");
    assert_eq!(entry.expires_in, 100);
    assert_eq!(entry.timestamp, 50_100);
    assert_eq!(entry.project_id.as_deref(), Some("proj-of-fresh"));
    assert_eq!(world.doc("a")["token"]["expiry_timestamp"], 50_100);
    assert_eq!(world.doc("a")["token"]["project_id"], "proj-of-fresh");
}

#[test]
fn waiting_ends_in_a_refresh_when_the_token_expired_meanwhile() {
    let mut world = World::new(1_000);
    world.add("a", None, 1_320, Some("p"));
    let mut manager = TokenManager::new("/data");
    world.load(&mut manager);
    let first = world.get_token(&mut manager, "gemini", "chat", false, Some("s")).unwrap();
    assert_eq!(first.access_token, "at-a");
    manager.mark_rate_limited_at("gemini", "chat", "a", 429, Some("30"), "", world.now);
    let second = world.get_token(&mut manager, "gemini", "chat", false, Some("s")).unwrap();
    assert_eq!(world.waits, vec![30]);
    assert_eq!(world.exchanges, vec!["rt-a".to_string()]);
    assert_eq!(second.access_token, "new-rt-a");
}
