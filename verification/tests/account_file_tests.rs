use token_manager::account_file::{
    account_from_document, disabled_account_text, expiry_time, is_token_settable,
    load_single_account, parse_document, project_account_text, refreshed_account_text,
    set_disabled, set_project_id, set_refreshed, write_document,
};

const FULL: &str = r#"{
  "id": "acc-1",
  "email": "one@example.com",
  "name": "kept",
  "ratio": 0.25,
  "big": 18446744073709551615,
  "quota": { "subscription_tier": "PRO", "models": [1, 2, 3] },
  "token": {
    "access_token": "at-old",
    "refresh_token": "rt-1",
    "expires_in": 3599,
    "expiry_timestamp": 1700000000,
    "project_id": "proj-1",
    "scope": "openid email"
  }
}"#;

fn parse(text: &str) -> serde_json::Value {
    serde_json::from_str(text).unwrap()
}

#[test]
fn a_complete_account_file_is_read() {
    let t = load_single_account("/data/accounts/acc-1.json", FULL).unwrap().unwrap();
    assert_eq!(t.account_id, "acc-1");
    assert_eq!(t.email, "one@example.com");
    assert_eq!(t.access_token, "at-old");
    assert_eq!(t.refresh_token, "rt-1");
    assert_eq!(t.expires_in, 3599);
    assert_eq!(t.timestamp, 1700000000);
    assert_eq!(t.account_path, "/data/accounts/acc-1.json");
    assert_eq!(t.project_id.as_deref(), Some("proj-1"));
    assert_eq!(t.subscription_tier.as_deref(), Some("PRO"));
}

#[test]
fn optional_members_may_be_missing() {
    let text = r#"{"id":"a","email":"e","token":{"access_token":"x","refresh_token":"y","expires_in":-5,"expiry_timestamp":0}}"#;
    let t = load_single_account("p", text).unwrap().unwrap();
    assert_eq!(t.project_id, None);
    assert_eq!(t.subscription_tier, None);
    assert_eq!(t.expires_in, -5);
    assert_eq!(t.timestamp, 0);
    let text = r#"{"id":"a","email":"e","quota":{"subscription_tier":7},"token":{"access_token":"x","refresh_token":"y","expires_in":1,"expiry_timestamp":2,"project_id":null}}"#;
    let t = load_single_account("p", text).unwrap().unwrap();
    assert_eq!(t.project_id, None);
    assert_eq!(t.subscription_tier, None);
    let text = r#"{"id":"a","email":"e","quota":"none","disabled":false,"proxy_disabled":"yes","token":{"access_token":"x","refresh_token":"y","expires_in":1,"expiry_timestamp":2}}"#;
    let t = load_single_account("p", text).unwrap().unwrap();
    assert_eq!(t.subscription_tier, None);
    assert_eq!(t.account_id, "a");
}

#[test]
fn disabled_accounts_yield_no_record() {
    let text = r#"{"disabled":true}"#;
    assert!(matches!(load_single_account("p", text), Ok(None)));
    let text = r#"{"proxy_disabled":true,"id":"a"}"#;
    assert!(matches!(load_single_account("p", text), Ok(None)));
    let text = FULL.replacen("{", "{\"disabled\": true,", 1);
    assert!(matches!(load_single_account("p", &text), Ok(None)));
    let text = FULL.replacen("{", "{\"proxy_disabled\": true,", 1);
    assert!(matches!(load_single_account("p", &text), Ok(None)));
}

#[test]
fn each_missing_member_is_named() {
    let err = |text: &str| load_single_account("p", text).unwrap_err();
    assert_eq!(err(r#"{}"#), "Missing id field");
    assert_eq!(err(r#"[]"#), "Missing id field");
    assert_eq!(err(r#"null"#), "Missing id field");
    assert_eq!(err(r#"{"id":7}"#), "Missing id field");
    assert_eq!(err(r#"{"id":"a"}"#), "Missing email field");
    assert_eq!(err(r#"{"id":"a","email":null}"#), "Missing email field");
    assert_eq!(err(r#"{"id":"a","email":"e"}"#), "Missing token field");
    assert_eq!(err(r#"{"id":"a","email":"e","token":"t"}"#), "Missing token field");
    assert_eq!(err(r#"{"id":"a","email":"e","token":[]}"#), "Missing token field");
    assert_eq!(err(r#"{"id":"a","email":"e","token":{}}"#), "Missing access_token");
    assert_eq!(err(r#"{"id":"a","email":"e","token":{"access_token":"x"}}"#), "Missing refresh_token");
    assert_eq!(
        err(r#"{"id":"a","email":"e","token":{"access_token":"x","refresh_token":"y"}}"#),
        "Missing expires_in"
    );
    assert_eq!(
        err(r#"{"id":"a","email":"e","token":{"access_token":"x","refresh_token":"y","expires_in":"1"}}"#),
        "Missing expires_in"
    );
    assert_eq!(
        err(r#"{"id":"a","email":"e","token":{"access_token":"x","refresh_token":"y","expires_in":1.5}}"#),
        "Missing expires_in"
    );
    assert_eq!(
        err(r#"{"id":"a","email":"e","token":{"access_token":"x","refresh_token":"y","expires_in":1}}"#),
        "Missing expiry_timestamp"
    );
    assert_eq!(
        err(r#"{"id":"a","email":"e","token":{"access_token":"x","refresh_token":"y","expires_in":1,"expiry_timestamp":18446744073709551615}}"#),
        "Missing expiry_timestamp"
    );
}

#[test]
fn text_that_is_no_json_is_refused() {
    let e = load_single_account("p", "{ not json").unwrap_err();
    assert!(e.starts_with("Failed to parse JSON: "));
    assert!(e.len() > "Failed to parse JSON: ".len());
    let e = load_single_account("p", "").unwrap_err();
    assert!(e.starts_with("Failed to parse JSON: "));
    assert!(parse_document("{\"a\":1} trailing").unwrap_err().starts_with("Failed to parse JSON: "));
    assert!(parse_document("{\"a\":1}").is_ok());
}

#[test]
fn documents_are_read_as_values() {
    let doc = parse(FULL);
    let t = account_from_document(&doc, "somewhere").unwrap().unwrap();
    assert_eq!(t.account_id, "acc-1");
    assert_eq!(t.account_path, "somewhere");
    let doc = parse(r#"{"id":"a","email":"e","disabled":true}"#);
    assert!(matches!(account_from_document(&doc, "p"), Ok(None)));
    let doc = parse(r#"{"id":"a"}"#);
    assert_eq!(account_from_document(&doc, "p").unwrap_err(), "Missing email field");
}

#[test]
fn refresh_rewrites_three_members_and_keeps_the_rest() {
    let text = refreshed_account_text(FULL, "at-new", 7200, 1_800_000_000).unwrap();
    let before = parse(FULL);
    let after = parse(&text);
    assert_eq!(after["token"]["access_token"], "at-new");
    assert_eq!(after["token"]["expires_in"], 7200);
    assert_eq!(after["token"]["expiry_timestamp"], 1_800_007_200i64);
    for key in ["id", "email", "name", "ratio", "big", "quota"] {
        assert_eq!(after[key], before[key]);
    }
    for key in ["refresh_token", "project_id", "scope"] {
        assert_eq!(after["token"][key], before["token"][key]);
    }
    assert_eq!(after.as_object().unwrap().len(), before.as_object().unwrap().len());
    assert_eq!(
        after["token"].as_object().unwrap().len(),
        before["token"].as_object().unwrap().len()
    );
    assert!(text.contains('\n'));
}

#[test]
fn an_account_reads_back_the_same_after_a_refresh() {
    let before = load_single_account("p", FULL).unwrap().unwrap();
    let text = refreshed_account_text(FULL, "at-new", 7200, 1_800_000_000).unwrap();
    let after = load_single_account("p", &text).unwrap().unwrap();
    assert_eq!(after.access_token, "at-new");
    assert_eq!(after.expires_in, 7200);
    assert_eq!(after.timestamp, 1_800_007_200);
    assert_eq!(after.account_id, before.account_id);
    assert_eq!(after.email, before.email);
    assert_eq!(after.refresh_token, before.refresh_token);
    assert_eq!(after.account_path, before.account_path);
    assert_eq!(after.project_id, before.project_id);
    assert_eq!(after.subscription_tier, before.subscription_tier);
}

#[test]
fn refresh_creates_the_token_member_where_it_is_missing() {
    let text = refreshed_account_text(r#"{"id":"a"}"#, "x", 10, 5).unwrap();
    let after = parse(&text);
    assert_eq!(after["id"], "a");
    assert_eq!(after["token"]["access_token"], "x");
    assert_eq!(after["token"]["expires_in"], 10);
    assert_eq!(after["token"]["expiry_timestamp"], 15);
    let text = refreshed_account_text("null", "x", 10, 5).unwrap();
    assert_eq!(parse(&text)["token"]["expiry_timestamp"], 15);
    let text = refreshed_account_text(r#"{"token":null}"#, "x", 10, 5).unwrap();
    assert_eq!(parse(&text)["token"]["access_token"], "x");
}

#[test]
fn rewrites_refuse_what_cannot_take_members() {
    for bad in ["[]", "3", "\"text\"", "true", r#"{"token":3}"#, r#"{"token":[]}"#, r#"{"token":"t"}"#] {
        assert_eq!(
            refreshed_account_text(bad, "x", 10, 5).unwrap_err(),
            "Account file is not a JSON object"
        );
        assert_eq!(
            project_account_text(bad, "p").unwrap_err(),
            "Account file is not a JSON object"
        );
    }
    for bad in ["[]", "3", "\"text\"", "true"] {
        assert_eq!(
            disabled_account_text(bad, "why", 5).unwrap_err(),
            "Account file is not a JSON object"
        );
    }
    assert!(disabled_account_text(r#"{"token":3}"#, "why", 5).is_ok());
    assert!(refreshed_account_text("{", "x", 10, 5).unwrap_err().starts_with("Failed to parse JSON: "));
    assert!(project_account_text("{", "p").unwrap_err().starts_with("Failed to parse JSON: "));
    assert!(disabled_account_text("{", "r", 0).unwrap_err().starts_with("Failed to parse JSON: "));
}

#[test]
fn settable_documents() {
    assert!(is_token_settable(&parse("{}")));
    assert!(is_token_settable(&parse("null")));
    assert!(is_token_settable(&parse(r#"{"token":{}}"#)));
    assert!(is_token_settable(&parse(r#"{"token":null}"#)));
    assert!(!is_token_settable(&parse(r#"{"token":1}"#)));
    assert!(!is_token_settable(&parse("[]")));
    assert!(!is_token_settable(&parse("1")));
}

#[test]
fn project_id_is_written_under_token() {
    let text = project_account_text(FULL, "proj-2").unwrap();
    let before = parse(FULL);
    let after = parse(&text);
    assert_eq!(after["token"]["project_id"], "proj-2");
    for key in ["access_token", "refresh_token", "expires_in", "expiry_timestamp", "scope"] {
        assert_eq!(after["token"][key], before["token"][key]);
    }
    for key in ["id", "email", "name", "ratio", "big", "quota"] {
        assert_eq!(after[key], before[key]);
    }
    let t = load_single_account("p", &text).unwrap().unwrap();
    assert_eq!(t.project_id.as_deref(), Some("proj-2"));
    assert_eq!(t.access_token, "at-old");
}

#[test]
fn disabling_writes_flag_time_and_reason() {
    let text = disabled_account_text(FULL, "invalid_grant: revoked", 1_234).unwrap();
    let before = parse(FULL);
    let after = parse(&text);
    assert_eq!(after["disabled"], true);
    assert_eq!(after["disabled_at"], 1_234);
    assert_eq!(after["disabled_reason"], "invalid_grant: revoked");
    for key in ["id", "email", "name", "ratio", "big", "quota", "token"] {
        assert_eq!(after[key], before[key]);
    }
    assert!(matches!(load_single_account("p", &text), Ok(None)));
}

#[test]
fn disabling_cuts_the_reason_to_eight_hundred_characters() {
    let reason: String = "é".repeat(801);
    let text = disabled_account_text("{}", &reason, 0).unwrap();
    let after = parse(&text);
    let written = after["disabled_reason"].as_str().unwrap();
    assert_eq!(written.chars().count(), 801);
    assert!(written.ends_with('…'));
    assert_eq!(&written[..written.len() - '…'.len_utf8()], "é".repeat(800));
    let reason: String = "é".repeat(800);
    let text = disabled_account_text("{}", &reason, 0).unwrap();
    assert_eq!(parse(&text)["disabled_reason"].as_str().unwrap(), reason);
}

#[test]
fn documents_are_rewritten_in_place() {
    let mut doc = parse(FULL);
    set_refreshed(&mut doc, "n", 1, 2);
    assert_eq!(doc["token"]["access_token"], "n");
    assert_eq!(doc["token"]["expires_in"], 1);
    assert_eq!(doc["token"]["expiry_timestamp"], 3);
    assert_eq!(doc["token"]["refresh_token"], "rt-1");
    set_project_id(&mut doc, "pp");
    assert_eq!(doc["token"]["project_id"], "pp");
    assert_eq!(doc["token"]["access_token"], "n");
    set_disabled(&mut doc, "r", -7);
    assert_eq!(doc["disabled"], true);
    assert_eq!(doc["disabled_at"], -7);
    assert_eq!(doc["disabled_reason"], "r");
    assert_eq!(doc["name"], "kept");
    let text = write_document(&doc).unwrap();
    assert_eq!(parse(&text), doc);
}

#[test]
fn expiry_times() {
    assert_eq!(expiry_time(1_000, 3_600), 4_600);
    assert_eq!(expiry_time(1_000, -3_600), -2_600);
    assert_eq!(expiry_time(0, 0), 0);
    assert_eq!(expiry_time(i64::MAX, 1), i64::MAX);
    assert_eq!(expiry_time(i64::MAX - 1, 1), i64::MAX);
    assert_eq!(expiry_time(i64::MIN, -1), i64::MIN);
    assert_eq!(expiry_time(i64::MIN, i64::MAX), -1);
    let text = refreshed_account_text("{}", "x", i64::MAX, 10).unwrap();
    assert_eq!(parse(&text)["token"]["expiry_timestamp"], i64::MAX);
}
