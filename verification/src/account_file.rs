//! The persisted form of an account: reading a token record out of an
//! account document, and the three rewrites of a document (refreshed
//! credentials, resolved project id, disabling).
//!
//! Reading and writing the file itself is left to the caller; the functions
//! here go from text to text. Members that they do not name are carried
//! over unchanged.

use vstd::prelude::*;
use vstd::string::StringExecFns;
use serde_json::Value;
use crate::json::{
    bool_of, int_of, json_as_bool, json_as_i64, json_as_str, json_boolean, json_clone, json_content,
    json_error_message, json_get, json_is_null, json_is_object, json_null, json_number, json_parse,
    json_parsed, json_pretty, json_set, json_string, json_to_pretty, member, members_of,
    takes_members, text_of, JsonContent,
};
use crate::text::{join, truncate_string, truncated};
use crate::types::{ProxyToken, TokenModel};

verus! {

/// Longest reason, in characters, that is written into a disabled account.
pub const MAX_REASON_CHARS: usize = 800;

/// The member under `key` is the boolean `true`.
pub open spec fn flag(doc: Value, key: Seq<char>) -> bool {
    match member(doc, key) {
        Some(x) => bool_of(x) == Some(true),
        None => false,
    }
}

/// The text under `key`, if the member is there and is a string.
pub open spec fn text_member(doc: Value, key: Seq<char>) -> Option<Seq<char>> {
    match member(doc, key) {
        Some(x) => text_of(x),
        None => None,
    }
}

/// The integer under `key`, if the member is there and is one.
pub open spec fn int_member(doc: Value, key: Seq<char>) -> Option<i64> {
    match member(doc, key) {
        Some(x) => int_of(x),
        None => None,
    }
}

/// The text under `inner` of the member under `outer`.
pub open spec fn nested_text(doc: Value, outer: Seq<char>, inner: Seq<char>) -> Option<Seq<char>> {
    match member(doc, outer) {
        Some(x) => text_member(x, inner),
        None => None,
    }
}

/// The `token` member, where it is an object.
pub open spec fn token_object(doc: Value) -> Option<Value> {
    match member(doc, "token"@) {
        Some(t) => if json_content(t) is Object {
            Some(t)
        } else {
            None
        },
        None => None,
    }
}

/// What an account document yields: no record for a disabled account, the
/// record of an enabled one, or the first required member that is missing.
pub open spec fn account_in(doc: Value, path: Seq<char>) -> Result<Option<TokenModel>, Seq<char>> {
    if flag(doc, "disabled"@) || flag(doc, "proxy_disabled"@) {
        Ok(None)
    } else if text_member(doc, "id"@) is None {
        Err("Missing id field"@)
    } else if text_member(doc, "email"@) is None {
        Err("Missing email field"@)
    } else if token_object(doc) is None {
        Err("Missing token field"@)
    } else {
        let t = token_object(doc)->0;
        if text_member(t, "access_token"@) is None {
            Err("Missing access_token"@)
        } else if text_member(t, "refresh_token"@) is None {
            Err("Missing refresh_token"@)
        } else if int_member(t, "expires_in"@) is None {
            Err("Missing expires_in"@)
        } else if int_member(t, "expiry_timestamp"@) is None {
            Err("Missing expiry_timestamp"@)
        } else {
            Ok(
                Some(
                    TokenModel {
                        account_id: text_member(doc, "id"@)->0,
                        access_token: text_member(t, "access_token"@)->0,
                        refresh_token: text_member(t, "refresh_token"@)->0,
                        expires_in: int_member(t, "expires_in"@)->0,
                        timestamp: int_member(t, "expiry_timestamp"@)->0,
                        email: text_member(doc, "email"@)->0,
                        account_path: path,
                        project_id: text_member(t, "project_id"@),
                        subscription_tier: nested_text(doc, "quota"@, "subscription_tier"@),
                    },
                ),
            )
        }
    }
}

/// View of the result of reading an account.
pub open spec fn load_view(r: Result<Option<ProxyToken>, String>) -> Result<
    Option<TokenModel>,
    Seq<char>,
> {
    match r {
        Ok(Some(t)) => Ok(Some(t@)),
        Ok(None) => Ok(None),
        Err(e) => Err(e@),
    }
}

/// `text` begins with `prefix`.
pub open spec fn starts_with(text: Seq<char>, prefix: Seq<char>) -> bool {
    prefix.len() <= text.len() && text.subrange(0, prefix.len() as int) == prefix
}

fn read_flag(doc: &Value, key: &str) -> (r: bool)
    ensures
        r == flag(*doc, key@),
{
    match json_get(doc, key) {
        Some(v) => match json_as_bool(v) {
            Some(b) => b,
            None => false,
        },
        None => false,
    }
}

fn read_text(doc: &Value, key: &str) -> (r: Option<String>)
    ensures
        crate::types::opt_text(r) == text_member(*doc, key@),
{
    match json_get(doc, key) {
        Some(v) => match json_as_str(v) {
            Some(s) => Some(String::from_str(s)),
            None => None,
        },
        None => None,
    }
}

fn read_int(doc: &Value, key: &str) -> (r: Option<i64>)
    ensures
        r == int_member(*doc, key@),
{
    match json_get(doc, key) {
        Some(v) => json_as_i64(v),
        None => None,
    }
}

/// Reads the token record out of an account document. `path` is recorded
/// in the record as the place the document came from.
pub fn account_from_document(doc: &Value, path: &str) -> (r: Result<Option<ProxyToken>, String>)
    ensures
        load_view(r) == account_in(*doc, path@),
{
    if read_flag(doc, "disabled") {
        return Ok(None);
    }
    if read_flag(doc, "proxy_disabled") {
        return Ok(None);
    }
    let account_id = match read_text(doc, "id") {
        Some(s) => s,
        None => {
            return Err(String::from_str("Missing id field"));
        },
    };
    let email = match read_text(doc, "email") {
        Some(s) => s,
        None => {
            return Err(String::from_str("Missing email field"));
        },
    };
    let token_obj = match json_get(doc, "token") {
        Some(t) => {
            if !json_is_object(t) {
                return Err(String::from_str("Missing token field"));
            }
            t
        },
        None => {
            return Err(String::from_str("Missing token field"));
        },
    };
    let access_token = match read_text(token_obj, "access_token") {
        Some(s) => s,
        None => {
            return Err(String::from_str("Missing access_token"));
        },
    };
    let refresh_token = match read_text(token_obj, "refresh_token") {
        Some(s) => s,
        None => {
            return Err(String::from_str("Missing refresh_token"));
        },
    };
    let expires_in = match read_int(token_obj, "expires_in") {
        Some(n) => n,
        None => {
            return Err(String::from_str("Missing expires_in"));
        },
    };
    let timestamp = match read_int(token_obj, "expiry_timestamp") {
        Some(n) => n,
        None => {
            return Err(String::from_str("Missing expiry_timestamp"));
        },
    };
    let project_id = read_text(token_obj, "project_id");
    let subscription_tier = match json_get(doc, "quota") {
        Some(q) => read_text(q, "subscription_tier"),
        None => None,
    };
    Ok(
        Some(
            ProxyToken {
                account_id,
                access_token,
                refresh_token,
                expires_in,
                timestamp,
                email,
                account_path: String::from_str(path),
                project_id,
                subscription_tier,
            },
        ),
    )
}

/// Parses a text as a JSON document.
pub fn parse_document(content: &str) -> (r: Result<Value, String>)
    ensures
        match r {
            Ok(doc) => json_parsed(content@) == Some(doc),
            Err(e) => json_parsed(content@) is None && starts_with(e@, "Failed to parse JSON: "@),
        },
{
    match json_parse(content) {
        Ok(doc) => Ok(doc),
        Err(e) => {
            let detail = json_error_message(&e);
            let msg = join("Failed to parse JSON: ", detail.as_str());
            assert(msg@.subrange(0, "Failed to parse JSON: "@.len() as int) =~= "Failed to parse JSON: "@);
            Err(msg)
        },
    }
}

/// Writes a document as indented text.
pub fn write_document(doc: &Value) -> (r: Result<String, String>)
    ensures
        match r {
            Ok(text) => json_pretty(*doc) == Some(text@),
            Err(e) => json_pretty(*doc) is None && starts_with(e@, "Failed to serialize JSON: "@),
        },
{
    match json_to_pretty(doc) {
        Ok(text) => Ok(text),
        Err(e) => {
            let detail = json_error_message(&e);
            let msg = join("Failed to serialize JSON: ", detail.as_str());
            assert(msg@.subrange(0, "Failed to serialize JSON: "@.len() as int)
                =~= "Failed to serialize JSON: "@);
            Err(msg)
        },
    }
}

/// Reads the token record out of the text of an account file.
pub fn load_single_account(path: &str, content: &str) -> (r: Result<Option<ProxyToken>, String>)
    ensures
        match json_parsed(content@) {
            Some(doc) => load_view(r) == account_in(doc, path@),
            None => r matches Err(e) && starts_with(e@, "Failed to parse JSON: "@),
        },
{
    match parse_document(content) {
        Ok(doc) => account_from_document(&doc, path),
        Err(e) => Err(e),
    }
}

/// The expiry time of credentials issued at `now` that last `expires_in`
/// seconds; it stops at the ends of the representable range.
pub open spec fn expiry_after(now: i64, expires_in: i64) -> i64 {
    if now + expires_in > i64::MAX {
        i64::MAX
    } else if now + expires_in < i64::MIN {
        i64::MIN
    } else {
        (now + expires_in) as i64
    }
}

/// Computes `expiry_after`.
pub fn expiry_time(now: i64, expires_in: i64) -> (r: i64)
    ensures
        r == expiry_after(now, expires_in),
{
    let sum: i128 = now as i128 + expires_in as i128;
    if sum > i64::MAX as i128 {
        i64::MAX
    } else if sum < i64::MIN as i128 {
        i64::MIN
    } else {
        sum as i64
    }
}

/// `after` holds the members of `before`, except that each key of
/// `changed` now holds a value with the content given there.
pub open spec fn members_updated(
    before: Map<Seq<char>, Value>,
    after: Map<Seq<char>, Value>,
    changed: Map<Seq<char>, JsonContent>,
) -> bool {
    &&& after.dom() == before.dom().union(changed.dom())
    &&& forall|k: Seq<char>| #[trigger]
        changed.contains_key(k) ==> json_content(after[k]) == changed[k]
    &&& forall|k: Seq<char>|
        #[trigger] before.contains_key(k) && !changed.contains_key(k) ==> after[k] == before[k]
}

/// The members of the `token` member, where there is one.
pub open spec fn token_members(doc: Value) -> Map<Seq<char>, Value> {
    match member(doc, "token"@) {
        Some(t) => members_of(t),
        None => Map::empty(),
    }
}

/// The document's `token` member can be given members: the document is an
/// object or null, and so is its `token` member where it has one.
pub open spec fn token_settable(doc: Value) -> bool {
    &&& takes_members(doc)
    &&& match member(doc, "token"@) {
        Some(t) => takes_members(t),
        None => true,
    }
}

/// `after` is `before` with the members of its `token` member updated as
/// `changed` says, and nothing else changed.
pub open spec fn token_updated(before: Value, after: Value, changed: Map<Seq<char>, JsonContent>) -> bool {
    &&& json_content(after) is Object
    &&& members_of(after).dom() == members_of(before).dom().insert("token"@)
    &&& forall|k: Seq<char>|
        #[trigger] members_of(before).contains_key(k) && k != "token"@ ==> members_of(after)[k]
            == members_of(before)[k]
    &&& json_content(members_of(after)["token"@]) is Object
    &&& members_updated(token_members(before), members_of(members_of(after)["token"@]), changed)
}

/// `after` is `before` with its own members updated as `changed` says.
pub open spec fn root_updated(before: Value, after: Value, changed: Map<Seq<char>, JsonContent>) -> bool {
    &&& json_content(after) is Object
    &&& members_updated(members_of(before), members_of(after), changed)
}

/// The members that a refresh writes under `token`.
pub open spec fn refresh_changes(access_token: Seq<char>, expires_in: i64, now: i64) -> Map<
    Seq<char>,
    JsonContent,
> {
    Map::<Seq<char>, JsonContent>::empty().insert(
        "access_token"@,
        JsonContent::Text(access_token),
    ).insert("expires_in"@, JsonContent::Integer(expires_in)).insert(
        "expiry_timestamp"@,
        JsonContent::Integer(expiry_after(now, expires_in)),
    )
}

/// The member that resolving the project writes under `token`.
pub open spec fn project_changes(project_id: Seq<char>) -> Map<Seq<char>, JsonContent> {
    Map::<Seq<char>, JsonContent>::empty().insert("project_id"@, JsonContent::Text(project_id))
}

/// The members that disabling writes into the document.
pub open spec fn disable_changes(reason: Seq<char>, now: i64) -> Map<Seq<char>, JsonContent> {
    Map::<Seq<char>, JsonContent>::empty().insert("disabled"@, JsonContent::Bool(true)).insert(
        "disabled_at"@,
        JsonContent::Integer(now),
    ).insert(
        "disabled_reason"@,
        JsonContent::Text(truncated(reason, MAX_REASON_CHARS as nat)),
    )
}

proof fn lemma_key_texts()
    ensures
        "access_token"@ != "expires_in"@,
        "access_token"@ != "expiry_timestamp"@,
        "expires_in"@ != "expiry_timestamp"@,
        "disabled"@ != "disabled_at"@,
        "disabled"@ != "disabled_reason"@,
        "disabled_at"@ != "disabled_reason"@,
{
    reveal_strlit("access_token");
    reveal_strlit("expires_in");
    reveal_strlit("expiry_timestamp");
    reveal_strlit("disabled");
    reveal_strlit("disabled_at");
    reveal_strlit("disabled_reason");
    assert("access_token"@.len() != "expires_in"@.len());
    assert("access_token"@.len() != "expiry_timestamp"@.len());
    assert("expires_in"@.len() != "expiry_timestamp"@.len());
    assert("disabled"@.len() != "disabled_at"@.len());
    assert("disabled"@.len() != "disabled_reason"@.len());
    assert("disabled_at"@.len() != "disabled_reason"@.len());
}

fn take_token(doc: &Value) -> (t: Value)
    requires
        token_settable(*doc),
    ensures
        takes_members(t),
        members_of(t) == token_members(*doc),
{
    match json_get(doc, "token") {
        Some(t) => json_clone(t),
        None => json_null(),
    }
}

/// Writes refreshed credentials into an account document: the access
/// token, its lifetime and its expiry time, under `token`.
pub fn set_refreshed(doc: &mut Value, access_token: &str, expires_in: i64, now: i64)
    requires
        token_settable(*old(doc)),
    ensures
        token_updated(*old(doc), *final(doc), refresh_changes(access_token@, expires_in, now)),
{
    let ghost before = *doc;
    let mut token = take_token(doc);
    json_set(&mut token, "access_token", json_string(access_token));
    json_set(&mut token, "expires_in", json_number(expires_in));
    json_set(&mut token, "expiry_timestamp", json_number(expiry_time(now, expires_in)));
    json_set(doc, "token", token);
    proof {
        lemma_key_texts();
        let changed = refresh_changes(access_token@, expires_in, now);
        let inner = members_of(members_of(*doc)["token"@]);
        assert(inner.dom() =~= token_members(before).dom().union(changed.dom()));
        assert(members_of(*doc).dom() =~= members_of(before).dom().insert("token"@));
    }
}

/// Writes a resolved project id into an account document, under `token`.
pub fn set_project_id(doc: &mut Value, project_id: &str)
    requires
        token_settable(*old(doc)),
    ensures
        token_updated(*old(doc), *final(doc), project_changes(project_id@)),
{
    let ghost before = *doc;
    let mut token = take_token(doc);
    json_set(&mut token, "project_id", json_string(project_id));
    json_set(doc, "token", token);
    proof {
        let changed = project_changes(project_id@);
        let inner = members_of(members_of(*doc)["token"@]);
        assert(inner.dom() =~= token_members(before).dom().union(changed.dom()));
        assert(members_of(*doc).dom() =~= members_of(before).dom().insert("token"@));
    }
}

/// Marks an account document as disabled at `now`, with the reason cut to
/// `MAX_REASON_CHARS` characters.
pub fn set_disabled(doc: &mut Value, reason: &str, now: i64)
    requires
        takes_members(*old(doc)),
    ensures
        root_updated(*old(doc), *final(doc), disable_changes(reason@, now)),
{
    let ghost before = *doc;
    json_set(doc, "disabled", json_boolean(true));
    json_set(doc, "disabled_at", json_number(now));
    let short = truncate_string(reason, MAX_REASON_CHARS);
    json_set(doc, "disabled_reason", json_string(short.as_str()));
    proof {
        lemma_key_texts();
        let changed = disable_changes(reason@, now);
        assert(members_of(*doc).dom() =~= members_of(before).dom().union(changed.dom()));
    }
}

/// Whether `token_settable` holds of the document.
pub fn is_token_settable(doc: &Value) -> (r: bool)
    ensures
        r == token_settable(*doc),
{
    if !(json_is_object(doc) || json_is_null(doc)) {
        return false;
    }
    match json_get(doc, "token") {
        Some(t) => json_is_object(t) || json_is_null(t),
        None => true,
    }
}

/// What a rewrite of an account file yields for a text: a parse error, a
/// refusal where the document cannot take the members, or the text of a
/// document for which `updated` holds (or a serialisation error for it).
pub open spec fn rewrite_result(
    content: Seq<char>,
    settable: spec_fn(Value) -> bool,
    updated: spec_fn(Value, Value) -> bool,
    r: Result<String, String>,
) -> bool {
    match json_parsed(content) {
        None => r matches Err(e) && starts_with(e@, "Failed to parse JSON: "@),
        Some(doc) => if !settable(doc) {
            r matches Err(e) && e@ == "Account file is not a JSON object"@
        } else {
            exists|after: Value| #[trigger]
                updated(doc, after) && match r {
                    Ok(text) => json_pretty(after) == Some(text@),
                    Err(e) => json_pretty(after) is None && starts_with(
                        e@,
                        "Failed to serialize JSON: "@,
                    ),
                }
        },
    }
}

/// The text of an account file after a refresh: the three refreshed
/// members are overwritten under `token`, everything else is kept.
pub fn refreshed_account_text(content: &str, access_token: &str, expires_in: i64, now: i64) -> (r:
    Result<String, String>)
    ensures
        rewrite_result(
            content@,
            |d: Value| token_settable(d),
            |d: Value, a: Value| token_updated(d, a, refresh_changes(access_token@, expires_in, now)),
            r,
        ),
{
    let mut doc = match parse_document(content) {
        Ok(doc) => doc,
        Err(e) => {
            return Err(e);
        },
    };
    if !is_token_settable(&doc) {
        return Err(String::from_str("Account file is not a JSON object"));
    }
    let ghost before = doc;
    set_refreshed(&mut doc, access_token, expires_in, now);
    let r = write_document(&doc);
    proof {
        let updated = |d: Value, a: Value|
            token_updated(d, a, refresh_changes(access_token@, expires_in, now));
        assert(updated(before, doc));
    }
    r
}

/// The text of an account file after its project id was resolved.
pub fn project_account_text(content: &str, project_id: &str) -> (r: Result<String, String>)
    ensures
        rewrite_result(
            content@,
            |d: Value| token_settable(d),
            |d: Value, a: Value| token_updated(d, a, project_changes(project_id@)),
            r,
        ),
{
    let mut doc = match parse_document(content) {
        Ok(doc) => doc,
        Err(e) => {
            return Err(e);
        },
    };
    if !is_token_settable(&doc) {
        return Err(String::from_str("Account file is not a JSON object"));
    }
    let ghost before = doc;
    set_project_id(&mut doc, project_id);
    let r = write_document(&doc);
    proof {
        let updated = |d: Value, a: Value| token_updated(d, a, project_changes(project_id@));
        assert(updated(before, doc));
    }
    r
}

/// The text of an account file after the account was disabled at `now`.
pub fn disabled_account_text(content: &str, reason: &str, now: i64) -> (r: Result<String, String>)
    ensures
        rewrite_result(
            content@,
            |d: Value| takes_members(d),
            |d: Value, a: Value| root_updated(d, a, disable_changes(reason@, now)),
            r,
        ),
{
    let mut doc = match parse_document(content) {
        Ok(doc) => doc,
        Err(e) => {
            return Err(e);
        },
    };
    if !(json_is_object(&doc) || json_is_null(&doc)) {
        return Err(String::from_str("Account file is not a JSON object"));
    }
    let ghost before = doc;
    set_disabled(&mut doc, reason, now);
    let r = write_document(&doc);
    proof {
        let updated = |d: Value, a: Value| root_updated(d, a, disable_changes(reason@, now));
        assert(updated(before, doc));
    }
    r
}

proof fn lemma_member_names()
    ensures
        "token"@ != "id"@,
        "token"@ != "email"@,
        "token"@ != "disabled"@,
        "token"@ != "proxy_disabled"@,
        "token"@ != "quota"@,
        "project_id"@ != "access_token"@,
        "project_id"@ != "refresh_token"@,
        "project_id"@ != "expires_in"@,
        "project_id"@ != "expiry_timestamp"@,
        "refresh_token"@ != "access_token"@,
        "refresh_token"@ != "expires_in"@,
        "refresh_token"@ != "expiry_timestamp"@,
{
    reveal_strlit("token");
    reveal_strlit("id");
    reveal_strlit("email");
    reveal_strlit("disabled");
    reveal_strlit("proxy_disabled");
    reveal_strlit("quota");
    reveal_strlit("project_id");
    reveal_strlit("access_token");
    reveal_strlit("refresh_token");
    reveal_strlit("expires_in");
    reveal_strlit("expiry_timestamp");
    assert("token"@[0] != "id"@[0]);
    assert("token"@[0] != "email"@[0]);
    assert("token"@[0] != "disabled"@[0]);
    assert("token"@[0] != "proxy_disabled"@[0]);
    assert("token"@[0] != "quota"@[0]);
    assert("project_id"@[0] != "access_token"@[0]);
    assert("project_id"@[0] != "refresh_token"@[0]);
    assert("project_id"@[0] != "expires_in"@[0]);
    assert("project_id"@[0] != "expiry_timestamp"@[0]);
    assert("refresh_token"@[0] != "access_token"@[0]);
    assert("refresh_token"@[0] != "expires_in"@[0]);
    assert("refresh_token"@[0] != "expiry_timestamp"@[0]);
}

proof fn lemma_token_update_keeps_root(
    before: Value,
    after: Value,
    changed: Map<Seq<char>, JsonContent>,
    key: Seq<char>,
)
    requires
        token_updated(before, after, changed),
        key != "token"@,
    ensures
        member(after, key) == member(before, key),
{
    if members_of(before).contains_key(key) {
        assert(members_of(after).dom().contains(key));
    } else {
        assert(!members_of(before).dom().insert("token"@).contains(key));
    }
}

proof fn lemma_token_update_keeps_inner(
    before: Value,
    after: Value,
    changed: Map<Seq<char>, JsonContent>,
    key: Seq<char>,
)
    requires
        token_updated(before, after, changed),
        !changed.contains_key(key),
    ensures
        member(members_of(after)["token"@], key) == (match member(before, "token"@) {
            Some(t) => member(t, key),
            None => None,
        }),
{
    let inner = members_of(members_of(after)["token"@]);
    let old_inner = token_members(before);
    if old_inner.contains_key(key) {
        assert(old_inner.dom().union(changed.dom()).contains(key));
    } else {
        assert(!old_inner.dom().union(changed.dom()).contains(key));
    }
}

/// Reading an account back after its credentials were refreshed yields the
/// record it yielded before, with the access token, its lifetime and its
/// expiry time replaced and every other field as it was.
pub proof fn refresh_keeps_other_fields(
    before: Value,
    after: Value,
    path: Seq<char>,
    access_token: Seq<char>,
    expires_in: i64,
    now: i64,
)
    requires
        token_updated(before, after, refresh_changes(access_token, expires_in, now)),
        account_in(before, path) matches Ok(Some(_)),
    ensures
        account_in(after, path) == Ok::<Option<TokenModel>, Seq<char>>(
            Some(
                TokenModel {
                    access_token: access_token,
                    expires_in: expires_in,
                    timestamp: expiry_after(now, expires_in),
                    ..account_in(before, path)->Ok_0->0
                },
            ),
        ),
{
    lemma_member_names();
    lemma_key_texts();
    let changed = refresh_changes(access_token, expires_in, now);
    lemma_token_update_keeps_root(before, after, changed, "id"@);
    lemma_token_update_keeps_root(before, after, changed, "email"@);
    lemma_token_update_keeps_root(before, after, changed, "disabled"@);
    lemma_token_update_keeps_root(before, after, changed, "proxy_disabled"@);
    lemma_token_update_keeps_root(before, after, changed, "quota"@);
    lemma_token_update_keeps_inner(before, after, changed, "refresh_token"@);
    lemma_token_update_keeps_inner(before, after, changed, "project_id"@);
    let t = members_of(after)["token"@];
    assert(members_of(after).dom().contains("token"@));
    assert(member(after, "token"@) == Some(t));
    assert(changed.contains_key("access_token"@));
    assert(changed.contains_key("expires_in"@));
    assert(changed.contains_key("expiry_timestamp"@));
    assert(members_of(t).dom().contains("access_token"@));
    assert(members_of(t).dom().contains("expires_in"@));
    assert(members_of(t).dom().contains("expiry_timestamp"@));
}

/// Reading an account back after its project id was written yields the
/// record it yielded before, with that project id.
pub proof fn project_keeps_other_fields(
    before: Value,
    after: Value,
    path: Seq<char>,
    project_id: Seq<char>,
)
    requires
        token_updated(before, after, project_changes(project_id)),
        account_in(before, path) matches Ok(Some(_)),
    ensures
        account_in(after, path) == Ok::<Option<TokenModel>, Seq<char>>(
            Some(TokenModel { project_id: Some(project_id), ..account_in(before, path)->Ok_0->0 }),
        ),
{
    lemma_member_names();
    lemma_key_texts();
    let changed = project_changes(project_id);
    lemma_token_update_keeps_root(before, after, changed, "id"@);
    lemma_token_update_keeps_root(before, after, changed, "email"@);
    lemma_token_update_keeps_root(before, after, changed, "disabled"@);
    lemma_token_update_keeps_root(before, after, changed, "proxy_disabled"@);
    lemma_token_update_keeps_root(before, after, changed, "quota"@);
    lemma_token_update_keeps_inner(before, after, changed, "refresh_token"@);
    lemma_token_update_keeps_inner(before, after, changed, "access_token"@);
    lemma_token_update_keeps_inner(before, after, changed, "expires_in"@);
    lemma_token_update_keeps_inner(before, after, changed, "expiry_timestamp"@);
    let t = members_of(after)["token"@];
    assert(members_of(after).dom().contains("token"@));
    assert(member(after, "token"@) == Some(t));
    assert(changed.contains_key("project_id"@));
    assert(members_of(t).dom().contains("project_id"@));
}

/// A disabled account document yields no record.
pub proof fn disabled_account_is_skipped(
    before: Value,
    after: Value,
    path: Seq<char>,
    reason: Seq<char>,
    now: i64,
)
    requires
        root_updated(before, after, disable_changes(reason, now)),
    ensures
        account_in(after, path) == Ok::<Option<TokenModel>, Seq<char>>(None),
        int_member(after, "disabled_at"@) == Some(now),
        text_member(after, "disabled_reason"@) == Some(truncated(reason, MAX_REASON_CHARS as nat)),
{
    lemma_key_texts();
    let changed = disable_changes(reason, now);
    assert(changed.contains_key("disabled"@));
    assert(changed.contains_key("disabled_at"@));
    assert(changed.contains_key("disabled_reason"@));
    assert(members_of(after).dom().contains("disabled"@));
    assert(members_of(after).dom().contains("disabled_at"@));
    assert(members_of(after).dom().contains("disabled_reason"@));
}

} // verus!
