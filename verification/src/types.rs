//! Credentials of one account and the two predicates derived from them.

use vstd::prelude::*;
use crate::clock::epoch_seconds;
use crate::text::same_text;

verus! {

/// Seconds before the recorded expiry at which a token already counts as expired.
pub const EXPIRY_MARGIN_SECONDS: i64 = 300;

/// Priority of a tier that is missing or not one of the known names.
pub const UNKNOWN_TIER_PRIORITY: u8 = 3;

/// One account's credentials and metadata.
#[derive(Debug)]
pub struct ProxyToken {
    pub account_id: String,
    pub access_token: String,
    pub refresh_token: String,
    pub expires_in: i64,
    pub timestamp: i64,
    pub email: String,
    pub account_path: String,
    pub project_id: Option<String>,
    pub subscription_tier: Option<String>,
}

/// What a `ProxyToken` holds, as mathematical values.
pub struct TokenModel {
    pub account_id: Seq<char>,
    pub access_token: Seq<char>,
    pub refresh_token: Seq<char>,
    pub expires_in: i64,
    pub timestamp: i64,
    pub email: Seq<char>,
    pub account_path: Seq<char>,
    pub project_id: Option<Seq<char>>,
    pub subscription_tier: Option<Seq<char>>,
}

/// The credentials handed to the caller for one request.
#[derive(Debug)]
pub struct SelectedToken {
    pub access_token: String,
    pub project_id: String,
    pub email: String,
    pub account_id: String,
}

/// View of an optional string.
pub open spec fn opt_text(s: Option<String>) -> Option<Seq<char>> {
    match s {
        Some(t) => Some(t@),
        None => None,
    }
}

/// The models of a sequence of tokens.
pub open spec fn models(tokens: Seq<ProxyToken>) -> Seq<TokenModel> {
    Seq::new(tokens.len(), |i: int| tokens[i]@)
}

/// Priority of a tier name: `ULTRA` before `PRO` before `FREE` before anything else.
pub open spec fn tier_rank(tier: Option<Seq<char>>) -> u8 {
    match tier {
        Some(t) => if t == "ULTRA"@ {
            0
        } else if t == "PRO"@ {
            1
        } else if t == "FREE"@ {
            2
        } else {
            UNKNOWN_TIER_PRIORITY
        },
        None => UNKNOWN_TIER_PRIORITY,
    }
}

/// Whether a token whose access token expires at `timestamp` counts as expired at `now`.
pub open spec fn expired_at(timestamp: i64, now: i64) -> bool {
    now >= timestamp - EXPIRY_MARGIN_SECONDS
}

impl View for ProxyToken {
    type V = TokenModel;

    open spec fn view(&self) -> TokenModel {
        TokenModel {
            account_id: self.account_id@,
            access_token: self.access_token@,
            refresh_token: self.refresh_token@,
            expires_in: self.expires_in,
            timestamp: self.timestamp,
            email: self.email@,
            account_path: self.account_path@,
            project_id: opt_text(self.project_id),
            subscription_tier: opt_text(self.subscription_tier),
        }
    }
}

/// A copy of an optional string.
pub fn copy_opt_text(s: &Option<String>) -> (r: Option<String>)
    ensures
        r == *s,
{
    match s {
        Some(t) => Some(t.clone()),
        None => None,
    }
}

impl Clone for ProxyToken {
    fn clone(&self) -> (r: Self)
        ensures
            r == *self,
    {
        ProxyToken {
            account_id: self.account_id.clone(),
            access_token: self.access_token.clone(),
            refresh_token: self.refresh_token.clone(),
            expires_in: self.expires_in,
            timestamp: self.timestamp,
            email: self.email.clone(),
            account_path: self.account_path.clone(),
            project_id: copy_opt_text(&self.project_id),
            subscription_tier: copy_opt_text(&self.subscription_tier),
        }
    }
}

impl Clone for SelectedToken {
    fn clone(&self) -> (r: Self)
        ensures
            r == *self,
    {
        SelectedToken {
            access_token: self.access_token.clone(),
            project_id: self.project_id.clone(),
            email: self.email.clone(),
            account_id: self.account_id.clone(),
        }
    }
}

impl ProxyToken {
    /// Whether the token counts as expired at `now` (epoch seconds): the
    /// access token is treated as expired from five minutes before its
    /// recorded expiry on.
    pub fn is_expired_at(&self, now: i64) -> (r: bool)
        ensures
            r == expired_at(self.timestamp, now),
    {
        if self.timestamp < i64::MIN + EXPIRY_MARGIN_SECONDS {
            true
        } else {
            now >= self.timestamp - EXPIRY_MARGIN_SECONDS
        }
    }

    /// Whether the token counts as expired by the system clock.
    pub fn is_expired(&self) -> (r: bool)
        ensures
            exists|now: i64| r == expired_at(self.timestamp, now),
    {
        let now = epoch_seconds();
        self.is_expired_at(now)
    }

    /// Subscription tier priority; lower is better.
    pub fn tier_priority(&self) -> (p: u8)
        ensures
            p == tier_rank(self@.subscription_tier),
            p <= UNKNOWN_TIER_PRIORITY,
    {
        match &self.subscription_tier {
            Some(t) => {
                if same_text(t.as_str(), "ULTRA") {
                    0
                } else if same_text(t.as_str(), "PRO") {
                    1
                } else if same_text(t.as_str(), "FREE") {
                    2
                } else {
                    UNKNOWN_TIER_PRIORITY
                }
            },
            None => UNKNOWN_TIER_PRIORITY,
        }
    }
}

} // verus!
