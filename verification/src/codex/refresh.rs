//! When Codex credentials are renewed, and what they are then. Times are
//! microseconds since 1970.
use vstd::prelude::*;

use crate::admin::session::is_time;
use crate::codex::oauth::TokenSet;
use crate::error::{AppError, AppErrorView};
use crate::model::{copy_text, text_view, Credentials, CredentialsView, OAuthState, ProviderKind};
use crate::text::{owned, same};

verus! {

/// How long before their end credentials are renewed: five minutes.
pub const REFRESH_LEAD: i64 = 300_000_000;

/// Credentials are due to be renewed: they end within five minutes, or nobody
/// knows when.
pub open spec fn due(expires_at: Option<i64>, now: i64) -> bool {
    match expires_at {
        Some(t) => t - now <= REFRESH_LEAD,
        None => true,
    }
}

/// Whether credentials are due to be renewed.
pub fn needs_refresh(creds: &Credentials, now: i64) -> (r: bool)
    ensures
        r == due(creds@.access_expires_at, now),
{
    match creds.access_expires_at {
        Some(t) => (t as i128) - (now as i128) <= REFRESH_LEAD as i128,
        None => true,
    }
}

/// A time to live that can be counted from any time that `chrono` can hold.
pub open spec fn countable(secs: Option<i64>) -> bool {
    match secs {
        Some(s) => -800_000_000_000 <= s <= 800_000_000_000,
        None => true,
    }
}

/// Whether a time to live can be counted.
pub fn is_countable(secs: Option<i64>) -> (r: bool)
    ensures
        r == countable(secs),
{
    match secs {
        Some(s) => -800_000_000_000 <= s && s <= 800_000_000_000,
        None => true,
    }
}

/// When something ends that lives so many seconds from now.
pub open spec fn ends_at(secs: Option<i64>, now: i64) -> Option<i64> {
    match secs {
        Some(s) => Some((now + s * 1_000_000) as i64),
        None => None,
    }
}

/// When something ends that lives so many seconds from now.
pub fn expiry(secs: Option<i64>, now: i64) -> (r: Option<i64>)
    requires
        is_time(now),
        countable(secs),
    ensures
        r == ends_at(secs, now),
        secs matches Some(s) ==> r matches Some(t) && t == now + s * 1_000_000,
{
    match secs {
        Some(s) => Some(now + s * 1_000_000),
        None => None,
    }
}

/// Renewed credentials: what the reply does not give anew is kept.
pub open spec fn renewed(c: CredentialsView, t: TokenSet, now: i64) -> CredentialsView {
    CredentialsView {
        api_key: None,
        access_token: Some(t.access_token@),
        refresh_token: match t.refresh_token {
            Some(s) => Some(s@),
            None => c.refresh_token,
        },
        id_token: match t.id_token {
            Some(s) => Some(s@),
            None => c.id_token,
        },
        access_expires_at: ends_at(t.expires_in, now),
        provider_data: c.provider_data,
    }
}

/// Renewed credentials.
pub fn refreshed_credentials(creds: &Credentials, tokens: TokenSet, now: i64) -> (r: Credentials)
    requires
        is_time(now),
        countable(tokens.expires_in),
    ensures
        r@ == renewed(creds@, tokens, now),
{
    Credentials {
        api_key: None,
        access_token: Some(tokens.access_token),
        refresh_token: match tokens.refresh_token {
            Some(s) => Some(s),
            None => copy_text(&creds.refresh_token),
        },
        id_token: match tokens.id_token {
            Some(s) => Some(s),
            None => copy_text(&creds.id_token),
        },
        access_expires_at: expiry(tokens.expires_in, now),
        provider_data: creds.provider_data.copy(),
    }
}

/// Somebody else renewed the credentials in the meantime: those that are stored
/// differ from those at hand.
pub open spec fn superseded(stored: Option<Seq<char>>, at_hand: Option<Seq<char>>) -> bool {
    stored is Some && stored != at_hand
}

/// Whether somebody else renewed the credentials in the meantime. A refresh
/// token can be spent once, so theirs must then be used.
pub fn already_refreshed(stored: &Option<String>, at_hand: &Option<String>) -> (r: bool)
    ensures
        r == superseded(text_view(*stored), text_view(*at_hand)),
{
    match stored {
        Some(s) => match at_hand {
            Some(a) => !same(s.as_str(), a.as_str()),
            None => true,
        },
        None => false,
    }
}

/// Whether the background task renews the credentials of a provider: only
/// Codex logins, once they are due.
pub fn refresh_due(kind: ProviderKind, creds: &Credentials, now: i64) -> (r: bool)
    ensures
        r == (kind == ProviderKind::OauthCodex && due(creds@.access_expires_at, now)),
{
    kind == ProviderKind::OauthCodex && needs_refresh(creds, now)
}

/// Waiters that come after a renewal use what it stored: whoever still holds
/// the old access token sees that it was superseded, and whoever holds the new
/// one does not.
pub proof fn law_one_refresh_is_enough(c: CredentialsView, t: TokenSet, now: i64)
    requires
        c.access_token != Some(t.access_token@),
    ensures
        superseded(renewed(c, t, now).access_token, c.access_token),
        !superseded(renewed(c, t, now).access_token, renewed(c, t, now).access_token),
{
}

/// Renewing loses nothing: the refresh token, the id token and what is known
/// of the account stay unless the reply brings new ones.
pub proof fn law_refresh_keeps_the_login(c: CredentialsView, t: TokenSet, now: i64)
    ensures
        c.refresh_token is Some ==> renewed(c, t, now).refresh_token is Some,
        renewed(c, t, now).provider_data == c.provider_data,
        t.id_token is None ==> renewed(c, t, now).id_token == c.id_token,
{
}

// ---------------------------------------------------------------------------
// Completing a login
// ---------------------------------------------------------------------------

/// Why a login cannot be completed, given what is stored of it; otherwise its
/// verifier.
pub fn login_verifier(stored: Option<OAuthState>, state: &str) -> (r: Result<String, AppError>)
    ensures
        match stored {
            None => r matches Err(e) && e@ == AppErrorView::BadRequest(
                "no oauth flow in progress; call start first"@,
            ),
            Some(o) => match (o.pkce_verifier, o.oauth_state) {
                (None, _) => r matches Err(e) && e@ == AppErrorView::BadRequest(
                    "missing pkce verifier"@,
                ),
                (Some(_), None) => r matches Err(e) && e@ == AppErrorView::BadRequest(
                    "missing oauth state; call start first"@,
                ),
                (Some(v), Some(s)) => if s@ == state@ {
                    r matches Ok(t) && t == v
                } else {
                    r matches Err(e) && e@ == AppErrorView::BadRequest("state mismatch"@)
                },
            },
        },
{
    match stored {
        None => Err(
            AppError::BadRequest(owned("no oauth flow in progress; call start first")),
        ),
        Some(o) => match o.pkce_verifier {
            None => Err(AppError::BadRequest(owned("missing pkce verifier"))),
            Some(v) => match o.oauth_state {
                None => Err(AppError::BadRequest(owned("missing oauth state; call start first"))),
                Some(s) => if same(s.as_str(), state) {
                    Ok(v)
                } else {
                    Err(AppError::BadRequest(owned("state mismatch")))
                },
            },
        },
    }
}

} // verus!
