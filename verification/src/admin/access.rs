//! Who may use the proxy and the admin interface.
use vstd::prelude::*;

use crate::admin::session::{is_time, is_valid, prolonged, renewed_expiry, AdminSession, SessionRow};
use crate::backoff::opt_str;
use crate::text::{same, strip_prefix, without_prefix};

verus! {

/// An `authorization` header carries this secret as a bearer token.
pub open spec fn bears(authorization: Option<Seq<char>>, secret: Seq<char>) -> bool {
    match authorization {
        Some(v) => without_prefix(v, "Bearer "@) == Some(secret),
        None => false,
    }
}

/// Whether an `authorization` header carries this secret as a bearer token.
pub fn bearer_ok(authorization: Option<&str>, secret: &str) -> (r: bool)
    ensures
        r == bears(opt_str(authorization), secret@),
{
    match authorization {
        Some(v) => match strip_prefix(v, "Bearer ") {
            Some(token) => same(token.as_str(), secret),
            None => false,
        },
        None => false,
    }
}

/// Whether a request to the proxy is let in: with the secret, or without one
/// where none is asked for.
pub fn proxy_allowed(require_secret: bool, authorization: Option<&str>, secret: &str) -> (r: bool)
    ensures
        r == (!require_secret || bears(opt_str(authorization), secret@)),
{
    !require_secret || bearer_ok(authorization, secret)
}

/// How a request to the admin interface is let in.
pub enum Admission {
    /// With a session, which may be prolonged to a later end.
    Session { session: AdminSession, renewed: Option<i64> },
    /// With the secret.
    Secret,
    Refused,
}

/// A stored session that still holds.
pub open spec fn holds(row: Option<SessionRow>, now: i64) -> bool {
    row matches Some(r) && r.expires_at > now
}

/// How a request to the admin interface is let in, by the session that is
/// stored under its cookie, or by its `authorization` header.
pub fn let_in(
    row: Option<SessionRow>,
    authorization: Option<&str>,
    secret: &str,
    now: i64,
) -> (r: Admission)
    requires
        is_time(now),
        row matches Some(s) ==> is_time(s.created_at),
    ensures
        match r {
            Admission::Session { session, renewed } => holds(row, now) && session.token_hash
                == row->Some_0.token_hash && (match renewed {
                Some(t) => prolonged(now, row->Some_0.created_at, row->Some_0.expires_at) == Some(
                    t as int,
                ),
                None => prolonged(now, row->Some_0.created_at, row->Some_0.expires_at) is None,
            }),
            Admission::Secret => !holds(row, now) && bears(opt_str(authorization), secret@),
            Admission::Refused => !holds(row, now) && !bears(opt_str(authorization), secret@),
        },
{
    match row {
        Some(s) => {
            if is_valid(&s, now) {
                let renewed = renewed_expiry(now, s.created_at, s.expires_at);
                return Admission::Session {
                    session: AdminSession { token_hash: s.token_hash },
                    renewed,
                };
            }
        },
        None => {},
    }
    if bearer_ok(authorization, secret) {
        Admission::Secret
    } else {
        Admission::Refused
    }
}

} // verus!
