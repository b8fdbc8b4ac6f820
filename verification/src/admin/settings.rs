//! The settings that the admin interface shows and changes.
use vstd::prelude::*;

use crate::config::{AuthModeOrigin, SecretOrigin};
use crate::error::{AppError, AppErrorView};
use crate::text::{concat2, last_chars, owned, tail, trim, trimmed};

verus! {

/// A secret with all but its end hidden.
pub open spec fn masked(secret: Seq<char>) -> Seq<char> {
    "***"@ + tail(secret, 4)
}

/// A secret with all but its end hidden.
pub fn mask_secret(secret: &str) -> (r: String)
    ensures
        r@ == masked(secret@),
{
    concat2("***", last_chars(secret, 4).as_str())
}

/// What the admin interface is told of the shared secret.
#[derive(Debug)]
pub struct SharedSecretResponse {
    pub shared_secret: String,
    pub masked: bool,
    pub origin: SecretOrigin,
}

pub fn shared_secret_response(secret: &str, reveal: bool, origin: SecretOrigin) -> (r:
    SharedSecretResponse)
    ensures
        r.shared_secret@ == if reveal {
            secret@
        } else {
            masked(secret@)
        },
        r.masked == !reveal,
        r.origin == origin,
{
    SharedSecretResponse {
        shared_secret: if reveal {
            owned(secret)
        } else {
            mask_secret(secret)
        },
        masked: !reveal,
        origin,
    }
}

/// The shared secret that a request to change it asks for. One that the
/// environment gives cannot be changed, and a blank one is none.
pub fn changed_secret(origin: SecretOrigin, asked: &str) -> (r: Result<String, AppError>)
    ensures
        match r {
            Ok(s) => origin != SecretOrigin::Env && s@ == trimmed(asked@) && s@.len() > 0,
            Err(e) => if origin == SecretOrigin::Env {
                e@ == AppErrorView::Conflict(
                    "ROUTER_SHARED_SECRET is set; change or unset the environment variable instead"@,
                )
            } else {
                trimmed(asked@).len() == 0 && e@ == AppErrorView::BadRequest(
                    "shared_secret must not be empty"@,
                )
            },
        },
{
    if origin == SecretOrigin::Env {
        return Err(
            AppError::Conflict(
                owned(
                    "ROUTER_SHARED_SECRET is set; change or unset the environment variable instead",
                ),
            ),
        );
    }
    let secret = trim(asked);
    if secret.as_str().is_empty() {
        return Err(AppError::BadRequest(owned("shared_secret must not be empty")));
    }
    Ok(secret)
}

/// Whether the access mode may be changed: not where the environment gives it.
pub fn may_change_auth_mode(origin: AuthModeOrigin) -> (r: Result<(), AppError>)
    ensures
        match r {
            Ok(_) => origin != AuthModeOrigin::Env,
            Err(e) => origin == AuthModeOrigin::Env && e@ == AppErrorView::Conflict(
                "ROUTER_REQUIRE_SHARED_SECRET is set; change or unset the environment variable instead"@,
            ),
        },
{
    if origin == AuthModeOrigin::Env {
        return Err(
            AppError::Conflict(
                owned(
                    "ROUTER_REQUIRE_SHARED_SECRET is set; change or unset the environment variable instead",
                ),
            ),
        );
    }
    Ok(())
}

/// Hiding a secret shows at most its last four characters: secrets that end
/// alike look alike.
pub proof fn law_mask_shows_only_the_end(a: Seq<char>, b: Seq<char>)
    requires
        tail(a, 4) == tail(b, 4),
    ensures
        masked(a) == masked(b),
        masked(a).len() <= 7,
{
    reveal_strlit("***");
}

} // verus!
