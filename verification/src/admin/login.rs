//! Logging in to the admin interface, and changing its password.
use vstd::prelude::*;

use crate::admin::password::{
    accepts, hash_failure, hash_password, hashable, verify_password,
};
use crate::admin::rate_limit::{
    attempts_in, clean, is_locked_out, record_failure, record_success, AttemptState, LoginAttempts,
};
use crate::error::{AppError, AppErrorView};
use crate::flow::clock_ok;
use crate::json::{obj, text, Json};
use crate::text::{owned, same, trim, trimmed};

verus! {

/// The stored admin: name and password hash.
pub struct AdminUser {
    pub username: String,
    pub password_hash: String,
}

/// How an attempt to log in is answered.
#[derive(Clone, Copy, Debug, PartialEq, Eq, Structural)]
pub enum LoginVerdict {
    /// A session begins.
    Welcome,
    /// The name or the password is wrong.
    Rejected,
    /// Too many attempts failed.
    LockedOut,
}

/// The name and the password are those of the admin.
pub open spec fn credentials_match(user: Option<AdminUser>, name: Seq<char>, plain: Seq<char>) -> bool {
    match user {
        Some(u) => u.username@ == name && accepts(u.password_hash@, plain),
        None => false,
    }
}

/// Whether the name and the password are those of the admin.
pub fn matches_user(user: &Option<AdminUser>, username: &str, password: &str) -> (r: bool)
    ensures
        r == credentials_match(*user, username@, password@),
{
    match user {
        Some(u) => same(u.username.as_str(), username) && verify_password(
            u.password_hash.as_str(),
            password,
        ),
        None => false,
    }
}

/// How an attempt is answered, given whether name and password are right.
pub open spec fn verdict(s: AttemptState, right: bool, now: u64) -> LoginVerdict {
    if s.locked(now) {
        LoginVerdict::LockedOut
    } else if right {
        LoginVerdict::Welcome
    } else {
        LoginVerdict::Rejected
    }
}

/// Answers an attempt from an address, given whether name and password are
/// right, and remembers how it went. An attempt while locked out counts for
/// nothing.
pub fn judge_attempt(attempts: &mut LoginAttempts, ip: &str, right: bool, now: u64) -> (r:
    LoginVerdict)
    requires
        clock_ok(now),
    ensures
        r == verdict(attempts_in(old(attempts)@, ip@), right, now),
        final(attempts)@ == match r {
            LoginVerdict::LockedOut => old(attempts)@,
            LoginVerdict::Rejected => old(attempts)@.insert(
                ip@,
                attempts_in(old(attempts)@, ip@).failed(now),
            ),
            LoginVerdict::Welcome => if old(attempts)@.contains_key(ip@) {
                old(attempts)@.insert(ip@, clean())
            } else {
                old(attempts)@
            },
        },
{
    if is_locked_out(attempts, ip, now) {
        return LoginVerdict::LockedOut;
    }
    if right {
        record_success(attempts, ip);
        LoginVerdict::Welcome
    } else {
        record_failure(attempts, ip, now);
        LoginVerdict::Rejected
    }
}

/// Answers an attempt to log in, and remembers how it went.
pub fn login(
    attempts: &mut LoginAttempts,
    ip: &str,
    user: &Option<AdminUser>,
    username: &str,
    password: &str,
    now: u64,
) -> (r: LoginVerdict)
    requires
        clock_ok(now),
    ensures
        r == verdict(
            attempts_in(old(attempts)@, ip@),
            credentials_match(*user, username@, password@),
            now,
        ),
        final(attempts)@ == match r {
            LoginVerdict::LockedOut => old(attempts)@,
            LoginVerdict::Rejected => old(attempts)@.insert(
                ip@,
                attempts_in(old(attempts)@, ip@).failed(now),
            ),
            LoginVerdict::Welcome => if old(attempts)@.contains_key(ip@) {
                old(attempts)@.insert(ip@, clean())
            } else {
                old(attempts)@
            },
        },
{
    if is_locked_out(attempts, ip, now) {
        return LoginVerdict::LockedOut;
    }
    let right = matches_user(user, username, password);
    judge_attempt(attempts, ip, right, now)
}

/// The status and the JSON of an answer to an attempt to log in.
pub fn login_reply(verdict: LoginVerdict) -> (r: (u16, Json))
    ensures
        match verdict {
            LoginVerdict::Welcome => r.0 == 200 && r.1@ == obj().put(
                "ok"@,
                crate::json::JsonView::Bool(true),
            ),
            LoginVerdict::Rejected => r.0 == 401 && r.1@ == obj().put(
                "error"@,
                obj().put("message"@, text("invalid username or password"@)),
            ),
            LoginVerdict::LockedOut => r.0 == 429 && r.1@ == obj().put(
                "error"@,
                obj().put("message"@, text("too many failed attempts, try again later"@)),
            ),
        },
{
    match verdict {
        LoginVerdict::Welcome => (200, Json::object().with("ok", Json::Bool(true))),
        LoginVerdict::Rejected => (
            401,
            Json::object().with(
                "error",
                Json::object().with("message", Json::text("invalid username or password")),
            ),
        ),
        LoginVerdict::LockedOut => (
            429,
            Json::object().with(
                "error",
                Json::object().with(
                    "message",
                    Json::text("too many failed attempts, try again later"),
                ),
            ),
        ),
    }
}

/// Why a password may not be changed, given whether the current one was right;
/// none where it may.
pub fn password_change_refused(stored: bool, current_right: bool, new_password: &str) -> (r: Option<
    AppError,
>)
    ensures
        match r {
            None => stored && current_right && trimmed(new_password@).len() > 0,
            Some(e) => if !stored {
                e@ == AppErrorView::Internal("admin_users row missing"@)
            } else if !current_right {
                e@ == AppErrorView::Unauthorized
            } else {
                trimmed(new_password@).len() == 0 && e@ == AppErrorView::BadRequest(
                    "new_password cannot be empty"@,
                )
            },
        },
{
    if !stored {
        return Some(AppError::Internal(owned("admin_users row missing")));
    }
    if !current_right {
        return Some(AppError::Unauthorized);
    }
    if trim(new_password).as_str().is_empty() {
        return Some(AppError::BadRequest(owned("new_password cannot be empty")));
    }
    None
}

/// The hash of a new password, for whoever knows the current one.
pub fn changed_password(user: &Option<AdminUser>, current: &str, new_password: &str) -> (r: Result<
    String,
    AppError,
>)
    ensures
        match user {
            None => r matches Err(e) && e@ == AppErrorView::Internal("admin_users row missing"@),
            Some(u) => if !accepts(u.password_hash@, current@) {
                r matches Err(e) && e@ == AppErrorView::Unauthorized
            } else if trimmed(new_password@).len() == 0 {
                r matches Err(e) && e@ == AppErrorView::BadRequest(
                    "new_password cannot be empty"@,
                )
            } else {
                match r {
                    Ok(h) => hashable(new_password@) && accepts(h@, new_password@),
                    Err(e) => !hashable(new_password@) && e@ == AppErrorView::Internal(
                        hash_failure(),
                    ),
                }
            },
        },
{
    let right = match user {
        Some(u) => verify_password(u.password_hash.as_str(), current),
        None => false,
    };
    match password_change_refused(user.is_some(), right, new_password) {
        Some(e) => Err(e),
        None => match hash_password(new_password) {
            Ok(h) => Ok(h),
            Err(e) => Err(AppError::Internal(e)),
        },
    }
}

} // verus!
