//! What the admin interface lets happen: who gets in, for how long, and what is
//! shown.
use vstd::prelude::*;

use crate::admin::access::bears;
use crate::admin::login::{credentials_match, verdict, AdminUser, LoginVerdict};
use crate::admin::password::accepts;
use crate::admin::rate_limit::{
    clean, failed_at, law_fifth_failure_locks_out, AttemptState,
};
use crate::admin::session::{
    cookie_value, prolonged, seconds_until, session_cookie, set_cookie, ABSOLUTE_LIFETIME,
    SESSION_TTL,
};
use crate::admin::settings::masked;
use crate::admin::transfer::members_of;
use crate::flow::clock_ok;
use crate::model::PoolWithMembers;
use crate::text::{decimal, split_once};

verus! {

// ---------------------------------------------------------------------------
// Getting in
// ---------------------------------------------------------------------------

/// A request carries the secret exactly where its header is the word `Bearer`, a
/// space and the secret.
pub proof fn law_only_the_secret_gets_in(header: Option<Seq<char>>, secret: Seq<char>)
    ensures
        bears(header, secret) <==> header == Some("Bearer "@ + secret),
{
    reveal_strlit("Bearer ");
    let whole = "Bearer "@ + secret;
    assert("Bearer "@.len() == 7);
    assert(whole.subrange(0, 7) =~= "Bearer "@);
    assert(whole.subrange(7, whole.len() as int) =~= secret);
    if let Some(v) = header {
        if bears(header, secret) {
            assert(v =~= v.subrange(0, 7) + v.subrange(7, v.len() as int));
        }
    }
}

/// Name and password must both be those of the admin.
pub proof fn law_both_must_be_right(user: AdminUser, name: Seq<char>, plain: Seq<char>)
    ensures
        credentials_match(Some(user), name, plain) <==> name == user.username@ && accepts(
            user.password_hash@,
            plain,
        ),
        !credentials_match(None, name, plain),
{
}

/// Who is locked out is told so, whether the password is right or not; anyone else
/// is let in with the right password and with no other.
pub proof fn law_attempts_are_judged(s: AttemptState, now: u64)
    ensures
        ({
            let locked = s.locked_until is Some && now < s.locked_until->0;
            &&& locked ==> verdict(s, true, now) == LoginVerdict::LockedOut && verdict(s, false, now)
                == LoginVerdict::LockedOut
            &&& !locked ==> verdict(s, true, now) == LoginVerdict::Welcome && verdict(s, false, now)
                == LoginVerdict::Rejected
        }),
{
}

/// After five failures or more not even the right password gets in before the
/// lockout is over, at least two seconds and at most five minutes behind the last
/// failure; then it does. Fewer failures lock nobody out, and a success forgets
/// them all.
pub proof fn law_guessing_is_slowed(times: Seq<u64>, right: bool, now: u64)
    requires
        forall|i: int| 0 <= i < times.len() ==> clock_ok(#[trigger] times[i]),
        times.len() <= u32::MAX,
    ensures
        times.len() >= 5 && now < times.last() + 2000 ==> verdict(failed_at(times), right, now)
            == LoginVerdict::LockedOut,
        times.len() >= 5 && now >= times.last() + 300_000 ==> verdict(failed_at(times), right, now)
            != LoginVerdict::LockedOut,
        times.len() < 5 ==> verdict(failed_at(times), right, now) != LoginVerdict::LockedOut,
        clean().failures == 0,
        verdict(clean(), true, now) == LoginVerdict::Welcome,
{
    law_fifth_failure_locks_out(times, now);
}

// ---------------------------------------------------------------------------
// Sessions
// ---------------------------------------------------------------------------

/// A session lasts a day, and a week however often it is prolonged.
pub proof fn law_sessions_last_a_day()
    ensures
        SESSION_TTL == 24 * 3_600_000_000,
        ABSOLUTE_LIFETIME == 7 * 24 * 3_600_000_000,
{
}

/// A request in the first half of a session's time changes nothing. One in the
/// second half prolongs the session to a day from now, but never beyond a week of
/// its beginning, and never to an earlier end.
pub proof fn law_requests_prolong_sessions(now: i64, created_at: i64, expires_at: i64)
    ensures
        ({
            let day: int = 86_400_000_000;
            let week: int = 604_800_000_000;
            let late = 2 * (now - created_at) >= expires_at - created_at;
            let tomorrow = now + day;
            let last = created_at + week;
            let end = prolonged(now, created_at, expires_at);
            &&& !late ==> end is None
            &&& late && tomorrow <= last && expires_at < tomorrow ==> end == Some(tomorrow)
            &&& late && last < tomorrow && expires_at < last ==> end == Some(last)
            &&& expires_at >= tomorrow || expires_at >= last ==> end is None
        }),
{
}

/// The cookie carries the token under its name, is kept from scripts and from
/// other sites, ends with the session, and over HTTPS is sent over HTTPS alone.
pub proof fn law_cookie_is_kept_close(token: Seq<char>, secs: nat)
    ensures
        set_cookie(token, secs, true) == "__Host-admin_session"@ + "="@ + token
            + "; Path=/; HttpOnly; SameSite=Strict; Max-Age="@ + decimal(secs) + "; Secure"@,
        set_cookie(token, secs, false) == "admin_session"@ + "="@ + token
            + "; Path=/; HttpOnly; SameSite=Strict; Max-Age="@ + decimal(secs),
        session_cookie(true) == "__Host-admin_session"@,
        session_cookie(false) == "admin_session"@,
{
    reveal_strlit("");
    let plain = "admin_session"@ + "="@ + token + "; Path=/; HttpOnly; SameSite=Strict; Max-Age="@
        + decimal(secs);
    assert(plain + ""@ =~= plain);
}

/// The cookie of a session lasts as many whole seconds as the session has left,
/// and none where it is over.
pub proof fn law_cookie_lasts_as_long(expires_at: i64, now: i64)
    ensures
        expires_at <= now ==> seconds_until(expires_at, now) == 0,
        expires_at > now ==> seconds_until(expires_at, now) * 1_000_000 <= expires_at - now
            < (seconds_until(expires_at, now) + 1) * 1_000_000,
{
}

/// Of several cookies the first one with the name counts, and its value is all
/// that stands behind the first equals sign; without any there is none.
pub proof fn law_first_cookie_counts(parts: Seq<Seq<char>>, name: Seq<char>, k: int)
    ensures
        0 <= k < parts.len() && (split_once(parts[k], "="@) matches Some(p) && p.0 == name) && (
        forall|i: int|
            0 <= i < k ==> !(split_once(#[trigger] parts[i], "="@) matches Some(p) && p.0 == name))
            ==> cookie_value(parts, name) == Some((split_once(parts[k], "="@)->0).1),
        (forall|i: int|
            0 <= i < parts.len() ==> !(split_once(#[trigger] parts[i], "="@) matches Some(p) && p.0
                == name)) ==> cookie_value(parts, name) is None,
    decreases parts.len(),
{
    if parts.len() > 0 {
        let rest = parts.subrange(1, parts.len() as int);
        law_first_cookie_counts(rest, name, k - 1);
        assert forall|i: int| 0 <= i < rest.len() implies rest[i] == parts[i + 1] by {}
        if !(split_once(parts[0], "="@) matches Some(p) && p.0 == name) {
            if 0 < k < parts.len() && (split_once(parts[k], "="@) matches Some(p) && p.0 == name)
                && (forall|i: int|
                0 <= i < k ==> !(split_once(#[trigger] parts[i], "="@) matches Some(p) && p.0
                    == name)) {
                assert(rest[k - 1] == parts[k]);
                assert forall|i: int| 0 <= i < k - 1 implies !(split_once(
                    #[trigger] rest[i],
                    "="@,
                ) matches Some(p) && p.0 == name) by {
                    assert(rest[i] == parts[i + 1]);
                }
            }
            if forall|i: int|
                0 <= i < parts.len() ==> !(split_once(#[trigger] parts[i], "="@) matches Some(p)
                    && p.0 == name) {
                assert forall|i: int| 0 <= i < rest.len() implies !(split_once(
                    #[trigger] rest[i],
                    "="@,
                ) matches Some(p) && p.0 == name) by {
                    assert(rest[i] == parts[i + 1]);
                }
            }
        }
    }
}

// ---------------------------------------------------------------------------
// What is shown and taken out
// ---------------------------------------------------------------------------

/// Of a secret three asterisks and its last four characters are shown.
pub proof fn law_secrets_are_masked(secret: Seq<char>)
    ensures
        secret.len() > 4 ==> masked(secret) == "***"@ + secret.subrange(
            secret.len() - 4,
            secret.len() as int,
        ),
        secret.len() <= 4 ==> masked(secret) == "***"@ + secret,
{
}

/// The members of all pools are taken out, pool by pool, each pool's in order.
pub proof fn law_members_are_taken_out(pools: Seq<PoolWithMembers>)
    ensures
        members_of(pools) == pools.map_values(|p: PoolWithMembers| p.members@).flatten(),
{
    pools.map_values(|p: PoolWithMembers| p.members@).lemma_flatten_and_flatten_alt_are_equivalent();
    lemma_members_alt(pools);
}

proof fn lemma_members_alt(pools: Seq<PoolWithMembers>)
    ensures
        members_of(pools) == pools.map_values(|p: PoolWithMembers| p.members@).flatten_alt(),
    decreases pools.len(),
{
    let lists = pools.map_values(|p: PoolWithMembers| p.members@);
    if pools.len() > 0 {
        lemma_members_alt(pools.drop_last());
        assert(lists.drop_last() =~= pools.drop_last().map_values(
            |p: PoolWithMembers| p.members@,
        ));
    } else {
        assert(members_of(pools) =~= lists.flatten_alt());
    }
}


/// A session holds until its end and no longer.
pub proof fn law_sessions_hold_until_their_end(
    row: crate::admin::session::SessionRow,
    now: i64,
    raw: Seq<char>,
)
    ensures
        crate::admin::access::holds(Some(row), now) <==> now < row.expires_at,
        !crate::admin::access::holds(None, now),
        crate::admin::session::token_digest(raw) == crate::random::hex(
            crate::random::sha256(vstd::utf8::encode_utf8(raw)),
        ),
{
}


/// A password that cannot be hashed is told apart from a wrong one.
pub proof fn law_unhashable_passwords_are_told()
    ensures
        crate::admin::password::hash_failure() == "argon2 hash failed: invalid password"@,
{
    reveal_strlit("argon2 hash failed: ");
    reveal_strlit("invalid password");
    reveal_strlit("argon2 hash failed: invalid password");
    assert(crate::admin::password::hash_failure() =~= "argon2 hash failed: invalid password"@);
}

} // verus!
