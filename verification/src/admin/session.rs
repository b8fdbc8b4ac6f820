//! Sessions of the admin interface: their tokens, their cookies and how long
//! they last. Times are microseconds since 1970.
use vstd::prelude::*;

use crate::clock::{now_micros, MICROS_BOUND};
use crate::codex::sse_bridge::opt_text;
use crate::random::{fresh_token, hex, hex_of, is_token, sha256, sha256_of};
use crate::text::{
    concat2, concat3, cut, decimal, decimal_of, lowercase, lowered, same, split, split_on,
    split_once, texts,
};

verus! {

/// How long a session lasts after a request: a day.
pub const SESSION_TTL: i64 = 86_400_000_000;

/// How long a session lasts at most: a week.
pub const ABSOLUTE_LIFETIME: i64 = 604_800_000_000;

/// A session as it is stored: not its token but the token's digest.
#[derive(Clone, Debug)]
pub struct SessionRow {
    pub token_hash: String,
    pub created_at: i64,
    pub expires_at: i64,
}

/// The session that a request belongs to.
#[derive(Clone, Debug)]
pub struct AdminSession {
    pub token_hash: String,
}

/// The digest of a token, in hexadecimal.
pub open spec fn token_digest(raw: Seq<char>) -> Seq<char> {
    hex(sha256(vstd::utf8::encode_utf8(raw)))
}

/// The digest of a token, in hexadecimal.
pub fn hash_token(raw: &str) -> (r: String)
    ensures
        r@ == token_digest(raw@),
        r@.len() == 64,
{
    let digest = sha256_of(raw.as_bytes());
    hex_of(&digest)
}

/// A time that `chrono` can hold.
pub open spec fn is_time(t: i64) -> bool {
    -MICROS_BOUND <= t <= MICROS_BOUND
}

/// A new session: its token, which only the client gets, and its row.
pub struct NewSession {
    pub raw_token: String,
    pub row: SessionRow,
}

/// The row of a session that begins now with this token.
pub fn session_for(raw_token: &str, now: i64) -> (r: SessionRow)
    requires
        is_time(now),
    ensures
        r.token_hash@ == token_digest(raw_token@),
        r.created_at == now,
        r.expires_at == now + SESSION_TTL,
{
    SessionRow { token_hash: hash_token(raw_token), created_at: now, expires_at: now + SESSION_TTL }
}

/// A new session with a fresh token.
pub fn new_session(now: i64) -> (r: NewSession)
    requires
        is_time(now),
    ensures
        is_token(r.raw_token@),
        r.raw_token@.len() == 64,
        r.row.token_hash@ == token_digest(r.raw_token@),
        r.row.created_at == now,
        r.row.expires_at == now + SESSION_TTL,
{
    let raw_token = fresh_token();
    let row = session_for(raw_token.as_str(), now);
    NewSession { raw_token, row }
}

/// Whether a stored session still holds.
pub fn is_valid(row: &SessionRow, now: i64) -> (r: bool)
    ensures
        r == (row.expires_at > now),
{
    row.expires_at > now
}

/// The end of a session that a request prolongs: a day from now, within a week
/// of its beginning; none where more than half of its time is left, or where
/// it would not end later.
pub open spec fn prolonged(now: i64, created_at: i64, expires_at: i64) -> Option<int> {
    let end = if now + SESSION_TTL <= created_at + ABSOLUTE_LIFETIME {
        now + SESSION_TTL
    } else {
        created_at + ABSOLUTE_LIFETIME
    };
    if 2 * (expires_at - now) > expires_at - created_at || end <= expires_at {
        None
    } else {
        Some(end)
    }
}

/// The end of a session that a request prolongs.
pub fn renewed_expiry(now: i64, created_at: i64, expires_at: i64) -> (r: Option<i64>)
    requires
        is_time(now),
        is_time(created_at),
    ensures
        match r {
            Some(t) => prolonged(now, created_at, expires_at) == Some(t as int),
            None => prolonged(now, created_at, expires_at) is None,
        },
{
    let remaining: i128 = expires_at as i128 - now as i128;
    let full: i128 = expires_at as i128 - created_at as i128;
    if remaining * 2 > full {
        return None;
    }
    let cap: i64 = created_at + ABSOLUTE_LIFETIME;
    let candidate: i64 = now + SESSION_TTL;
    let end: i64 = if candidate <= cap {
        candidate
    } else {
        cap
    };
    if end <= expires_at {
        return None;
    }
    Some(end)
}

/// However often it is prolonged, a session never outlasts a week, and being
/// prolonged never shortens it.
pub proof fn law_sessions_end(now: i64, created_at: i64, expires_at: i64)
    requires
        expires_at <= created_at + ABSOLUTE_LIFETIME,
    ensures
        prolonged(now, created_at, expires_at) matches Some(end) ==> expires_at < end <= created_at
            + ABSOLUTE_LIFETIME && end <= now + SESSION_TTL,
{
}

// ---------------------------------------------------------------------------
// Cookies
// ---------------------------------------------------------------------------

/// Whether the client is connected by HTTPS, by the header of the proxy before
/// this server.
pub fn is_https(forwarded_proto: Option<&str>) -> (r: bool)
    ensures
        r == match forwarded_proto {
            Some(v) => lowered(v@) == "https"@,
            None => false,
        },
{
    match forwarded_proto {
        Some(v) => same(lowercase(v).as_str(), "https"),
        None => false,
    }
}

/// The name of the session cookie.
pub open spec fn session_cookie(https: bool) -> Seq<char> {
    if https {
        "__Host-admin_session"@
    } else {
        "admin_session"@
    }
}

/// The name of the session cookie.
pub fn cookie_name(is_https: bool) -> (r: &'static str)
    ensures
        r@ == session_cookie(is_https),
{
    if is_https {
        "__Host-admin_session"
    } else {
        "admin_session"
    }
}

/// The header that sets the session cookie.
pub open spec fn set_cookie(token: Seq<char>, max_age: nat, https: bool) -> Seq<char> {
    session_cookie(https) + "="@ + token + "; Path=/; HttpOnly; SameSite=Strict; Max-Age="@
        + decimal(max_age) + (if https {
        "; Secure"@
    } else {
        ""@
    })
}

/// The whole seconds from now until a time, none where it is over.
pub open spec fn seconds_until(expires_at: i64, now: i64) -> nat {
    if expires_at <= now {
        0
    } else {
        ((expires_at - now) / 1_000_000) as nat
    }
}

fn cookie_text(token: &str, max_age: u64, is_https: bool) -> (r: String)
    ensures
        r@ == set_cookie(token@, max_age as nat, is_https),
{
    let mut cookie = concat3(cookie_name(is_https), "=", token);
    cookie.append("; Path=/; HttpOnly; SameSite=Strict; Max-Age=");
    cookie.append(decimal_of(max_age).as_str());
    if is_https {
        cookie.append("; Secure");
    } else {
        cookie.append("");
    }
    cookie
}

/// The header that sets the session cookie, at a given time.
pub fn set_cookie_at(raw_token: &str, expires_at: i64, now: i64, is_https: bool) -> (r: String)
    ensures
        r@ == set_cookie(raw_token@, seconds_until(expires_at, now), is_https),
{
    let left: i128 = expires_at as i128 - now as i128;
    let max_age: u64 = if left <= 0 {
        0
    } else {
        (left / 1_000_000) as u64
    };
    cookie_text(raw_token, max_age, is_https)
}

/// The header that sets the session cookie now.
pub fn build_set_cookie(raw_token: &str, expires_at: i64, is_https: bool) -> (r: String)
    ensures
        exists|now: i64|
            is_time(now) && r@ == set_cookie(
                raw_token@,
                #[trigger] seconds_until(expires_at, now),
                is_https,
            ),
{
    let now: i64 = now_micros();
    let r = set_cookie_at(raw_token, expires_at, now, is_https);
    assert(r@ == set_cookie(raw_token@, seconds_until(expires_at, now), is_https));
    r
}

/// The header that takes the session cookie back.
pub fn build_clear_cookie(is_https: bool) -> (r: String)
    ensures
        r@ == session_cookie(is_https) + "=; Path=/; HttpOnly; SameSite=Strict; Max-Age=0"@ + (
        if is_https {
            "; Secure"@
        } else {
            ""@
        }),
{
    let mut cookie = concat2(
        cookie_name(is_https),
        "=; Path=/; HttpOnly; SameSite=Strict; Max-Age=0",
    );
    if is_https {
        cookie.append("; Secure");
    } else {
        cookie.append("");
    }
    cookie
}

/// The value of the first of some cookies with this name.
pub open spec fn cookie_value(parts: Seq<Seq<char>>, name: Seq<char>) -> Option<Seq<char>>
    decreases parts.len(),
{
    if parts.len() == 0 {
        None
    } else {
        match split_once(parts[0], "="@) {
            Some((k, v)) if k == name => Some(v),
            _ => cookie_value(parts.subrange(1, parts.len() as int), name),
        }
    }
}

/// The token that the session cookie of a request carries.
pub fn extract_cookie(cookie_header: Option<&str>, is_https: bool) -> (r: Option<String>)
    ensures
        opt_text(r) == match cookie_header {
            Some(raw) => cookie_value(split_on(raw@, "; "@), session_cookie(is_https)),
            None => None,
        },
{
    let name = cookie_name(is_https);
    match cookie_header {
        Some(raw) => {
            proof {
                reveal_strlit("; ");
            }
            let parts = split(raw, "; ");
            let ghost all = split_on(raw@, "; "@);
            let mut i: usize = 0;
            assert(all.subrange(0, all.len() as int) =~= all);
            while i < parts.len()
                invariant
                    i <= parts.len(),
                    all == texts(parts@),
                    all == split_on(raw@, "; "@),
                    cookie_header == Some(raw),
                    name@ == session_cookie(is_https),
                    cookie_value(all, name@) == cookie_value(
                        all.subrange(i as int, all.len() as int),
                        name@,
                    ),
                decreases parts.len() - i,
            {
                let ghost rest = all.subrange(i as int, all.len() as int);
                assert(rest[0] == parts@[i as int]@);
                assert(rest.subrange(1, rest.len() as int) =~= all.subrange(
                    i + 1,
                    all.len() as int,
                ));
                match cut(parts[i].as_str(), "=") {
                    Some((k, v)) => {
                        if same(k.as_str(), name) {
                            return Some(v);
                        }
                    },
                    None => {},
                }
                i += 1;
            }
            None
        },
        None => None,
    }
}

/// A client that sends back the cookie it was given, and no other, is known by
/// the token that the cookie carried.
pub proof fn law_cookie_carries_token(token: Seq<char>, https: bool)
    requires
        !crate::text::occurs(token, "; "@),
    ensures
        cookie_value(
            split_on(session_cookie(https) + "="@ + token, "; "@),
            session_cookie(https),
        ) == Some(token),
{
    reveal_strlit("__Host-admin_session");
    reveal_strlit("admin_session");
    reveal_strlit("=");
    reveal_strlit("; ");
    let name = session_cookie(https);
    let s = name + "="@ + token;
    let n = name.len() as int;
    crate::text::lemma_find_is_occurs(s, "; "@, 0);
    crate::text::lemma_find_is_occurs(s, "="@, 0);
    if let Some(k) = crate::text::find_from(s, "; "@, 0) {
        assert(s.subrange(k, k + 2)[0] == ';' && s.subrange(k, k + 2)[1] == ' ');
        assert(s[k] == ';' && s[k + 1] == ' ');
        if k <= n {
            if k < n {
                assert(s[k] == name[k]);
            }
            assert(false);
        }
        assert(token.subrange(k - n - 1, k - n + 1) =~= "; "@);
        assert(crate::text::occurs_at(token, "; "@, k - n - 1));
        assert(false);
    }
    assert(split_on(s, "; "@) =~= seq![s]) by {
        assert(s.subrange(0, s.len() as int) =~= s);
    }
    assert(s.subrange(n, n + 1) =~= "="@);
    assert(crate::text::occurs_at(s, "="@, n));
    let k = crate::text::find_from(s, "="@, 0)->0;
    if k < n {
        assert(s.subrange(k, k + 1)[0] == '=');
        assert(s[k] == name[k]);
        assert(false);
    }
    assert(s.subrange(0, n) =~= name);
    assert(s.subrange(n + 1, s.len() as int) =~= token);
}

} // verus!
