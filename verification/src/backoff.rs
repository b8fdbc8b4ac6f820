//! How an upstream's status is classed, and how long a provider then rests.
use vstd::arithmetic::power2::{lemma_pow2_pos, lemma_pow2_strictly_increases, lemma_pow2_unfold, pow2};
use vstd::prelude::*;

use crate::error::ErrorClass;
use crate::text::{parse_u64, trim, trimmed, unsigned_value};

verus! {

/// The highest exponent of a rest.
pub const MAX_BACKOFF_LEVEL: u8 = 15;

/// The longest rest, in seconds.
pub const MAX_COOLDOWN_SECS: u64 = 300;

/// The longest rest that an upstream can ask for, in seconds.
pub const MAX_RETRY_AFTER_SECS: u64 = 1800;

pub open spec fn min(a: int, b: int) -> int {
    if a <= b {
        a
    } else {
        b
    }
}

/// The rest at a level: two seconds, doubled for each level above the first,
/// and no more than the longest.
pub open spec fn cooldown(level: int) -> int {
    let n: int = if level < 1 {
        0
    } else {
        level - 1
    };
    min((2 * pow2(n as nat)) as int, MAX_COOLDOWN_SECS as int)
}

/// `2 * 2^n`, no more than 300.
pub fn doubled(n: u32) -> (r: u64)
    ensures
        r as int == min((2 * pow2(n as nat)) as int, MAX_COOLDOWN_SECS as int),
{
    let mut secs: u64 = 2;
    let mut i: u32 = 0;
    proof {
        vstd::arithmetic::power2::lemma2_to64();
    }
    while i < n && secs < MAX_COOLDOWN_SECS
        invariant
            i <= n,
            secs as int == 2 * pow2(i as nat),
            secs < 600,
        decreases n - i,
    {
        proof {
            lemma_pow2_unfold((i + 1) as nat);
        }
        secs = secs * 2;
        i += 1;
    }
    if secs < MAX_COOLDOWN_SECS {
        secs
    } else {
        proof {
            if i < n {
                lemma_pow2_strictly_increases(i as nat, n as nat);
            }
        }
        MAX_COOLDOWN_SECS
    }
}

/// How long a provider rests at a level, in seconds.
pub fn cooldown_for(level: u8) -> (r: u64)
    ensures
        r as int == cooldown(level as int),
        r <= MAX_COOLDOWN_SECS,
{
    let n: u32 = if level < 1 {
        0
    } else {
        (level - 1) as u32
    };
    doubled(n)
}

/// A higher level never rests shorter, and no level rests longer than the
/// longest or shorter than two seconds.
pub proof fn law_cooldown_grows(a: int, b: int)
    requires
        a <= b,
    ensures
        2 <= cooldown(a) <= cooldown(b) <= MAX_COOLDOWN_SECS,
{
    let m: int = if a < 1 {
        0
    } else {
        a - 1
    };
    let n: int = if b < 1 {
        0
    } else {
        b - 1
    };
    lemma_pow2_pos(m as nat);
    if m < n {
        lemma_pow2_strictly_increases(m as nat, n as nat);
    }
}

/// The time to wait that a `retry-after` header asks for, in seconds, no more
/// than the longest.
pub open spec fn retry_after(raw: Option<Seq<char>>) -> Option<int> {
    match raw {
        Some(t) => match unsigned_value(trimmed(t)) {
            Some(n) => if n <= u64::MAX {
                Some(min(n as int, MAX_RETRY_AFTER_SECS as int))
            } else {
                None
            },
            None => None,
        },
        None => None,
    }
}

/// The characters of an optional text.
pub open spec fn opt_str(o: Option<&str>) -> Option<Seq<char>> {
    match o {
        Some(s) => Some(s@),
        None => None,
    }
}

/// The time to wait that a `retry-after` header asks for, in seconds.
pub fn reset_after_from_header(raw: Option<&str>) -> (r: Option<u64>)
    ensures
        match r {
            Some(n) => retry_after(opt_str(raw)) == Some(n as int) && n <= MAX_RETRY_AFTER_SECS,
            None => retry_after(opt_str(raw)) is None,
        },
{
    match raw {
        Some(t) => match parse_u64(trim(t).as_str()) {
            Some(n) => if n <= MAX_RETRY_AFTER_SECS {
                Some(n)
            } else {
                Some(MAX_RETRY_AFTER_SECS)
            },
            None => None,
        },
        None => None,
    }
}

/// The statuses for which a `retry-after` header counts.
pub open spec fn overloaded(status: u16) -> bool {
    status == 429 || status == 408 || 500 <= status <= 599
}

/// What a status means, given the `retry-after` header that came with it.
pub open spec fn class_of(status: u16, raw: Option<Seq<char>>) -> ErrorClass {
    if 200 <= status <= 299 {
        ErrorClass::Success
    } else if status == 401 {
        ErrorClass::AuthExpired
    } else if status == 400 {
        ErrorClass::NonRetryable
    } else if overloaded(status) {
        ErrorClass::Retryable {
            retry_after: match retry_after(raw) {
                Some(n) => Some(n as u64),
                None => None,
            },
        }
    } else {
        ErrorClass::Retryable { retry_after: None }
    }
}

/// What a status means, given the `retry-after` header that came with it.
pub fn classify(status: u16, raw: Option<&str>) -> (r: ErrorClass)
    ensures
        r == class_of(status, opt_str(raw)),
        r matches ErrorClass::Retryable { retry_after: Some(n) } ==> n <= MAX_RETRY_AFTER_SECS,
{
    if 200 <= status && status <= 299 {
        ErrorClass::Success
    } else if status == 401 {
        ErrorClass::AuthExpired
    } else if status == 400 {
        ErrorClass::NonRetryable
    } else if status == 429 || status == 408 || (500 <= status && status <= 599) {
        ErrorClass::Retryable { retry_after: reset_after_from_header(raw) }
    } else {
        ErrorClass::Retryable { retry_after: None }
    }
}

} // verus!
