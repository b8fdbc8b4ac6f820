//! Locking out an address from which too many logins failed. Times are
//! milliseconds on a clock of the caller's.
use vstd::prelude::*;

use crate::backoff::{cooldown, doubled};
use crate::flow::clock_ok;
use crate::table::{Row, Table};

verus! {

/// How many failures are let pass.
pub const FAILURE_THRESHOLD: u32 = 5;

/// The longest lockout, in seconds.
pub const MAX_LOCKOUT: u64 = 300;

/// The failures of an address, and until when it is locked out.
#[derive(Clone, Copy, Debug, PartialEq, Eq, Structural)]
pub struct AttemptState {
    pub failures: u32,
    pub locked_until: Option<u64>,
}

/// An address without failures.
pub open spec fn clean() -> AttemptState {
    AttemptState { failures: 0, locked_until: None }
}

impl Default for AttemptState {
    fn default() -> (r: AttemptState)
        ensures
            r == clean(),
    {
        AttemptState { failures: 0, locked_until: None }
    }
}

/// How long a lockout lasts after so many failures more than are let pass, in
/// seconds: two, doubled for each more, and no more than the longest.
pub fn cooldown_for(failures_over_threshold: u32) -> (r: u64)
    ensures
        r as int == cooldown(failures_over_threshold as int),
        r <= MAX_LOCKOUT,
{
    let n: u32 = if failures_over_threshold < 1 {
        0
    } else {
        failures_over_threshold - 1
    };
    doubled(n)
}

/// The number after `n`, which wraps around.
pub open spec fn one_more(n: u32) -> u32 {
    if n == u32::MAX {
        0
    } else {
        (n + 1) as u32
    }
}

impl AttemptState {
    /// The address is locked out at this time.
    pub open spec fn locked(self, now: u64) -> bool {
        self.locked_until matches Some(until) && now < until
    }

    /// The state after one more failure.
    pub open spec fn failed(self, now: u64) -> AttemptState {
        let n = one_more(self.failures);
        AttemptState {
            failures: n,
            locked_until: if n >= FAILURE_THRESHOLD {
                Some((now + 1000 * cooldown(n - FAILURE_THRESHOLD)) as u64)
            } else {
                self.locked_until
            },
        }
    }
}

/// The state that a row keeps.
pub open spec fn attempts_of(row: Row) -> AttemptState {
    AttemptState {
        failures: if row.0 > u32::MAX {
            u32::MAX
        } else {
            row.0 as u32
        },
        locked_until: row.2,
    }
}

/// The failures of all addresses.
pub struct LoginAttempts {
    table: Table,
}

impl View for LoginAttempts {
    type V = Map<Seq<char>, AttemptState>;

    closed spec fn view(&self) -> Map<Seq<char>, AttemptState> {
        self.table@.map_values(|row: Row| attempts_of(row))
    }
}

/// The state of an address; a clean one where nothing is known of it.
pub open spec fn attempts_in(m: Map<Seq<char>, AttemptState>, ip: Seq<char>) -> AttemptState {
    if m.contains_key(ip) {
        m[ip]
    } else {
        clean()
    }
}

impl LoginAttempts {
    pub fn new() -> (r: LoginAttempts)
        ensures
            r@ == Map::<Seq<char>, AttemptState>::empty(),
    {
        let r = LoginAttempts { table: Table::new() };
        assert(r@ =~= Map::<Seq<char>, AttemptState>::empty());
        r
    }

    /// The state of an address, where anything is known of it.
    pub fn get(&self, ip: &str) -> (r: Option<AttemptState>)
        ensures
            r == if self@.contains_key(ip@) {
                Some(self@[ip@])
            } else {
                None
            },
    {
        match self.table.get(ip) {
            Some(row) => Some(
                AttemptState {
                    failures: if row.0 > u32::MAX as u64 {
                        u32::MAX
                    } else {
                        row.0 as u32
                    },
                    locked_until: row.2,
                },
            ),
            None => None,
        }
    }

    fn set(&mut self, ip: &str, state: AttemptState)
        ensures
            final(self)@ == old(self)@.insert(ip@, state),
    {
        let ghost before = self@;
        self.table.set(ip, (state.failures as u64, 0, state.locked_until));
        assert(self@ =~= before.insert(ip@, state));
    }
}

/// Whether an address is locked out at this time.
pub fn is_locked_out(map: &LoginAttempts, ip: &str, now: u64) -> (r: bool)
    ensures
        r == attempts_in(map@, ip@).locked(now),
{
    match map.get(ip) {
        Some(s) => match s.locked_until {
            Some(until) => now < until,
            None => false,
        },
        None => false,
    }
}

/// Counts a failure, and locks the address out where there are too many.
pub fn record_failure(map: &mut LoginAttempts, ip: &str, now: u64)
    requires
        clock_ok(now),
    ensures
        final(map)@ == old(map)@.insert(ip@, attempts_in(old(map)@, ip@).failed(now)),
{
    let mut s = match map.get(ip) {
        Some(s) => s,
        None => AttemptState { failures: 0, locked_until: None },
    };
    s.failures = s.failures.wrapping_add(1);
    if s.failures >= FAILURE_THRESHOLD {
        let secs: u64 = cooldown_for(s.failures - FAILURE_THRESHOLD);
        s.locked_until = Some(now + 1000 * secs);
    }
    map.set(ip, s);
}

/// Clears the failures of an address of which anything is known.
pub fn record_success(map: &mut LoginAttempts, ip: &str)
    ensures
        final(map)@ == if old(map)@.contains_key(ip@) {
            old(map)@.insert(ip@, clean())
        } else {
            old(map)@
        },
{
    if map.get(ip).is_some() {
        map.set(ip, AttemptState { failures: 0, locked_until: None });
    }
}

/// The state after failures at these times.
pub open spec fn failed_at(times: Seq<u64>) -> AttemptState
    decreases times.len(),
{
    if times.len() == 0 {
        clean()
    } else {
        failed_at(times.drop_last()).failed(times.last())
    }
}

/// Whenever the failures come, four lock nobody out. From the fifth on the
/// address is locked out, counted from the last failure, for at least two
/// seconds and at most the longest time.
pub proof fn law_fifth_failure_locks_out(times: Seq<u64>, now: u64)
    requires
        forall|i: int| 0 <= i < times.len() ==> clock_ok(#[trigger] times[i]),
        times.len() <= u32::MAX,
    ensures
        failed_at(times).failures == times.len(),
        times.len() < FAILURE_THRESHOLD ==> !failed_at(times).locked(now),
        times.len() >= FAILURE_THRESHOLD ==> {
            let secs = cooldown(times.len() - FAILURE_THRESHOLD);
            &&& 2 <= secs <= MAX_LOCKOUT
            &&& failed_at(times).locked(now) <==> now < times.last() + 1000 * secs
        },
{
    lemma_failed_at(times);
}

proof fn lemma_failed_at(times: Seq<u64>)
    requires
        forall|i: int| 0 <= i < times.len() ==> clock_ok(#[trigger] times[i]),
        times.len() <= u32::MAX,
    ensures
        failed_at(times).failures == times.len(),
        times.len() < FAILURE_THRESHOLD ==> failed_at(times).locked_until is None,
        times.len() >= FAILURE_THRESHOLD ==> {
            let secs = cooldown(times.len() - FAILURE_THRESHOLD);
            &&& 2 <= secs <= MAX_LOCKOUT
            &&& failed_at(times).locked_until is Some
            &&& failed_at(times).locked_until->0 == times.last() + 1000 * secs
        },
    decreases times.len(),
{
    if times.len() > 0 {
        let n = times.len();
        assert(clock_ok(times[n - 1]));
        assert forall|i: int| 0 <= i < n - 1 implies clock_ok(#[trigger] times.drop_last()[i]) by {
            assert(clock_ok(times[i]));
        }
        lemma_failed_at(times.drop_last());
        if n >= FAILURE_THRESHOLD {
            crate::backoff::law_cooldown_grows(n - FAILURE_THRESHOLD, n - FAILURE_THRESHOLD);
        }
    }
}

/// What happens at one address changes nothing for another.
pub proof fn law_addresses_are_independent(
    m: Map<Seq<char>, AttemptState>,
    ip: Seq<char>,
    other: Seq<char>,
    s: AttemptState,
)
    requires
        ip != other,
    ensures
        attempts_in(m.insert(ip, s), other) == attempts_in(m, other),
{
}

} // verus!
