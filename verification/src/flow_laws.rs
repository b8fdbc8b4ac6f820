//! What one event of a request does to the provider that was asked, to the others,
//! and to the log.
use vstd::arithmetic::power2::{lemma_pow2_pos, pow2};
use vstd::prelude::*;

use crate::backoff::law_cooldown_grows;
use crate::flow::{
    advance, clock_ok, law_first_available_is_asked, on_event, state_in, Action, EventSeen, LogView,
    Run, States,
};
use crate::model::ProviderKind;
use crate::runtime::{ProviderRuntimeState, ProviderStatus};
use crate::text::{trimmed, unsigned_value};

verus! {

/// The state of the provider that was asked, once an event was taken in.
pub open spec fn asked_after(run: Run, states: States, event: EventSeen, now: u64) -> ProviderRuntimeState {
    state_in(on_event(run, states, event, now).states, run.candidates[run.current].key())
}

/// The state of the provider that is asked.
pub open spec fn asked(run: Run, states: States) -> ProviderRuntimeState {
    state_in(states, run.candidates[run.current].key())
}

/// The provider that was asked rests for so many milliseconds from now on: it is
/// not to be asked before, and may be asked from then on. One more failure is held
/// against it.
pub open spec fn rests(
    before: ProviderRuntimeState,
    s: ProviderRuntimeState,
    now: u64,
    millis: int,
) -> bool {
    &&& s.status == ProviderStatus::Cooling
    &&& s.unavailable_until is Some
    &&& s.unavailable_until->0 == now + millis
    &&& forall|later: u64| #[trigger] s.available(later) <==> later >= now + millis
    &&& s.backoff_level == if before.backoff_level == 255 {
        255int
    } else {
        before.backoff_level + 1
    }
}

/// A request that is under way with one of its candidates.
pub open spec fn under_way(run: Run) -> bool {
    &&& 0 <= run.current < run.candidates.len()
    &&& 0 <= run.next <= run.candidates.len()
}

/// A provider that is overloaded, or failed, and says when to come back.
pub open spec fn overloaded_status(status: u16) -> bool {
    status == 429 || status == 408 || 500 <= status <= 599
}

/// The header gives a number of seconds.
pub open spec fn header_reads(header: Option<Seq<char>>, secs: nat) -> bool {
    header matches Some(t) && unsigned_value(trimmed(t)) == Some(secs) && secs <= u64::MAX
}

/// The header gives no number of seconds.
pub open spec fn header_unread(header: Option<Seq<char>>) -> bool {
    header matches Some(t) ==> match unsigned_value(trimmed(t)) {
        Some(n) => n > u64::MAX,
        None => true,
    }
}

/// An overloaded provider that says when to come back rests for as long as it
/// says, up to half an hour, whatever was held against it before.
pub proof fn law_retry_after_is_respected(
    run: Run,
    states: States,
    status: u16,
    header: Option<Seq<char>>,
    secs: nat,
    latency: i64,
    token: bool,
    now: u64,
)
    requires
        under_way(run),
        clock_ok(now),
        overloaded_status(status),
        header_reads(header, secs),
    ensures
        ({
            let event = EventSeen::Answered {
                status,
                retry_after: header,
                latency,
                has_refresh_token: token,
            };
            let longest: int = if secs <= 1800 {
                secs as int
            } else {
                1800
            };
            &&& rests(asked(run, states), asked_after(run, states, event, now), now, 1000 * longest)
            &&& on_event(run, states, event, now).action == Action::ReadBody
        }),
{
    assert(crate::backoff::retry_after(header) is Some);
}

/// How many milliseconds a provider rests that says nothing of it: two seconds,
/// doubled for each failure that was held against it, up to five minutes.
pub open spec fn level_millis(level: u8) -> int {
    let secs = 2 * pow2(level as nat);
    if secs <= 300 {
        1000 * secs as int
    } else {
        300_000
    }
}

proof fn lemma_level(level: u8)
    ensures
        1000 * crate::backoff::cooldown(crate::flow::next_level(level)) == level_millis(level),
        2 <= crate::backoff::cooldown(crate::flow::next_level(level)) <= 300,
{
    let next = crate::flow::next_level(level);
    law_cooldown_grows(next, next);
    if level == 255 {
        vstd::arithmetic::power2::lemma_pow2_strictly_increases(9, 254);
        vstd::arithmetic::power2::lemma_pow2_strictly_increases(9, 255);
        vstd::arithmetic::power2::lemma2_to64();
    }
    lemma_pow2_pos(level as nat);
}

/// An overloaded provider that does not say when to come back rests the longer the
/// more failures are held against it; so does one that could not be reached, and
/// one whose credentials could not be renewed just now.
pub proof fn law_failures_rest_longer(
    run: Run,
    states: States,
    status: u16,
    header: Option<Seq<char>>,
    latency: i64,
    token: bool,
    error: Seq<char>,
    now: u64,
)
    requires
        under_way(run),
        clock_ok(now),
        overloaded_status(status),
        header_unread(header),
    ensures
        ({
            let before = asked(run, states);
            let millis = level_millis(before.backoff_level);
            let answered = EventSeen::Answered {
                status,
                retry_after: header,
                latency,
                has_refresh_token: token,
            };
            let unreached = EventSeen::SendFailed { error, latency };
            let unrenewed = EventSeen::RefreshTransient { error };
            &&& rests(before, asked_after(run, states, answered, now), now, millis)
            &&& rests(before, asked_after(run, states, unreached, now), now, millis)
            &&& rests(before, asked_after(run, states, unrenewed, now), now, millis)
        }),
{
    let before = asked(run, states);
    lemma_level(before.backoff_level);
    lemma_advance_keeps(now);
}

/// Moving on to the next candidate changes no state.
proof fn lemma_advance_keeps(now: u64)
    ensures
        forall|r: Run, s: States, l: Option<LogView>, k: Seq<char>|
            0 <= r.next <= r.candidates.len() ==> #[trigger] state_in(
                advance(r, s, now, l).states,
                k,
            ) == state_in(s, k),
{
    assert forall|r: Run, s: States, l: Option<LogView>, k: Seq<char>|
        0 <= r.next <= r.candidates.len() implies #[trigger] state_in(
        advance(r, s, now, l).states,
        k,
    ) == state_in(s, k) by {
        law_first_available_is_asked(r, s, now, l);
    }
}

/// Any other status that is neither success nor the client's fault rests half a
/// minute, whatever the header says.
pub proof fn law_other_failures_rest_half_a_minute(
    run: Run,
    states: States,
    status: u16,
    header: Option<Seq<char>>,
    latency: i64,
    token: bool,
    now: u64,
)
    requires
        under_way(run),
        clock_ok(now),
        !overloaded_status(status),
        !(200 <= status <= 299),
        status != 400,
        status != 401,
    ensures
        ({
            let event = EventSeen::Answered {
                status,
                retry_after: header,
                latency,
                has_refresh_token: token,
            };
            &&& rests(asked(run, states), asked_after(run, states, event, now), now, 30_000)
            &&& on_event(run, states, event, now).action == Action::ReadBody
        }),
{
}

/// A success clears what was held against the provider and is passed on; so is a
/// success with renewed credentials.
pub proof fn law_success_clears(
    run: Run,
    states: States,
    status: u16,
    header: Option<Seq<char>>,
    latency: i64,
    token: bool,
    now: u64,
    later: u64,
)
    requires
        under_way(run),
        200 <= status <= 299,
    ensures
        ({
            let event = EventSeen::Answered {
                status,
                retry_after: header,
                latency,
                has_refresh_token: token,
            };
            let again = EventSeen::RetryAnswered { status, latency };
            let s = asked_after(run, states, event, now);
            &&& s.backoff_level == 0 && s.unavailable_until is None && s.status
                == ProviderStatus::Healthy
            &&& s.available(later)
            &&& asked_after(run, states, again, now) == s
            &&& on_event(run, states, event, now).action == Action::Relay
            &&& on_event(run, states, again, now).action == Action::RelayRetry
        }),
{
}

/// A request that the provider calls wrong, or does not let in, is answered with
/// the provider's own error, and the provider is not asked again until someone
/// mends it. One that logs in with a token that can be renewed has it renewed.
pub proof fn law_refusals_are_passed_on(
    run: Run,
    states: States,
    status: u16,
    header: Option<Seq<char>>,
    latency: i64,
    token: bool,
    now: u64,
    later: u64,
)
    requires
        under_way(run),
        status == 400 || status == 401,
    ensures
        ({
            let event = EventSeen::Answered {
                status,
                retry_after: header,
                latency,
                has_refresh_token: token,
            };
            let step = on_event(run, states, event, now);
            let s = asked_after(run, states, event, now);
            let renews = status == 401 && token && run.candidates[run.current].kind
                == ProviderKind::OauthCodex;
            &&& renews ==> step.action == Action::Refresh && step.states == states
            &&& !renews ==> step.action == Action::Passthrough && s.status
                == ProviderStatus::Misconfigured && !s.available(later)
        }),
{
}

/// A login that is no longer valid puts the provider out of use until someone
/// mends it; renewed credentials are tried at once.
pub proof fn law_renewal_decides(run: Run, states: States, now: u64, later: u64)
    requires
        under_way(run),
    ensures
        ({
            let gone = asked_after(run, states, EventSeen::RefreshInvalid, now);
            let renewed = on_event(run, states, EventSeen::Refreshed, now);
            &&& gone.status == ProviderStatus::Misconfigured
            &&& !gone.available(later)
            &&& renewed.action == Action::Retry
            &&& renewed.states == states
            &&& renewed.run == run
        }),
{
    lemma_advance_keeps(now);
}

/// Whatever happens to a request, it changes nothing for any other provider or
/// model.
pub proof fn law_others_are_left_alone(
    run: Run,
    states: States,
    event: EventSeen,
    now: u64,
    key: Seq<char>,
)
    requires
        0 <= run.next <= run.candidates.len(),
        key != run.candidates[run.current].key(),
    ensures
        state_in(on_event(run, states, event, now).states, key) == state_in(states, key),
{
    lemma_advance_keeps(now);
}

/// A line of the log that names the pool and the provider that was asked.
pub open spec fn line(
    run: Run,
    status: Option<i64>,
    latency: i64,
    success: bool,
    log: Option<LogView>,
) -> bool {
    &&& log is Some
    &&& log->0.pool == Some(run.pool)
    &&& log->0.provider == Some(run.candidates[run.current].provider)
    &&& log->0.status == status
    &&& log->0.latency == latency
    &&& log->0.success == success
}

/// Moving on to the next candidate logs what it is given.
proof fn lemma_advance_logs(run: Run, states: States, now: u64, log: Option<LogView>)
    ensures
        advance(run, states, now, log).log == log,
    decreases run.candidates.len() - run.next,
{
    if !(run.next < 0 || run.next >= run.candidates.len()) {
        let c = run.candidates[run.next];
        let seen = states.insert(c.key(), state_in(states, c.key()));
        if !state_in(states, c.key()).available(now) {
            lemma_advance_logs(Run { next: run.next + 1, ..run }, seen, now, log);
        }
    }
}

/// Every answer is logged with its status and its time, as a success where it is
/// one, but for one that leads to a renewal; a provider that could not be reached
/// is logged without a status, and a renewal that failed as the refusal that it
/// was; a request that was not sent is not logged.
pub proof fn law_answers_are_logged(
    run: Run,
    states: States,
    status: u16,
    header: Option<Seq<char>>,
    latency: i64,
    token: bool,
    text: Seq<char>,
    now: u64,
)
    requires
        under_way(run),
    ensures
        ({
            let event = EventSeen::Answered {
                status,
                retry_after: header,
                latency,
                has_refresh_token: token,
            };
            let renews = status == 401 && token && run.candidates[run.current].kind
                == ProviderKind::OauthCodex;
            let ok = 200 <= status <= 299;
            &&& !renews ==> line(
                run,
                Some(status as i64),
                latency,
                ok,
                on_event(run, states, event, now).log,
            )
            &&& renews ==> on_event(run, states, event, now).log is None
            &&& line(
                run,
                None,
                latency,
                false,
                on_event(run, states, EventSeen::SendFailed { error: text, latency }, now).log,
            )
            &&& line(
                run,
                Some(401i64),
                run.latency,
                false,
                on_event(run, states, EventSeen::RefreshInvalid, now).log,
            )
            &&& line(
                run,
                Some(401i64),
                run.latency,
                false,
                on_event(run, states, EventSeen::RefreshTransient { error: text }, now).log,
            )
            &&& ok ==> line(
                run,
                Some(status as i64),
                latency,
                true,
                on_event(run, states, EventSeen::RetryAnswered { status, latency }, now).log,
            )
            &&& on_event(run, states, EventSeen::Begin, now).log is None
            &&& on_event(run, states, EventSeen::BuildFailed { error: text }, now).log is None
            &&& on_event(run, states, EventSeen::Body { text }, now).log is None
            &&& on_event(run, states, EventSeen::TransformFailed { error: text }, now).log is None
            &&& on_event(run, states, EventSeen::RetryFailed, now).log is None
            &&& on_event(run, states, EventSeen::Refreshed, now).log is None
        }),
{
    assert forall|r: Run, s: States, l: Option<LogView>| (#[trigger] advance(r, s, now, l)).log
        == l by {
        lemma_advance_logs(r, s, now, l);
    }
}

/// Moving on to the next candidate keeps the error.
proof fn lemma_advance_keeps_error(run: Run, states: States, now: u64, log: Option<LogView>)
    ensures
        advance(run, states, now, log).run.last_error == run.last_error,
        advance(run, states, now, log).run.pool == run.pool,
    decreases run.candidates.len() - run.next,
{
    if !(run.next < 0 || run.next >= run.candidates.len()) {
        let c = run.candidates[run.next];
        let seen = states.insert(c.key(), state_in(states, c.key()));
        if !state_in(states, c.key()).available(now) {
            lemma_advance_keeps_error(Run { next: run.next + 1, ..run }, seen, now, log);
        }
    }
}

/// What the client is told when nobody answers is what went wrong last, in the
/// words of the failure.
pub proof fn law_last_error_is_told(
    run: Run,
    states: States,
    latency: i64,
    text: Seq<char>,
    now: u64,
)
    ensures
        ({
            let after = |event: EventSeen| on_event(run, states, event, now).run.last_error;
            &&& after(EventSeen::Begin) == run.last_error
            &&& after(EventSeen::BuildFailed { error: text }) == "request build failed: "@ + text
            &&& after(EventSeen::SendFailed { error: text, latency }) == "upstream request error: "@
                + text
            &&& after(EventSeen::Body { text }) == text
            &&& after(EventSeen::TransformFailed { error: text })
                == "response transform failed: "@ + text
            &&& after(EventSeen::RefreshInvalid)
                == "refresh token invalid_grant; re-auth required"@
            &&& after(EventSeen::RefreshTransient { error: text }) == "transient refresh error: "@
                + text
            &&& after(EventSeen::RetryFailed) == "refresh succeeded but retry failed"@
        }),
{
    assert forall|r: Run, s: States, l: Option<LogView>|
        (#[trigger] advance(r, s, now, l)).run.last_error == r.last_error by {
        lemma_advance_keeps_error(r, s, now, l);
    }
}


/// Nothing is held against a provider for what is not its fault: a request that
/// could not be built, an answer that could not be turned, or one more refusal
/// with renewed credentials.
pub proof fn law_nothing_else_is_held_against(
    run: Run,
    states: States,
    status: u16,
    latency: i64,
    text: Seq<char>,
    now: u64,
)
    requires
        under_way(run),
        !(200 <= status <= 299),
    ensures
        ({
            let before = asked(run, states);
            &&& asked_after(run, states, EventSeen::Begin, now) == before
            &&& asked_after(run, states, EventSeen::BuildFailed { error: text }, now) == before
            &&& asked_after(run, states, EventSeen::Body { text }, now) == before
            &&& asked_after(run, states, EventSeen::TransformFailed { error: text }, now) == before
            &&& asked_after(run, states, EventSeen::RetryFailed, now) == before
            &&& asked_after(run, states, EventSeen::RetryAnswered { status, latency }, now)
                == before
            &&& on_event(
                run,
                states,
                EventSeen::RetryAnswered { status, latency },
                now,
            ).run.last_error == "refresh succeeded but retry failed"@
            &&& on_event(run, states, EventSeen::RetryAnswered { status, latency }, now).log is None
        }),
{
    lemma_advance_keeps(now);
    assert forall|r: Run, s: States, l: Option<LogView>|
        (#[trigger] advance(r, s, now, l)).run.last_error == r.last_error by {
        lemma_advance_keeps_error(r, s, now, l);
    }
    assert forall|r: Run, s: States, l: Option<LogView>| (#[trigger] advance(r, s, now, l)).log
        == l by {
        lemma_advance_logs(r, s, now, l);
    }
}

/// Whoever is asked next is named as the last one asked and as one that was tried;
/// a request for which nobody is left names whom it named before. The pool and the
/// candidates stay.
pub proof fn law_whoever_is_asked_is_named(
    run: Run,
    states: States,
    now: u64,
    log: Option<LogView>,
)
    ensures
        ({
            let step = advance(run, states, now, log);
            &&& step.action == Action::Send ==> step.run.last_provider
                == run.candidates[step.run.current].provider && step.run.tried == run.tried.push(
                run.candidates[step.run.current].provider,
            )
            &&& step.action == Action::GiveUp ==> step.run.last_provider == run.last_provider
                && step.run.tried == run.tried
            &&& step.action == Action::Send || step.action == Action::GiveUp
            &&& step.run.pool == run.pool
            &&& step.run.candidates == run.candidates
            &&& step.run.latency == run.latency
            &&& step.run.last_error == run.last_error
        }),
    decreases run.candidates.len() - run.next,
{
    if !(run.next < 0 || run.next >= run.candidates.len()) {
        let c = run.candidates[run.next];
        let seen = states.insert(c.key(), state_in(states, c.key()));
        if !state_in(states, c.key()).available(now) {
            law_whoever_is_asked_is_named(Run { next: run.next + 1, ..run }, seen, now, log);
        }
    }
}

/// The time of the first answer is kept for the log, and an answer moves the request
/// to nobody else by itself.
pub proof fn law_answers_keep_their_time(
    run: Run,
    states: States,
    status: u16,
    header: Option<Seq<char>>,
    latency: i64,
    token: bool,
    now: u64,
)
    ensures
        ({
            let event = EventSeen::Answered {
                status,
                retry_after: header,
                latency,
                has_refresh_token: token,
            };
            on_event(run, states, event, now).run == (Run { latency, ..run })
        }),
{
}

} // verus!
