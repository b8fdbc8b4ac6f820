//! One request on its way through the providers: whom to ask next, what each
//! answer means, what is remembered and logged of it, and what the client gets
//! in the end. The caller sends and receives.
use vstd::prelude::*;

use crate::backoff::{
    class_of, classify, cooldown, cooldown_for, opt_str, overloaded, MAX_RETRY_AFTER_SECS,
};
use crate::codex::sse_bridge::opt_text;
use crate::error::{wire_error, wire_error_body, ErrorClass};
use crate::json::{parse_json_bytes, parsed_bytes, Json, JsonView};
use crate::model::{LogEntry, ProviderKind, WireFormat};
use crate::runtime::{
    healthy, key_of, runtime_key, ProviderRuntimeState, ProviderStatus, RuntimeTable,
};
use crate::text::{
    concat2, concat3, chars_of, head, join, joined, owned, take, texts,
};

verus! {

/// A provider to ask, and the model to ask it for.
pub struct Candidate {
    pub provider_id: String,
    pub model: String,
    pub kind: ProviderKind,
}

/// What a `Candidate` stands for.
pub struct CandidateView {
    pub provider: Seq<char>,
    pub model: Seq<char>,
    pub kind: ProviderKind,
}

impl View for Candidate {
    type V = CandidateView;

    open spec fn view(&self) -> CandidateView {
        CandidateView { provider: self.provider_id@, model: self.model@, kind: self.kind }
    }
}

impl CandidateView {
    /// The key of its runtime state.
    pub open spec fn key(self) -> Seq<char> {
        key_of(self.provider, self.model)
    }
}

/// What candidates stand for.
pub open spec fn candidates_view(v: Seq<Candidate>) -> Seq<CandidateView> {
    v.map_values(|c: Candidate| c@)
}

/// A request under way.
pub struct ProxyRun {
    pub pool_id: String,
    pub candidates: Vec<Candidate>,
    /// The next candidate to consider.
    pub next: usize,
    /// The candidate that is being asked.
    pub current: usize,
    /// The time that its first answer took.
    pub latency_ms: i64,
    pub tried: Vec<String>,
    pub last_error: String,
    pub last_provider: String,
}

/// What a `ProxyRun` stands for.
#[verifier::ext_equal]
pub struct Run {
    pub pool: Seq<char>,
    pub candidates: Seq<CandidateView>,
    pub next: int,
    pub current: int,
    pub latency: i64,
    pub tried: Seq<Seq<char>>,
    pub last_error: Seq<char>,
    pub last_provider: Seq<char>,
}

impl View for ProxyRun {
    type V = Run;

    open spec fn view(&self) -> Run {
        Run {
            pool: self.pool_id@,
            candidates: candidates_view(self.candidates@),
            next: self.next as int,
            current: self.current as int,
            latency: self.latency_ms,
            tried: texts(self.tried@),
            last_error: self.last_error@,
            last_provider: self.last_provider@,
        }
    }
}

/// What happened to a request.
pub enum Event {
    /// It came in.
    Begin,
    /// No request could be built for the provider.
    BuildFailed { error: String },
    /// The provider could not be reached.
    SendFailed { error: String, latency_ms: i64 },
    /// The provider answered, with this status and `retry-after` header.
    Answered {
        status: u16,
        retry_after: Option<String>,
        latency_ms: i64,
        has_refresh_token: bool,
    },
    /// The text of an answer that is not passed on.
    Body { text: String },
    /// The answer could not be turned into one for the client.
    TransformFailed { error: String },
    /// The credentials were renewed.
    Refreshed,
    /// The login is no longer valid.
    RefreshInvalid,
    /// The credentials could not be renewed just now.
    RefreshTransient { error: String },
    /// The provider answered to the renewed credentials.
    RetryAnswered { status: u16, latency_ms: i64 },
    /// No answer to the renewed credentials reached the client.
    RetryFailed,
}

/// What an `Event` stands for.
pub enum EventSeen {
    Begin,
    BuildFailed { error: Seq<char> },
    SendFailed { error: Seq<char>, latency: i64 },
    Answered {
        status: u16,
        retry_after: Option<Seq<char>>,
        latency: i64,
        has_refresh_token: bool,
    },
    Body { text: Seq<char> },
    TransformFailed { error: Seq<char> },
    Refreshed,
    RefreshInvalid,
    RefreshTransient { error: Seq<char> },
    RetryAnswered { status: u16, latency: i64 },
    RetryFailed,
}

impl View for Event {
    type V = EventSeen;

    open spec fn view(&self) -> EventSeen {
        match self {
            Event::Begin => EventSeen::Begin,
            Event::BuildFailed { error } => EventSeen::BuildFailed { error: error@ },
            Event::SendFailed { error, latency_ms } => EventSeen::SendFailed {
                error: error@,
                latency: *latency_ms,
            },
            Event::Answered { status, retry_after, latency_ms, has_refresh_token } =>
                EventSeen::Answered {
                status: *status,
                retry_after: opt_text(*retry_after),
                latency: *latency_ms,
                has_refresh_token: *has_refresh_token,
            },
            Event::Body { text } => EventSeen::Body { text: text@ },
            Event::TransformFailed { error } => EventSeen::TransformFailed { error: error@ },
            Event::Refreshed => EventSeen::Refreshed,
            Event::RefreshInvalid => EventSeen::RefreshInvalid,
            Event::RefreshTransient { error } => EventSeen::RefreshTransient { error: error@ },
            Event::RetryAnswered { status, latency_ms } => EventSeen::RetryAnswered {
                status: *status,
                latency: *latency_ms,
            },
            Event::RetryFailed => EventSeen::RetryFailed,
        }
    }
}

/// What to do next for a request.
#[derive(Clone, Copy, Debug, PartialEq, Eq, Structural)]
pub enum Action {
    /// Ask the current candidate.
    Send,
    /// Pass the answer on to the client.
    Relay,
    /// Read the text of the answer, which is not passed on.
    ReadBody,
    /// Give the client the provider's own error.
    Passthrough,
    /// Renew the credentials of the current candidate.
    Refresh,
    /// Ask the current candidate again, with renewed credentials.
    Retry,
    /// Pass the answer to the renewed credentials on to the client.
    RelayRetry,
    /// Tell the client that nobody answered.
    GiveUp,
}

/// What a line of the request log says.
pub struct LogView {
    pub pool: Option<Seq<char>>,
    pub provider: Option<Seq<char>>,
    pub status: Option<i64>,
    pub latency: i64,
    pub success: bool,
}

/// What an optional line of the request log says.
pub open spec fn log_view(e: Option<LogEntry>) -> Option<LogView> {
    match e {
        Some(l) => Some(
            LogView {
                pool: opt_text(l.pool_id),
                provider: opt_text(l.provider_id),
                status: l.status_code,
                latency: l.latency_ms,
                success: l.success,
            },
        ),
        None => None,
    }
}

/// The states of all providers and models.
pub type States = Map<Seq<char>, ProviderRuntimeState>;

/// The state under a key; a healthy one where there is none.
pub open spec fn state_in(m: States, key: Seq<char>) -> ProviderRuntimeState {
    if m.contains_key(key) {
        m[key]
    } else {
        healthy()
    }
}

/// A request, the states of the providers, and what to do and log next.
#[verifier::ext_equal]
pub struct Step {
    pub run: Run,
    pub states: States,
    pub action: Action,
    pub log: Option<LogView>,
}

/// Whom to ask next: the next candidate that may be asked now.
pub open spec fn advance(run: Run, states: States, now: u64, log: Option<LogView>) -> Step
    decreases run.candidates.len() - run.next,
{
    if run.next < 0 || run.next >= run.candidates.len() {
        Step { run, states, action: Action::GiveUp, log }
    } else {
        let c = run.candidates[run.next];
        let seen = states.insert(c.key(), state_in(states, c.key()));
        if state_in(states, c.key()).available(now) {
            Step {
                run: Run {
                    next: run.next + 1,
                    current: run.next,
                    tried: run.tried.push(c.provider),
                    last_provider: c.provider,
                    ..run
                },
                states: seen,
                action: Action::Send,
                log,
            }
        } else {
            advance(Run { next: run.next + 1, ..run }, seen, now, log)
        }
    }
}

/// The level after one more failure, which stays at the last one.
pub open spec fn next_level(level: u8) -> int {
    if level == 255 {
        255
    } else {
        level + 1
    }
}

/// The rest of a provider that failed with a status: what it asked for itself,
/// or else by its level where it is overloaded, or else half a minute.
pub open spec fn rest_after(status: u16, asked: Option<u64>, level: u8) -> int {
    match asked {
        Some(n) => n as int,
        None => if overloaded(status) {
            cooldown(next_level(level))
        } else {
            30
        },
    }
}

/// The line of the log for an answer of the current candidate.
pub open spec fn logged(run: Run, status: Option<i64>, latency: i64, success: bool) -> Option<
    LogView,
> {
    Some(
        LogView {
            pool: Some(run.pool),
            provider: Some(run.candidates[run.current].provider),
            status,
            latency,
            success,
        },
    )
}

/// The states with that of the current candidate set.
pub open spec fn with_state(run: Run, states: States, s: ProviderRuntimeState) -> States {
    states.insert(run.candidates[run.current].key(), s)
}

/// What an event means for a request.
pub open spec fn on_event(run: Run, states: States, event: EventSeen, now: u64) -> Step {
    let c = run.candidates[run.current];
    let s = state_in(states, c.key());
    match event {
        EventSeen::Begin => advance(run, states, now, None),
        EventSeen::BuildFailed { error } => advance(
            Run { last_error: "request build failed: "@ + error, ..run },
            states,
            now,
            None,
        ),
        EventSeen::SendFailed { error, latency } => advance(
            Run { last_error: "upstream request error: "@ + error, ..run },
            with_state(run, states, s.rested(cooldown(next_level(s.backoff_level)) as u64, now)),
            now,
            logged(run, None, latency, false),
        ),
        EventSeen::Answered { status, retry_after, latency, has_refresh_token } => {
            let seen = Run { latency, ..run };
            match class_of(status, retry_after) {
                ErrorClass::Success => Step {
                    run: seen,
                    states: with_state(run, states, healthy()),
                    action: Action::Relay,
                    log: logged(run, Some(status as i64), latency, true),
                },
                ErrorClass::NonRetryable => Step {
                    run: seen,
                    states: with_state(run, states, s.misconfigured()),
                    action: Action::Passthrough,
                    log: logged(run, Some(status as i64), latency, false),
                },
                ErrorClass::AuthExpired => if c.kind == ProviderKind::OauthCodex
                    && has_refresh_token {
                    Step { run: seen, states, action: Action::Refresh, log: None }
                } else {
                    Step {
                        run: seen,
                        states: with_state(run, states, s.misconfigured()),
                        action: Action::Passthrough,
                        log: logged(run, Some(status as i64), latency, false),
                    }
                },
                ErrorClass::Retryable { retry_after: asked } => Step {
                    run: seen,
                    states: with_state(
                        run,
                        states,
                        s.rested(rest_after(status, asked, s.backoff_level) as u64, now),
                    ),
                    action: Action::ReadBody,
                    log: logged(run, Some(status as i64), latency, false),
                },
            }
        },
        EventSeen::Body { text } => advance(Run { last_error: text, ..run }, states, now, None),
        EventSeen::TransformFailed { error } => advance(
            Run { last_error: "response transform failed: "@ + error, ..run },
            states,
            now,
            None,
        ),
        EventSeen::Refreshed => Step { run, states, action: Action::Retry, log: None },
        EventSeen::RefreshInvalid => advance(
            Run { last_error: "refresh token invalid_grant; re-auth required"@, ..run },
            with_state(run, states, s.misconfigured()),
            now,
            logged(run, Some(401), run.latency, false),
        ),
        EventSeen::RefreshTransient { error } => advance(
            Run { last_error: "transient refresh error: "@ + error, ..run },
            with_state(run, states, s.rested(cooldown(next_level(s.backoff_level)) as u64, now)),
            now,
            logged(run, Some(401), run.latency, false),
        ),
        EventSeen::RetryAnswered { status, latency } => if 200 <= status <= 299 {
            Step {
                run,
                states: with_state(run, states, healthy()),
                action: Action::RelayRetry,
                log: logged(run, Some(status as i64), latency, true),
            }
        } else {
            advance(
                Run { last_error: "refresh succeeded but retry failed"@, ..run },
                states,
                now,
                None,
            )
        },
        EventSeen::RetryFailed => advance(
            Run { last_error: "refresh succeeded but retry failed"@, ..run },
            states,
            now,
            None,
        ),
    }
}

/// The latest time at which a rest can still be counted.
pub open spec fn clock_ok(now: u64) -> bool {
    now + 1000 * MAX_RETRY_AFTER_SECS <= u64::MAX
}

impl ProxyRun {
    /// A request for a pool, before anyone was asked.
    pub fn new(pool_id: String, candidates: Vec<Candidate>) -> (r: ProxyRun)
        ensures
            r@ == (Run {
                pool: pool_id@,
                candidates: candidates_view(candidates@),
                next: 0,
                current: 0,
                latency: 0,
                tried: seq![],
                last_error: "no provider produced a response"@,
                last_provider: seq![],
            }),
    {
        let r = ProxyRun {
            pool_id,
            candidates,
            next: 0,
            current: 0,
            latency_ms: 0,
            tried: Vec::new(),
            last_error: owned("no provider produced a response"),
            last_provider: String::new(),
        };
        assert(texts(r.tried@) =~= seq![]);
        r
    }

    /// Moves on to the next candidate that may be asked now.
    fn advance(&mut self, runtime: &mut RuntimeTable, now: u64) -> (r: Action)
        requires
            old(self).next <= old(self).candidates.len(),
        ensures
            final(self).next <= final(self).candidates.len(),
            r == Action::Send || r == Action::GiveUp,
            r == Action::Send ==> final(self).current < final(self).candidates.len(),
            forall|log: Option<LogView>|
                #[trigger] advance(old(self)@, old(runtime)@, now, log) == (Step {
                    run: final(self)@,
                    states: final(runtime)@,
                    action: r,
                    log,
                }),
    {
        let ghost run = self@;
        let ghost states = runtime@;
        loop
            invariant
                self.next <= self.candidates.len(),
                forall|log: Option<LogView>|
                    #[trigger] advance(run, states, now, log) == advance(
                        self@,
                        runtime@,
                        now,
                        log,
                    ),
                run == old(self)@,
                states == old(runtime)@,
            decreases self.candidates.len() - self.next,
        {
            if self.next >= self.candidates.len() {
                return Action::GiveUp;
            }
            let i: usize = self.next;
            let ghost before = self@;
            let ghost known = runtime@;
            let key = runtime_key(
                self.candidates[i].provider_id.as_str(),
                self.candidates[i].model.as_str(),
            );
            assert(self@.candidates[i as int].key() == key@);
            let state = runtime.entry(key.as_str());
            assert(runtime@ == known.insert(key@, state_in(known, key@)));
            self.next = i + 1;
            if state.is_available(now) {
                let id = owned(self.candidates[i].provider_id.as_str());
                self.last_provider = owned(id.as_str());
                let ghost tried = self.tried@;
                self.tried.push(id);
                assert(texts(self.tried@) =~= texts(tried).push(id@));
                self.current = i;
                proof {
                    let c = before.candidates[i as int];
                    assert(self@ =~= Run {
                        next: before.next + 1,
                        current: before.next,
                        tried: before.tried.push(c.provider),
                        last_provider: c.provider,
                        ..before
                    });
                }
                return Action::Send;
            }
            proof {
                assert(self@ =~= Run { next: before.next + 1, ..before });
            }
        }
    }

    /// The state of the current candidate.
    fn state(&self, runtime: &RuntimeTable) -> (r: ProviderRuntimeState)
        requires
            self.current < self.candidates.len(),
        ensures
            r == state_in(runtime@, self@.candidates[self.current as int].key()),
    {
        let c = &self.candidates[self.current];
        let key = runtime_key(c.provider_id.as_str(), c.model.as_str());
        match runtime.get(key.as_str()) {
            Some(s) => s,
            None => ProviderRuntimeState {
                backoff_level: 0,
                unavailable_until: None,
                status: crate::runtime::ProviderStatus::Healthy,
            },
        }
    }

    /// Sets the state of the current candidate.
    fn set_state(&self, runtime: &mut RuntimeTable, state: ProviderRuntimeState)
        requires
            self.current < self.candidates.len(),
        ensures
            final(runtime)@ == with_state(self@, old(runtime)@, state),
    {
        let c = &self.candidates[self.current];
        let key = runtime_key(c.provider_id.as_str(), c.model.as_str());
        runtime.set(key.as_str(), state);
    }

    /// The line of the log for an answer of the current candidate.
    fn log(&self, status: Option<i64>, latency_ms: i64, success: bool) -> (r: Option<LogEntry>)
        requires
            self.current < self.candidates.len(),
        ensures
            log_view(r) == logged(self@, status, latency_ms, success),
    {
        Some(
            LogEntry {
                pool_id: Some(owned(self.pool_id.as_str())),
                provider_id: Some(owned(self.candidates[self.current].provider_id.as_str())),
                status_code: status,
                latency_ms,
                success,
            },
        )
    }

    /// Counts a failure of the current candidate, which rests for a time.
    fn rest(&self, runtime: &mut RuntimeTable, cooldown: u64, now: u64)
        requires
            self.current < self.candidates.len(),
            now + cooldown * 1000 <= u64::MAX,
        ensures
            final(runtime)@ == with_state(
                self@,
                old(runtime)@,
                state_in(old(runtime)@, self@.candidates[self.current as int].key()).rested(
                    cooldown,
                    now,
                ),
            ),
    {
        let mut s = self.state(runtime);
        s.record_retryable(cooldown, now);
        self.set_state(runtime, s);
    }

    /// Marks the current candidate as one that only a person can mend.
    fn misconfigure(&self, runtime: &mut RuntimeTable)
        requires
            self.current < self.candidates.len(),
        ensures
            final(runtime)@ == with_state(
                self@,
                old(runtime)@,
                state_in(
                    old(runtime)@,
                    self@.candidates[self.current as int].key(),
                ).misconfigured(),
            ),
    {
        let mut s = self.state(runtime);
        s.mark_misconfigured();
        self.set_state(runtime, s);
    }

    /// Clears what was held against the current candidate.
    fn succeed(&self, runtime: &mut RuntimeTable)
        requires
            self.current < self.candidates.len(),
        ensures
            final(runtime)@ == with_state(self@, old(runtime)@, healthy()),
    {
        let mut s = self.state(runtime);
        s.record_success();
        self.set_state(runtime, s);
    }

    /// The rest of the current candidate by its level.
    fn level_rest(&self, runtime: &RuntimeTable) -> (r: u64)
        requires
            self.current < self.candidates.len(),
        ensures
            r as int == cooldown(
                next_level(
                    state_in(
                        runtime@,
                        self@.candidates[self.current as int].key(),
                    ).backoff_level,
                ),
            ),
            r <= 300,
    {
        let s = self.state(runtime);
        cooldown_for(s.backoff_level.saturating_add(1))
    }

    /// What an answer means for the request.
    fn answered(
        &mut self,
        runtime: &mut RuntimeTable,
        status: u16,
        retry_after: Option<String>,
        has_refresh_token: bool,
        latency_ms: i64,
        now: u64,
    ) -> (r: (Action, Option<LogEntry>))
        requires
            clock_ok(now),
            old(self).current < old(self).candidates.len(),
        ensures
            (Step {
                run: final(self)@,
                states: final(runtime)@,
                action: r.0,
                log: log_view(r.1),
            }) == on_event(
                old(self)@,
                old(runtime)@,
                (EventSeen::Answered {
                    status,
                    retry_after: opt_text(retry_after),
                    latency: latency_ms,
                    has_refresh_token,
                }),
                now,
            ),
            final(self).next == old(self).next,
            final(self).current == old(self).current,
            final(self).candidates == old(self).candidates,
    {
        let ghost run = self@;
        self.latency_ms = latency_ms;
        assert(self@ =~= Run { latency: latency_ms, ..run });
        let raw: Option<&str> = match &retry_after {
            Some(s) => Some(s.as_str()),
            None => None,
        };
        assert(opt_str(raw) == opt_text(retry_after));
        match classify(status, raw) {
            ErrorClass::Success => {
                self.succeed(runtime);
                let entry = self.log(Some(status as i64), latency_ms, true);
                (Action::Relay, entry)
            },
            ErrorClass::NonRetryable => {
                self.misconfigure(runtime);
                let entry = self.log(Some(status as i64), latency_ms, false);
                (Action::Passthrough, entry)
            },
            ErrorClass::AuthExpired => {
                if self.candidates[self.current].kind == ProviderKind::OauthCodex
                    && has_refresh_token {
                    return (Action::Refresh, None);
                }
                self.misconfigure(runtime);
                let entry = self.log(Some(status as i64), latency_ms, false);
                (Action::Passthrough, entry)
            },
            ErrorClass::Retryable { retry_after: asked } => {
                let cooldown: u64 = match asked {
                    Some(n) => n,
                    None => if status == 429 || status == 408 || (500 <= status && status <= 599) {
                        self.level_rest(runtime)
                    } else {
                        30
                    },
                };
                self.rest(runtime, cooldown, now);
                let entry = self.log(Some(status as i64), latency_ms, false);
                (Action::ReadBody, entry)
            },
        }
    }

    /// Takes in what happened, and says what to do and what to log next.
    pub fn step(&mut self, runtime: &mut RuntimeTable, event: Event, now: u64) -> (r: (
        Action,
        Option<LogEntry>,
    ))
        requires
            clock_ok(now),
            old(self).next <= old(self).candidates.len(),
            !(event is Begin) ==> old(self).current < old(self).candidates.len(),
        ensures
            (Step {
                run: final(self)@,
                states: final(runtime)@,
                action: r.0,
                log: log_view(r.1),
            }) == on_event(old(self)@, old(runtime)@, event@, now),
            final(self).next <= final(self).candidates.len(),
            r.0 != Action::GiveUp ==> final(self).current < final(self).candidates.len(),
    {
        let ghost run = self@;
        match event {
            Event::Begin => (self.advance(runtime, now), None),
            Event::BuildFailed { error } => {
                self.last_error = concat2("request build failed: ", error.as_str());
                assert(self@ =~= Run {
                    last_error: "request build failed: "@ + error@,
                    ..run
                });
                (self.advance(runtime, now), None)
            },
            Event::SendFailed { error, latency_ms } => {
                let cooldown: u64 = self.level_rest(runtime);
                self.rest(runtime, cooldown, now);
                let entry = self.log(None, latency_ms, false);
                self.last_error = concat2("upstream request error: ", error.as_str());
                assert(self@ =~= Run {
                    last_error: "upstream request error: "@ + error@,
                    ..run
                });
                (self.advance(runtime, now), entry)
            },
            Event::Answered { status, retry_after, latency_ms, has_refresh_token } => {
                self.answered(runtime, status, retry_after, has_refresh_token, latency_ms, now)
            },
            Event::Body { text } => {
                self.last_error = text;
                assert(self@ =~= Run { last_error: text@, ..run });
                (self.advance(runtime, now), None)
            },
            Event::TransformFailed { error } => {
                self.last_error = concat2("response transform failed: ", error.as_str());
                assert(self@ =~= Run {
                    last_error: "response transform failed: "@ + error@,
                    ..run
                });
                (self.advance(runtime, now), None)
            },
            Event::Refreshed => (Action::Retry, None),
            Event::RefreshInvalid => {
                self.misconfigure(runtime);
                let entry = self.log(Some(401), self.latency_ms, false);
                self.last_error = owned("refresh token invalid_grant; re-auth required");
                assert(self@ =~= Run {
                    last_error: "refresh token invalid_grant; re-auth required"@,
                    ..run
                });
                (self.advance(runtime, now), entry)
            },
            Event::RefreshTransient { error } => {
                let cooldown: u64 = self.level_rest(runtime);
                self.rest(runtime, cooldown, now);
                let entry = self.log(Some(401), self.latency_ms, false);
                self.last_error = concat2("transient refresh error: ", error.as_str());
                assert(self@ =~= Run {
                    last_error: "transient refresh error: "@ + error@,
                    ..run
                });
                (self.advance(runtime, now), entry)
            },
            Event::RetryAnswered { status, latency_ms } => {
                if 200 <= status && status <= 299 {
                    self.succeed(runtime);
                    let entry = self.log(Some(status as i64), latency_ms, true);
                    return (Action::RelayRetry, entry);
                }
                self.last_error = owned("refresh succeeded but retry failed");
                assert(self@ =~= Run {
                    last_error: "refresh succeeded but retry failed"@,
                    ..run
                });
                (self.advance(runtime, now), None)
            },
            Event::RetryFailed => {
                self.last_error = owned("refresh succeeded but retry failed");
                assert(self@ =~= Run {
                    last_error: "refresh succeeded but retry failed"@,
                    ..run
                });
                (self.advance(runtime, now), None)
            },
        }
    }

    /// The status and the JSON that the client gets when nobody answered.
    pub fn failure(&self, wire: WireFormat) -> (r: (u16, Json))
        ensures
            r.0 == 503,
            r.1@ == wire_error_body(wire, self@.last_error),
    {
        (503, wire_error(wire, self.last_error.as_str()))
    }
}

// ---------------------------------------------------------------------------
// Laws
// ---------------------------------------------------------------------------

/// The next candidate asked is the first one left that may be asked now, and
/// the client is told that nobody answered only when none of those left may.
/// Whoever was passed over keeps its state.
pub proof fn law_first_available_is_asked(run: Run, states: States, now: u64, log: Option<LogView>)
    requires
        0 <= run.next <= run.candidates.len(),
    ensures
        ({
            let step = advance(run, states, now, log);
            &&& step.action == Action::Send || step.action == Action::GiveUp
            &&& step.action == Action::GiveUp ==> forall|i: int|
                run.next <= i < run.candidates.len() ==> !state_in(
                    states,
                    #[trigger] run.candidates[i].key(),
                ).available(now)
            &&& step.action == Action::Send ==> {
                let chosen = step.run.current;
                &&& run.next <= chosen < run.candidates.len()
                &&& step.run.next == chosen + 1
                &&& state_in(states, run.candidates[chosen].key()).available(now)
                &&& forall|i: int|
                    run.next <= i < chosen ==> !state_in(
                        states,
                        #[trigger] run.candidates[i].key(),
                    ).available(now)
                &&& step.run.tried == run.tried.push(run.candidates[chosen].provider)
            }
            &&& forall|k: Seq<char>| #[trigger] state_in(step.states, k) == state_in(states, k)
        }),
    decreases run.candidates.len() - run.next,
{
    if run.next < run.candidates.len() {
        let c = run.candidates[run.next];
        let seen = states.insert(c.key(), state_in(states, c.key()));
        assert forall|k: Seq<char>| #[trigger] state_in(seen, k) == state_in(states, k) by {}
        if !state_in(states, c.key()).available(now) {
            let skipped = Run { next: run.next + 1, ..run };
            law_first_available_is_asked(skipped, seen, now, log);
            let step = advance(skipped, seen, now, log);
            assert forall|i: int| run.next <= i < run.candidates.len() && step.action
                == Action::GiveUp implies !state_in(
                states,
                #[trigger] run.candidates[i].key(),
            ).available(now) by {
                if i > run.next {
                    assert(!state_in(seen, skipped.candidates[i].key()).available(now));
                }
            }
            if step.action == Action::Send {
                assert forall|i: int| run.next <= i < step.run.current implies !state_in(
                    states,
                    #[trigger] run.candidates[i].key(),
                ).available(now) by {
                    if i > run.next {
                        assert(!state_in(seen, skipped.candidates[i].key()).available(now));
                    }
                }
            }
        }
    }
}

/// A request asks each candidate for a first answer at most once: whatever
/// happens, the place from which it goes on never moves back, and it lies
/// behind whoever is asked.
pub proof fn law_candidates_are_asked_once(run: Run, states: States, event: EventSeen, now: u64)
    requires
        0 <= run.next <= run.candidates.len(),
    ensures
        run.next <= on_event(run, states, event, now).run.next <= run.candidates.len(),
        on_event(run, states, event, now).run.candidates == run.candidates,
        on_event(run, states, event, now).action == Action::Send ==> {
            &&& run.next <= on_event(run, states, event, now).run.current
            &&& on_event(run, states, event, now).run.next == on_event(
                run,
                states,
                event,
                now,
            ).run.current + 1
        },
{
    assert forall|r: Run, s: States, l: Option<LogView>|
        0 <= r.next <= r.candidates.len() implies {
        let step = #[trigger] advance(r, s, now, l);
        &&& r.next <= step.run.next <= r.candidates.len()
        &&& step.run.candidates == r.candidates
        &&& step.action == Action::Send ==> r.next <= step.run.current && step.run.next
            == step.run.current + 1
    } by {
        lemma_advance_moves_on(r, s, now, l);
    }
}

proof fn lemma_advance_moves_on(run: Run, states: States, now: u64, log: Option<LogView>)
    requires
        0 <= run.next <= run.candidates.len(),
    ensures
        ({
            let step = advance(run, states, now, log);
            &&& run.next <= step.run.next <= run.candidates.len()
            &&& step.run.candidates == run.candidates
            &&& step.action == Action::Send ==> run.next <= step.run.current && step.run.next
                == step.run.current + 1
        }),
    decreases run.candidates.len() - run.next,
{
    if run.next < run.candidates.len() {
        let c = run.candidates[run.next];
        let seen = states.insert(c.key(), state_in(states, c.key()));
        if !state_in(states, c.key()).available(now) {
            lemma_advance_moves_on(Run { next: run.next + 1, ..run }, seen, now, log);
        }
    }
}

/// Whoever is asked next may be asked now, whatever happened before: it neither
/// rests nor is it misconfigured.
pub proof fn law_only_the_available_are_asked(
    run: Run,
    states: States,
    event: EventSeen,
    now: u64,
)
    requires
        0 <= run.next <= run.candidates.len(),
        on_event(run, states, event, now).action == Action::Send,
    ensures
        ({
            let step = on_event(run, states, event, now);
            let state = state_in(step.states, run.candidates[step.run.current].key());
            &&& state.available(now)
            &&& state.status != ProviderStatus::Misconfigured
        }),
{
    assert forall|r: Run, s: States, l: Option<LogView>|
        0 <= r.next <= r.candidates.len() && (#[trigger] advance(r, s, now, l)).action
            == Action::Send implies {
        let step = advance(r, s, now, l);
        state_in(step.states, r.candidates[step.run.current].key()).available(now)
    } by {
        law_first_available_is_asked(r, s, now, l);
        let step = advance(r, s, now, l);
        let key = r.candidates[step.run.current].key();
        assert(state_in(step.states, key) == state_in(s, key));
    }
}

// ---------------------------------------------------------------------------
// Around a request
// ---------------------------------------------------------------------------

/// The status and the JSON of the answer to a request for a model that nobody
/// offers.
pub fn unknown_model(wire: WireFormat, requested: &str) -> (r: (u16, Json))
    ensures
        r.0 == 400,
        r.1@ == wire_error_body(wire, "unknown model or pool '"@ + requested@ + "'"@),
{
    let message = concat3("unknown model or pool '", requested, "'");
    (400, wire_error(wire, message.as_str()))
}

/// The status and the JSON of the answer to a request that names no model.
pub fn missing_model(wire: WireFormat) -> (r: (u16, Json))
    ensures
        r.0 == 400,
        r.1@ == wire_error_body(wire, "missing 'model' field"@),
{
    (400, wire_error(wire, "missing 'model' field"))
}

/// Whether a request asks for a stream.
pub open spec fn asks_for_stream(body: JsonView) -> bool {
    body.at("stream"@).bool() == Some(true)
}

/// Whether a request asks for a stream.
pub fn json_wants_stream(body: &Json) -> (r: bool)
    ensures
        r == asks_for_stream(body@),
{
    match body.at("stream").as_bool() {
        Some(b) => b,
        None => false,
    }
}

/// Whether a request body asks for a stream; one that is no JSON asks for none.
pub fn client_wants_stream(body: &[u8]) -> (r: bool)
    ensures
        r == match parsed_bytes(body@) {
            Ok(j) => asks_for_stream(j),
            Err(_) => false,
        },
{
    match parse_json_bytes(body) {
        Ok(j) => json_wants_stream(&j),
        Err(_) => false,
    }
}

/// The model that a request asks for.
pub fn requested_model(body: &Json) -> (r: Option<String>)
    ensures
        opt_text(r) == body@.at("model"@).str(),
{
    match body.at("model").as_str() {
        Some(s) => Some(owned(s)),
        None => None,
    }
}

/// The model that a request body asks for.
pub fn model_from_body(bytes: &[u8]) -> (r: Option<String>)
    ensures
        opt_text(r) == match parsed_bytes(bytes@) {
            Ok(j) => j.at("model"@).str(),
            Err(_) => None,
        },
{
    match parse_json_bytes(bytes) {
        Ok(j) => requested_model(&j),
        Err(_) => None,
    }
}

/// A text without line breaks.
pub open spec fn one_line(s: Seq<char>) -> Seq<char> {
    s.map_values(
        |c: char|
            if c == '\n' || c == '\r' {
                ' '
            } else {
                c
            },
    )
}

fn one_line_of(s: &str) -> (r: String)
    ensures
        r@ == one_line(s@),
{
    let v = chars_of(s);
    let mut out = String::new();
    let mut i: usize = 0;
    while i < v.len()
        invariant
            i <= v.len(),
            out@ =~= one_line(v@.subrange(0, i as int)),
        decreases v.len() - i,
    {
        if v[i] == '\n' || v[i] == '\r' {
            out.push(' ');
        } else {
            out.push(v[i]);
        }
        i += 1;
    }
    assert(v@.subrange(0, i as int) =~= v@);
    out
}

/// The texts of the headers that say how a failed request fared: who was
/// asked, who was asked last, and the beginning of the error on one line.
pub struct DebugHeaders {
    pub tried: String,
    pub provider: String,
    pub error: String,
}

pub fn debug_headers(tried: &Vec<String>, provider: &str, error: &str) -> (r: DebugHeaders)
    ensures
        r.tried@ == joined(texts(tried@), ","@),
        r.provider@ == provider@,
        r.error@ == one_line(head(error@, 200)),
{
    let short = take(error, 200);
    DebugHeaders {
        tried: join(tried, ","),
        provider: owned(provider),
        error: one_line_of(short.as_str()),
    }
}


/// A text on one line is as long as it was, with a space for each character that
/// ends a line.
pub proof fn law_one_line(s: Seq<char>, i: int)
    requires
        0 <= i < s.len(),
    ensures
        one_line(s).len() == s.len(),
        s[i] == '\n' || s[i] == '\r' ==> one_line(s)[i] == ' ',
        s[i] != '\n' && s[i] != '\r' ==> one_line(s)[i] == s[i],
{
}

/// A request asks for a stream exactly where it says so.
pub proof fn law_streams_are_asked_for(body: JsonView)
    ensures
        asks_for_stream(body) <==> body.at("stream"@) == JsonView::Bool(true),
{
}

} // verus!
