//! One request from its beginning to its end, over providers that all answer.
use vstd::prelude::*;

use crate::backoff::class_of;
use crate::flow::{
    advance, law_first_available_is_asked, on_event, state_in, Action, CandidateView, EventSeen,
    LogView, Run, States, Step,
};
use crate::model::ProviderKind;
use crate::runtime::healthy;

verus! {

/// What a provider answers, should it be asked.
pub struct Answer {
    pub status: u16,
    pub retry_after: Option<Seq<char>>,
    pub latency: i64,
    pub body: Seq<char>,
}

impl Answer {
    /// The request ends with this answer.
    pub open spec fn ends(self) -> bool {
        200 <= self.status <= 299 || self.status == 400 || self.status == 401
    }
}

/// A request for these candidates, before anyone was asked.
pub open spec fn fresh_run(pool: Seq<char>, candidates: Seq<CandidateView>) -> Run {
    Run {
        pool,
        candidates,
        next: 0,
        current: 0,
        latency: 0,
        tried: seq![],
        last_error: "no provider produced a response"@,
        last_provider: seq![],
    }
}

/// How a request ends that is about to ask its current candidate: an answer that
/// does not end it is read, and the next candidate is asked.
pub open spec fn played(run: Run, states: States, answers: Seq<Answer>, now: u64) -> Step
    decreases run.candidates.len() - run.current,
{
    let a = answers[run.current];
    let step = on_event(
        run,
        states,
        EventSeen::Answered {
            status: a.status,
            retry_after: a.retry_after,
            latency: a.latency,
            has_refresh_token: false,
        },
        now,
    );
    if step.action != Action::ReadBody {
        step
    } else {
        let next = on_event(step.run, step.states, EventSeen::Body { text: a.body }, now);
        if next.action == Action::Send && run.current < next.run.current
            < run.candidates.len() && next.run.candidates == run.candidates {
            played(next.run, next.states, answers, now)
        } else {
            next
        }
    }
}

/// How a request ends, from its beginning.
pub open spec fn whole_run(
    pool: Seq<char>,
    candidates: Seq<CandidateView>,
    states: States,
    answers: Seq<Answer>,
    now: u64,
) -> Step {
    let first = on_event(fresh_run(pool, candidates), states, EventSeen::Begin, now);
    if first.action == Action::Send {
        played(first.run, first.states, answers, now)
    } else {
        first
    }
}

/// The names of candidates, in order.
pub open spec fn names(candidates: Seq<CandidateView>) -> Seq<Seq<char>> {
    candidates.map_values(|c: CandidateView| c.provider)
}

/// Candidates that are plain providers, of which no two share a state, and from
/// the `from`-th on all may be asked now.
pub open spec fn all_ready(
    candidates: Seq<CandidateView>,
    states: States,
    from: int,
    now: u64,
) -> bool {
    &&& forall|k: int|
        0 <= k < candidates.len() ==> (#[trigger] candidates[k]).kind == ProviderKind::Passthrough
    &&& forall|j: int, k: int|
        0 <= j < k < candidates.len() ==> (#[trigger] candidates[j]).key() != (
        #[trigger] candidates[k]).key()
    &&& forall|k: int|
        from <= k < candidates.len() ==> state_in(
            states,
            (#[trigger] candidates[k]).key(),
        ).available(now)
}

/// With the next candidate ready, it is the one that is asked.
proof fn lemma_next_is_asked(run: Run, states: States, now: u64, log: Option<LogView>)
    requires
        0 <= run.next < run.candidates.len(),
        state_in(states, run.candidates[run.next].key()).available(now),
    ensures
        ({
            let step = advance(run, states, now, log);
            &&& step.action == Action::Send
            &&& step.run == (Run {
                next: run.next + 1,
                current: run.next,
                tried: run.tried.push(run.candidates[run.next].provider),
                last_provider: run.candidates[run.next].provider,
                ..run
            })
            &&& forall|k: Seq<char>| #[trigger] state_in(step.states, k) == state_in(states, k)
        }),
{
    law_first_available_is_asked(run, states, now, log);
}

proof fn lemma_played(run: Run, states: States, answers: Seq<Answer>, end: int, now: u64)
    requires
        0 <= run.current <= end <= run.candidates.len(),
        run.current < run.candidates.len(),
        run.next == run.current + 1,
        answers.len() == run.candidates.len(),
        all_ready(run.candidates, states, run.current, now),
        run.tried == names(run.candidates).subrange(0, run.current + 1),
        forall|k: int| run.current <= k < end ==> !(#[trigger] answers[k]).ends(),
        end < answers.len() ==> answers[end].ends(),
    ensures
        ends_at(played(run, states, answers, now), run.candidates, answers, end),
    decreases end - run.current,
{
    let i = run.current;
    let c = run.candidates[i];
    let a = answers[i];
    let step = on_event(
        run,
        states,
        EventSeen::Answered {
            status: a.status,
            retry_after: a.retry_after,
            latency: a.latency,
            has_refresh_token: false,
        },
        now,
    );
    assert(c.kind == ProviderKind::Passthrough);
    if i < end {
        assert(!answers[i].ends());
        assert(class_of(a.status, a.retry_after) is Retryable);
        assert(step.action == Action::ReadBody);
        let after = Run { last_error: a.body, ..step.run };
        assert forall|k: int| i < k < run.candidates.len() implies state_in(
            step.states,
            (#[trigger] run.candidates[k]).key(),
        ).available(now) by {
            assert(run.candidates[i].key() != run.candidates[k].key());
        }
        let next = on_event(step.run, step.states, EventSeen::Body { text: a.body }, now);
        assert(next == advance(after, step.states, now, None));
        if i + 1 < run.candidates.len() {
            lemma_next_is_asked(after, step.states, now, None);
            assert(next.run.tried =~= names(run.candidates).subrange(0, i + 2));
            assert forall|k: int| i + 1 <= k < run.candidates.len() implies state_in(
                next.states,
                (#[trigger] run.candidates[k]).key(),
            ).available(now) by {
                assert(state_in(next.states, run.candidates[k].key()) == state_in(
                    step.states,
                    run.candidates[k].key(),
                ));
            }
            lemma_played(next.run, next.states, answers, end, now);
        } else {
            assert(names(run.candidates).subrange(0, i + 1) =~= names(run.candidates));
        }
    }
}

/// A request ended with the answer at `end`, or with none where that lies behind
/// the last.
pub open spec fn ends_at(
    step: Step,
    candidates: Seq<CandidateView>,
    answers: Seq<Answer>,
    end: int,
) -> bool {
    if end < candidates.len() {
        let key = candidates[end].key();
        &&& step.run.current == end
        &&& step.run.tried == names(candidates).subrange(0, end + 1)
        &&& if 200 <= answers[end].status <= 299 {
            step.action == Action::Relay && state_in(step.states, key) == healthy()
        } else {
            step.action == Action::Passthrough && state_in(step.states, key).status
                == crate::runtime::ProviderStatus::Misconfigured
        }
    } else {
        &&& step.action == Action::GiveUp
        &&& step.run.tried == names(candidates)
    }
}

/// Plain providers that all answer, and may all be asked, are asked once each and
/// in order up to the first that answers with success, 400 or 401, and no later
/// one. A success is passed on, and its provider is healthy. A 400 or 401 is
/// passed on as it is, and its provider is misconfigured. Where none answers so,
/// all are asked, and the client is told that nobody answered.
pub proof fn law_failover(
    pool: Seq<char>,
    candidates: Seq<CandidateView>,
    states: States,
    answers: Seq<Answer>,
    end: int,
    now: u64,
)
    requires
        answers.len() == candidates.len(),
        all_ready(candidates, states, 0, now),
        0 <= end <= answers.len(),
        forall|k: int| 0 <= k < end ==> !(#[trigger] answers[k]).ends(),
        end < answers.len() ==> answers[end].ends(),
    ensures
        ends_at(whole_run(pool, candidates, states, answers, now), candidates, answers, end),
{
    let run = fresh_run(pool, candidates);
    if candidates.len() > 0 {
        assert(state_in(states, candidates[0].key()).available(now));
        lemma_next_is_asked(run, states, now, None);
        let first = on_event(run, states, EventSeen::Begin, now);
        assert(first.run.tried =~= names(candidates).subrange(0, 1));
        assert forall|k: int| 0 <= k < candidates.len() implies state_in(
            first.states,
            (#[trigger] candidates[k]).key(),
        ).available(now) by {
            assert(state_in(first.states, candidates[k].key()) == state_in(
                states,
                candidates[k].key(),
            ));
        }
        lemma_played(first.run, first.states, answers, end, now);
    } else {
        assert(names(candidates) =~= seq![]);
    }
}

} // verus!
