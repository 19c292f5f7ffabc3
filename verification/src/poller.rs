//! The racing-selector poller: a fixed, ordered set of presence-probes is
//! evaluated once per tick until one reports present or a shared deadline
//! elapses. Ties are broken by declared order, never by arrival order. A
//! probe error other than "not currently present" is tolerated until the
//! deadline and surfaced then, in place of a bare timeout.

use vstd::prelude::*;

verus! {

/// What one probe reported on one tick.
#[derive(Clone, Copy, PartialEq, Eq, Structural, Debug)]
pub enum ProbeReading {
    /// The probed fragment is on the page.
    Present,
    /// The probed fragment is not on the page.
    Absent,
    /// The probe itself failed: the driver could not answer.
    Failed,
}

/// Poller state carried between ticks: the most recently failed probe, if
/// any probe has failed so far.
#[derive(Clone, Copy, PartialEq, Eq, Debug)]
pub struct PollerState {
    pub last_failed: Option<usize>,
}

impl PollerState {
    /// The state before the first tick.
    pub fn init() -> (s: PollerState)
        ensures
            s.last_failed is None,
    {
        PollerState { last_failed: None }
    }
}

/// What one tick decides.
#[derive(Clone, Copy, PartialEq, Eq, Debug)]
pub enum PollStep {
    /// The probe at this declared position won the race.
    Win { probe: usize },
    /// The deadline elapsed and no probe ever failed.
    TimedOut,
    /// The deadline elapsed after the probe at this position failed.
    Failed { probe: usize },
    /// Nothing decided; poll again after the tick interval.
    Continue,
}

/// The earliest-declared present probe at or after position `i`.
pub open spec fn winner_from(obs: Seq<ProbeReading>, i: int) -> Option<int>
    decreases obs.len() - i,
{
    if i < 0 || i >= obs.len() {
        None
    } else if obs[i] is Present {
        Some(i)
    } else {
        winner_from(obs, i + 1)
    }
}

/// The latest-declared failed probe of a tick, if any failed.
pub open spec fn last_failed_in(obs: Seq<ProbeReading>) -> Option<int>
    decreases obs.len(),
{
    if obs.len() == 0 {
        None
    } else if obs.last() is Failed {
        Some(obs.len() - 1)
    } else {
        last_failed_in(obs.drop_last())
    }
}

/// Law: the race is never ambiguous. Whenever one or more probes report
/// present on the same tick, the winner is the earliest-declared one; when
/// none does, there is no winner.
pub proof fn lemma_earliest_declared_wins(obs: Seq<ProbeReading>)
    ensures
        match winner_from(obs, 0) {
            Some(w) => 0 <= w < obs.len() && obs[w] is Present && forall|j: int|
                0 <= j < w ==> !(obs[j] is Present),
            None => forall|j: int| 0 <= j < obs.len() ==> !(obs[j] is Present),
        },
{
    lemma_winner_from(obs, 0);
}

proof fn lemma_winner_from(obs: Seq<ProbeReading>, i: int)
    requires
        0 <= i <= obs.len(),
    ensures
        match winner_from(obs, i) {
            Some(w) => i <= w < obs.len() && obs[w] is Present && forall|j: int|
                i <= j < w ==> !(obs[j] is Present),
            None => forall|j: int| i <= j < obs.len() ==> !(obs[j] is Present),
        },
    decreases obs.len() - i,
{
    if i < obs.len() && !(obs[i] is Present) {
        lemma_winner_from(obs, i + 1);
    }
}

proof fn lemma_last_failed_in(obs: Seq<ProbeReading>)
    ensures
        match last_failed_in(obs) {
            Some(f) => 0 <= f < obs.len() && obs[f] is Failed && forall|j: int|
                f < j < obs.len() ==> !(obs[j] is Failed),
            None => forall|j: int| 0 <= j < obs.len() ==> !(obs[j] is Failed),
        },
    decreases obs.len(),
{
    if obs.len() > 0 && !(obs.last() is Failed) {
        lemma_last_failed_in(obs.drop_last());
        assert(forall|j: int| 0 <= j < obs.len() - 1 ==> obs.drop_last()[j] == obs[j]);
    }
}

/// What one tick decides, and the state carried to the next tick. The
/// deadline is enforced at the top of the tick: once `elapsed_ms` has
/// reached `deadline_ms` no probe can win, and the poller reports the most
/// recently failed probe, or a timeout if none ever failed. Before the
/// deadline, the earliest-declared present probe wins; otherwise the tick
/// records the most recent probe failure and continues.
pub open spec fn step_spec(
    state: PollerState,
    obs: Seq<ProbeReading>,
    elapsed_ms: u64,
    deadline_ms: u64,
) -> (PollStep, PollerState) {
    if elapsed_ms >= deadline_ms {
        (
            match state.last_failed {
                Some(p) => PollStep::Failed { probe: p },
                None => PollStep::TimedOut,
            },
            state,
        )
    } else {
        match winner_from(obs, 0) {
            Some(w) => (PollStep::Win { probe: w as usize }, state),
            None => (
                PollStep::Continue,
                match last_failed_in(obs) {
                    Some(f) => PollerState { last_failed: Some(f as usize) },
                    None => state,
                },
            ),
        }
    }
}

/// Decides one tick of the race.
#[verifier::loop_isolation(false)]
pub fn poll_step(
    state: PollerState,
    obs: &Vec<ProbeReading>,
    elapsed_ms: u64,
    deadline_ms: u64,
) -> (r: (PollStep, PollerState))
    ensures
        r == step_spec(state, obs@, elapsed_ms, deadline_ms),
{
    if elapsed_ms >= deadline_ms {
        let step = match state.last_failed {
            Some(p) => PollStep::Failed { probe: p },
            None => PollStep::TimedOut,
        };
        return (step, state);
    }
    let n = obs.len();
    let mut i: usize = 0;
    while i < n
        invariant
            i <= n,
            winner_from(obs@, 0) == winner_from(obs@, i as int),
        decreases n - i,
    {
        match obs[i] {
            ProbeReading::Present => {
                return (PollStep::Win { probe: i }, state);
            },
            _ => {},
        }
        i = i + 1;
    }
    proof {
        assert(obs@.take(n as int) =~= obs@);
    }
    let mut j: usize = n;
    while j > 0
        invariant
            j <= n,
            last_failed_in(obs@) == last_failed_in(obs@.take(j as int)),
        decreases j,
    {
        match obs[j - 1] {
            ProbeReading::Failed => {
                proof {
                    assert(obs@.take(j as int).last() == obs@[j - 1]);
                }
                return (PollStep::Continue, PollerState { last_failed: Some(j - 1) });
            },
            _ => {},
        }
        proof {
            assert(obs@.take(j as int).last() == obs@[j - 1]);
            assert(obs@.take(j as int).drop_last() =~= obs@.take(j - 1 as int));
        }
        j = j - 1;
    }
    proof {
        assert(obs@.take(0) =~= Seq::<ProbeReading>::empty());
    }
    (PollStep::Continue, state)
}

/// A poll run over a trace of ticks, each an elapsed time and the probes'
/// readings at that time: the first tick that decides, decides the run, at
/// its tick time; a trace whose every tick continues decides nothing.
pub open spec fn run_spec(
    trace: Seq<(u64, Seq<ProbeReading>)>,
    state: PollerState,
    deadline_ms: u64,
) -> Option<(PollStep, u64)>
    decreases trace.len(),
{
    if trace.len() == 0 {
        None
    } else {
        let r = step_spec(state, trace[0].1, trace[0].0, deadline_ms);
        if r.0 is Continue {
            run_spec(trace.drop_first(), r.1, deadline_ms)
        } else {
            Some((r.0, trace[0].0))
        }
    }
}

/// The number of ticks a run consumes before deciding: the index of the
/// deciding tick, or the trace length when every tick continues.
pub open spec fn decided_at(
    trace: Seq<(u64, Seq<ProbeReading>)>,
    state: PollerState,
    deadline_ms: u64,
) -> int
    decreases trace.len(),
{
    if trace.len() == 0 {
        0
    } else {
        let r = step_spec(state, trace[0].1, trace[0].0, deadline_ms);
        if r.0 is Continue {
            1 + decided_at(trace.drop_first(), r.1, deadline_ms)
        } else {
            0
        }
    }
}

/// The tick readings of an executable trace.
pub open spec fn trace_view(tr: Seq<(u64, Vec<ProbeReading>)>) -> Seq<(u64, Seq<ProbeReading>)> {
    tr.map_values(|e: (u64, Vec<ProbeReading>)| (e.0, e.1@))
}

/// Runs the poller over a recorded trace of ticks, from the initial state.
#[verifier::loop_isolation(false)]
pub fn poll_run(trace: &Vec<(u64, Vec<ProbeReading>)>, deadline_ms: u64) -> (r: Option<
    (PollStep, u64),
>)
    ensures
        r == run_spec(trace_view(trace@), PollerState { last_failed: None }, deadline_ms),
{
    let ghost full = trace_view(trace@);
    let mut state = PollerState::init();
    let n = trace.len();
    proof {
        assert(full.skip(0) =~= full);
    }
    let mut i: usize = 0;
    while i < n
        invariant
            i <= n,
            n == trace@.len(),
            run_spec(full, PollerState { last_failed: None }, deadline_ms) == run_spec(
                full.skip(i as int),
                state,
                deadline_ms,
            ),
        decreases n - i,
    {
        let (step, next) = poll_step(state, &trace[i].1, trace[i].0, deadline_ms);
        proof {
            assert(full.skip(i as int)[0] == (trace@[i as int].0, trace@[i as int].1@));
            assert(full.skip(i as int).drop_first() =~= full.skip(i + 1 as int));
        }
        match step {
            PollStep::Continue => {
                state = next;
            },
            _ => {
                return Some((step, trace[i].0));
            },
        }
        i = i + 1;
    }
    proof {
        assert(full.skip(n as int) =~= Seq::<(u64, Seq<ProbeReading>)>::empty());
    }
    None
}

/// Law: a poller whose probes never become present and never fail times out
/// neither early nor late. If the trace starts before the deadline would
/// round up past one tick, covers the deadline, and never gaps by more than
/// one tick interval, the run times out at an instant `t` with
/// `deadline_ms <= t < deadline_ms + tick_ms`.
pub proof fn lemma_timeout_window(
    trace: Seq<(u64, Seq<ProbeReading>)>,
    deadline_ms: u64,
    tick_ms: u64,
)
    requires
        trace.len() > 0,
        trace[0].0 < deadline_ms + tick_ms,
        tick_ms > 0,
        deadline_ms + tick_ms <= u64::MAX,
        forall|i: int| 0 <= i < trace.len() - 1 ==> trace[i + 1].0 <= (#[trigger] trace[i]).0 + tick_ms,
        forall|i: int, j: int|
            0 <= i < trace.len() && 0 <= j < trace[i].1.len() ==> trace[i].1[j] is Absent,
        trace.last().0 >= deadline_ms,
    ensures
        run_spec(trace, PollerState { last_failed: None }, deadline_ms) matches Some(f)
            && f.0 == PollStep::TimedOut && deadline_ms <= f.1 < deadline_ms + tick_ms,
    decreases trace.len(),
{
    let init = PollerState { last_failed: None };
    let obs = trace[0].1;
    if trace[0].0 >= deadline_ms {
        assert(step_spec(init, obs, trace[0].0, deadline_ms).0 == PollStep::TimedOut);
    } else {
        lemma_winner_from(obs, 0);
        lemma_last_failed_in(obs);
        assert(winner_from(obs, 0) is None);
        assert(last_failed_in(obs) is None);
        let r = step_spec(init, obs, trace[0].0, deadline_ms);
        assert(r.0 is Continue && r.1 == init);
        let rest = trace.drop_first();
        assert(rest.len() > 0);
        assert(rest[0].0 == trace[1].0);
        assert(trace[1].0 <= trace[0].0 + tick_ms);
        assert(forall|i: int| 0 <= i < rest.len() - 1 ==> rest[i + 1].0 <= (#[trigger] rest[i]).0 + tick_ms);
        assert(forall|i: int, j: int|
            0 <= i < rest.len() && 0 <= j < rest[i].1.len() ==> rest[i].1[j] is Absent);
        assert(rest.last().0 >= deadline_ms);
        lemma_timeout_window(rest, deadline_ms, tick_ms);
    }
}

/// What the aggressive single-element retry decides from one attempt: a
/// found element ends the wait at once; a miss gives up only once the
/// deadline has elapsed, and otherwise retries immediately.
#[derive(Clone, Copy, PartialEq, Eq, Structural, Debug)]
pub enum RetryStep {
    Found,
    GiveUp,
    Retry,
}

/// Decides one attempt of the aggressive retry loop.
pub fn retry_step(found: bool, elapsed_ms: u64, deadline_ms: u64) -> (r: RetryStep)
    ensures
        r == (if found {
            RetryStep::Found
        } else if elapsed_ms >= deadline_ms {
            RetryStep::GiveUp
        } else {
            RetryStep::Retry
        }),
{
    if found {
        RetryStep::Found
    } else if elapsed_ms >= deadline_ms {
        RetryStep::GiveUp
    } else {
        RetryStep::Retry
    }
}

} // verus!
