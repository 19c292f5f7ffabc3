//! The stage state machines built on the poller: authentication, the
//! second-factor challenge, and cart resolution. Each declares a fixed,
//! priority-ordered set of candidate probes and maps the winning probe to a
//! named outcome; the orchestrator drives one machine at a time, one tick
//! per interval, handing each tick's probe readings in.

use vstd::prelude::*;
use crate::poller::{
    decided_at, run_spec, step_spec, PollStep, PollerState, ProbeReading, poll_step, poll_run,
};
use crate::text::{trim_of, trim_spec};

verus! {

/// A decided stage, or the want of a decision on this tick.
#[derive(Clone, Copy, PartialEq, Eq, Debug)]
pub enum StageStep<O> {
    /// A probe won and maps to this outcome.
    Done { outcome: O },
    /// The deadline elapsed with no probe ever failing.
    TimedOut,
    /// The deadline elapsed after this probe failed: the driver's error is
    /// surfaced instead of a bare timeout.
    Failed { probe: usize },
    /// Nothing decided; tick again.
    Continue,
}

/// How the authentication stage can resolve.
#[derive(Clone, Copy, PartialEq, Eq, Structural, Debug)]
pub enum AuthTransition {
    AuthSuccess,
    Duo,
    AuthFail,
}

/// One tick's probe readings for the authentication stage, one reading per
/// candidate fragment.
#[derive(Clone, Copy, PartialEq, Eq, Structural, Debug)]
pub struct AuthTick {
    pub login_error: ProbeReading,
    pub duo_waiting: ProbeReading,
    pub semester_cart: ProbeReading,
    pub course_row: ProbeReading,
}

/// The authentication probes in priority order: the login-error fragment
/// outranks the second-factor fragment, which outranks both signs of a
/// successful entry. An error fragment must win even when stale content
/// also matches.
pub open spec fn auth_probes(t: AuthTick) -> Seq<ProbeReading> {
    seq![t.login_error, t.duo_waiting, t.semester_cart, t.course_row]
}

/// The outcome the authentication probe at this position maps to.
pub open spec fn auth_outcome_of(probe: int) -> AuthTransition {
    if probe == 0 {
        AuthTransition::AuthFail
    } else if probe == 1 {
        AuthTransition::Duo
    } else {
        AuthTransition::AuthSuccess
    }
}

/// A poll decision translated for the authentication stage.
pub open spec fn auth_of_poll(s: PollStep) -> StageStep<AuthTransition> {
    match s {
        PollStep::Win { probe } => StageStep::Done { outcome: auth_outcome_of(probe as int) },
        PollStep::TimedOut => StageStep::TimedOut,
        PollStep::Failed { probe } => StageStep::Failed { probe },
        PollStep::Continue => StageStep::Continue,
    }
}

/// The authentication probes of one tick, in priority order.
pub fn auth_tick_probes(t: &AuthTick) -> (v: Vec<ProbeReading>)
    ensures
        v@ == auth_probes(*t),
{
    let mut v: Vec<ProbeReading> = Vec::new();
    v.push(t.login_error);
    v.push(t.duo_waiting);
    v.push(t.semester_cart);
    v.push(t.course_row);
    proof {
        assert(v@ =~= auth_probes(*t));
    }
    v
}

/// Decides one tick of the authentication stage.
pub fn authentication_step(
    state: PollerState,
    tick: &AuthTick,
    elapsed_ms: u64,
    deadline_ms: u64,
) -> (r: (StageStep<AuthTransition>, PollerState))
    ensures
        ({
            let pr = step_spec(state, auth_probes(*tick), elapsed_ms, deadline_ms);
            r.0 == auth_of_poll(pr.0) && r.1 == pr.1
        }),
{
    let probes = auth_tick_probes(tick);
    let (step, next) = poll_step(state, &probes, elapsed_ms, deadline_ms);
    let mapped = match step {
        PollStep::Win { probe } => StageStep::Done {
            outcome: if probe == 0 {
                AuthTransition::AuthFail
            } else if probe == 1 {
                AuthTransition::Duo
            } else {
                AuthTransition::AuthSuccess
            },
        },
        PollStep::TimedOut => StageStep::TimedOut,
        PollStep::Failed { probe } => StageStep::Failed { probe },
        PollStep::Continue => StageStep::Continue,
    };
    (mapped, next)
}

/// The probe readings of an authentication trace.
pub open spec fn auth_trace_probes(tr: Seq<(u64, AuthTick)>) -> Seq<(u64, Seq<ProbeReading>)> {
    tr.map_values(|e: (u64, AuthTick)| (e.0, auth_probes(e.1)))
}

/// What an authentication run decides over a trace of ticks.
pub open spec fn auth_run_spec(tr: Seq<(u64, AuthTick)>, deadline_ms: u64) -> Option<
    (StageStep<AuthTransition>, u64),
> {
    match run_spec(auth_trace_probes(tr), PollerState { last_failed: None }, deadline_ms) {
        Some(f) => Some((auth_of_poll(f.0), f.1)),
        None => None,
    }
}

/// Runs the authentication stage over a recorded trace of ticks.
#[verifier::loop_isolation(false)]
pub fn authentication_run(trace: &Vec<(u64, AuthTick)>, deadline_ms: u64) -> (r: Option<
    (StageStep<AuthTransition>, u64),
>)
    ensures
        r == auth_run_spec(trace@, deadline_ms),
{
    let mut ptrace: Vec<(u64, Vec<ProbeReading>)> = Vec::new();
    let n = trace.len();
    let mut i: usize = 0;
    while i < n
        invariant
            i <= n,
            n == trace@.len(),
            ptrace@.len() == i,
            crate::poller::trace_view(ptrace@) =~= auth_trace_probes(trace@).take(i as int),
        decreases n - i,
    {
        let probes = auth_tick_probes(&trace[i].1);
        let at = trace[i].0;
        ptrace.push((at, probes));
        i = i + 1;
        proof {
            assert(crate::poller::trace_view(ptrace@) =~= auth_trace_probes(trace@).take(
                i as int,
            ));
        }
    }
    proof {
        assert(auth_trace_probes(trace@).take(n as int) =~= auth_trace_probes(trace@));
    }
    let pr = poll_run(&ptrace, deadline_ms);
    match pr {
        Some((step, at)) => {
            let mapped = match step {
                PollStep::Win { probe } => StageStep::Done {
                    outcome: if probe == 0 {
                        AuthTransition::AuthFail
                    } else if probe == 1 {
                        AuthTransition::Duo
                    } else {
                        AuthTransition::AuthSuccess
                    },
                },
                PollStep::TimedOut => StageStep::TimedOut,
                PollStep::Failed { probe } => StageStep::Failed { probe },
                PollStep::Continue => StageStep::Continue,
            };
            Some((mapped, at))
        },
        None => None,
    }
}

/// How the cart-resolution stage can resolve.
#[derive(Clone, Copy, PartialEq, Eq, Structural, Debug)]
pub enum CartTransition {
    /// Only the course rows are on the page: the single cart was already
    /// entered.
    In,
    /// The cart selector is on the page: a human must pick one of several
    /// carts.
    Select,
}

/// One tick's probe readings for the cart-resolution stage.
#[derive(Clone, Copy, PartialEq, Eq, Structural, Debug)]
pub struct CartTick {
    pub semester_cart: ProbeReading,
    pub course_row: ProbeReading,
}

/// The cart-resolution probes in priority order: the cart selector outranks
/// the course rows.
pub open spec fn cart_probes(t: CartTick) -> Seq<ProbeReading> {
    seq![t.semester_cart, t.course_row]
}

/// The outcome the cart probe at this position maps to.
pub open spec fn cart_outcome_of(probe: int) -> CartTransition {
    if probe == 0 {
        CartTransition::Select
    } else {
        CartTransition::In
    }
}

/// A poll decision translated for the cart-resolution stage.
pub open spec fn cart_of_poll(s: PollStep) -> StageStep<CartTransition> {
    match s {
        PollStep::Win { probe } => StageStep::Done { outcome: cart_outcome_of(probe as int) },
        PollStep::TimedOut => StageStep::TimedOut,
        PollStep::Failed { probe } => StageStep::Failed { probe },
        PollStep::Continue => StageStep::Continue,
    }
}

/// The cart-resolution probes of one tick, in priority order.
pub fn cart_tick_probes(t: &CartTick) -> (v: Vec<ProbeReading>)
    ensures
        v@ == cart_probes(*t),
{
    let mut v: Vec<ProbeReading> = Vec::new();
    v.push(t.semester_cart);
    v.push(t.course_row);
    proof {
        assert(v@ =~= cart_probes(*t));
    }
    v
}

/// Decides one tick of the cart-resolution stage.
pub fn cart_step(state: PollerState, tick: &CartTick, elapsed_ms: u64, deadline_ms: u64) -> (r: (
    StageStep<CartTransition>,
    PollerState,
))
    ensures
        ({
            let pr = step_spec(state, cart_probes(*tick), elapsed_ms, deadline_ms);
            r.0 == cart_of_poll(pr.0) && r.1 == pr.1
        }),
{
    let probes = cart_tick_probes(tick);
    let (step, next) = poll_step(state, &probes, elapsed_ms, deadline_ms);
    let mapped = match step {
        PollStep::Win { probe } => StageStep::Done {
            outcome: if probe == 0 {
                CartTransition::Select
            } else {
                CartTransition::In
            },
        },
        PollStep::TimedOut => StageStep::TimedOut,
        PollStep::Failed { probe } => StageStep::Failed { probe },
        PollStep::Continue => StageStep::Continue,
    };
    (mapped, next)
}

/// How the second-factor challenge can resolve.
#[derive(Clone, Copy, PartialEq, Eq, Structural, Debug)]
pub enum DuoTransition {
    /// The challenge timed out on the provider's side and offers a retry.
    TimeOut,
    /// The trust-browser action appeared and was taken.
    Trust,
    /// The page moved on to the cart without the trust action.
    Cart,
}

/// One tick's observations for the second-factor challenge: the text of the
/// verification-code fragment when it is on the page, and one reading per
/// candidate fragment.
#[derive(Debug)]
pub struct DuoTick {
    pub verification_code: Option<String>,
    pub trust_browser: ProbeReading,
    pub try_again: ProbeReading,
    pub semester_cart: ProbeReading,
    pub course_row: ProbeReading,
}

/// The challenge probes in priority order: the trust-browser action
/// outranks the provider's timeout fragment, which outranks both signs that
/// the page moved on to the cart.
pub open spec fn duo_probes(t: DuoTick) -> Seq<ProbeReading> {
    seq![t.trust_browser, t.try_again, t.semester_cart, t.course_row]
}

/// The outcome the challenge probe at this position maps to.
pub open spec fn duo_outcome_of(probe: int) -> DuoTransition {
    if probe == 0 {
        DuoTransition::Trust
    } else if probe == 1 {
        DuoTransition::TimeOut
    } else {
        DuoTransition::Cart
    }
}

/// A poll decision translated for the second-factor challenge.
pub open spec fn duo_of_poll(s: PollStep) -> StageStep<DuoTransition> {
    match s {
        PollStep::Win { probe } => StageStep::Done { outcome: duo_outcome_of(probe as int) },
        PollStep::TimedOut => StageStep::TimedOut,
        PollStep::Failed { probe } => StageStep::Failed { probe },
        PollStep::Continue => StageStep::Continue,
    }
}

/// This tick shows a verification code that is not all whitespace.
pub open spec fn duo_has_code(t: DuoTick) -> bool {
    match t.verification_code {
        Some(s) => trim_spec(s@).len() > 0,
        None => false,
    }
}

/// The trimmed verification code of this tick.
pub open spec fn duo_code_text(t: DuoTick) -> Seq<char> {
    match t.verification_code {
        Some(s) => trim_spec(s@),
        None => Seq::empty(),
    }
}

/// Challenge state carried between ticks: the poller's state, and whether
/// the verification code has already been surfaced to the human.
#[derive(Clone, Copy, PartialEq, Eq, Debug)]
pub struct DuoState {
    pub poller: PollerState,
    pub code_announced: bool,
}

impl DuoState {
    /// The state before the first tick.
    pub fn init() -> (s: DuoState)
        ensures
            s.poller.last_failed is None,
            !s.code_announced,
    {
        DuoState { poller: PollerState { last_failed: None }, code_announced: false }
    }
}

/// What the orchestrator must do after one challenge tick: surface this
/// verification code to the human (at most once per challenge), and click
/// the trust-browser action (exactly on the tick that resolves `Trust`).
#[derive(Debug)]
pub struct DuoActions {
    pub announce: Option<String>,
    pub click_trust: bool,
}

/// The challenge probes of one tick, in priority order.
pub fn duo_tick_probes(t: &DuoTick) -> (v: Vec<ProbeReading>)
    ensures
        v@ == duo_probes(*t),
{
    let mut v: Vec<ProbeReading> = Vec::new();
    v.push(t.trust_browser);
    v.push(t.try_again);
    v.push(t.semester_cart);
    v.push(t.course_row);
    proof {
        assert(v@ =~= duo_probes(*t));
    }
    v
}

/// Decides one tick of the second-factor challenge. The code pre-check runs
/// first on every tick and announces a non-blank code at most once across
/// the whole challenge; the trust action is clicked exactly when the
/// trust-browser probe wins the race.
pub fn duo_step(state: DuoState, tick: &DuoTick, elapsed_ms: u64, deadline_ms: u64) -> (r: (
    StageStep<DuoTransition>,
    DuoState,
    DuoActions,
))
    ensures
        ({
            let pr = step_spec(state.poller, duo_probes(*tick), elapsed_ms, deadline_ms);
            &&& r.0 == duo_of_poll(pr.0)
            &&& r.1.poller == pr.1
            &&& match r.2.announce {
                Some(code) => !state.code_announced && duo_has_code(*tick) && code@
                    == duo_code_text(*tick),
                None => state.code_announced || !duo_has_code(*tick),
            }
            &&& r.1.code_announced == (state.code_announced || r.2.announce is Some)
            &&& r.2.click_trust == (r.0 matches StageStep::Done {
                outcome: DuoTransition::Trust,
            })
        }),
{
    let announce: Option<String> = if !state.code_announced {
        match &tick.verification_code {
            Some(s) => {
                let trimmed = trim_of(s.as_str());
                if trimmed.as_str().is_empty() {
                    None
                } else {
                    Some(trimmed)
                }
            },
            None => None,
        }
    } else {
        None
    };
    let announced_now = announce.is_some();
    let probes = duo_tick_probes(tick);
    let (step, next) = poll_step(state.poller, &probes, elapsed_ms, deadline_ms);
    let mapped = match step {
        PollStep::Win { probe } => StageStep::Done {
            outcome: if probe == 0 {
                DuoTransition::Trust
            } else if probe == 1 {
                DuoTransition::TimeOut
            } else {
                DuoTransition::Cart
            },
        },
        PollStep::TimedOut => StageStep::TimedOut,
        PollStep::Failed { probe } => StageStep::Failed { probe },
        PollStep::Continue => StageStep::Continue,
    };
    let click_trust = match mapped {
        StageStep::Done { outcome: DuoTransition::Trust } => true,
        _ => false,
    };
    (
        mapped,
        DuoState {
            poller: next,
            code_announced: state.code_announced || announced_now,
        },
        DuoActions { announce, click_trust },
    )
}

/// The probe readings of a challenge trace.
pub open spec fn duo_trace_probes(tr: Seq<(u64, DuoTick)>) -> Seq<(u64, Seq<ProbeReading>)> {
    tr.map_values(|e: (u64, DuoTick)| (e.0, duo_probes(e.1)))
}

/// What a challenge run decides over a trace of ticks.
pub open spec fn duo_run_finish_spec(tr: Seq<(u64, DuoTick)>, deadline_ms: u64) -> Option<
    (StageStep<DuoTransition>, u64),
> {
    match run_spec(duo_trace_probes(tr), PollerState { last_failed: None }, deadline_ms) {
        Some(f) => Some((duo_of_poll(f.0), f.1)),
        None => None,
    }
}

/// What a whole challenge run did: how it resolved, the one code it
/// surfaced if any tick up to the deciding one showed one, and whether the
/// trust action was clicked.
#[derive(Debug)]
pub struct DuoRun {
    pub finish: Option<(StageStep<DuoTransition>, u64)>,
    pub announced: Option<String>,
    pub clicked_trust: bool,
}

/// Runs the second-factor challenge over a recorded trace of ticks. The
/// verification code is surfaced at most once: the first tick up to the
/// deciding one that shows a non-blank code provides it. The trust action
/// is clicked exactly when the run resolves `Trust`.
#[verifier::loop_isolation(false)]
pub fn duo_run(trace: &Vec<(u64, DuoTick)>, deadline_ms: u64) -> (r: DuoRun)
    ensures
        ({
            let m = decided_at(
                duo_trace_probes(trace@),
                PollerState { last_failed: None },
                deadline_ms,
            );
            &&& r.finish == duo_run_finish_spec(trace@, deadline_ms)
            &&& r.clicked_trust == (r.finish matches Some(f) && f.0 matches StageStep::Done {
                outcome: DuoTransition::Trust,
            })
            &&& match r.announced {
                Some(code) => exists|k: int|
                    0 <= k <= m && k < trace@.len() && #[trigger] duo_has_code(trace@[k].1)
                        && code@ == duo_code_text(trace@[k].1) && (forall|q: int|
                        0 <= q < k ==> !duo_has_code(trace@[q].1)),
                None => forall|k: int|
                    0 <= k <= m && k < trace@.len() ==> !(#[trigger] duo_has_code(
                        trace@[k].1,
                    )),
            }
        }),
{
    let ghost full = duo_trace_probes(trace@);
    let ghost init = PollerState { last_failed: None };
    let mut state = DuoState::init();
    let mut announced: Option<String> = None;
    let n = trace.len();
    proof {
        assert(full.skip(0) =~= full);
    }
    let mut i: usize = 0;
    while i < n
        invariant
            i <= n,
            n == trace@.len(),
            run_spec(full, init, deadline_ms) == run_spec(
                full.skip(i as int),
                state.poller,
                deadline_ms,
            ),
            decided_at(full, init, deadline_ms) == i + decided_at(
                full.skip(i as int),
                state.poller,
                deadline_ms,
            ),
            state.code_announced == (announced is Some),
            match announced {
                Some(code) => exists|k: int|
                    0 <= k < i && #[trigger] duo_has_code(trace@[k].1) && code@
                        == duo_code_text(trace@[k].1) && (forall|q: int|
                        0 <= q < k ==> !duo_has_code(trace@[q].1)),
                None => forall|k: int| 0 <= k < i ==> !(#[trigger] duo_has_code(trace@[k].1)),
            },
        decreases n - i,
    {
        let (step, nstate, actions) = duo_step(state, &trace[i].1, trace[i].0, deadline_ms);
        proof {
            assert(full.skip(i as int)[0] == (trace@[i as int].0, duo_probes(trace@[i as int].1)));
            assert(full.skip(i as int).drop_first() =~= full.skip(i + 1 as int));
        }
        match actions.announce {
            Some(code) => {
                announced = Some(code);
            },
            None => {},
        }
        state = nstate;
        match step {
            StageStep::Continue => {},
            _ => {
                let at = trace[i].0;
                let clicked_trust = actions.click_trust;
                proof {
                    assert(decided_at(full, init, deadline_ms) == i);
                }
                return DuoRun { finish: Some((step, at)), announced, clicked_trust };
            },
        }
        i = i + 1;
    }
    proof {
        assert(full.skip(n as int) =~= Seq::<(u64, Seq<ProbeReading>)>::empty());
        assert(decided_at(full, init, deadline_ms) == n);
    }
    DuoRun { finish: None, announced, clicked_trust: false }
}

} // verus!
