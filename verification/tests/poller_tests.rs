use course_sniper::poller::{
    poll_run, poll_step, retry_step, PollStep, PollerState, ProbeReading, RetryStep,
};

fn init() -> PollerState {
    PollerState { last_failed: None }
}

#[test]
fn earliest_declared_probe_wins_simultaneous() {
    // Two probes present on the same tick: the earliest-declared one wins.
    let obs = vec![
        ProbeReading::Absent,
        ProbeReading::Present,
        ProbeReading::Present,
        ProbeReading::Present,
    ];
    let (step, _) = poll_step(init(), &obs, 0, 1000);
    assert_eq!(step, PollStep::Win { probe: 1 });
}

#[test]
fn first_probe_outranks_all() {
    let obs = vec![ProbeReading::Present, ProbeReading::Present];
    let (step, _) = poll_step(init(), &obs, 0, 1000);
    assert_eq!(step, PollStep::Win { probe: 0 });
}

#[test]
fn lone_later_probe_wins() {
    let obs = vec![ProbeReading::Absent, ProbeReading::Absent, ProbeReading::Present];
    let (step, _) = poll_step(init(), &obs, 500, 1000);
    assert_eq!(step, PollStep::Win { probe: 2 });
}

#[test]
fn no_probe_present_continues_before_deadline() {
    let obs = vec![ProbeReading::Absent, ProbeReading::Absent];
    let (step, state) = poll_step(init(), &obs, 500, 1000);
    assert_eq!(step, PollStep::Continue);
    assert_eq!(state.last_failed, None);
}

#[test]
fn deadline_enforced_at_top_of_tick() {
    // A probe that only becomes present at or past the deadline cannot win.
    let obs = vec![ProbeReading::Present];
    let (step, _) = poll_step(init(), &obs, 1000, 1000);
    assert_eq!(step, PollStep::TimedOut);
}

#[test]
fn probe_failure_is_tolerated_then_surfaced() {
    // A failed probe is retried before the deadline and surfaced at it.
    let (step, state) = poll_step(init(), &vec![ProbeReading::Failed, ProbeReading::Absent], 0, 1000);
    assert_eq!(step, PollStep::Continue);
    assert_eq!(state.last_failed, Some(0));
    let (step2, _) = poll_step(state, &vec![ProbeReading::Absent, ProbeReading::Absent], 1000, 1000);
    assert_eq!(step2, PollStep::Failed { probe: 0 });
}

#[test]
fn most_recent_failure_wins() {
    let (_, s1) = poll_step(init(), &vec![ProbeReading::Failed, ProbeReading::Absent], 0, 1000);
    let (_, s2) = poll_step(s1, &vec![ProbeReading::Absent, ProbeReading::Failed], 100, 1000);
    assert_eq!(s2.last_failed, Some(1));
}

#[test]
fn timeout_lands_within_one_tick_of_deadline() {
    // Probes that never become present: timeout no earlier than the
    // deadline and no later than one tick interval past it.
    let mut trace: Vec<(u64, Vec<ProbeReading>)> = Vec::new();
    let mut t = 0u64;
    while t <= 1000 {
        trace.push((t, vec![ProbeReading::Absent]));
        t += 100;
    }
    let r = poll_run(&trace, 1000);
    assert_eq!(r, Some((PollStep::TimedOut, 1000)));
}

#[test]
fn timeout_with_jittered_ticks() {
    let trace = vec![
        (0u64, vec![ProbeReading::Absent]),
        (90, vec![ProbeReading::Absent]),
        (1040, vec![ProbeReading::Absent]),
    ];
    let r = poll_run(&trace, 1000);
    // First tick at or past the deadline decides; 1040 < 1000 + one long gap.
    assert_eq!(r, Some((PollStep::TimedOut, 1040)));
}

#[test]
fn run_decides_on_first_winning_tick() {
    let trace = vec![
        (0u64, vec![ProbeReading::Absent, ProbeReading::Absent]),
        (100, vec![ProbeReading::Absent, ProbeReading::Present]),
        (200, vec![ProbeReading::Present, ProbeReading::Present]),
    ];
    let r = poll_run(&trace, 1000);
    assert_eq!(r, Some((PollStep::Win { probe: 1 }, 100)));
}

#[test]
fn run_without_decision_reports_nothing() {
    let trace = vec![(0u64, vec![ProbeReading::Absent])];
    assert_eq!(poll_run(&trace, 1000), None);
}

#[test]
fn retry_decisions() {
    assert_eq!(retry_step(true, 5000, 1000), RetryStep::Found);
    assert_eq!(retry_step(false, 999, 1000), RetryStep::Retry);
    assert_eq!(retry_step(false, 1000, 1000), RetryStep::GiveUp);
}
