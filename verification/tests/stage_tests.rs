use course_sniper::poller::{PollerState, ProbeReading};
use course_sniper::stages::{
    authentication_run, authentication_step, cart_step, duo_run, duo_step, AuthTick,
    AuthTransition, CartTick, CartTransition, DuoState, DuoTick, DuoTransition, StageStep,
};

fn init() -> PollerState {
    PollerState { last_failed: None }
}

fn quiet_auth() -> AuthTick {
    AuthTick {
        login_error: ProbeReading::Absent,
        duo_waiting: ProbeReading::Absent,
        semester_cart: ProbeReading::Absent,
        course_row: ProbeReading::Absent,
    }
}

#[test]
fn auth_error_fragment_halts_workflow() {
    // Only the error fragment shows: the stage resolves AuthFail and the
    // orchestrator must not run further stages.
    let trace = vec![
        (0u64, quiet_auth()),
        (100, AuthTick { login_error: ProbeReading::Present, ..quiet_auth() }),
    ];
    let r = authentication_run(&trace, 120_000);
    assert_eq!(
        r,
        Some((StageStep::Done { outcome: AuthTransition::AuthFail }, 100))
    );
}

#[test]
fn auth_error_outranks_stale_cart_fragment() {
    let tick = AuthTick {
        login_error: ProbeReading::Present,
        semester_cart: ProbeReading::Present,
        course_row: ProbeReading::Present,
        ..quiet_auth()
    };
    let (step, _) = authentication_step(init(), &tick, 0, 120_000);
    assert_eq!(step, StageStep::Done { outcome: AuthTransition::AuthFail });
}

#[test]
fn auth_duo_fragment_requires_second_factor() {
    let tick = AuthTick {
        duo_waiting: ProbeReading::Present,
        semester_cart: ProbeReading::Present,
        ..quiet_auth()
    };
    let (step, _) = authentication_step(init(), &tick, 0, 120_000);
    assert_eq!(step, StageStep::Done { outcome: AuthTransition::Duo });
}

#[test]
fn auth_cart_or_course_rows_mean_success() {
    let cart = AuthTick { semester_cart: ProbeReading::Present, ..quiet_auth() };
    let (step, _) = authentication_step(init(), &cart, 0, 120_000);
    assert_eq!(step, StageStep::Done { outcome: AuthTransition::AuthSuccess });
    let rows = AuthTick { course_row: ProbeReading::Present, ..quiet_auth() };
    let (step2, _) = authentication_step(init(), &rows, 0, 120_000);
    assert_eq!(step2, StageStep::Done { outcome: AuthTransition::AuthSuccess });
}

#[test]
fn auth_times_out_without_fragments() {
    let trace = vec![(0u64, quiet_auth()), (120_000, quiet_auth())];
    let r = authentication_run(&trace, 120_000);
    assert_eq!(r, Some((StageStep::TimedOut, 120_000)));
}

fn quiet_duo() -> DuoTick {
    DuoTick {
        verification_code: None,
        trust_browser: ProbeReading::Absent,
        try_again: ProbeReading::Absent,
        semester_cart: ProbeReading::Absent,
        course_row: ProbeReading::Absent,
    }
}

#[test]
fn duo_trust_appears_after_code_clicked_exactly_once() {
    // The second-factor fragment shows a code; three seconds later the
    // trust action appears: the challenge resolves Trusted, the trust
    // action is clicked exactly once, and the code is surfaced exactly
    // once, trimmed.
    let trace = vec![
        (0u64, DuoTick { verification_code: Some("  123456  ".to_string()), ..quiet_duo() }),
        (1500, DuoTick { verification_code: Some("  123456  ".to_string()), ..quiet_duo() }),
        (3000, DuoTick { trust_browser: ProbeReading::Present, ..quiet_duo() }),
    ];
    let r = duo_run(&trace, 120_000);
    assert_eq!(
        r.finish,
        Some((StageStep::Done { outcome: DuoTransition::Trust }, 3000))
    );
    assert!(r.clicked_trust);
    assert_eq!(r.announced, Some("123456".to_string()));
}

#[test]
fn duo_code_announced_at_most_once() {
    let mut state = DuoState::init();
    let tick = DuoTick { verification_code: Some("99".to_string()), ..quiet_duo() };
    let (_, next, actions) = duo_step(state, &tick, 0, 120_000);
    assert_eq!(actions.announce, Some("99".to_string()));
    state = next;
    let (_, _, actions2) = duo_step(state, &tick, 100, 120_000);
    assert_eq!(actions2.announce, None);
}

#[test]
fn duo_blank_code_not_announced() {
    let tick = DuoTick { verification_code: Some("   ".to_string()), ..quiet_duo() };
    let (_, next, actions) = duo_step(DuoState::init(), &tick, 0, 120_000);
    assert_eq!(actions.announce, None);
    assert!(!next.code_announced);
}

#[test]
fn duo_timeout_fragment_resolves_timed_out() {
    let tick = DuoTick {
        try_again: ProbeReading::Present,
        semester_cart: ProbeReading::Present,
        ..quiet_duo()
    };
    let (step, _, actions) = duo_step(DuoState::init(), &tick, 0, 120_000);
    assert_eq!(step, StageStep::Done { outcome: DuoTransition::TimeOut });
    assert!(!actions.click_trust);
}

#[test]
fn duo_cart_resolves_without_click() {
    let trace = vec![(0u64, DuoTick { course_row: ProbeReading::Present, ..quiet_duo() })];
    let r = duo_run(&trace, 120_000);
    assert_eq!(
        r.finish,
        Some((StageStep::Done { outcome: DuoTransition::Cart }, 0))
    );
    assert!(!r.clicked_trust);
}

#[test]
fn cart_selector_outranks_course_rows() {
    let tick = CartTick {
        semester_cart: ProbeReading::Present,
        course_row: ProbeReading::Present,
    };
    let (step, _) = cart_step(init(), &tick, 0, 120_000);
    assert_eq!(step, StageStep::Done { outcome: CartTransition::Select });
}

#[test]
fn cart_course_rows_mean_already_in_cart() {
    let tick = CartTick {
        semester_cart: ProbeReading::Absent,
        course_row: ProbeReading::Present,
    };
    let (step, _) = cart_step(init(), &tick, 0, 120_000);
    assert_eq!(step, StageStep::Done { outcome: CartTransition::In });
}
