use im_select::controller::{
    run_switch, Command, Event, Phase, SwitchController, SwitchPolicy,
};
use im_select::error::SwitchError;
use im_select::probe::ProbeOutcome;

fn policy(poll_attempts: u32, resend_rounds: u32) -> SwitchPolicy {
    SwitchPolicy {
        settle_delay_ms: 100,
        poll_interval_ms: 50,
        poll_attempts,
        resend_rounds,
        resend_delay_ms: 200,
    }
}

fn token(t: &str) -> ProbeOutcome {
    ProbeOutcome::Token(t.to_string())
}

#[test]
fn scenario_a_target_already_active() {
    // Idempotence: the first read observes the target; success with zero
    // injected batches and zero polls.
    let script = vec![token("中")];
    let report = run_switch("中", "ctrl+space", &policy(5, 1), &script);
    assert_eq!(report.outcome, Ok(()));
    assert_eq!(report.injections, 0);
    assert_eq!(report.polls, 0);
}

#[test]
fn idempotence_even_with_a_bad_chord() {
    // Already at the target: the chord is never parsed, so its defect never
    // surfaces. Observed order: the check runs before the chord is touched.
    let script = vec![token("EN")];
    let report = run_switch("EN", "no+such+keys", &policy(5, 1), &script);
    assert_eq!(report.outcome, Ok(()));
    assert_eq!(report.injections, 0);
}

#[test]
fn scenario_b_converges_on_second_poll() {
    // Target differs; the first round converges on attempt 2 of 5:
    // one injection, two polls.
    let script = vec![token("英"), token("英"), token("中")];
    let report = run_switch("中", "ctrl+space", &policy(5, 1), &script);
    assert_eq!(report.outcome, Ok(()));
    assert_eq!(report.injections, 1);
    assert_eq!(report.polls, 2);
}

#[test]
fn scenario_c_never_converges() {
    // 5 attempts x (1 + 2 resend rounds), never matching: the timeout is
    // reported after exactly 3 injections and 15 polls.
    let script: Vec<ProbeOutcome> = std::iter::repeat(())
        .take(16)
        .map(|_| token("英"))
        .collect();
    let report = run_switch("中", "ctrl+space", &policy(5, 2), &script);
    assert_eq!(
        report.outcome,
        Err(SwitchError::VerificationTimeout { target: "中".to_string() })
    );
    assert_eq!(report.injections, 3);
    assert_eq!(report.polls, 15);
}

#[test]
fn early_exit_stops_polling_and_resending() {
    // A match on poll 7 of a 5-per-round budget: the second round's second
    // attempt. Two injections, seven polls, and the remaining budget unused.
    let mut script = vec![token("EN")]; // idempotence read
    for _ in 0..6 {
        script.push(token("EN"));
    }
    script.push(token("ZH"));
    script.push(token("EN")); // never read
    let report = run_switch("ZH", "ctrl+space", &policy(5, 2), &script);
    assert_eq!(report.outcome, Ok(()));
    assert_eq!(report.injections, 2);
    assert_eq!(report.polls, 7);
}

#[test]
fn short_script_counts_as_never_matching() {
    // Reads past the script's end observe nothing; the run still spends its
    // whole budget and reports the timeout.
    let script = vec![token("EN")];
    let report = run_switch("ZH", "ctrl+space", &policy(2, 1), &script);
    assert_eq!(
        report.outcome,
        Err(SwitchError::VerificationTimeout { target: "ZH".to_string() })
    );
    assert_eq!(report.injections, 2);
    assert_eq!(report.polls, 4);
}

#[test]
fn probe_errors_during_polling_are_swallowed() {
    // A transient probe failure during polling counts as a miss, not a
    // fault: the run goes on and can still converge.
    let script = vec![token("EN"), ProbeOutcome::Failed, token("ZH")];
    let report = run_switch("ZH", "ctrl+space", &policy(5, 0), &script);
    assert_eq!(report.outcome, Ok(()));
    assert_eq!(report.injections, 1);
    assert_eq!(report.polls, 2);
}

#[test]
fn not_found_during_polling_is_a_miss() {
    let script = vec![token("EN"), ProbeOutcome::NotFound, token("ZH")];
    let report = run_switch("ZH", "ctrl+space", &policy(3, 0), &script);
    assert_eq!(report.outcome, Ok(()));
    assert_eq!(report.polls, 2);
}

#[test]
fn not_found_on_the_check_means_not_at_target() {
    // Nothing found on the idempotence check: proceed with the switch.
    let script = vec![ProbeOutcome::NotFound, token("ZH")];
    let report = run_switch("ZH", "ctrl+space", &policy(5, 0), &script);
    assert_eq!(report.outcome, Ok(()));
    assert_eq!(report.injections, 1);
    assert_eq!(report.polls, 1);
}

#[test]
fn probe_failure_on_the_check_is_fatal() {
    let script = vec![ProbeOutcome::Failed, token("ZH")];
    let report = run_switch("ZH", "ctrl+space", &policy(5, 1), &script);
    assert_eq!(report.outcome, Err(SwitchError::ProbeFailed));
    assert_eq!(report.injections, 0);
    assert_eq!(report.polls, 0);
}

#[test]
fn bad_chord_fails_before_any_injection() {
    let script = vec![token("EN")];
    let report = run_switch("ZH", "ctrl+bogus", &policy(5, 1), &script);
    assert_eq!(
        report.outcome,
        Err(SwitchError::InvalidKey { segment: "bogus".to_string() })
    );
    assert_eq!(report.injections, 0);
    assert_eq!(report.polls, 0);
}

#[test]
fn zero_poll_attempts_means_no_verification() {
    // No polls at all: inject, fall straight through the rounds, time out.
    let script = vec![token("EN"), token("ZH")];
    let report = run_switch("ZH", "ctrl+space", &policy(0, 2), &script);
    assert_eq!(
        report.outcome,
        Err(SwitchError::VerificationTimeout { target: "ZH".to_string() })
    );
    assert_eq!(report.injections, 3);
    assert_eq!(report.polls, 0);
}

#[test]
fn zero_rounds_zero_attempts_is_one_blind_injection() {
    let script = vec![token("EN")];
    let report = run_switch("ZH", "ctrl+space", &policy(0, 0), &script);
    assert_eq!(
        report.outcome,
        Err(SwitchError::VerificationTimeout { target: "ZH".to_string() })
    );
    assert_eq!(report.injections, 1);
    assert_eq!(report.polls, 0);
}

#[test]
fn machine_reports_incomplete_injection() {
    // The machine itself: a short accepted count is fatal, reported with
    // both counts, and consumes no retry budget.
    let mut c = SwitchController::new("ZH".to_string(), "ctrl+space".to_string(), policy(5, 1));
    assert_eq!(c.pending(), Some(Command::Probe));
    let d = c.on_event(Event::Probed(token("EN")));
    assert!(d.is_none());
    assert_eq!(c.pending(), Some(Command::Inject));
    assert_eq!(c.batch.len(), 4);
    let d = c.on_event(Event::Injected { sent: 1, submitted: 4 });
    assert_eq!(
        d,
        Some(Err(SwitchError::InjectionIncomplete { sent: 1, submitted: 4 }))
    );
    assert_eq!(c.pending(), None);
}

#[test]
fn machine_walks_one_round() {
    let mut c = SwitchController::new("ZH".to_string(), "shift".to_string(), policy(2, 0));
    let d = c.on_event(Event::Probed(ProbeOutcome::NotFound));
    assert!(d.is_none());
    assert_eq!(c.phase, Phase::Sending { round: 0 });
    let d = c.on_event(Event::Injected { sent: 2, submitted: 2 });
    assert!(d.is_none());
    assert_eq!(c.pending(), Some(Command::Sleep(100)));
    let d = c.on_event(Event::Slept);
    assert!(d.is_none());
    assert_eq!(c.phase, Phase::PollWaiting { round: 0, attempt: 0 });
    assert_eq!(c.pending(), Some(Command::Sleep(50)));
    let d = c.on_event(Event::Slept);
    assert!(d.is_none());
    assert_eq!(c.pending(), Some(Command::Probe));
    let d = c.on_event(Event::Probed(token("ZH")));
    assert_eq!(d, Some(Ok(())));
    assert_eq!(c.phase, Phase::Done);
    assert_eq!(c.pending(), None);
}

#[test]
fn timeout_message_names_the_target() {
    let script = vec![token("EN")];
    let report = run_switch("ZH", "ctrl+space", &policy(1, 0), &script);
    let e = report.outcome.unwrap_err();
    assert_eq!(
        e.describe(),
        "Verification failed after sending input: target ZH"
    );
}

#[test]
fn injection_message_carries_the_counts() {
    let e = SwitchError::InjectionIncomplete { sent: 1, submitted: 4 };
    assert_eq!(e.describe(), "Failed to send all inputs: sent 1/4");
}
