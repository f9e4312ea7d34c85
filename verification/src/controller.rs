//! The state-switch confirmation engine.
//!
//! A switch has no direct success return: injected input reports nothing
//! about whether the target application processed it, and the probe may lag
//! behind the true state. The controller therefore drives the externally
//! observed token to the target by a bounded protocol: probe once — if the
//! token already equals the target, stop without injecting anything (a
//! toggle chord re-sent at the target state would flip away from it); else
//! parse and inject the chord, wait a settle delay, poll the probe a bounded
//! number of times, and on exhaustion re-inject and poll again, up to a
//! bounded number of resend rounds, before giving up.
//!
//! The controller is a pure transition function: it asks for one command at
//! a time (probe, inject, sleep) and consumes the event the environment
//! answers with. Everything that sleeps, probes or injects stays outside.

use vstd::prelude::*;
use vstd::arithmetic::div_mod::lemma_fundamental_div_mod_converse;
use vstd::arithmetic::mul::lemma_mul_inequality;
use crate::chord::{
    parse_chord, chord_is_valid, chord_keys, batch_of, plus_split, first_bad_segment, KeyEvent,
};
use crate::error::SwitchError;
use crate::probe::{ProbeOutcome, ProbeView};
use crate::text::str_eq;

verus! {

/// The timing and retry configuration of one switch operation. Zero poll
/// attempts means "no verification"; zero resend rounds means "no resend".
#[derive(Debug, Clone, Copy, PartialEq, Eq, Structural)]
pub struct SwitchPolicy {
    /// Wait before the first poll of each round, so that a state that has
    /// not yet begun to change is not read back as a failure.
    pub settle_delay_ms: u64,
    /// Wait before each poll attempt.
    pub poll_interval_ms: u64,
    /// Poll attempts per round.
    pub poll_attempts: u32,
    /// Additional injection rounds after the first.
    pub resend_rounds: u32,
    /// Wait before each re-injection.
    pub resend_delay_ms: u64,
}

/// Why a switch failed, as the machine records it; the full error, with its
/// context, accompanies the transition itself.
#[derive(Debug, Clone, Copy, PartialEq, Eq, Structural)]
pub enum Failure {
    /// The chord string did not parse. Never retried: a configuration
    /// defect, surfaced once.
    InvalidChord,
    /// The injection was accepted only in part. Fatal: the attempt to act
    /// was itself compromised, so the resend budget is not spent on it.
    Injection,
    /// The idempotence probe failed outright.
    Probe,
    /// Every poll of every round missed the target.
    Timeout,
}

/// Where the controller stands: each non-terminal phase awaits exactly one
/// kind of event.
#[derive(Debug, Clone, Copy, PartialEq, Eq, Structural)]
pub enum Phase {
    /// Awaiting the idempotence probe.
    CheckCurrent,
    /// Awaiting the injection result of this round.
    Sending { round: u32 },
    /// Awaiting the settle delay of this round.
    Settling { round: u32 },
    /// Awaiting the poll interval before this attempt.
    PollWaiting { round: u32, attempt: u32 },
    /// Awaiting the probe of this attempt.
    PollProbing { round: u32, attempt: u32 },
    /// Awaiting the delay before this round's injection.
    ResendWaiting { round: u32 },
    /// The observed token equals the target.
    Done,
    /// The switch failed; nothing more will be asked.
    Failed(Failure),
}

/// What the environment is asked to do next.
#[derive(Debug, Clone, Copy, PartialEq, Eq, Structural)]
pub enum Command {
    /// Read the probe and answer with `Event::Probed`.
    Probe,
    /// Inject the controller's event batch and answer with
    /// `Event::Injected`, reporting how many events the input queue
    /// accepted of how many were submitted.
    Inject,
    /// Sleep this many milliseconds and answer with `Event::Slept`.
    Sleep(u64),
}

/// What the environment answers.
#[derive(Debug)]
pub enum Event {
    /// What the probe observed.
    Probed(ProbeOutcome),
    /// How many events the input queue accepted, of how many submitted.
    Injected { sent: usize, submitted: usize },
    /// The requested sleep has elapsed.
    Slept,
}

/// Whether a probe observation is the target token.
pub open spec fn outcome_matches(o: ProbeView, target: Seq<char>) -> bool {
    o matches ProbeView::Token(t) && t == target
}

/// Where a round whose polls are exhausted leads: the next round's resend
/// wait while rounds remain, the timeout failure otherwise.
pub open spec fn round_exhausted(round: u32, resend_rounds: u32) -> Phase {
    if round < resend_rounds {
        Phase::ResendWaiting { round: (round + 1) as u32 }
    } else {
        Phase::Failed(Failure::Timeout)
    }
}

/// The transition function of the machine: the phase that consuming `ev` in
/// `phase` leads to, under target token `target`, chord text `chord`,
/// `a` poll attempts per round and `r` resend rounds.
pub open spec fn spec_step(
    phase: Phase,
    ev: Event,
    target: Seq<char>,
    chord: Seq<char>,
    a: u32,
    r: u32,
) -> Phase {
    match (phase, ev) {
        (Phase::CheckCurrent, Event::Probed(o)) => {
            if outcome_matches(o@, target) {
                Phase::Done
            } else if o@ is Failed {
                Phase::Failed(Failure::Probe)
            } else if !chord_is_valid(chord) {
                Phase::Failed(Failure::InvalidChord)
            } else {
                Phase::Sending { round: 0 }
            }
        },
        (Phase::Sending { round }, Event::Injected { sent, submitted }) => {
            if sent == submitted {
                Phase::Settling { round }
            } else {
                Phase::Failed(Failure::Injection)
            }
        },
        (Phase::Settling { round }, Event::Slept) => {
            if a == 0 {
                round_exhausted(round, r)
            } else {
                Phase::PollWaiting { round, attempt: 0 }
            }
        },
        (Phase::PollWaiting { round, attempt }, Event::Slept) => Phase::PollProbing {
            round,
            attempt,
        },
        (Phase::PollProbing { round, attempt }, Event::Probed(o)) => {
            if outcome_matches(o@, target) {
                Phase::Done
            } else if attempt + 1 < a {
                Phase::PollWaiting { round, attempt: (attempt + 1) as u32 }
            } else {
                round_exhausted(round, r)
            }
        },
        (Phase::ResendWaiting { round }, Event::Slept) => Phase::Sending { round },
        _ => phase,
    }
}

/// Whether `ev` is the kind of event `phase` awaits. Terminal phases await
/// nothing.
pub open spec fn event_expected(phase: Phase, ev: Event) -> bool {
    match phase {
        Phase::CheckCurrent | Phase::PollProbing { .. } => ev is Probed,
        Phase::Sending { .. } => ev is Injected,
        Phase::Settling { .. } | Phase::PollWaiting { .. } | Phase::ResendWaiting { .. } => ev
            is Slept,
        Phase::Done | Phase::Failed(_) => false,
    }
}

/// The command a phase asks of the environment; nothing once terminal.
pub open spec fn spec_command(phase: Phase, policy: SwitchPolicy) -> Option<Command> {
    match phase {
        Phase::CheckCurrent => Some(Command::Probe),
        Phase::Sending { .. } => Some(Command::Inject),
        Phase::Settling { .. } => Some(Command::Sleep(policy.settle_delay_ms)),
        Phase::PollWaiting { .. } => Some(Command::Sleep(policy.poll_interval_ms)),
        Phase::PollProbing { .. } => Some(Command::Probe),
        Phase::ResendWaiting { .. } => Some(Command::Sleep(policy.resend_delay_ms)),
        Phase::Done | Phase::Failed(_) => None,
    }
}

/// Whether a full error value is the one a failure kind stands for, given
/// the target, the chord, and the event that sealed the failure.
pub open spec fn failure_error(
    f: Failure,
    e: SwitchError,
    target: Seq<char>,
    chord: Seq<char>,
    ev: Event,
) -> bool {
    match f {
        Failure::InvalidChord => e matches SwitchError::InvalidKey { segment } && segment@
            == plus_split(chord)[first_bad_segment(plus_split(chord))],
        Failure::Injection => ev matches Event::Injected { sent, submitted } && e
            == (SwitchError::InjectionIncomplete { sent, submitted }),
        Failure::Probe => e == SwitchError::ProbeFailed,
        Failure::Timeout => e matches SwitchError::VerificationTimeout { target: t } && t@
            == target,
    }
}

/// The confirmation engine. The environment asks `pending` what to do,
/// does it, and hands the answer to `on_event`; the machine's transitions
/// are exactly `spec_step`.
pub struct SwitchController {
    /// The token the switch must converge to.
    pub target: String,
    /// The chord string that requests a state change.
    pub chord: String,
    /// The timing and retry budget.
    pub policy: SwitchPolicy,
    /// Where the machine stands.
    pub phase: Phase,
    /// The parsed event batch, filled when the chord is first parsed; every
    /// round injects this same batch.
    pub batch: Vec<KeyEvent>,
}

impl SwitchController {
    /// Whether the machine stands past the idempotence check with work
    /// still to do.
    pub open spec fn in_flight(&self) -> bool {
        match self.phase {
            Phase::Sending { .. } | Phase::Settling { .. } | Phase::PollWaiting { .. }
                | Phase::PollProbing { .. } | Phase::ResendWaiting { .. } => true,
            _ => false,
        }
    }

    /// The machine's invariant: in flight, the chord has parsed and the
    /// batch is its event batch; rounds never exceed the resend budget and
    /// attempts never exceed the poll budget.
    pub open spec fn wf(&self) -> bool {
        &&& (self.in_flight() ==> chord_is_valid(self.chord@) && self.batch@ == batch_of(
            chord_keys(self.chord@),
        ))
        &&& match self.phase {
            Phase::Sending { round } => round <= self.policy.resend_rounds,
            Phase::Settling { round } => round <= self.policy.resend_rounds,
            Phase::PollWaiting { round, attempt } => round <= self.policy.resend_rounds && attempt
                < self.policy.poll_attempts,
            Phase::PollProbing { round, attempt } => round <= self.policy.resend_rounds && attempt
                < self.policy.poll_attempts,
            Phase::ResendWaiting { round } => round <= self.policy.resend_rounds,
            _ => true,
        }
    }

    /// A fresh machine, awaiting its idempotence probe.
    pub fn new(target: String, chord: String, policy: SwitchPolicy) -> (c: SwitchController)
        ensures
            c.wf(),
            c.phase == Phase::CheckCurrent,
            c.target == target,
            c.chord == chord,
            c.policy == policy,
    {
        SwitchController { target, chord, policy, phase: Phase::CheckCurrent, batch: Vec::new() }
    }

    /// What the environment should do next; nothing once terminal.
    pub fn pending(&self) -> (cmd: Option<Command>)
        ensures
            cmd == spec_command(self.phase, self.policy),
    {
        match self.phase {
            Phase::CheckCurrent => Some(Command::Probe),
            Phase::Sending { .. } => Some(Command::Inject),
            Phase::Settling { .. } => Some(Command::Sleep(self.policy.settle_delay_ms)),
            Phase::PollWaiting { .. } => Some(Command::Sleep(self.policy.poll_interval_ms)),
            Phase::PollProbing { .. } => Some(Command::Probe),
            Phase::ResendWaiting { .. } => Some(Command::Sleep(self.policy.resend_delay_ms)),
            Phase::Done | Phase::Failed(..) => None,
        }
    }

    /// Consumes one event. The new phase is exactly what `spec_step` says;
    /// the verdict is handed out at the moment the machine turns terminal:
    /// `Ok` when the observed token equals the target, the full error
    /// otherwise, and nothing while work remains.
    pub fn on_event(&mut self, ev: Event) -> (done: Option<Result<(), SwitchError>>)
        requires
            old(self).wf(),
            event_expected(old(self).phase, ev),
        ensures
            final(self).wf(),
            final(self).phase == spec_step(
                old(self).phase,
                ev,
                old(self).target@,
                old(self).chord@,
                old(self).policy.poll_attempts,
                old(self).policy.resend_rounds,
            ),
            final(self).target == old(self).target,
            final(self).chord == old(self).chord,
            final(self).policy == old(self).policy,
            final(self).in_flight() ==> final(self).batch@ == batch_of(
                chord_keys(old(self).chord@),
            ),
            done is Some <==> (final(self).phase is Done || final(self).phase is Failed),
            final(self).phase is Done ==> done == Some(Ok::<(), SwitchError>(())),
            final(self).phase matches Phase::Failed(f) ==> (done matches Some(v) && v matches Err(
                e,
            ) && failure_error(f, e, old(self).target@, old(self).chord@, ev)),
    {
        let a = self.policy.poll_attempts;
        let r = self.policy.resend_rounds;
        match (self.phase, ev) {
            (Phase::CheckCurrent, Event::Probed(o)) => {
                let matched = match &o {
                    ProbeOutcome::Token(t) => str_eq(t.as_str(), self.target.as_str()),
                    _ => false,
                };
                if matched {
                    self.phase = Phase::Done;
                    Some(Ok(()))
                } else {
                    match o {
                        ProbeOutcome::Failed => {
                            self.phase = Phase::Failed(Failure::Probe);
                            Some(Err(SwitchError::ProbeFailed))
                        },
                        _ => {
                            match parse_chord(self.chord.as_str()) {
                                Ok(batch) => {
                                    self.batch = batch;
                                    self.phase = Phase::Sending { round: 0 };
                                    None
                                },
                                Err(e) => {
                                    self.phase = Phase::Failed(Failure::InvalidChord);
                                    Some(Err(e))
                                },
                            }
                        },
                    }
                }
            },
            (Phase::Sending { round }, Event::Injected { sent, submitted }) => {
                if sent == submitted {
                    self.phase = Phase::Settling { round };
                    None
                } else {
                    self.phase = Phase::Failed(Failure::Injection);
                    Some(Err(SwitchError::InjectionIncomplete { sent, submitted }))
                }
            },
            (Phase::Settling { round }, Event::Slept) => {
                if a == 0 {
                    if round < r {
                        self.phase = Phase::ResendWaiting { round: round + 1 };
                        None
                    } else {
                        self.phase = Phase::Failed(Failure::Timeout);
                        Some(Err(SwitchError::VerificationTimeout { target: self.target.clone() }))
                    }
                } else {
                    self.phase = Phase::PollWaiting { round, attempt: 0 };
                    None
                }
            },
            (Phase::PollWaiting { round, attempt }, Event::Slept) => {
                self.phase = Phase::PollProbing { round, attempt };
                None
            },
            (Phase::PollProbing { round, attempt }, Event::Probed(o)) => {
                let matched = match &o {
                    ProbeOutcome::Token(t) => str_eq(t.as_str(), self.target.as_str()),
                    _ => false,
                };
                if matched {
                    self.phase = Phase::Done;
                    Some(Ok(()))
                } else if attempt + 1 < a {
                    self.phase = Phase::PollWaiting { round, attempt: attempt + 1 };
                    None
                } else {
                    if round < r {
                        self.phase = Phase::ResendWaiting { round: round + 1 };
                        None
                    } else {
                        self.phase = Phase::Failed(Failure::Timeout);
                        Some(Err(SwitchError::VerificationTimeout { target: self.target.clone() }))
                    }
                }
            },
            (Phase::ResendWaiting { round }, Event::Slept) => {
                self.phase = Phase::Sending { round };
                None
            },
            _ => unreached(),
        }
    }
}

/// The whole poll budget of a policy: polls per round, times the first
/// round and every resend round.
pub open spec fn poll_budget(policy: SwitchPolicy) -> int {
    policy.poll_attempts as int * (policy.resend_rounds as int + 1)
}

/// What a scripted probe observes at read `i`: the script's entry, or
/// "not found" once the script is exhausted.
pub open spec fn probe_at(script: Seq<ProbeOutcome>, i: int) -> ProbeView {
    if 0 <= i < script.len() {
        script[i]@
    } else {
        ProbeView::NotFound
    }
}

/// The first poll index in `[j, n)` whose read matches the target. Poll `m`
/// is read `m + 1`: the idempotence check is read `0` and no poll.
pub open spec fn first_match_from(
    script: Seq<ProbeOutcome>,
    target: Seq<char>,
    j: int,
    n: int,
) -> Option<int>
    decreases n - j,
{
    if j < 0 || j >= n {
        None
    } else if outcome_matches(probe_at(script, j + 1), target) {
        Some(j)
    } else {
        first_match_from(script, target, j + 1, n)
    }
}

/// The first poll index below `n` whose read matches the target, if any.
pub open spec fn first_match(script: Seq<ProbeOutcome>, target: Seq<char>, n: int) -> Option<int> {
    first_match_from(script, target, 0, n)
}

/// Pins the first matching poll: when every poll below `m` misses and poll
/// `m` matches, `m` is the first match of any budget that reaches it.
pub proof fn lemma_first_match_from_found(
    script: Seq<ProbeOutcome>,
    target: Seq<char>,
    j0: int,
    m: int,
    n: int,
)
    requires
        0 <= j0 <= m < n,
        forall|j: int| j0 + 1 <= j <= m ==> !outcome_matches(#[trigger] probe_at(script, j), target),
        outcome_matches(probe_at(script, m + 1), target),
    ensures
        first_match_from(script, target, j0, n) == Some(m),
    decreases m - j0,
{
    if j0 < m {
        lemma_first_match_from_found(script, target, j0 + 1, m, n);
    }
}

/// When every poll of the budget misses, the budget holds no first match.
pub proof fn lemma_first_match_from_none(
    script: Seq<ProbeOutcome>,
    target: Seq<char>,
    j0: int,
    n: int,
)
    requires
        0 <= j0,
        forall|j: int| j0 + 1 <= j <= n ==> !outcome_matches(#[trigger] probe_at(script, j), target),
    ensures
        first_match_from(script, target, j0, n) is None,
    decreases n - j0,
{
    if j0 < n {
        lemma_first_match_from_none(script, target, j0 + 1, n);
    }
}

proof fn lemma_poll_budget_bounds(policy: SwitchPolicy)
    ensures
        0 <= poll_budget(policy) <= 0xffffffff00000000,
        poll_budget(policy) == policy.resend_rounds as int * (policy.poll_attempts as int)
            + policy.poll_attempts as int,
{
    let a = policy.poll_attempts as int;
    let r = policy.resend_rounds as int;
    assert(0 <= a * (r + 1) <= 0xffffffff00000000 && a * (r + 1) == r * a + a)
        by (nonlinear_arith)
        requires
            0 <= a <= 0xffffffff,
            0 <= r <= 0xffffffff,
    ;
}

/// What one full run of the engine did: its verdict, how many batches were
/// injected, and how many verification polls were made. The idempotence
/// read counts as no poll.
#[derive(Debug)]
pub struct SwitchReport {
    pub outcome: Result<(), SwitchError>,
    pub injections: u64,
    pub polls: u64,
}

/// An owned copy of a probe outcome.
fn clone_outcome(o: &ProbeOutcome) -> (r: ProbeOutcome)
    ensures
        r@ == o@,
{
    match o {
        ProbeOutcome::Token(t) => ProbeOutcome::Token(t.clone()),
        ProbeOutcome::NotFound => ProbeOutcome::NotFound,
        ProbeOutcome::Failed => ProbeOutcome::Failed,
    }
}

/// The scripted probe: read `i` answers with the script's entry, or with
/// "not found" once the script is exhausted.
fn scripted_probe(script: &Vec<ProbeOutcome>, i: u64) -> (o: ProbeOutcome)
    ensures
        o@ == probe_at(script@, i as int),
{
    if i < script.len() as u64 {
        clone_outcome(&script[i as usize])
    } else {
        ProbeOutcome::NotFound
    }
}

/// Runs the engine to completion against a scripted probe whose reads come
/// from `script` in order (reads past its end observe nothing), with every
/// injection accepted in full.
///
/// The contract is the engine's behaviour in closed form. Switching to the
/// state the first read already observes succeeds with no injection at all.
/// A failing first read, or a chord that does not parse, ends the run
/// before anything is injected. Otherwise the first matching poll `m` ends
/// the run at once — `m + 1` polls, one injection per round entered — and
/// if no poll of any round matches, the run reports the verification
/// timeout after exactly one injection per round and the whole poll budget.
pub fn run_switch(
    target: &str,
    chord: &str,
    policy: &SwitchPolicy,
    script: &Vec<ProbeOutcome>,
) -> (report: SwitchReport)
    ensures
        report.injections as int <= policy.resend_rounds as int + 1,
        report.polls as int <= poll_budget(*policy),
        outcome_matches(probe_at(script@, 0), target@) ==> report.outcome == Ok::<
            (),
            SwitchError,
        >(()) && report.injections == 0 && report.polls == 0,
        (!outcome_matches(probe_at(script@, 0), target@) && probe_at(script@, 0) is Failed)
            ==> report.outcome == Err::<(), SwitchError>(SwitchError::ProbeFailed)
            && report.injections == 0 && report.polls == 0,
        (!outcome_matches(probe_at(script@, 0), target@) && !(probe_at(script@, 0) is Failed)
            && !chord_is_valid(chord@)) ==> (report.outcome matches Err(e) && e matches
            SwitchError::InvalidKey { segment } && segment@ == plus_split(chord@)[
            first_bad_segment(plus_split(chord@))] && report.injections == 0 && report.polls == 0),
        (!outcome_matches(probe_at(script@, 0), target@) && !(probe_at(script@, 0) is Failed)
            && chord_is_valid(chord@)) ==> (match first_match(
            script@,
            target@,
            poll_budget(*policy),
        ) {
            Option::Some(m) => report.outcome == Ok::<(), SwitchError>(()) && report.polls as int
                == m + 1 && report.injections as int == m / (policy.poll_attempts as int) + 1,
            Option::None => report.outcome matches Err(e) && e matches
                SwitchError::VerificationTimeout { target: t } && t@ == target@
                && report.polls as int == poll_budget(*policy) && report.injections as int
                == policy.resend_rounds as int + 1,
        }),
{
    let a = policy.poll_attempts;
    let r = policy.resend_rounds;
    proof {
        lemma_poll_budget_bounds(*policy);
    }
    let mut c = SwitchController::new(target.to_owned(), chord.to_owned(), *policy);
    let o0 = scripted_probe(script, 0);
    let d0 = c.on_event(Event::Probed(o0));
    match d0 {
        Some(out) => {
            return SwitchReport { outcome: out, injections: 0, polls: 0 };
        },
        None => {},
    }
    let mut polls: u64 = 0;
    let mut injections: u64 = 0;
    let mut round: u32 = 0;
    proof {
        assert(c.phase == (Phase::Sending { round: 0u32 }));
    }
    loop
        invariant
            c.wf(),
            c.policy == *policy,
            c.target@ == target@,
            c.chord@ == chord@,
            c.phase == (Phase::Sending { round }),
            a == policy.poll_attempts,
            r == policy.resend_rounds,
            round <= r,
            injections as int == round as int,
            polls as int == round as int * (a as int),
            !outcome_matches(probe_at(script@, 0), target@),
            !(probe_at(script@, 0) is Failed),
            chord_is_valid(chord@),
            forall|j: int|
                1 <= j <= polls ==> !outcome_matches(#[trigger] probe_at(script@, j), target@),
        decreases r - round,
    {
        proof {
            lemma_poll_budget_bounds(*policy);
            lemma_mul_inequality(round as int, r as int, a as int);
        }
        let nb = c.batch.len();
        injections = injections + 1;
        let d1 = c.on_event(Event::Injected { sent: nb, submitted: nb });
        assert(d1 is None);
        let d2 = c.on_event(Event::Slept);
        if a == 0 {
            proof {
                assert(round as int * (a as int) == 0 && policy.poll_attempts as int * (
                policy.resend_rounds as int + 1) == 0) by (nonlinear_arith)
                    requires
                        a == 0,
                        a == policy.poll_attempts,
                ;
                assert(poll_budget(*policy) == 0);
                assert(polls == 0);
            }
            match d2 {
                Some(out) => {
                    proof {
                        assert(round == r);
                    }
                    return SwitchReport { outcome: out, injections, polls };
                },
                None => {
                    let d3 = c.on_event(Event::Slept);
                    assert(d3 is None);
                    round = round + 1;
                    proof {
                        assert(round as int * (a as int) == 0) by (nonlinear_arith)
                            requires
                                a == 0,
                        ;
                    }
                },
            }
        } else {
            assert(d2 is None);
            let mut attempt: u32 = 0;
            loop
                invariant_except_break
                    c.phase == (Phase::PollWaiting { round, attempt }),
                    attempt < a,
                    polls as int == round as int * (a as int) + attempt as int,
                invariant
                    c.wf(),
                    c.policy == *policy,
                    c.target@ == target@,
                    c.chord@ == chord@,
                    a == policy.poll_attempts,
                    r == policy.resend_rounds,
                    1 <= a,
                    round <= r,
                    injections as int == round as int + 1,
                    !outcome_matches(probe_at(script@, 0), target@),
                    !(probe_at(script@, 0) is Failed),
                    chord_is_valid(chord@),
                    forall|j: int|
                        1 <= j <= polls ==> !outcome_matches(
                            #[trigger] probe_at(script@, j),
                            target@,
                        ),
                ensures
                    c.phase == (Phase::ResendWaiting { round: (round + 1) as u32 }),
                    round < r,
                    polls as int == (round as int + 1) * (a as int),
                decreases a - attempt,
            {
                proof {
                    lemma_poll_budget_bounds(*policy);
                    lemma_mul_inequality(round as int, r as int, a as int);
                }
                let d4 = c.on_event(Event::Slept);
                assert(d4 is None);
                let ghost m = polls as int;
                let o = scripted_probe(script, polls + 1);
                polls = polls + 1;
                let d5 = c.on_event(Event::Probed(o));
                match d5 {
                    Some(out) => {
                        proof {
                            if c.phase is Done {
                                lemma_first_match_from_found(
                                    script@,
                                    target@,
                                    0,
                                    m,
                                    poll_budget(*policy),
                                );
                                lemma_fundamental_div_mod_converse(
                                    m,
                                    a as int,
                                    round as int,
                                    attempt as int,
                                );
                            } else {
                                assert(round == r && attempt + 1 == a);
                                assert(polls as int == poll_budget(*policy));
                                lemma_first_match_from_none(
                                    script@,
                                    target@,
                                    0,
                                    poll_budget(*policy),
                                );
                            }
                        }
                        return SwitchReport { outcome: out, injections, polls };
                    },
                    None => {
                        if attempt + 1 < a {
                            attempt = attempt + 1;
                        } else {
                            proof {
                                assert((round as int + 1) * (a as int) == round as int * (
                                a as int) + a as int) by (nonlinear_arith);
                            }
                            break;
                        }
                    },
                }
            }
            let d6 = c.on_event(Event::Slept);
            assert(d6 is None);
            round = round + 1;
        }
    }
}

} // verus!
