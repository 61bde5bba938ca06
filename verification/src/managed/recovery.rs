//! The course of a recovery: a remediation, then a bounded number of checks.

use crate::managed::alert;
use crate::managed::alert::Effect;
use crate::managed::alert::EffectView;
use crate::managed::config::Config;
use crate::managed::rule::Rule;
use crate::text;
use vstd::prelude::*;
use vstd::string::*;

verus! {

pub const VERIFY_DELAY_SECS: u64 = 2;

pub const MAX_VERIFY_ATTEMPTS: u32 = 5;

/// Where a recovery stands.
#[derive(Clone, Copy, Debug)]
pub enum RecoveryState {
    /// The check with this number is to be made.
    Verifying { attempt: u32 },
    /// Nothing is left to be done.
    Finished,
}

/// The line that announces a check.
pub open spec fn check_line(rule: Rule, attempt: u32) -> Seq<char> {
    "[VERIFY] "@ + rule.id@ + " attempt "@ + text::decimal(attempt as nat) + "/"@ + text::decimal(
        MAX_VERIFY_ATTEMPTS as nat,
    )
}

/// What is done before the check with the number `attempt`.
pub open spec fn check_effects(rule: Rule, attempt: u32) -> Seq<EffectView> {
    seq![EffectView::Sleep(VERIFY_DELAY_SECS), EffectView::Incident(check_line(rule, attempt))]
}

/// Where a recovery stands once the remediation has been tried.
pub open spec fn remediated_state(outcome: Result<(), String>) -> RecoveryState {
    match outcome {
        Ok(_) => RecoveryState::Verifying { attempt: 1 },
        Err(_) => RecoveryState::Finished,
    }
}

/// What is done once the remediation has been tried: after a success the first check is prepared,
/// after a failure an alert is raised.
pub open spec fn remediated_effects(
    config: Config,
    rule: Rule,
    incident: Seq<char>,
    outcome: Result<(), String>,
) -> Seq<EffectView> {
    match outcome {
        Ok(_) => check_effects(rule, 1),
        Err(e) => alert::alert_effects(
            config,
            "Aegira recovery failed: "@ + rule.name@,
            "Remediation failed: "@ + e@ + " | Incident: "@ + incident,
        ),
    }
}

/// Where a recovery stands after the check with the number `attempt`.
pub open spec fn checked_state(attempt: u32, ok: bool) -> RecoveryState {
    if !ok && attempt < MAX_VERIFY_ATTEMPTS {
        RecoveryState::Verifying { attempt: (attempt + 1) as u32 }
    } else {
        RecoveryState::Finished
    }
}

/// What is done after the check with the number `attempt`: a success is noted; after a failure
/// the next check is prepared, and after the last one an alert is raised.
pub open spec fn checked_effects(
    config: Config,
    rule: Rule,
    incident: Seq<char>,
    attempt: u32,
    ok: bool,
    elapsed: Seq<char>,
) -> Seq<EffectView> {
    if ok {
        seq![EffectView::Incident("[RESOLVED] "@ + rule.id@ + " recovered in "@ + elapsed)]
    } else if attempt < MAX_VERIFY_ATTEMPTS {
        check_effects(rule, (attempt + 1) as u32)
    } else {
        alert::alert_effects(
            config,
            "Aegira recovery unresolved: "@ + rule.name@,
            "Remediation executed but verification failed. Incident: "@ + incident,
        )
    }
}

fn prepare_check(rule: &Rule, attempt: u32) -> (r: Vec<Effect>)
    ensures
        alert::shown(r@) == check_effects(*rule, attempt),
{
    let n = text::decimal_text(attempt as u64);
    let all = text::decimal_text(MAX_VERIFY_ATTEMPTS as u64);
    let line = "[VERIFY] ".to_owned().concat(rule.id.as_str()).concat(" attempt ").concat(
        n.as_str(),
    ).concat("/").concat(all.as_str());
    let effects = vec![Effect::Sleep(VERIFY_DELAY_SECS), Effect::Incident(line)];
    assert(alert::shown(effects@) == check_effects(*rule, attempt));
    effects
}

/// Goes on once the remediation has been tried.
pub fn after_remediation(
    config: &Config,
    rule: &Rule,
    incident: &str,
    outcome: &Result<(), String>,
) -> (r: (RecoveryState, Vec<Effect>))
    ensures
        r.0 == remediated_state(*outcome),
        alert::shown(r.1@) == remediated_effects(*config, *rule, incident@, *outcome),
{
    match outcome {
        Ok(_) => (RecoveryState::Verifying { attempt: 1 }, prepare_check(rule, 1)),
        Err(e) => {
            let subject = "Aegira recovery failed: ".to_owned().concat(rule.name.as_str());
            let body = "Remediation failed: ".to_owned().concat(e.as_str()).concat(
                " | Incident: ",
            ).concat(incident);
            (RecoveryState::Finished, alert::alert(config, subject.as_str(), body.as_str()))
        },
    }
}

/// Goes on after the check with the number `attempt`. `elapsed` tells how long the recovery has
/// taken so far.
pub fn after_check(
    config: &Config,
    rule: &Rule,
    incident: &str,
    attempt: u32,
    ok: bool,
    elapsed: &str,
) -> (r: (RecoveryState, Vec<Effect>))
    ensures
        r.0 == checked_state(attempt, ok),
        alert::shown(r.1@) == checked_effects(*config, *rule, incident@, attempt, ok, elapsed@),
{
    if ok {
        let line = "[RESOLVED] ".to_owned().concat(rule.id.as_str()).concat(
            " recovered in ",
        ).concat(elapsed);
        let effects = vec![Effect::Incident(line)];
        assert(alert::shown(effects@) == checked_effects(
            *config,
            *rule,
            incident@,
            attempt,
            ok,
            elapsed@,
        ));
        (RecoveryState::Finished, effects)
    } else if attempt < MAX_VERIFY_ATTEMPTS {
        (
            RecoveryState::Verifying { attempt: attempt + 1 },
            prepare_check(rule, attempt + 1),
        )
    } else {
        let subject = "Aegira recovery unresolved: ".to_owned().concat(rule.name.as_str());
        let body = "Remediation executed but verification failed. Incident: ".to_owned().concat(
            incident,
        );
        (RecoveryState::Finished, alert::alert(config, subject.as_str(), body.as_str()))
    }
}

/// Where a recovery stands after a successful remediation and the given outcomes of checks, as far
/// as checks are made.
pub open spec fn state_after(outcomes: Seq<bool>) -> RecoveryState
    decreases outcomes.len(),
{
    if outcomes.len() == 0 {
        RecoveryState::Verifying { attempt: 1 }
    } else {
        match state_after(outcomes.drop_last()) {
            RecoveryState::Verifying { attempt } => checked_state(attempt, outcomes.last()),
            RecoveryState::Finished => RecoveryState::Finished,
        }
    }
}

/// A recovery goes on exactly as long as every check so far has failed and their number has not
/// reached the limit.
pub proof fn law_checks_are_bounded(outcomes: Seq<bool>)
    ensures
        state_after(outcomes) is Verifying <==> outcomes.len() < MAX_VERIFY_ATTEMPTS && forall|
            i: int,
        |
            0 <= i < outcomes.len() ==> !#[trigger] outcomes[i],
        state_after(outcomes) matches RecoveryState::Verifying { attempt } ==> attempt
            == outcomes.len() + 1 && attempt <= MAX_VERIFY_ATTEMPTS,
    decreases outcomes.len(),
{
    if outcomes.len() > 0 {
        let before = outcomes.drop_last();
        law_checks_are_bounded(before);
        if forall|i: int| 0 <= i < outcomes.len() ==> !#[trigger] outcomes[i] {
            assert forall|i: int| 0 <= i < before.len() implies !#[trigger] before[i] by {
                assert(!outcomes[i]);
            }
        }
        if state_after(outcomes) is Verifying {
            assert forall|i: int| 0 <= i < outcomes.len() implies !#[trigger] outcomes[i] by {
                if i < before.len() {
                    assert(!before[i]);
                }
            }
        }
    }
}

/// A remediation that went well is always checked, after a wait of two seconds; one that failed is
/// never checked, but raises an alert with the reason.
pub proof fn law_remediations_are_checked(
    config: &Config,
    rule: &Rule,
    incident: &str,
    outcome: &Result<(), String>,
    r: (RecoveryState, Vec<Effect>),
)
    requires
        call_ensures(after_remediation, (config, rule, incident, outcome), r),
    ensures
        outcome is Ok ==> r.0 == (RecoveryState::Verifying { attempt: 1 }) && alert::shown(r.1@)
            == seq![
            EffectView::Sleep(2),
            EffectView::Incident("[VERIFY] "@ + rule.id@ + " attempt "@ + "1/5"@),
        ],
        *outcome matches Err(e) ==> r.0 is Finished && alert::shown(r.1@) == alert::alert_effects(
            *config,
            "Aegira recovery failed: "@ + rule.name@,
            "Remediation failed: "@ + e@ + " | Incident: "@ + incident@,
        ),
{
    lemma_check_line(*rule, 1);
    reveal_strlit("1/5");
    reveal_strlit("/");
    assert(text::decimal(1) + "/"@ + text::decimal(5) == "1/5"@);
    let head = "[VERIFY] "@ + rule.id@ + " attempt "@;
    assert(head + text::decimal(1) + "/"@ + text::decimal(5) == head + (text::decimal(1) + "/"@
        + text::decimal(5)));
}

proof fn lemma_check_line(rule: Rule, attempt: u32)
    ensures
        check_effects(rule, attempt) == seq![
            EffectView::Sleep(2),
            EffectView::Incident(
                "[VERIFY] "@ + rule.id@ + " attempt "@ + text::decimal(attempt as nat) + "/"@
                    + text::decimal(5),
            ),
        ],
{
}

/// A check that succeeds resolves the incident. One that fails is repeated after a wait of two
/// seconds, until five have been made; then an alert is raised.
pub proof fn law_checks_are_followed_up(
    config: &Config,
    rule: &Rule,
    incident: &str,
    attempt: u32,
    ok: bool,
    elapsed: &str,
    r: (RecoveryState, Vec<Effect>),
)
    requires
        call_ensures(after_check, (config, rule, incident, attempt, ok, elapsed), r),
    ensures
        ok ==> r.0 is Finished && alert::shown(r.1@) == seq![
            EffectView::Incident("[RESOLVED] "@ + rule.id@ + " recovered in "@ + elapsed@),
        ],
        !ok && attempt < 5 ==> r.0 == (RecoveryState::Verifying { attempt: (attempt + 1) as u32 })
            && alert::shown(r.1@) == seq![
            EffectView::Sleep(2),
            EffectView::Incident(
                "[VERIFY] "@ + rule.id@ + " attempt "@ + text::decimal((attempt + 1) as nat)
                    + "/"@ + text::decimal(5),
            ),
        ],
        !ok && attempt >= 5 ==> r.0 is Finished && alert::shown(r.1@) == alert::alert_effects(
            *config,
            "Aegira recovery unresolved: "@ + rule.name@,
            "Remediation executed but verification failed. Incident: "@ + incident@,
        ),
{
    if attempt < 5 {
        lemma_check_line(*rule, (attempt + 1) as u32);
    }
}

} // verus!
