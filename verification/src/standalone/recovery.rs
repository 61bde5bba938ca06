//! The course of a recovery: a remediation, then a bounded number of checks.

use crate::standalone::rule::Rule;
use crate::text;
use vstd::prelude::*;
use vstd::string::*;

verus! {

pub const VERIFY_DELAY_SECS: u64 = 2;

pub const MAX_VERIFY_ATTEMPTS: u32 = 5;

/// The reason why a recovery failed whose checks all failed.
pub const CHECKS_FAILED: &'static str = "Remediation executed but health verification failed";

/// How far a recovery has come.
#[derive(Debug)]
pub enum Event {
    /// It starts.
    Begun,
    /// The remediation has been tried.
    Remediated(Result<(), String>),
    /// The check with this number has been made.
    Checked { attempt: u32, ok: bool },
}

/// Something to be done on the way.
#[derive(Debug)]
pub enum Step {
    /// Log a line.
    Log(String),
    /// Wait for so many seconds.
    Sleep(u64),
}

/// What comes next.
#[derive(Debug)]
pub enum Action {
    /// Try the remediation.
    Remediate,
    /// Make the check with this number.
    Check { attempt: u32 },
    /// The recovery is over.
    Finish(Result<(), String>),
}

/// The texts of a step.
pub enum StepView {
    Log(Seq<char>),
    Sleep(u64),
}

/// The texts of an action.
pub enum ActionView {
    Remediate,
    Check { attempt: u32 },
    Finish(Result<(), Seq<char>>),
}

impl View for Step {
    type V = StepView;

    open spec fn view(&self) -> StepView {
        match *self {
            Step::Log(line) => StepView::Log(line@),
            Step::Sleep(secs) => StepView::Sleep(secs),
        }
    }
}

/// The texts of an outcome.
pub open spec fn outcome_texts(r: Result<(), String>) -> Result<(), Seq<char>> {
    match r {
        Ok(_) => Ok(()),
        Err(e) => Err(e@),
    }
}

impl View for Action {
    type V = ActionView;

    open spec fn view(&self) -> ActionView {
        match *self {
            Action::Remediate => ActionView::Remediate,
            Action::Check { attempt } => ActionView::Check { attempt },
            Action::Finish(r) => ActionView::Finish(outcome_texts(r)),
        }
    }
}

/// The texts of steps.
pub open spec fn shown(steps: Seq<Step>) -> Seq<StepView> {
    steps.map_values(|s: Step| s@)
}

/// What is done before the check with the number `attempt`.
pub open spec fn check_steps(attempt: u32) -> Seq<StepView> {
    seq![
        StepView::Sleep(VERIFY_DELAY_SECS),
        StepView::Log(
            "[VERIFY] Verification attempt "@ + text::decimal(attempt as nat) + "/"@
                + text::decimal(MAX_VERIFY_ATTEMPTS as nat),
        ),
    ]
}

/// What comes next in the recovery by a rule.
pub open spec fn next_action(event: Event) -> ActionView {
    match event {
        Event::Begun => ActionView::Remediate,
        Event::Remediated(Ok(_)) => ActionView::Check { attempt: 1 },
        Event::Remediated(Err(e)) => ActionView::Finish(Err(e@)),
        Event::Checked { attempt, ok } => if ok {
            ActionView::Finish(Ok(()))
        } else if attempt < MAX_VERIFY_ATTEMPTS {
            ActionView::Check { attempt: (attempt + 1) as u32 }
        } else {
            ActionView::Finish(Err(CHECKS_FAILED@))
        },
    }
}

/// What is done before what comes next in the recovery by a rule.
pub open spec fn next_steps(rule: Rule, event: Event) -> Seq<StepView> {
    match event {
        Event::Begun => seq![
            StepView::Log("[MATCH] Rule: "@ + rule.name@),
            StepView::Log("[MATCH] Rule ID: "@ + rule.id@),
        ],
        _ => match next_action(event) {
            ActionView::Check { attempt } => check_steps(attempt),
            _ => Seq::empty(),
        },
    }
}

fn prepare_check(attempt: u32) -> (r: Vec<Step>)
    ensures
        shown(r@) == check_steps(attempt),
{
    let n = text::decimal_text(attempt as u64);
    let all = text::decimal_text(MAX_VERIFY_ATTEMPTS as u64);
    let line = "[VERIFY] Verification attempt ".to_owned().concat(n.as_str()).concat("/").concat(
        all.as_str(),
    );
    let steps = vec![Step::Sleep(VERIFY_DELAY_SECS), Step::Log(line)];
    assert(shown(steps@) == check_steps(attempt));
    steps
}

/// Goes on with the recovery by a rule: what to do, and what comes next.
pub fn recover_with_rule(rule: &Rule, event: &Event) -> (r: (Vec<Step>, Action))
    ensures
        shown(r.0@) == next_steps(*rule, *event),
        r.1@ == next_action(*event),
{
    let none: Vec<Step> = Vec::new();
    assert(shown(none@) == Seq::<StepView>::empty());
    match event {
        Event::Begun => {
            let steps = vec![
                Step::Log("[MATCH] Rule: ".to_owned().concat(rule.name.as_str())),
                Step::Log("[MATCH] Rule ID: ".to_owned().concat(rule.id.as_str())),
            ];
            assert(shown(steps@) == next_steps(*rule, *event));
            (steps, Action::Remediate)
        },
        Event::Remediated(Ok(_)) => (prepare_check(1), Action::Check { attempt: 1 }),
        Event::Remediated(Err(e)) => (none, Action::Finish(Err(e.clone()))),
        Event::Checked { attempt, ok } => if *ok {
            (none, Action::Finish(Ok(())))
        } else if *attempt < MAX_VERIFY_ATTEMPTS {
            (prepare_check(*attempt + 1), Action::Check { attempt: *attempt + 1 })
        } else {
            (none, Action::Finish(Err(CHECKS_FAILED.to_owned())))
        },
    }
}

/// What comes next after a successful remediation and the given outcomes of checks, as far as
/// checks are made.
pub open spec fn action_after(outcomes: Seq<bool>) -> ActionView
    decreases outcomes.len(),
{
    if outcomes.len() == 0 {
        ActionView::Check { attempt: 1 }
    } else {
        match action_after(outcomes.drop_last()) {
            ActionView::Check { attempt } => next_action(
                Event::Checked { attempt, ok: outcomes.last() },
            ),
            done => done,
        }
    }
}

/// A recovery goes on exactly as long as every check so far has failed and their number has not
/// reached the limit. It succeeds exactly when one of the checks that are made does.
pub proof fn law_checks_are_bounded(outcomes: Seq<bool>)
    ensures
        action_after(outcomes) is Check <==> outcomes.len() < MAX_VERIFY_ATTEMPTS && forall|i: int|

            0 <= i < outcomes.len() ==> !#[trigger] outcomes[i],
        action_after(outcomes) matches ActionView::Check { attempt } ==> attempt == outcomes.len()
            + 1 && attempt <= MAX_VERIFY_ATTEMPTS,
        action_after(outcomes) == ActionView::Finish(Ok(())) <==> exists|i: int|
            0 <= i < outcomes.len() && i < MAX_VERIFY_ATTEMPTS && #[trigger] outcomes[i],
    decreases outcomes.len(),
{
    if outcomes.len() > 0 {
        let before = outcomes.drop_last();
        law_checks_are_bounded(before);
        assert(forall|i: int| 0 <= i < before.len() ==> before[i] == outcomes[i]);
        if action_after(before) is Check {
            assert(forall|i: int| 0 <= i < before.len() ==> !#[trigger] outcomes[i]) by {
                assert forall|i: int| 0 <= i < before.len() implies !#[trigger] outcomes[i] by {
                    assert(!before[i]);
                }
            }
            assert(outcomes.last() == outcomes[before.len() as int]);
        } else {
            if exists|i: int| 0 <= i < before.len() && #[trigger] before[i] {
                let i = choose|i: int| 0 <= i < before.len() && #[trigger] before[i];
                assert(outcomes[i]);
            }
            if exists|i: int|
                0 <= i < before.len() && i < MAX_VERIFY_ATTEMPTS && #[trigger] before[i] {
                let i = choose|i: int|
                    0 <= i < before.len() && i < MAX_VERIFY_ATTEMPTS && #[trigger] before[i];
                assert(outcomes[i]);
            }
            if exists|i: int|
                0 <= i < outcomes.len() && i < MAX_VERIFY_ATTEMPTS && #[trigger] outcomes[i] {
                let i = choose|i: int|
                    0 <= i < outcomes.len() && i < MAX_VERIFY_ATTEMPTS && #[trigger] outcomes[i];
                if i < before.len() {
                    assert(before[i]);
                } else {
                    assert(before.len() < MAX_VERIFY_ATTEMPTS);
                }
            }
        }
    }
}

/// A recovery starts with the remediation. One that failed ends it with its reason; one that went
/// well is checked after a wait of two seconds.
pub proof fn law_remediations_are_checked(
    rule: &Rule,
    event: &Event,
    r: (Vec<Step>, Action),
)
    requires
        call_ensures(recover_with_rule, (rule, event), r),
    ensures
        r.1@ == next_action(*event),
        *event is Begun ==> r.1 is Remediate && shown(r.0@) == seq![
            StepView::Log("[MATCH] Rule: "@ + rule.name@),
            StepView::Log("[MATCH] Rule ID: "@ + rule.id@),
        ],
        *event matches Event::Remediated(Ok(_)) ==> r.1 == (Action::Check { attempt: 1 }) && shown(
            r.0@,
        ) == seq![
            StepView::Sleep(2),
            StepView::Log("[VERIFY] Verification attempt "@ + text::decimal(1) + "/"@ + text::decimal(5)),
        ],
        *event matches Event::Remediated(Err(e)) ==> (r.1 matches Action::Finish(Err(why)) && why@
            == e@) && r.0@.len() == 0,
{
    assert(shown(r.0@).len() == r.0@.len());
}

/// A check that succeeds ends the recovery well. One that fails is repeated after a wait of two
/// seconds, until five have been made; then the recovery has failed.
pub proof fn law_checks_are_followed_up(
    rule: &Rule,
    attempt: u32,
    ok: bool,
    r: (Vec<Step>, Action),
)
    requires
        call_ensures(recover_with_rule, (rule, &(Event::Checked { attempt, ok })), r),
    ensures
        ok ==> (r.1 matches Action::Finish(outcome) && outcome is Ok) && r.0@.len() == 0,
        !ok && attempt < 5 ==> r.1 == (Action::Check { attempt: (attempt + 1) as u32 }) && shown(
            r.0@,
        ) == seq![
            StepView::Sleep(2),
            StepView::Log(
                "[VERIFY] Verification attempt "@ + text::decimal((attempt + 1) as nat) + "/"@
                    + text::decimal(5),
            ),
        ],
        !ok && attempt >= 5 ==> (r.1 matches Action::Finish(Err(why)) && why@
            == "Remediation executed but health verification failed"@) && r.0@.len() == 0,
{
    assert(shown(r.0@).len() == r.0@.len());
}

/// Steps are shown one for one.
pub proof fn law_steps_are_shown(steps: Seq<Step>, i: int)
    requires
        0 <= i < steps.len(),
    ensures
        shown(steps).len() == steps.len(),
        steps[i] matches Step::Log(line) ==> shown(steps)[i] == StepView::Log(line@),
        steps[i] matches Step::Sleep(secs) ==> shown(steps)[i] == StepView::Sleep(secs),
{
}

} // verus!
