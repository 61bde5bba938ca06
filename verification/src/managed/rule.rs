//! Rules, and what makes one valid.

use crate::order::Ranked;
use crate::service;
use crate::text;
use crate::verification::Verification;
use vstd::prelude::*;
use vstd::string::*;

verus! {

/// What to do about an incident.
#[derive(Clone, Debug)]
pub enum Remediation {
    ServiceRestart { service: String },
    ContainerRestart { container: String },
    AlertOnly,
}

/// How to recognise an incident and what to do about it.
#[derive(Clone, Debug)]
pub struct Rule {
    pub id: String,
    pub name: String,
    pub severity: String,
    pub error_patterns: Vec<String>,
    pub context_patterns: Vec<String>,
    pub remediation: Remediation,
    pub verification: Verification,
    pub priority: i32,
    pub enabled: bool,
}

/// Whether a rule that does not say so is enabled.
pub fn default_enabled() -> (r: bool)
    ensures
        r,
{
    true
}

/// Rules with a high priority come first, and among those of one priority the order is by id.
impl Ranked for Rule {
    open spec fn ranks_before(&self, other: &Self) -> bool {
        self.priority > other.priority || (self.priority == other.priority && text::text_precedes(
            self.id@,
            other.id@,
        ))
    }

    proof fn rank_irreflexive(a: &Self) {
        text::lemma_order_irreflexive(a.id@);
    }

    proof fn rank_negatively_transitive(a: &Self, b: &Self, c: &Self) {
        if a.priority == b.priority && b.priority == c.priority && text::text_precedes(
            a.id@,
            c.id@,
        ) {
            text::lemma_order_total(a.id@, b.id@);
            text::lemma_order_total(b.id@, c.id@);
            if text::text_precedes(b.id@, a.id@) {
                text::lemma_order_transitive(b.id@, a.id@, c.id@);
            }
        }
    }

    proof fn rank_transitive(a: &Self, b: &Self, c: &Self) {
        if a.priority == b.priority && b.priority == c.priority {
            text::lemma_order_transitive(a.id@, b.id@, c.id@);
        }
    }

    fn is_before(&self, other: &Self) -> (r: bool) {
        self.priority > other.priority || (self.priority == other.priority && text::precedes(
            self.id.as_str(),
            other.id.as_str(),
        ))
    }
}

/// A complaint about the rule `id`.
pub open spec fn complaint(id: Seq<char>, what: Seq<char>) -> Seq<char> {
    "Rule '"@ + id + what
}

/// A complaint about the rule `id`.
pub fn complain(id: &str, what: &str) -> (r: String)
    ensures
        r@ == complaint(id@, what@),
{
    "Rule '".to_owned().concat(id).concat(what)
}

/// The first thing that is wrong with a rule.
pub open spec fn fault(rule: Rule) -> Option<Seq<char>> {
    if text::blank(rule.id@) || text::blank(rule.name@) {
        Some(complaint(rule.id@, "' has an empty id/name"@))
    } else if rule.error_patterns@.len() == 0 || text::some_blank(rule.error_patterns@) {
        Some(complaint(rule.id@, "' has invalid error patterns"@))
    } else {
        match rule.remediation {
            Remediation::ServiceRestart { service } => if text::blank(service@)
                || service::self_service(service@) {
                Some(complaint(rule.id@, "' has invalid service remediation"@))
            } else {
                None
            },
            Remediation::ContainerRestart { container } => if text::blank(container@) {
                Some(complaint(rule.id@, "' has empty container"@))
            } else {
                None
            },
            Remediation::AlertOnly => None,
        }
    }
}

/// The text of an error.
pub open spec fn error_text(r: Result<(), String>) -> Option<Seq<char>> {
    match r {
        Ok(_) => None,
        Err(e) => Some(e@),
    }
}

/// Checks a rule. The outcome is the same in every mode.
pub fn validate_rule(rule: &Rule, _mode: &str) -> (r: Result<(), String>)
    ensures
        error_text(r) == fault(*rule),
{
    let id = rule.id.as_str();
    if text::is_blank(id) || text::is_blank(rule.name.as_str()) {
        return Err(complain(id, "' has an empty id/name"));
    }
    if rule.error_patterns.len() == 0 || text::has_blank(&rule.error_patterns) {
        return Err(complain(id, "' has invalid error patterns"));
    }
    match &rule.remediation {
        Remediation::ServiceRestart { service } => {
            if text::is_blank(service.as_str()) || service::is_self_service(service.as_str()) {
                return Err(complain(id, "' has invalid service remediation"));
            }
        },
        Remediation::ContainerRestart { container } => {
            if text::is_blank(container.as_str()) {
                return Err(complain(id, "' has empty container"));
            }
        },
        Remediation::AlertOnly => {},
    }
    Ok(())
}

/// A rule is valid exactly when it has an id, a name and at least one error pattern, none of its
/// error patterns is blank, and what it restarts has a name and is not Aegira itself.
pub proof fn law_valid_rules(rule: &Rule, mode: &str, r: Result<(), String>)
    requires
        call_ensures(validate_rule, (rule, mode), r),
    ensures
        r is Ok <==> fault(*rule) is None,
        r is Ok <==> {
            &&& text::trimmed(rule.id@).len() > 0
            &&& text::trimmed(rule.name@).len() > 0
            &&& rule.error_patterns@.len() > 0
            &&& forall|i: int|
                0 <= i < rule.error_patterns@.len() ==> text::trimmed(
                    (#[trigger] rule.error_patterns@[i])@,
                ).len() > 0
            &&& rule.remediation matches Remediation::ServiceRestart { service } ==> text::trimmed(
                service@,
            ).len() > 0 && service::normalized_service(service@) != "aegira"@
            &&& rule.remediation matches Remediation::ContainerRestart { container }
                ==> text::trimmed(container@).len() > 0
        },
{
    if text::some_blank(rule.error_patterns@) {
        let i = choose|i: int|
            0 <= i < rule.error_patterns@.len() && text::blank(
                (#[trigger] rule.error_patterns@[i])@,
            );
        assert(text::trimmed(rule.error_patterns@[i]@).len() == 0);
    } else {
        assert forall|i: int| 0 <= i < rule.error_patterns@.len() implies text::trimmed(
            (#[trigger] rule.error_patterns@[i])@,
        ).len() > 0 by {
            assert(!text::blank(rule.error_patterns@[i]@));
        }
    }
}

/// A complaint names the rule and the first thing that is wrong with it.
pub proof fn law_complaints_name_the_fault(rule: &Rule, mode: &str, e: String)
    requires
        call_ensures(validate_rule, (rule, mode), Err(e)),
    ensures
        fault(*rule) == Some(e@),
        ({
            let named = text::trimmed(rule.id@).len() > 0 && text::trimmed(rule.name@).len() > 0;
            let patterned = rule.error_patterns@.len() > 0 && !text::some_blank(
                rule.error_patterns@,
            );
            &&& !named ==> e@ == "Rule '"@ + rule.id@ + "' has an empty id/name"@
            &&& named && !patterned ==> e@ == "Rule '"@ + rule.id@ + "' has invalid error patterns"@
            &&& named && patterned && rule.remediation is ServiceRestart ==> e@ == "Rule '"@
                + rule.id@ + "' has invalid service remediation"@
            &&& named && patterned && rule.remediation is ContainerRestart ==> e@ == "Rule '"@
                + rule.id@ + "' has empty container"@
        }),
{
}

/// Rules stand in the order of falling priority, and at the same priority in the order of their
/// ids. Nothing else about them matters to the order.
pub proof fn law_order_of_rules(a: &Rule, b: &Rule)
    ensures
        a.priority > b.priority ==> a.ranks_before(b),
        a.priority < b.priority ==> !a.ranks_before(b),
        a.priority == b.priority ==> a.ranks_before(b) == text::text_precedes(a.id@, b.id@),
{
}

} // verus!
