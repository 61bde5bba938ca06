//! Rules, and what makes one valid.

use crate::order::Ranked;
use crate::service;
use crate::text;
use crate::verification::Verification;
use vstd::prelude::*;
use vstd::string::*;

verus! {

/// What to do about an incident.
#[derive(Clone, Debug)]
pub enum Remediation {
    ServiceRestart { service: String },
    ContainerRestart { container: String },
}

/// How to recognise an incident and what to do about it.
#[derive(Clone, Debug)]
pub struct Rule {
    pub id: String,
    pub name: String,
    pub severity: String,
    pub error_patterns: Vec<String>,
    pub context_patterns: Vec<String>,
    pub remediation: Remediation,
    pub verification: Verification,
    pub priority: i32,
}

/// Rules with a high priority come first.
impl Ranked for Rule {
    open spec fn ranks_before(&self, other: &Self) -> bool {
        self.priority > other.priority
    }

    proof fn rank_irreflexive(a: &Self) {
    }

    proof fn rank_negatively_transitive(a: &Self, b: &Self, c: &Self) {
    }

    proof fn rank_transitive(a: &Self, b: &Self, c: &Self) {
    }

    fn is_before(&self, other: &Self) -> (r: bool) {
        self.priority > other.priority
    }
}

/// A complaint about the rule `id`.
pub open spec fn complaint(id: Seq<char>, what: Seq<char>) -> Seq<char> {
    "Rule '"@ + id + "' "@ + what
}

fn complain(id: &str, what: &str) -> (r: Result<(), String>)
    ensures
        error_text(r) == Some(complaint(id@, what@)),
{
    Err("Rule '".to_owned().concat(id).concat("' ").concat(what))
}

/// The text of an error.
pub open spec fn error_text(r: Result<(), String>) -> Option<Seq<char>> {
    match r {
        Ok(_) => None,
        Err(e) => Some(e@),
    }
}

/// What is wrong with the remediation of the rule `id`.
pub open spec fn remediation_fault(id: Seq<char>, r: Remediation) -> Option<Seq<char>> {
    match r {
        Remediation::ServiceRestart { service } => if text::blank(service@) {
            Some(complaint(id, "has an empty service"@))
        } else if service::self_service(service@) {
            Some(complaint(id, "attempts to restart Aegira itself"@))
        } else {
            None
        },
        Remediation::ContainerRestart { container } => if text::blank(container@) {
            Some(complaint(id, "has an empty container"@))
        } else {
            None
        },
    }
}

/// What is wrong with the verification of the rule `id`.
pub open spec fn verification_fault(id: Seq<char>, v: Verification) -> Option<Seq<char>> {
    match v {
        Verification::ServiceActive { service } => if text::blank(service@) {
            Some(complaint(id, "has an empty verification service"@))
        } else {
            None
        },
        Verification::ContainerRunning { container } => if text::blank(container@) {
            Some(complaint(id, "has an empty verification container"@))
        } else {
            None
        },
        Verification::Unchecked => None,
    }
}

/// The first thing that is wrong with a rule.
pub open spec fn fault(rule: Rule) -> Option<Seq<char>> {
    if text::blank(rule.id@) {
        Some("Rule ID cannot be empty"@)
    } else if text::blank(rule.name@) {
        Some(complaint(rule.id@, "has an empty name"@))
    } else if rule.error_patterns@.len() == 0 {
        Some(complaint(rule.id@, "has no error patterns"@))
    } else if text::some_blank(rule.error_patterns@) {
        Some(complaint(rule.id@, "contains an empty error pattern"@))
    } else if remediation_fault(rule.id@, rule.remediation) is Some {
        remediation_fault(rule.id@, rule.remediation)
    } else {
        verification_fault(rule.id@, rule.verification)
    }
}

/// Checks a rule.
pub fn validate_rule(rule: &Rule) -> (r: Result<(), String>)
    ensures
        error_text(r) == fault(*rule),
{
    let id = rule.id.as_str();
    if text::is_blank(id) {
        return Err("Rule ID cannot be empty".to_owned());
    }
    if text::is_blank(rule.name.as_str()) {
        return complain(id, "has an empty name");
    }
    if rule.error_patterns.len() == 0 {
        return complain(id, "has no error patterns");
    }
    if text::has_blank(&rule.error_patterns) {
        return complain(id, "contains an empty error pattern");
    }
    match &rule.remediation {
        Remediation::ServiceRestart { service } => {
            if text::is_blank(service.as_str()) {
                return complain(id, "has an empty service");
            }
            if service::is_self_service(service.as_str()) {
                return complain(id, "attempts to restart Aegira itself");
            }
        },
        Remediation::ContainerRestart { container } => {
            if text::is_blank(container.as_str()) {
                return complain(id, "has an empty container");
            }
        },
    }
    match &rule.verification {
        Verification::ServiceActive { service } => {
            if text::is_blank(service.as_str()) {
                return complain(id, "has an empty verification service");
            }
        },
        Verification::ContainerRunning { container } => {
            if text::is_blank(container.as_str()) {
                return complain(id, "has an empty verification container");
            }
        },
        Verification::Unchecked => {},
    }
    Ok(())
}

/// Whether `rules` holds the one rule that is used where no other is at hand.
pub open spec fn default_rules(rules: Seq<Rule>) -> bool {
    &&& rules.len() == 1
    &&& rules[0].id@ == "connection_refused"@
    &&& rules[0].name@ == "Connection Refused"@
    &&& rules[0].severity@ == "high"@
    &&& text::texts(rules[0].error_patterns@) == seq!["connection refused"@]
    &&& rules[0].context_patterns@.len() == 0
    &&& rules[0].remediation matches Remediation::ServiceRestart { service } && service@
        == "cron"@
    &&& rules[0].verification matches Verification::ServiceActive { service } && service@
        == "cron"@
    &&& rules[0].priority == 10
}

/// The rule that is used where no other is at hand.
pub fn get_hardcoded_default_rules() -> (r: Vec<Rule>)
    ensures
        default_rules(r@),
{
    let patterns = vec!["connection refused".to_owned()];
    assert(text::texts(patterns@) == seq!["connection refused"@]);
    vec![
        Rule {
            id: "connection_refused".to_owned(),
            name: "Connection Refused".to_owned(),
            severity: "high".to_owned(),
            error_patterns: patterns,
            context_patterns: Vec::new(),
            remediation: Remediation::ServiceRestart { service: "cron".to_owned() },
            verification: Verification::ServiceActive { service: "cron".to_owned() },
            priority: 10,
        },
    ]
}

/// The rule that is used where no other is at hand is itself valid.
pub proof fn law_default_rule_is_valid(rules: Seq<Rule>)
    requires
        default_rules(rules),
    ensures
        fault(rules[0]) is None,
{
    reveal_strlit("connection_refused");
    reveal_strlit("Connection Refused");
    reveal_strlit("connection refused");
    reveal_strlit("cron");
    reveal_strlit(".service");
    reveal_strlit("aegira");
    let rule = rules[0];
    text::law_blank_is_all_white_space(rule.id@);
    text::law_blank_is_all_white_space(rule.name@);
    assert(!text::white_space(rule.id@[0]));
    assert(!text::white_space(rule.name@[0]));
    let patterns = rule.error_patterns@;
    assert(text::texts(patterns).len() == patterns.len());
    assert(text::texts(patterns)[0] == patterns[0]@);
    text::law_blank_is_all_white_space(patterns[0]@);
    assert(!text::white_space(patterns[0]@[0]));
    let service = "cron"@;
    text::law_blank_is_all_white_space(service);
    assert(!text::white_space(service[0]));
    assert(!text::white_space(service.last()));
    assert(text::trimmed(service) == service);
    assert(service::bare_service(service) == service);
    assert(service::normalized_service(service).len() == 4);
}

/// A rule is valid exactly when it has an id, a name and at least one error pattern, none of its
/// error patterns is blank, what it restarts has a name and is not Aegira itself, and what it checks
/// has a name.
pub proof fn law_valid_rules(rule: &Rule, r: Result<(), String>)
    requires
        call_ensures(validate_rule, (rule,), r),
    ensures
        r is Ok <==> fault(*rule) is None,
        r is Ok <==> {
            &&& text::trimmed(rule.id@).len() > 0
            &&& text::trimmed(rule.name@).len() > 0
            &&& rule.error_patterns@.len() > 0
            &&& forall|i: int|
                0 <= i < rule.error_patterns@.len() ==> text::trimmed(
                    (#[trigger] rule.error_patterns@[i])@,
                ).len() > 0
            &&& rule.remediation matches Remediation::ServiceRestart { service } ==> text::trimmed(
                service@,
            ).len() > 0 && service::normalized_service(service@) != "aegira"@
            &&& rule.remediation matches Remediation::ContainerRestart { container }
                ==> text::trimmed(container@).len() > 0
            &&& rule.verification matches Verification::ServiceActive { service } ==> text::trimmed(
                service@,
            ).len() > 0
            &&& rule.verification matches Verification::ContainerRunning { container }
                ==> text::trimmed(container@).len() > 0
        },
{
    if text::some_blank(rule.error_patterns@) {
        let i = choose|i: int|
            0 <= i < rule.error_patterns@.len() && text::blank(
                (#[trigger] rule.error_patterns@[i])@,
            );
        assert(text::trimmed(rule.error_patterns@[i]@).len() == 0);
    } else {
        assert forall|i: int| 0 <= i < rule.error_patterns@.len() implies text::trimmed(
            (#[trigger] rule.error_patterns@[i])@,
        ).len() > 0 by {
            assert(!text::blank(rule.error_patterns@[i]@));
        }
    }
}

/// A complaint names the rule and the first thing that is wrong with it.
pub proof fn law_complaints_name_the_fault(rule: &Rule, e: String)
    requires
        call_ensures(validate_rule, (rule,), Err(e)),
    ensures
        fault(*rule) == Some(e@),
        ({
            let identified = text::trimmed(rule.id@).len() > 0;
            let named = identified && text::trimmed(rule.name@).len() > 0;
            let some_pattern = named && rule.error_patterns@.len() > 0;
            let patterned = some_pattern && !text::some_blank(rule.error_patterns@);
            let start = "Rule '"@ + rule.id@ + "' "@;
            let restart_blank = match rule.remediation {
                Remediation::ServiceRestart { service } => text::trimmed(service@).len() == 0,
                Remediation::ContainerRestart { container } => text::trimmed(container@).len() == 0,
            };
            let own = match rule.remediation {
                Remediation::ServiceRestart { service } => service::normalized_service(service@)
                    == "aegira"@,
                Remediation::ContainerRestart { container } => false,
            };
            &&& !identified ==> e@ == "Rule ID cannot be empty"@
            &&& identified && !named ==> e@ == start + "has an empty name"@
            &&& named && !some_pattern ==> e@ == start + "has no error patterns"@
            &&& some_pattern && !patterned ==> e@ == start + "contains an empty error pattern"@
            &&& patterned && restart_blank && rule.remediation is ServiceRestart ==> e@ == start
                + "has an empty service"@
            &&& patterned && restart_blank && rule.remediation is ContainerRestart ==> e@ == start
                + "has an empty container"@
            &&& patterned && !restart_blank && own ==> e@ == start
                + "attempts to restart Aegira itself"@
            &&& patterned && !restart_blank && !own && rule.verification is ServiceActive ==> e@
                == start + "has an empty verification service"@
            &&& patterned && !restart_blank && !own && rule.verification is ContainerRunning ==> e@
                == start + "has an empty verification container"@
        }),
{
}

/// Rules stand in the order of falling priority. Nothing else about them matters to the order.
pub proof fn law_order_of_rules(a: &Rule, b: &Rule)
    ensures
        a.ranks_before(b) == (a.priority > b.priority),
{
}

/// The rule that is used where no other is at hand restarts `cron` where a connection is refused.
pub proof fn law_default_rule(r: Vec<Rule>)
    requires
        call_ensures(get_hardcoded_default_rules, (), r),
    ensures
        default_rules(r@),
        r@.len() == 1,
        r@[0].id@ == "connection_refused"@,
        r@[0].name@ == "Connection Refused"@,
        r@[0].severity@ == "high"@,
        r@[0].error_patterns@.len() == 1,
        r@[0].error_patterns@[0]@ == "connection refused"@,
        r@[0].context_patterns@.len() == 0,
        r@[0].remediation matches Remediation::ServiceRestart { service } && service@ == "cron"@,
        r@[0].verification matches Verification::ServiceActive { service } && service@ == "cron"@,
        r@[0].priority == 10,
{
    let patterns = r@[0].error_patterns@;
    assert(text::texts(patterns).len() == patterns.len());
    assert(text::texts(patterns)[0] == patterns[0]@);
}

} // verus!
