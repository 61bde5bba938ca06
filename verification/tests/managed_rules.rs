use aegira::managed::config::{prepare, replace_target, Config};
use aegira::managed::matching::{best_rule, looks_like_incident, pick_best, score};
use aegira::managed::rule::{default_enabled, validate_rule, Remediation, Rule};
use aegira::managed::rules_file::{
    accept_reload, document_kind, load_rules, RuleLoadResult, RulesDocument, RulesRead,
};
use aegira::verification::Verification;

fn rule(id: &str, patterns: &[&str], priority: i32) -> Rule {
    Rule {
        id: id.to_string(),
        name: id.to_uppercase(),
        severity: "high".to_string(),
        error_patterns: patterns.iter().map(|s| s.to_string()).collect(),
        context_patterns: vec![],
        remediation: Remediation::ServiceRestart { service: "TARGET_SERVICE".to_string() },
        verification: Verification::Unchecked,
        priority,
        enabled: default_enabled(),
    }
}

fn ids(rules: &[Rule]) -> Vec<&str> {
    rules.iter().map(|r| r.id.as_str()).collect()
}

fn load(rules: Vec<Rule>, mode: &str) -> (RuleLoadResult, Vec<String>) {
    load_rules("/etc/aegira/rules.json", RulesRead::Parsed(rules), mode)
}

#[test]
fn default_configuration() {
    let c = Config::default();
    assert_eq!(c.mode, "free");
    assert_eq!(c.service, "");
    assert_eq!(c.log_path, "");
    assert_eq!(c.max_recovery_attempts, 3);
    assert_eq!(c.recovery_window_secs, 300);
    assert_eq!(c.incident_cooldown_secs, 30);
    assert!(!c.email_enabled);
    assert!(c.email_to.is_none() && c.email_from.is_none() && c.email_command.is_none());
    assert!(c.container.is_none());
}

#[test]
fn configuration_must_name_a_service() {
    let mut c = Config::default();
    c.service = "  ".to_string();
    assert_eq!(prepare(c).err(), Some("No service configured.".to_string()));
}

#[test]
fn limits_of_zero_are_replaced() {
    let mut c = Config::default();
    c.service = "nginx".to_string();
    c.max_recovery_attempts = 0;
    c.recovery_window_secs = 0;
    c.incident_cooldown_secs = 0;
    let c = prepare(c).unwrap();
    assert_eq!(c.max_recovery_attempts, 1);
    assert_eq!(c.recovery_window_secs, 300);
    assert_eq!(c.incident_cooldown_secs, 0);
    assert_eq!(c.service, "nginx");
}

#[test]
fn placeholders_are_filled_in() {
    let mut c = Config::default();
    c.service = "nginx".to_string();
    assert_eq!(replace_target("TARGET_SERVICE", &c), "nginx");
    assert_eq!(replace_target("TARGET_CONTAINER", &c), "");
    c.container = Some("web".to_string());
    assert_eq!(replace_target("TARGET_CONTAINER", &c), "web");
    assert_eq!(replace_target("target_service", &c), "target_service");
}

#[test]
fn faults_of_rules_are_told() {
    let ok = rule("a", &["x"], 0);
    assert_eq!(validate_rule(&ok, "free"), Ok(()));
    let told = |r: &Rule| validate_rule(r, "pro").unwrap_err();
    assert_eq!(told(&rule(" ", &["x"], 0)), "Rule ' ' has an empty id/name");
    let mut r = rule("a", &["x"], 0);
    r.name = "\t".to_string();
    assert_eq!(told(&r), "Rule 'a' has an empty id/name");
    assert_eq!(told(&rule("a", &[], 0)), "Rule 'a' has invalid error patterns");
    assert_eq!(told(&rule("a", &["x", " "], 0)), "Rule 'a' has invalid error patterns");
    let mut r = rule("a", &["x"], 0);
    r.remediation = Remediation::ServiceRestart { service: " ".to_string() };
    assert_eq!(told(&r), "Rule 'a' has invalid service remediation");
    r.remediation = Remediation::ServiceRestart { service: "AEGIRA.service".to_string() };
    assert_eq!(told(&r), "Rule 'a' has invalid service remediation");
    r.remediation = Remediation::ContainerRestart { container: "".to_string() };
    assert_eq!(told(&r), "Rule 'a' has empty container");
    assert_eq!(validate_rule(&r, "free").unwrap_err(), "Rule 'a' has empty container");
    r.remediation = Remediation::AlertOnly;
    assert_eq!(validate_rule(&r, "free"), Ok(()));
}

#[test]
fn rules_files_hold_a_list_or_one_rule() {
    assert!(matches!(document_kind(" \n[1]"), RulesDocument::List));
    assert!(matches!(document_kind("{}"), RulesDocument::Single));
    assert!(matches!(document_kind("  "), RulesDocument::Single));
}

#[test]
fn loaded_rules_are_in_order() {
    let (r, lines) = load(
        vec![rule("b", &["x"], 1), rule("a", &["x"], 1), rule("c", &["x"], 7), rule("B2", &["x"], 1)],
        "free",
    );
    assert_eq!(ids(&r.rules), vec!["c", "B2", "a", "b"]);
    assert_eq!((r.files_found, r.errors), (1, 0));
    assert!(lines.is_empty());
}

#[test]
fn duplicate_and_faulty_rules_are_left_out() {
    let mut second = rule(" A ", &["y"], 9);
    second.name = "second".to_string();
    let (r, lines) = load(vec![rule("a", &["x"], 0), second, rule("bad", &[], 0)], "free");
    assert_eq!(ids(&r.rules), vec!["a"]);
    assert_eq!((r.files_found, r.errors), (1, 1));
    assert_eq!(
        lines,
        vec![
            "[RULES ERROR] Duplicate rule ' A ' ignored",
            "[RULES ERROR] Rule 'bad' has invalid error patterns"
        ]
    );
}

#[test]
fn faulty_rule_does_not_take_its_key() {
    let (r, _) = load(vec![rule("a", &[], 0), rule("a", &["x"], 0)], "free");
    assert_eq!(ids(&r.rules), vec!["a"]);
    assert_eq!(r.errors, 1);
}

#[test]
fn disabled_rules_and_containers_in_free_mode_are_passed_over() {
    let make = || {
        let mut off = rule("off", &[], 0);
        off.enabled = false;
        let mut container = rule("container", &["x"], 0);
        container.remediation = Remediation::ContainerRestart { container: "web".to_string() };
        vec![off, container]
    };
    let (r, lines) = load(make(), "free");
    assert!(r.rules.is_empty() && r.errors == 0 && lines.is_empty());
    let (r, _) = load(make(), "pro");
    assert_eq!(ids(&r.rules), vec!["container"]);
}

#[test]
fn unreadable_rules_files() {
    let (r, lines) = load_rules("/p", RulesRead::Missing, "free");
    assert_eq!((r.rules.len(), r.files_found, r.errors), (0, 0, 1));
    assert_eq!(lines, vec!["[RULES ERROR] Missing /p"]);
    let (r, lines) = load_rules("/p", RulesRead::Unreadable("no".to_string()), "free");
    assert_eq!((r.files_found, r.errors), (0, 1));
    assert_eq!(lines, vec!["[RULES ERROR] Cannot read /p: no"]);
    let (r, lines) = load_rules("/p", RulesRead::Malformed("eof".to_string()), "free");
    assert_eq!((r.files_found, r.errors), (1, 1));
    assert_eq!(lines, vec!["[RULES ERROR] Invalid JSON: eof"]);
}

#[test]
fn reload_without_error_is_accepted() {
    let (loaded, _) = load(vec![rule("new", &["x"], 0)], "free");
    let (rules, line) = accept_reload(vec![rule("old", &["x"], 0)], loaded);
    assert_eq!(ids(&rules), vec!["new"]);
    assert_eq!(line, "[RULES] Reloaded 1 active rules");
}

#[test]
fn reload_with_error_keeps_the_rules() {
    let (loaded, _) = load(vec![rule("new", &["x"], 0), rule("bad", &[], 0)], "free");
    let (rules, line) = accept_reload(vec![rule("old", &["x"], 0)], loaded);
    assert_eq!(ids(&rules), vec!["old"]);
    assert_eq!(line, "[RULES] Reload rejected; keeping previous valid rule set");
    let (loaded, _) = load_rules("/p", RulesRead::Missing, "free");
    let (rules, _) = accept_reload(vec![rule("old", &["x"], 0)], loaded);
    assert_eq!(ids(&rules), vec!["old"]);
}

#[test]
fn scores_of_rules() {
    let mut r = rule("a", &["disk full", "no space"], 5);
    r.context_patterns = vec!["nginx".to_string(), "web".to_string()];
    assert_eq!(score(&r, "all fine"), None);
    assert_eq!(score(&r, "nginx web"), None);
    assert_eq!(score(&r, "DISK   full"), Some(65));
    assert_eq!(score(&r, "nginx: disk full, no space"), Some(85));
}

#[test]
fn best_rule_has_the_highest_score() {
    let rules = vec![rule("a", &["disk"], 0), rule("b", &["disk", "full"], 0)];
    let (r, s) = best_rule(&rules, "disk full").unwrap();
    assert_eq!((r.id.as_str(), s), ("b", 70));
    assert!(best_rule(&rules, "nothing").is_none());
}

#[test]
fn ties_go_to_the_lower_priority_then_to_the_first_id() {
    let rules = vec![rule("a", &["disk"], 30), rule("b", &["disk"], 20), rule("c", &["disk"], 25)];
    assert_eq!(best_rule(&rules, "disk").unwrap().0.id, "b");
    let rules = vec![rule("b", &["disk"], 0), rule("a", &["disk"], 0), rule("c", &["disk"], 0)];
    assert_eq!(best_rule(&rules, "disk").unwrap().0.id, "a");
    let mut last = rule("a", &["disk"], 0);
    last.name = "last".to_string();
    let rules = vec![rule("a", &["disk"], 0), last];
    assert_eq!(best_rule(&rules, "disk").unwrap().0.name, "last");
}

#[test]
fn low_scores_are_not_chosen() {
    let rules = vec![rule("a", &["disk"], -1)];
    assert_eq!(score(&rules[0], "disk"), Some(59));
    assert!(best_rule(&rules, "disk").is_none());
    let rules = vec![rule("a", &["disk"], 0)];
    assert!(best_rule(&rules, "disk").is_some());
}

#[test]
fn picking_by_given_scores() {
    let rules = vec![rule("a", &["x"], 0), rule("b", &["x"], 0), rule("c", &["x"], 0)];
    assert_eq!(pick_best(&rules, &vec![None, Some(59), None]), None);
    assert_eq!(pick_best(&rules, &vec![Some(60), Some(90), Some(70)]), Some(1));
    assert_eq!(pick_best(&rules, &vec![Some(90), Some(90), None]), Some(0));
    assert_eq!(pick_best(&[], &vec![]), None);
}

#[test]
fn lines_that_a_rule_knows_are_incidents() {
    let rules = vec![rule("a", &["connection refused"], -20)];
    assert!(looks_like_incident("INFO connection  REFUSED", &rules));
    assert!(!looks_like_incident("INFO connection accepted", &rules));
}

#[test]
fn lines_with_marker_words_are_incidents() {
    for line in [
        "ERROR", "something failed", "Fatal: no", "Traceback (most recent call last)", "a panic b",
        "x crashed", "OOM killer", "out-of-memory", "stack trace", "critical", "the exception is",
    ] {
        assert!(looks_like_incident(line, &[]), "{}", line);
    }
}

#[test]
fn ordinary_lines_are_no_incidents() {
    for line in ["", "   ", "INFO all is well", "DEBUG errors=0", "failures: none", "room"] {
        assert!(!looks_like_incident(line, &[]), "{}", line);
    }
}

#[test]
fn a_level_in_brackets_is_no_marker_word() {
    assert!(!looks_like_incident("[ERROR] disk is full", &[]));
    assert!(looks_like_incident("[ERROR] disk write failed", &[]));
    let rules = vec![rule("a", &["disk is full"], 0)];
    assert!(looks_like_incident("[ERROR] disk is full", &rules));
}
