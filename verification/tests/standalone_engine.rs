use aegira::commands::{ChildState, CommandOutput, Installed, Poll};
use aegira::ledger::Ledger;
use aegira::logs::FileIdentity;
use aegira::standalone::engine::{Engine, Heard};
use aegira::standalone::incident::{
    cleanup_cooldowns, conclude, make_incident_key, process_incident,
};
use aegira::standalone::matching::{calculate_match_score, find_best_rule};
use aegira::standalone::recovery::{recover_with_rule, Action, Event, Step};
use aegira::standalone::remedy::{
    docker_binary, execute_command, perform_remediation, query_outcome, systemctl_binary,
    verify_recovery,
};
use aegira::standalone::rule::{get_hardcoded_default_rules, validate_rule, Remediation, Rule};
use aegira::standalone::rules_dir::{
    document_kind, load_all_rules, load_rules_from_directory, rules_files, DirectoryRead, FileName,
    FileRead, RulesDocument, RulesFile,
};
use aegira::standalone::setup::{self, LogStep, StartStep};
use aegira::standalone::watcher::{change_line, reload_due, Change, Line, Watcher};
use aegira::verification::{Check, Verification};

const SECOND: u128 = 1_000_000_000;

fn rule(id: &str, patterns: &[&str], priority: i32) -> Rule {
    Rule {
        id: id.to_string(),
        name: "Disk".to_string(),
        severity: "high".to_string(),
        error_patterns: patterns.iter().map(|s| s.to_string()).collect(),
        context_patterns: vec![],
        remediation: Remediation::ServiceRestart { service: " cron ".to_string() },
        verification: Verification::Unchecked,
        priority,
    }
}

fn ids(rules: &[Rule]) -> Vec<&str> {
    rules.iter().map(|r| r.id.as_str()).collect()
}

fn installed(present: bool) -> Installed {
    Installed {
        usr_bin_systemctl: present,
        bin_systemctl: present,
        usr_bin_docker: present,
        bin_docker: present,
        usr_local_bin_docker: present,
    }
}

#[test]
fn faults_of_standalone_rules_are_told() {
    assert_eq!(validate_rule(&rule("a", &["x"], 0)), Ok(()));
    let told = |r: &Rule| validate_rule(r).unwrap_err();
    assert_eq!(told(&rule(" ", &["x"], 0)), "Rule ID cannot be empty");
    let mut r = rule("a", &["x"], 0);
    r.name = " ".to_string();
    assert_eq!(told(&r), "Rule 'a' has an empty name");
    assert_eq!(told(&rule("a", &[], 0)), "Rule 'a' has no error patterns");
    assert_eq!(told(&rule("a", &["x", "\t"], 0)), "Rule 'a' contains an empty error pattern");
    let mut r = rule("a", &["x"], 0);
    r.remediation = Remediation::ServiceRestart { service: "".to_string() };
    assert_eq!(told(&r), "Rule 'a' has an empty service");
    r.remediation = Remediation::ServiceRestart { service: " AEGIRA.service".to_string() };
    assert_eq!(told(&r), "Rule 'a' attempts to restart Aegira itself");
    r.remediation = Remediation::ContainerRestart { container: " ".to_string() };
    assert_eq!(told(&r), "Rule 'a' has an empty container");
    r.remediation = Remediation::ContainerRestart { container: "web".to_string() };
    r.verification = Verification::ServiceActive { service: " ".to_string() };
    assert_eq!(told(&r), "Rule 'a' has an empty verification service");
    r.verification = Verification::ContainerRunning { container: "".to_string() };
    assert_eq!(told(&r), "Rule 'a' has an empty verification container");
    r.verification = Verification::ContainerRunning { container: "web".to_string() };
    assert_eq!(validate_rule(&r), Ok(()));
}

#[test]
fn fallback_rule() {
    let rules = get_hardcoded_default_rules();
    assert_eq!(ids(&rules), vec!["connection_refused"]);
    let r = &rules[0];
    assert_eq!(validate_rule(r), Ok(()));
    assert_eq!((r.name.as_str(), r.severity.as_str()), ("Connection Refused", "high"));
    assert_eq!(r.error_patterns, vec!["connection refused"]);
    assert!(r.context_patterns.is_empty());
    assert!(matches!(&r.remediation, Remediation::ServiceRestart { service } if service == "cron"));
    assert!(matches!(&r.verification, Verification::ServiceActive { service } if service == "cron"));
    assert_eq!(r.priority, 10);
}

#[test]
fn rules_files_are_picked_and_sorted() {
    let names = ["b.json", "a.txt", "a.json", ".json", "json", "x.json.bak", "A.json", "c.JSON", "..json"];
    let list = names.iter().map(|s| FileName { bytes: s.as_bytes().to_vec() }).collect();
    let got: Vec<String> = rules_files(list)
        .into_iter()
        .map(|n| String::from_utf8(n.bytes).unwrap())
        .collect();
    assert_eq!(got, vec!["..json", "A.json", "a.json", "b.json"]);
}

#[test]
fn rules_file_names_as_paths_see_them() {
    for name in ["b.json", ".json", "json", "..json", "a.b.json", "x.jsonx", "x.json."] {
        let list = vec![FileName { bytes: name.as_bytes().to_vec() }];
        let by_path = std::path::Path::new(name).extension().and_then(|e| e.to_str()) == Some("json");
        assert_eq!(rules_files(list).len() == 1, by_path, "{}", name);
    }
}

#[test]
fn standalone_rules_files_hold_nothing_a_list_or_one_rule() {
    assert!(matches!(document_kind(" \n"), RulesDocument::Empty));
    assert!(matches!(document_kind(" ["), RulesDocument::List));
    assert!(matches!(document_kind("{"), RulesDocument::Single));
}

fn parsed(path: &str, rules: Vec<Rule>) -> RulesFile {
    RulesFile { path: path.to_string(), read: FileRead::Parsed(rules) }
}

#[test]
fn directories_of_rules() {
    let (r, lines) = load_rules_from_directory("/d", DirectoryRead::Missing);
    assert!(r.is_empty() && lines.is_empty());
    let (r, lines) = load_rules_from_directory("/d", DirectoryRead::Unreadable("no".to_string()));
    assert!(r.is_empty());
    assert_eq!(lines, vec!["[RULES ERROR] Failed to read /d: no"]);
    let files = vec![
        RulesFile { path: "/d/1".to_string(), read: FileRead::Unreadable("gone".to_string()) },
        parsed("/d/2", vec![rule("a", &["x"], 0), rule("bad", &[], 0)]),
        RulesFile { path: "/d/3".to_string(), read: FileRead::Malformed("eof".to_string()) },
        parsed("/d/4", vec![rule("a", &["y"], 0)]),
    ];
    let (r, lines) = load_rules_from_directory("/d", DirectoryRead::Files(files));
    assert_eq!(ids(&r), vec!["a", "a"]);
    assert_eq!(
        lines,
        vec![
            "[RULES ERROR] Failed reading /d/1: gone",
            "[RULES] Loaded: a",
            "[RULES ERROR] Rule 'bad' has no error patterns",
            "[RULES ERROR] Invalid JSON /d/3: eof",
            "[RULES] Loaded: a"
        ]
    );
}

#[test]
fn builtin_rules_come_before_custom_ones() {
    let builtin = DirectoryRead::Files(vec![parsed(
        "/b",
        vec![rule("a", &["x"], 1), rule("A ", &["x"], 5), rule("b", &["x"], 1)],
    )]);
    let custom = DirectoryRead::Files(vec![parsed("/c", vec![rule("B", &["x"], 9), rule("c", &["x"], 2)])]);
    let (r, lines) = load_all_rules(builtin, custom);
    assert_eq!(ids(&r), vec!["c", "a", "b"]);
    assert_eq!(
        lines[3..],
        [
            "[RULES] Loaded: B",
            "[RULES] Loaded: c",
            "[RULES] Duplicate rule ignored: B",
            "[RULES] Total active rules: 3"
        ]
    );
}

#[test]
fn without_rules_the_fallback_is_used() {
    let (r, lines) = load_all_rules(DirectoryRead::Missing, DirectoryRead::Missing);
    assert_eq!(ids(&r), vec!["connection_refused"]);
    assert_eq!(
        lines,
        vec![
            "[RULES] No external rules loaded. Using fallback rule.",
            "[RULES] Total active rules: 1"
        ]
    );
}

#[test]
fn scores_of_standalone_rules() {
    let mut r = rule("a", &["disk full", "no space"], 5);
    r.context_patterns = vec!["nginx".to_string()];
    assert_eq!(calculate_match_score(&r, "nginx"), None);
    assert_eq!(calculate_match_score(&r, "DISK full"), Some(65));
    assert_eq!(calculate_match_score(&r, "DISK  full"), None);
    assert_eq!(calculate_match_score(&r, "NGINX disk full no space"), Some(85));
}

#[test]
fn best_standalone_rule() {
    let rules = vec![rule("b", &["disk"], 0), rule("A", &["disk"], 0), rule("c", &["disk", "full"], 0)];
    assert_eq!(find_best_rule(&rules, "disk full").map(|(r, s)| (r.id.as_str(), s)), Some(("c", 70)));
    assert_eq!(find_best_rule(&rules, "disk").unwrap().0.id, "A");
    assert!(find_best_rule(&rules, "x").is_none());
    let rules = vec![rule("a", &["disk"], 0), rule("A", &["disk"], 0)];
    assert_eq!(find_best_rule(&rules, "disk").unwrap().0.id, "a");
    let rules = vec![rule("a", &["disk"], -1)];
    assert!(find_best_rule(&rules, "disk").is_none());
}

#[test]
fn standalone_remediation() {
    let r = Remediation::ServiceRestart { service: " cron ".to_string() };
    let plan = perform_remediation(&r, &installed(true)).unwrap();
    assert_eq!(plan.line, "[RECOVERY] Restarting service:  cron ");
    assert_eq!(plan.command.program, "/usr/bin/systemctl");
    assert_eq!(plan.command.args, vec!["restart", "cron"]);
    assert!(perform_remediation(&r, &installed(false)).is_err());
    let k = Remediation::ContainerRestart { container: "web".to_string() };
    let plan = perform_remediation(&k, &installed(true)).unwrap();
    assert_eq!(plan.line, "[RECOVERY] Restarting container: web");
    assert_eq!(plan.command.program, "/usr/bin/docker");
    let me = Remediation::ServiceRestart { service: "aegira".to_string() };
    assert_eq!(
        perform_remediation(&me, &installed(true)).err(),
        Some("Refusing remediation: rule attempts to restart Aegira itself".to_string())
    );
    assert_eq!(systemctl_binary(&installed(true)), Ok("/usr/bin/systemctl"));
    assert_eq!(docker_binary(&installed(true)), Ok("/usr/bin/docker"));
}

#[test]
fn standalone_command_tells_its_status() {
    let s = ChildState::Exited { success: false, status: "signal: 9".to_string() };
    match execute_command("/bin/x", &s, 0) {
        Poll::Failed(e) => assert_eq!(e, "/bin/x exited with status signal: 9"),
        other => panic!("{:?}", other),
    }
}

#[test]
fn standalone_verification() {
    let (line, check) = verify_recovery(&Verification::Unchecked, &installed(false));
    assert_eq!(line, "[VERIFY] No verification required");
    assert!(matches!(check, Check::Known(true)));
    let s = Verification::ServiceActive { service: "cron ".to_string() };
    let (line, check) = verify_recovery(&s, &installed(true));
    assert_eq!(line, "[VERIFY] Checking service: cron ");
    match check {
        Check::Query { command, expected } => {
            assert_eq!(command.args, vec!["is-active", "cron"]);
            assert_eq!(expected, "active");
        }
        other => panic!("{:?}", other),
    }
    let (line, check) = verify_recovery(&s, &installed(false));
    assert_eq!(
        line,
        "[VERIFY ERROR] Required binary not found. Checked: /usr/bin/systemctl, /bin/systemctl"
    );
    assert!(matches!(check, Check::Known(false)));
    let k = Verification::ContainerRunning { container: "web".to_string() };
    let (line, check) = verify_recovery(&k, &installed(true));
    assert_eq!(line, "[VERIFY] Checking container: web");
    match check {
        Check::Query { command, expected } => {
            assert_eq!(command.args, vec!["inspect", "-f", "{{.State.Running}}", "web"]);
            assert_eq!(expected, "true");
        }
        other => panic!("{:?}", other),
    }
}

#[test]
fn standalone_query_outcomes() {
    let s = Verification::ServiceActive { service: "cron".to_string() };
    let k = Verification::ContainerRunning { container: "web".to_string() };
    let out = |text: &str| Ok(CommandOutput { success: true, stdout: text.as_bytes().to_vec() });
    assert_eq!(query_outcome(&s, "active", &out("active\n")), (true, "[VERIFY] Service is active".to_string()));
    assert_eq!(query_outcome(&s, "active", &out("failed")), (false, "[VERIFY] Service is NOT active".to_string()));
    assert_eq!(query_outcome(&k, "true", &out("true")), (true, "[VERIFY] Container is running".to_string()));
    assert_eq!(query_outcome(&k, "true", &out("false")), (false, "[VERIFY] Container is NOT running".to_string()));
    assert_eq!(query_outcome(&k, "true", &Err("no".to_string())), (false, "[VERIFY ERROR] no".to_string()));
}

fn steps(s: &[Step]) -> Vec<String> {
    s.iter()
        .map(|s| match s {
            Step::Log(l) => l.clone(),
            Step::Sleep(n) => format!("sleep {}", n),
        })
        .collect()
}

#[test]
fn course_of_a_recovery() {
    let r = rule("a", &["x"], 0);
    let (s, a) = recover_with_rule(&r, &Event::Begun);
    assert_eq!(steps(&s), vec!["[MATCH] Rule: Disk", "[MATCH] Rule ID: a"]);
    assert!(matches!(a, Action::Remediate));
    let (s, a) = recover_with_rule(&r, &Event::Remediated(Ok(())));
    assert_eq!(steps(&s), vec!["sleep 2", "[VERIFY] Verification attempt 1/5"]);
    assert!(matches!(a, Action::Check { attempt: 1 }));
    let (s, a) = recover_with_rule(&r, &Event::Checked { attempt: 4, ok: false });
    assert_eq!(steps(&s), vec!["sleep 2", "[VERIFY] Verification attempt 5/5"]);
    assert!(matches!(a, Action::Check { attempt: 5 }));
    let (s, a) = recover_with_rule(&r, &Event::Checked { attempt: 5, ok: false });
    assert!(s.is_empty());
    match a {
        Action::Finish(Err(e)) => {
            assert_eq!(e, "Remediation executed but health verification failed")
        }
        other => panic!("{:?}", other),
    }
    let (_, a) = recover_with_rule(&r, &Event::Checked { attempt: 2, ok: true });
    assert!(matches!(a, Action::Finish(Ok(()))));
    let (s, a) = recover_with_rule(&r, &Event::Remediated(Err("no".to_string())));
    assert!(s.is_empty());
    assert!(matches!(a, Action::Finish(Err(e)) if e == "no"));
}

#[test]
fn incident_keys() {
    assert_eq!(make_incident_key(&rule("Ab", &["x"], 0), "[ERROR] Disk"), "ab:[error] disk");
}

#[test]
fn cooldowns_run_out() {
    let mut cool = Ledger::new();
    cool.insert("a".to_string(), 0);
    cleanup_cooldowns(&mut cool, 30 * SECOND - 1);
    assert!(cool.contains_key("a"));
    cleanup_cooldowns(&mut cool, 30 * SECOND);
    assert!(!cool.contains_key("a"));
}

#[test]
fn standalone_incidents() {
    let rules = [rule("a", &["disk"], 0)];
    let mut cool = Ledger::new();
    let d = process_incident(&rules, "[ERROR] x", &mut cool, 0);
    assert_eq!(d.recover, None);
    assert_eq!(
        d.lines,
        vec![
            "[WATCHER] Incident detected: [ERROR] x",
            "[MATCH] No known remediation rule found",
            "[MANUAL ACTION] Unknown incident requires investigation"
        ]
    );
    let d = process_incident(&rules, "[ERROR] disk", &mut cool, 0);
    assert_eq!(d.recover, Some(0));
    assert_eq!(
        d.lines,
        vec![
            "[WATCHER] Incident detected: [ERROR] disk",
            "[MATCH] Rule: Disk",
            "[MATCH] Confidence score: 60"
        ]
    );
    let d = process_incident(&rules, "[error] DISK", &mut cool, 29 * SECOND);
    assert_eq!(d.recover, None);
    assert_eq!(d.lines[1], "[COOLDOWN] Duplicate incident skipped for rule 'a'");
    let d = process_incident(&rules, "[ERROR] disk two", &mut cool, 29 * SECOND);
    assert_eq!(d.recover, Some(0));
    let d = process_incident(&rules, "[ERROR] disk", &mut cool, 30 * SECOND);
    assert_eq!(d.recover, Some(0));
}

#[test]
fn conclusions() {
    let r = rule("a", &["x"], 0);
    assert_eq!(
        conclude(&r, &Ok(()), "2.00s"),
        vec!["[RESOLVED] Incident automatically recovered in 2.00s"]
    );
    assert_eq!(
        conclude(&r, &Err("no".to_string()), ""),
        vec!["[RECOVERY FAILED] no", "[MANUAL ACTION] Rule 'a' requires intervention"]
    );
}

#[test]
fn standalone_watcher() {
    let file = |n: u64| FileIdentity { dev: 0, ino: n };
    let mut w = Watcher::new(file(1), 5);
    assert_eq!(w.observe(file(1), 5), (Change::Same, false));
    assert_eq!(w.observe(file(1), 9), (Change::Same, true));
    assert!(matches!(w.take_line("half"), Line::Unfinished));
    assert_eq!(w.position, 5);
    assert!(matches!(w.take_line("fine\n"), Line::Quiet));
    assert_eq!(w.position, 10);
    match w.take_line(" [ERROR] dïsk \n") {
        Line::Incident(s) => assert_eq!(s, "[ERROR] dïsk"),
        other => panic!("{:?}", other),
    }
    assert_eq!(w.position, 26);
    assert!(matches!(w.take_line("[CRITICAL]\n"), Line::Incident(_)));
    assert!(matches!(w.take_line("[error]\n"), Line::Quiet));
    assert_eq!(w.observe(file(1), 3), (Change::Truncated, true));
    assert_eq!(w.position, 0);
    assert_eq!(w.observe(file(2), 0), (Change::Rotated, false));
    assert_eq!(change_line(Change::Same), None);
    assert_eq!(
        change_line(Change::Rotated),
        Some("[INFO] Log rotation detected. Resetting position.")
    );
    assert_eq!(
        change_line(Change::Truncated),
        Some("[INFO] Log truncation detected. Resetting position.")
    );
    assert!(reload_due(10 * SECOND) && !reload_due(10 * SECOND - 1));
}

#[test]
fn standalone_places_and_messages() {
    assert_eq!(setup::get_aegira_dir(), "/etc/aegira");
    assert_eq!(setup::creation_failure("/x", "no"), "Failed to create /x: no");
    assert_eq!(setup::identity_failure("/x", "no"), "Failed to read metadata for /x: no");
    assert_eq!(
        setup::start_lines(),
        vec![
            "[INFO] Aegira Recovery Engine Started",
            "[INFO] Aegira directory: /etc/aegira",
            "[INFO] Monitoring log: /var/log/aegira/system.log"
        ]
    );
    for (step, line) in [
        (StartStep::SetUp, "[FATAL] Environment setup failed: no"),
        (StartStep::Inspect, "[FATAL] Failed to inspect monitored log: no"),
        (StartStep::Identify, "[FATAL] no"),
    ] {
        assert_eq!(setup::startup_failure(step, "no"), line);
    }
    for (step, line) in [
        (LogStep::Rotate, "[LOG ERROR] Failed to rotate incident log: no"),
        (LogStep::Stat, "[LOG ERROR] Failed to stat monitored log: no"),
        (LogStep::Identify, "[LOG ERROR] no"),
        (LogStep::Open, "[LOG ERROR] Failed opening monitored log: no"),
        (LogStep::Seek, "[LOG ERROR] Failed seeking monitored log: no"),
        (LogStep::Read, "[LOG ERROR] Failed reading monitored log: no"),
    ] {
        assert_eq!(setup::log_failure(step, "no"), line);
    }
    assert_eq!(setup::MONITORING_LINE, "[INFO] Monitoring new log entries...");
    assert_eq!(setup::ready_line(3), "[INFO] 3 remediation rules ready");
    assert_eq!(setup::reloaded_line(2), "[RULES] Rules reloaded: 2 active");
}

#[test]
fn standalone_engine_hears_incidents() {
    let file = FileIdentity { dev: 0, ino: 1 };
    let mut e = Engine::new(vec![rule("a", &["disk"], 0)], file, 3);
    assert_eq!(e.observe(file, 9), (Change::Same, true));
    assert!(matches!(e.hear("[ERROR] di", 0), Heard::Unfinished));
    assert!(matches!(e.hear("disk\n", 0), Heard::Quiet));
    assert_eq!(e.watcher.position, 8);
    match e.hear("[ERROR] disk\n", 0) {
        Heard::Incident(text, d) => {
            assert_eq!(text, "[ERROR] disk");
            assert_eq!(d.recover, Some(0));
        }
        other => panic!("{:?}", other),
    }
    match e.hear("[ERROR] disk\n", SECOND) {
        Heard::Incident(_, d) => assert_eq!(d.recover, None),
        other => panic!("{:?}", other),
    }
}

/// The piece that stands at `position` in a file: up to the end of a line or of the file.
fn next_piece(file: &str, position: usize) -> &str {
    let rest = &file[position..];
    &rest[..rest.find('\n').map_or(rest.len(), |n| n + 1)]
}

#[test]
fn standalone_engine_takes_up_each_new_incident_once() {
    let old = "[ERROR] before\n";
    let new = "fine\n  [ERROR] önë \n\n[CRITICAL] two\n[ERROR] ha";
    let log = format!("{}{}", old, new);
    let file = FileIdentity { dev: 0, ino: 1 };
    let ends: Vec<usize> = (old.len()..=log.len()).filter(|n| log.is_char_boundary(*n)).collect();
    for stride in [1, 3, 100] {
        let mut e = Engine::new(Vec::new(), file, old.len() as u64);
        let mut heard = Vec::new();
        let looks = ends.iter().copied().step_by(stride).chain([log.len()]);
        for end in looks {
            let (change, read) = e.observe(file, end as u64);
            assert_eq!(change, Change::Same);
            while read {
                let piece = next_piece(&log[..end], e.watcher.position as usize);
                if piece.is_empty() {
                    break;
                }
                match e.hear(piece, 0) {
                    Heard::Unfinished => break,
                    Heard::Quiet => {}
                    Heard::Incident(text, _) => heard.push(text),
                }
            }
        }
        assert_eq!(heard, vec!["[ERROR] önë", "[CRITICAL] two"]);
        assert_eq!(e.watcher.position as usize, log.len() - "[ERROR] ha".len());
    }
}
