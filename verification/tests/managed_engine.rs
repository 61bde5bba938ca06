use aegira::commands::{ChildState, CommandLine, CommandOutput, Installed, Poll};
use aegira::ledger::Ledger;
use aegira::logs::{fatal_line, FileIdentity};
use aegira::managed::alert::{alert, email_failure, send_email, Effect};
use aegira::managed::cli::{parse_invocation, rule_line, run_command, status_command, Invocation};
use aegira::managed::config::Config;
use aegira::managed::engine::Engine;
use aegira::managed::incident::{process_incident, Decision};
use aegira::managed::install::{
    activation_commands, answer, binary_failure, check_service, config_invalid, config_unreadable,
    creation_failure, new_config, prompt_line, require_root, rules_failure, rules_missing,
    unit_file, wants_email, EmailSettings,
};
use aegira::managed::recovery::{after_check, after_remediation, RecoveryState};
use aegira::managed::remedy::{query_outcome, remediation, verify};
use aegira::managed::rule::{Remediation, Rule};
use aegira::managed::rules_file::{load_rules, RulesRead};
use aegira::managed::watcher::{loaded_line, reload_due, start_lines, Watcher};
use aegira::verification::{Check, Verification};

const SECOND: u128 = 1_000_000_000;

fn config() -> Config {
    let mut c = Config::default();
    c.mode = "pro".to_string();
    c.service = "nginx".to_string();
    c.log_path = "/var/log/x".to_string();
    c.container = Some("web".to_string());
    c
}

fn rule(id: &str, r: Remediation) -> Rule {
    Rule {
        id: id.to_string(),
        name: "Disk".to_string(),
        severity: "high".to_string(),
        error_patterns: vec!["disk full".to_string()],
        context_patterns: vec![],
        remediation: r,
        verification: Verification::Unchecked,
        priority: 0,
        enabled: true,
    }
}

fn service_rule(id: &str) -> Rule {
    rule(id, Remediation::ServiceRestart { service: "TARGET_SERVICE".to_string() })
}

fn all() -> Installed {
    Installed {
        usr_bin_systemctl: true,
        bin_systemctl: true,
        usr_bin_docker: true,
        bin_docker: true,
        usr_local_bin_docker: true,
    }
}

fn none() -> Installed {
    Installed {
        usr_bin_systemctl: false,
        bin_systemctl: false,
        usr_bin_docker: false,
        bin_docker: false,
        usr_local_bin_docker: false,
    }
}

fn words(c: &CommandLine) -> String {
    format!("{} {}", c.program, c.args.join(" "))
}

fn show(effects: &[Effect]) -> Vec<String> {
    effects
        .iter()
        .map(|e| match e {
            Effect::Incident(s) => s.clone(),
            Effect::Email { command, recipient, message } => {
                format!("mail {} {} {}", command, recipient, message)
            }
            Effect::Sleep(n) => format!("sleep {}", n),
        })
        .collect()
}

#[test]
fn alerts_without_email() {
    assert_eq!(show(&alert(&config(), "s", "b")), vec!["[ALERT] s | b"]);
    assert!(send_email(&config(), "s", "b").is_empty());
}

#[test]
fn alerts_with_email() {
    let mut c = config();
    c.email_enabled = true;
    assert_eq!(
        show(&alert(&c, "s", "b")),
        vec![
            "[ALERT] s | b",
            "[ALERT ERROR] Email is enabled but email_to/email_from/email_command is incomplete"
        ]
    );
    c.email_to = Some("ops@x".to_string());
    c.email_from = Some("me@x".to_string());
    c.email_command = Some("/usr/sbin/sendmail".to_string());
    assert_eq!(
        show(&send_email(&c, "s", "b")),
        vec!["mail /usr/sbin/sendmail ops@x From: me@x\nTo: ops@x\nSubject: s\n\nb\n"]
    );
    assert_eq!(email_failure("gone"), "[ALERT ERROR] Failed to start email command: gone");
}

fn plan(r: &Remediation, c: &Config, i: &Installed) -> Result<Option<String>, String> {
    remediation(r, c, i).map(|o| o.map(|c| words(&c)))
}

#[test]
fn service_remediation() {
    let r = Remediation::ServiceRestart { service: "TARGET_SERVICE".to_string() };
    assert_eq!(
        plan(&r, &config(), &all()),
        Ok(Some("/usr/bin/systemctl restart nginx".to_string()))
    );
    assert_eq!(
        plan(&r, &config(), &none()),
        Err("Required binary not found. Checked: /usr/bin/systemctl, /bin/systemctl".to_string())
    );
    let spaced = Remediation::ServiceRestart { service: " cron ".to_string() };
    assert_eq!(
        plan(&spaced, &config(), &all()),
        Ok(Some("/usr/bin/systemctl restart cron".to_string()))
    );
}

#[test]
fn aegira_does_not_restart_itself() {
    let mut c = config();
    c.service = "Aegira.service".to_string();
    let r = Remediation::ServiceRestart { service: "TARGET_SERVICE".to_string() };
    let refusal = Err("Refusing invalid/self service target".to_string());
    assert_eq!(plan(&r, &c, &all()), refusal);
    c.service = " ".to_string();
    assert_eq!(plan(&r, &c, &all()), refusal);
}

#[test]
fn container_remediation() {
    let r = Remediation::ContainerRestart { container: "TARGET_CONTAINER".to_string() };
    assert_eq!(plan(&r, &config(), &all()), Ok(Some("/usr/bin/docker restart web".to_string())));
    let mut c = config();
    c.container = None;
    assert_eq!(plan(&r, &c, &all()), Err("Empty container target".to_string()));
    c.mode = "free".to_string();
    assert_eq!(
        plan(&r, &c, &all()),
        Err("Container remediation unavailable in Free mode".to_string())
    );
}

#[test]
fn alert_only_runs_nothing() {
    assert_eq!(plan(&Remediation::AlertOnly, &config(), &all()), Ok(None));
}

fn query(c: Check) -> (String, &'static str) {
    match c {
        Check::Query { command, expected } => (words(&command), expected),
        Check::Known(b) => panic!("{}", b),
    }
}

#[test]
fn recoveries_are_verified() {
    assert!(matches!(verify(&Verification::Unchecked, &config(), &none()), Check::Known(true)));
    let s = Verification::ServiceActive { service: "TARGET_SERVICE".to_string() };
    assert_eq!(
        query(verify(&s, &config(), &none())),
        ("/usr/bin/systemctl is-active nginx".to_string(), "active")
    );
    let k = Verification::ContainerRunning { container: "db ".to_string() };
    assert_eq!(
        query(verify(&k, &config(), &all())),
        ("/usr/bin/docker inspect -f {{.State.Running}} db".to_string(), "true")
    );
    let mut c = config();
    c.mode = "free".to_string();
    assert!(matches!(verify(&k, &c, &all()), Check::Known(false)));
}

#[test]
fn query_outcomes() {
    let out = CommandOutput { success: true, stdout: b"true\n".to_vec() };
    assert!(query_outcome(&Some(out), "true"));
    assert!(!query_outcome(&None, "true"));
}

fn decide(
    c: &Config,
    rules: &[Rule],
    text: &str,
    cool: &mut Ledger<u128>,
    hist: &mut Ledger<Vec<u128>>,
    now: u128,
) -> (Vec<String>, Option<usize>) {
    let Decision { effects, recover } = process_incident(c, rules, text, cool, hist, now);
    (show(&effects), recover)
}

#[test]
fn unknown_incident_raises_an_alert() {
    let (mut cool, mut hist) = (Ledger::new(), Ledger::new());
    let (e, r) = decide(&config(), &[], "boom", &mut cool, &mut hist, 0);
    assert_eq!(r, None);
    assert_eq!(
        e,
        vec!["[DETECTED] boom", "[ALERT] Aegira: unknown incident | No active rule matched: boom"]
    );
}

#[test]
fn known_incident_starts_a_recovery_then_cools_down() {
    let rules = [service_rule("Full")];
    let (mut cool, mut hist) = (Ledger::new(), Ledger::new());
    let (e, r) = decide(&config(), &rules, "disk full", &mut cool, &mut hist, 0);
    assert_eq!(r, Some(0));
    assert_eq!(e, vec!["[DETECTED] disk full", "[MATCH] Disk | severity=high | score=60"]);
    assert!(cool.contains_key("full"));
    let (e, r) = decide(&config(), &rules, "disk full", &mut cool, &mut hist, 30 * SECOND - 1);
    assert_eq!(r, None);
    assert_eq!(e, vec!["[DETECTED] disk full", "[COOLDOWN] Rule 'Full' skipped"]);
    let (_, r) = decide(&config(), &rules, "disk full", &mut cool, &mut hist, 30 * SECOND);
    assert_eq!(r, Some(0));
    assert_eq!(hist.remove("full"), Some(vec![0, 30 * SECOND]));
}

#[test]
fn alert_only_rule_raises_an_alert() {
    let rules = [rule("a", Remediation::AlertOnly)];
    let (mut cool, mut hist) = (Ledger::new(), Ledger::new());
    let (e, r) = decide(&config(), &rules, "disk full", &mut cool, &mut hist, 0);
    assert_eq!(r, None);
    assert_eq!(e[2], "[ALERT] Aegira alert-only rule: Disk | disk full");
    assert_eq!(hist.remove("a"), None);
    assert!(cool.contains_key("a"));
}

#[test]
fn recoveries_are_bounded_within_the_window() {
    let rules = [service_rule("a")];
    let (mut cool, mut hist) = (Ledger::new(), Ledger::new());
    for i in 0..3u128 {
        let (_, r) = decide(&config(), &rules, "disk full", &mut cool, &mut hist, i * 40 * SECOND);
        assert_eq!(r, Some(0));
    }
    let (e, r) = decide(&config(), &rules, "disk full", &mut cool, &mut hist, 120 * SECOND);
    assert_eq!(r, None);
    assert_eq!(
        e[2],
        "[ALERT] Aegira recovery limit exceeded: Disk | Recovery stopped after 3 attempts in 300 seconds. Incident: disk full"
    );
    let (_, r) = decide(&config(), &rules, "disk full", &mut cool, &mut hist, 300 * SECOND);
    assert_eq!(r, Some(0));
}

#[test]
fn other_rules_are_not_affected() {
    let mut other = service_rule("b");
    other.error_patterns = vec!["no route".to_string()];
    let rules = [service_rule("a"), other];
    let (mut cool, mut hist) = (Ledger::new(), Ledger::new());
    decide(&config(), &rules, "disk full", &mut cool, &mut hist, 0);
    let (_, r) = decide(&config(), &rules, "no route", &mut cool, &mut hist, 1);
    assert_eq!(r, Some(1));
    assert_eq!(hist.remove("a"), Some(vec![0]));
}

#[test]
fn failed_remediation_raises_an_alert() {
    let (s, e) =
        after_remediation(&config(), &service_rule("a"), "disk full", &Err("no".to_string()));
    assert!(matches!(s, RecoveryState::Finished));
    assert_eq!(
        show(&e),
        vec!["[ALERT] Aegira recovery failed: Disk | Remediation failed: no | Incident: disk full"]
    );
}

#[test]
fn checks_are_made_until_one_succeeds() {
    let r = service_rule("a");
    let (s, e) = after_remediation(&config(), &r, "disk full", &Ok(()));
    assert!(matches!(s, RecoveryState::Verifying { attempt: 1 }));
    assert_eq!(show(&e), vec!["sleep 2", "[VERIFY] a attempt 1/5"]);
    let (s, e) = after_check(&config(), &r, "disk full", 1, false, "2s");
    assert!(matches!(s, RecoveryState::Verifying { attempt: 2 }));
    assert_eq!(show(&e), vec!["sleep 2", "[VERIFY] a attempt 2/5"]);
    let (s, e) = after_check(&config(), &r, "disk full", 2, true, "4.1s");
    assert!(matches!(s, RecoveryState::Finished));
    assert_eq!(show(&e), vec!["[RESOLVED] a recovered in 4.1s"]);
}

#[test]
fn last_failed_check_raises_an_alert() {
    let (s, e) = after_check(&config(), &service_rule("a"), "disk full", 5, false, "9s");
    assert!(matches!(s, RecoveryState::Finished));
    assert_eq!(
        show(&e),
        vec!["[ALERT] Aegira recovery unresolved: Disk | Remediation executed but verification failed. Incident: disk full"]
    );
}

fn file(n: u64) -> FileIdentity {
    FileIdentity { dev: 1, ino: n }
}

#[test]
fn watcher_follows_a_growing_file() {
    let mut w = Watcher::new(file(1), 10);
    let o = w.observe(file(1), 10);
    assert!(!o.reset && !o.read);
    let o = w.observe(file(1), 30);
    assert!(!o.reset && o.read);
    assert_eq!(w.feed("  a line \n"), Some("a line".to_string()));
    assert_eq!(w.position, 20);
    assert_eq!(w.feed(" \n"), None);
    assert_eq!(w.position, 22);
}

#[test]
fn watcher_puts_split_lines_together() {
    let mut w = Watcher::new(file(1), 0);
    assert_eq!(w.feed("disk "), None);
    assert_eq!(w.feed("füll\n"), Some("disk füll".to_string()));
    assert_eq!(w.position, 11);
    assert_eq!(w.partial, "");
}

#[test]
fn watcher_starts_anew_with_another_or_a_shorter_file() {
    let mut w = Watcher::new(file(1), 10);
    w.feed("half");
    let o = w.observe(file(2), 99);
    assert!(o.reset && o.read);
    assert_eq!((w.position, w.partial.as_str()), (0, ""));
    w.feed("half a line");
    let o = w.observe(file(2), 5);
    assert!(o.reset && o.read);
    assert_eq!((w.position, w.partial.as_str()), (0, ""));
    let o = w.observe(file(3), 0);
    assert!(o.reset && !o.read);
}

#[test]
fn rules_are_read_again_after_a_while() {
    assert!(!reload_due(10 * SECOND - 1));
    assert!(reload_due(10 * SECOND));
}

#[test]
fn engine_says_what_it_watches() {
    assert_eq!(
        start_lines(&config()),
        vec![
            "[INFO] Aegira started",
            "[INFO] Mode: pro",
            "[INFO] Monitoring service: nginx",
            "[INFO] Monitoring log: /var/log/x"
        ]
    );
    assert_eq!(loaded_line(12), "[INFO] 12 active rules loaded");
}

#[test]
fn installation_requires_root() {
    assert_eq!(require_root(&CommandOutput { success: true, stdout: b"0\n".to_vec() }), Ok(()));
    let refusal = Err("This operation requires root. Run it with sudo.".to_string());
    assert_eq!(require_root(&CommandOutput { success: true, stdout: b"1000\n".to_vec() }), refusal);
    assert_eq!(require_root(&CommandOutput { success: false, stdout: b"0\n".to_vec() }), refusal);
}

#[test]
fn questions_and_answers() {
    assert_eq!(prompt_line("Service", None), "Service: ");
    assert_eq!(prompt_line("Log", Some("/x")), "Log [/x]: ");
    assert_eq!(answer(" nginx \n", Some("d")), "nginx");
    assert_eq!(answer("\n", Some("d")), "d");
    assert_eq!(answer("\n", None), "");
    assert!(wants_email("y") && wants_email("Y"));
    assert!(!wants_email("yes") && !wants_email("N"));
}

#[test]
fn only_other_services_are_watched() {
    assert_eq!(check_service("nginx"), Ok(()));
    let refusal = Err("A valid non-Aegira service is required.".to_string());
    assert_eq!(check_service(" "), refusal);
    assert_eq!(check_service("aegira.service"), refusal);
}

#[test]
fn installed_configuration() {
    let c = new_config(" nginx ", "/var/log/x ", None);
    assert_eq!((c.service.as_str(), c.log_path.as_str()), ("nginx", "/var/log/x"));
    assert!(!c.email_enabled && c.email_to.is_none());
    assert_eq!((c.mode.as_str(), c.max_recovery_attempts), ("free", 3));
    let e = EmailSettings {
        to: "a".to_string(),
        from: "b".to_string(),
        command: "c".to_string(),
    };
    let c = new_config("nginx", "/x", Some(e));
    assert!(c.email_enabled);
    assert_eq!(c.email_to, Some("a".to_string()));
    assert_eq!(c.email_from, Some("b".to_string()));
    assert_eq!(c.email_command, Some("c".to_string()));
}

#[test]
fn systemd_unit() {
    assert_eq!(
        unit_file(),
        "[Unit]
Description=Aegira Automated Recovery Engine
After=network.target

[Service]
Type=simple
User=root
WorkingDirectory=/etc/aegira
ExecStart=/usr/local/bin/aegira
Restart=always
RestartSec=3

[Install]
WantedBy=multi-user.target
"
    );
}

#[test]
fn activation_by_systemd() {
    let all: Vec<String> = activation_commands("/bin/systemctl").iter().map(words).collect();
    assert_eq!(
        all,
        vec![
            "/bin/systemctl daemon-reload",
            "/bin/systemctl enable aegira.service",
            "/bin/systemctl restart aegira.service"
        ]
    );
}

#[test]
fn command_line_of_the_engine() {
    assert_eq!(parse_invocation(None), Ok(Invocation::Run));
    assert_eq!(parse_invocation(Some("run")), Ok(Invocation::Run));
    assert_eq!(parse_invocation(Some("install")), Ok(Invocation::Install));
    assert_eq!(parse_invocation(Some("show-rules")), Ok(Invocation::ShowRules));
    assert_eq!(parse_invocation(Some("status")), Ok(Invocation::Status));
    assert_eq!(
        parse_invocation(Some("Run")),
        Err("Unknown command 'Run'. Use: install | run | show-rules | status".to_string())
    );
}

#[test]
fn rules_and_state_are_shown() {
    let mut r = service_rule("a");
    assert_eq!(rule_line(&r), "a | Disk | high | true");
    r.enabled = false;
    assert_eq!(rule_line(&r), "a | Disk | high | false");
    assert_eq!(
        words(&status_command("/bin/systemctl")),
        "/bin/systemctl status aegira.service --no-pager"
    );
}

#[test]
fn failed_command_tells_its_status() {
    let s = ChildState::Exited { success: false, status: "exit status: 1".to_string() };
    match run_command("/bin/x", &s, 0) {
        Poll::Failed(e) => assert_eq!(e, "/bin/x exited with exit status: 1"),
        other => panic!("{:?}", other),
    }
}

#[test]
fn engine_hears_incidents() {
    let mut e = Engine::new(config(), vec![service_rule("a")], file(1), 7);
    let o = e.observe(file(1), 50);
    assert!(!o.reset && o.read);
    assert!(e.hear("INFO fine\n", 0).is_none());
    assert!(e.hear("  disk ", 0).is_none());
    let (text, d) = e.hear("full\n", 0).unwrap();
    assert_eq!(text, "disk full");
    assert_eq!(d.recover, Some(0));
    assert_eq!(e.watcher.position, 29);
    let (_, d) = e.hear("disk full\n", SECOND).unwrap();
    assert_eq!(d.recover, None);
    let (_, d) = e.hear("something failed\n", SECOND).unwrap();
    assert_eq!(d.recover, None);
    assert_eq!(show(&d.effects)[1], "[ALERT] Aegira: unknown incident | No active rule matched: something failed");
}

#[test]
fn engine_keeps_its_rules_after_a_faulty_reload() {
    let mut e = Engine::new(config(), vec![service_rule("a")], file(1), 0);
    let (bad, _) = load_rules("/p", RulesRead::Missing, "pro");
    assert_eq!(e.reload(bad), "[RULES] Reload rejected; keeping previous valid rule set");
    assert_eq!(e.rules[0].id, "a");
    let (good, _) = load_rules("/p", RulesRead::Parsed(vec![service_rule("b")]), "pro");
    assert_eq!(e.reload(good), "[RULES] Reloaded 1 active rules");
    assert_eq!(e.rules[0].id, "b");
}

#[test]
fn failures_of_the_setup_are_told() {
    assert_eq!(creation_failure("/x", "no"), "/x: no");
    assert_eq!(config_unreadable("no"), "Cannot read /etc/aegira/config.json: no");
    assert_eq!(config_invalid("no"), "Invalid config: no");
    assert_eq!(binary_failure("no"), "Cannot install binary: no");
    assert_eq!(rules_missing("/x"), "Bundled rules.json not found next to /x");
    assert_eq!(rules_failure("no"), "Cannot install rules.json: no");
    assert_eq!(fatal_line("no"), "[FATAL] no");
}

/// The piece that stands at `position` in a file: up to the end of a line or of the file.
fn next_piece(file: &str, position: usize) -> &str {
    let rest = &file[position..];
    &rest[..rest.find('\n').map_or(rest.len(), |n| n + 1)]
}

#[test]
fn engine_judges_each_new_line_once() {
    let old = "disk full\nand on it ";
    let new = "goes\n  dïsk failed \n\nall is well\ndisk full\nanother fail";
    let log = format!("{}{}", old, new);
    let ends: Vec<usize> = (old.len()..=log.len()).filter(|n| log.is_char_boundary(*n)).collect();
    for stride in [1, 4, 100] {
        let mut w = Watcher::new(file(1), old.len() as u64);
        let mut e = Engine::new(config(), vec![service_rule("a")], file(1), old.len() as u64);
        let mut lines = Vec::new();
        let mut incidents = Vec::new();
        let looks = ends.iter().copied().step_by(stride).chain([log.len()]);
        for end in looks {
            let seen = e.observe(file(1), end as u64);
            assert!(!seen.reset);
            while seen.read && (e.watcher.position as usize) < end {
                let piece = next_piece(&log[..end], e.watcher.position as usize);
                lines.extend(w.feed(piece));
                incidents.extend(e.hear(piece, 0).map(|(text, _)| text));
            }
        }
        assert_eq!(lines, vec!["goes", "dïsk failed", "all is well", "disk full"]);
        assert_eq!(incidents, vec!["dïsk failed", "disk full"]);
        assert_eq!(e.watcher.partial, "another fail");
        assert_eq!(e.watcher.position as usize, log.len());
    }
}
