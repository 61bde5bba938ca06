use aegira::clock::is_recent;
use aegira::commands::{
    command, docker, exec_line, find_binary, output_says, poll, report_says, start_failure, systemctl,
    Candidate, ChildState, CommandOutput, Installed, Poll,
};
use aegira::ledger::Ledger;

const SECOND: u128 = 1_000_000_000;

fn nothing() -> Installed {
    Installed {
        usr_bin_systemctl: false,
        bin_systemctl: false,
        usr_bin_docker: false,
        bin_docker: false,
        usr_local_bin_docker: false,
    }
}

#[test]
fn first_existing_candidate_is_found() {
    let candidates = vec![
        Candidate { path: "/a", exists: false },
        Candidate { path: "/b", exists: true },
        Candidate { path: "/c", exists: true },
    ];
    assert_eq!(find_binary(&candidates), Ok("/b"));
}

#[test]
fn missing_binary_names_all_candidates() {
    let candidates =
        vec![Candidate { path: "/a", exists: false }, Candidate { path: "/b", exists: false }];
    assert_eq!(
        find_binary(&candidates),
        Err("Required binary not found. Checked: /a, /b".to_string())
    );
}

#[test]
fn systemctl_and_docker_are_looked_for_in_order() {
    assert_eq!(
        systemctl(&nothing()),
        Err("Required binary not found. Checked: /usr/bin/systemctl, /bin/systemctl".to_string())
    );
    assert_eq!(
        docker(&nothing()),
        Err("Required binary not found. Checked: /usr/bin/docker, /bin/docker, /usr/local/bin/docker"
            .to_string())
    );
    let some = Installed { bin_systemctl: true, usr_local_bin_docker: true, ..nothing() };
    assert_eq!(systemctl(&some), Ok("/bin/systemctl"));
    assert_eq!(docker(&some), Ok("/usr/local/bin/docker"));
    let both = Installed { usr_bin_systemctl: true, bin_systemctl: true, ..nothing() };
    assert_eq!(systemctl(&both), Ok("/usr/bin/systemctl"));
}

#[test]
fn failed_start_names_the_program() {
    assert_eq!(
        start_failure("/bin/docker", "permission denied"),
        "Failed to start /bin/docker: permission denied"
    );
}

#[test]
fn commands_are_announced() {
    let c = command("/bin/systemctl", "restart", "cron");
    assert_eq!(exec_line(&c), "[EXEC] /bin/systemctl restart cron");
}

fn failed(p: Poll) -> String {
    match p {
        Poll::Failed(e) => e,
        other => panic!("{:?}", other),
    }
}

#[test]
fn finished_programs() {
    let ok = ChildState::Exited { success: true, status: "exit status: 0".to_string() };
    assert!(matches!(poll("x", " exited with ", &ok, 99 * SECOND), Poll::Succeeded));
    let bad = ChildState::Exited { success: false, status: "exit status: 3".to_string() };
    assert_eq!(failed(poll("x", " exited with ", &bad, 0)), "x exited with exit status: 3");
    let lost = ChildState::Unreadable("gone".to_string());
    assert_eq!(failed(poll("x", " exited with ", &lost, 0)), "Failed waiting for x: gone");
}

#[test]
fn running_programs_time_out() {
    assert!(matches!(poll("x", "", &ChildState::Running, 20 * SECOND - 1), Poll::Wait));
    match poll("x", "", &ChildState::Running, 20 * SECOND) {
        Poll::Kill(e) => assert_eq!(e, "x timed out after 20 seconds"),
        other => panic!("{:?}", other),
    }
}

#[test]
fn reports_are_read() {
    assert!(report_says(true, " active\n", "active"));
    assert!(!report_says(false, "active", "active"));
    assert!(!report_says(true, "inactive", "active"));
}

#[test]
fn output_is_read_as_text() {
    let out = |success: bool, bytes: &[u8]| CommandOutput { success, stdout: bytes.to_vec() };
    assert!(output_says(&out(true, b"active\n"), "active"));
    assert!(!output_says(&out(false, b"active\n"), "active"));
    assert!(!output_says(&out(true, b"activ\xff"), "active"));
    assert!(output_says(&out(true, b"a\xff"), "a\u{fffd}"));
    assert!(output_says(&out(true, "\u{e9}".as_bytes()), "\u{e9}"));
}

#[test]
fn recent_moments() {
    assert!(is_recent(29 * SECOND, 0, 30));
    assert!(is_recent(30 * SECOND - 1, 0, 30));
    assert!(!is_recent(30 * SECOND, 0, 30));
    assert!(!is_recent(5, 5, 0));
    assert!(is_recent(5, 9, 1));
    assert!(is_recent(u64::MAX as u128 * SECOND - 1, 0, u64::MAX));
}

#[test]
fn tables_remember_and_forget() {
    let mut t: Ledger<Vec<u128>> = Ledger::new();
    assert!(!t.contains_key("a"));
    assert_eq!(t.remove("a"), None);
    t.insert("a".to_string(), vec![1]);
    t.insert("b".to_string(), vec![2]);
    t.insert("a".to_string(), vec![3]);
    assert!(t.contains_key("a"));
    assert_eq!(t.remove("a"), Some(vec![3]));
    assert_eq!(t.remove("a"), None);
    assert_eq!(t.remove("b"), Some(vec![2]));
}

#[test]
fn tables_drop_old_entries() {
    let mut t: Ledger<u128> = Ledger::new();
    t.insert("old".to_string(), 0);
    t.insert("new".to_string(), 5 * SECOND);
    t.insert("ahead".to_string(), 50 * SECOND);
    t.retain_recent(10 * SECOND, 10);
    assert!(!t.contains_key("old"));
    assert!(t.contains_key("new"));
    assert!(t.contains_key("ahead"));
}
