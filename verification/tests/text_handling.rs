use aegira::logs;
use aegira::normalize::{contains_case_insensitive, contains_normalized, normalize_text};
use aegira::order::{stable_sort, Ranked};
use aegira::scoring::{count_case_insensitive, count_normalized, match_points};
use aegira::service::{is_self_service, normalize_service};
use aegira::standalone::rules_dir::FileName;
use aegira::text;

#[test]
fn white_space_is_that_of_the_standard_library() {
    for n in 0u32..0x3100 {
        if let Some(c) = char::from_u32(n) {
            assert_eq!(text::is_whitespace(c), c.is_whitespace(), "{:x}", n);
        }
    }
    assert!(!text::is_whitespace('\u{feff}'));
}

#[test]
fn trim_is_that_of_the_standard_library() {
    for s in ["", " ", "a", " a ", "\u{3000}x y\t\n", "\u{a0}\u{2028}", "é\u{85}", "a b"] {
        assert_eq!(text::trim(s), s.trim());
        assert_eq!(text::is_blank(s), s.trim().is_empty());
    }
}

#[test]
fn trimming_again_changes_nothing() {
    let once = text::trim("\t two words \n");
    assert_eq!(once, "two words");
    assert_eq!(text::trim(once), once);
}

#[test]
fn suffixes_are_taken_off_as_often_as_they_stand() {
    for s in ["nginx.service.service", ".service", "x.servicex", "", "a.Service"] {
        assert_eq!(text::trim_end_matches(s, ".service"), s.trim_end_matches(".service"));
    }
}

#[test]
fn contains_is_that_of_the_standard_library() {
    for s in ["", "a", "aab", "abcabc", "äöü"] {
        for p in ["", "a", "ab", "bca", "abcabcd", "ö", "c"] {
            assert_eq!(text::contains(s, p), s.contains(p), "{} {}", s, p);
        }
    }
}

#[test]
fn precedes_is_the_order_of_the_standard_library() {
    let all = ["", "a", "A", "ab", "b", "é", "z", "\u{10000}", "\u{e000}", "\u{ffff}"];
    for a in all {
        for b in all {
            assert_eq!(text::precedes(a, b), a < b, "{} {}", a, b);
        }
    }
}

#[test]
fn numbers_in_decimal() {
    for n in [0u64, 7, 10, 42, 1_000_000, u64::MAX] {
        assert_eq!(text::decimal_text(n), n.to_string());
    }
    for n in [0i32, 9, -1, 85, i32::MAX, i32::MIN] {
        assert_eq!(text::signed_decimal_text(n), n.to_string());
    }
}

#[test]
fn texts_are_joined() {
    assert_eq!(text::join(&vec![], ", "), "");
    assert_eq!(text::join(&vec!["a"], ", "), "a");
    assert_eq!(text::join(&vec!["a", "b", "c"], ", "), "a, b, c");
}

#[test]
fn service_names_are_normalized() {
    assert_eq!(normalize_service("  NGINX.service "), "nginx");
    assert_eq!(normalize_service("a.service.service"), "a");
    assert_eq!(normalize_service("ÄPFEL"), "äpfel");
    assert_eq!(normalize_service("x.SERVICE"), "x.service");
}

#[test]
fn own_service_is_recognised() {
    assert!(is_self_service("aegira"));
    assert!(is_self_service(" Aegira.service\n"));
    assert!(!is_self_service("aegira2"));
    assert!(!is_self_service(""));
    assert_eq!(is_self_service("  aegira  "), is_self_service("aegira"));
    assert_eq!(is_self_service("cron.service"), is_self_service("cron"));
}

#[test]
fn text_is_normalized() {
    assert_eq!(normalize_text("  Connection \t\n REFUSED "), "connection refused");
    assert_eq!(normalize_text(" \u{3000} "), "");
    assert_eq!(normalize_text("ÉCOLE"), "école");
    assert_eq!(normalize_text("İ"), "i\u{307}");
}

#[test]
fn normalizing_again_changes_nothing() {
    for text in ["Disk   FULL on\t/dev/sda ", "İSTANBUL\u{a0} ΟΔΟΣ", "", " \n "] {
        let once = normalize_text(text);
        assert_eq!(normalize_text(&once), once);
    }
}

#[test]
fn patterns_are_found_in_normalized_text() {
    assert!(contains_normalized("ERROR: Connection   Refused by peer", "connection refused"));
    assert!(!contains_normalized("all is well", "connection refused"));
    assert!(!contains_normalized("anything", "   "));
    assert!(!contains_normalized("anything", ""));
    assert!(contains_normalized("Out  Of Memory", "Out  Of Memory"));
}

#[test]
fn patterns_are_found_letter_case_aside() {
    assert!(contains_case_insensitive("ERROR: Connection Refused", "connection refused"));
    assert!(!contains_case_insensitive("connection  refused", "connection refused"));
    assert!(contains_case_insensitive("anything", ""));
    assert!(contains_case_insensitive("SCHÖN", "schön"));
    assert!(contains_case_insensitive("ΟΔΟΣ", "οδος"));
}

#[test]
fn matching_patterns_are_counted() {
    let patterns = vec!["disk full".to_string(), "no space".to_string(), "DISK  full".to_string()];
    assert_eq!(count_normalized(&patterns, "Disk Full!"), 2);
    assert_eq!(count_case_insensitive(&patterns, "Disk Full!"), 1);
    assert_eq!(count_normalized(&vec![], "x"), 0);
}

#[test]
fn scores_by_the_formula() {
    assert_eq!(match_points(0, 9, 20), None);
    assert_eq!(match_points(1, 0, 0), Some(60));
    assert_eq!(match_points(1, 0, 10), Some(70));
    assert_eq!(match_points(2, 1, 5), Some(85));
    assert_eq!(match_points(1, 0, -500), Some(40));
    assert_eq!(match_points(1, 0, i32::MAX), Some(80));
    assert_eq!(match_points(3, 3, 0), Some(100));
    assert_eq!(match_points(usize::MAX, usize::MAX, -20), Some(100));
}

#[test]
fn more_matches_never_lower_a_score() {
    assert!(match_points(1, 1, 3) <= match_points(2, 1, 3));
    assert!(match_points(2, 1, 3) <= match_points(2, 4, 3));
    assert!(match_points(2, 1, -3) <= match_points(2, 1, 3));
}

fn names(list: &[&str]) -> Vec<FileName> {
    list.iter().map(|s| FileName { bytes: s.as_bytes().to_vec() }).collect()
}

#[test]
fn sorting_puts_items_in_order() {
    let sorted = stable_sort(names(&["b", "a", "", "ab", "B"]));
    let texts: Vec<Vec<u8>> = sorted.into_iter().map(|n| n.bytes).collect();
    assert_eq!(texts, vec![b"".to_vec(), b"B".to_vec(), b"a".to_vec(), b"ab".to_vec(), b"b".to_vec()]);
}

#[test]
fn file_names_are_compared_by_bytes() {
    let n = names(&["a", "b", "a"]);
    assert!(n[0].is_before(&n[1]));
    assert!(!n[1].is_before(&n[0]));
    assert!(!n[0].is_before(&n[2]));
}

#[test]
fn log_entries() {
    assert_eq!(logs::now_string(1700000000), "1700000000");
    assert_eq!(logs::log_entry("17", "hello"), "[17] hello");
    assert!(!logs::must_rotate(10 * 1024 * 1024 - 1));
    assert!(logs::must_rotate(10 * 1024 * 1024));
}
