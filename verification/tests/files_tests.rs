use std::path::PathBuf;
use codex_savings_core::calendar::DateKey;
use codex_savings_core::files::{file_date, is_jsonl_name, jsonl_files, parse_u16, path_key, session_may_overlap};

fn path(parts: &[&str]) -> Vec<String> {
    parts.iter().map(|p| p.to_string()).collect()
}

fn chars(text: &str) -> Vec<char> {
    text.chars().collect()
}

#[test]
fn session_files_are_filtered_and_sorted() {
    let found = vec![
        path(&["C:", "\\", "codex", "sessions", "2026", "05", "24", "rollout-b.jsonl"]),
        path(&["C:", "\\", "codex", "sessions", "2026", "05", "24", "notes.txt"]),
        path(&["C:", "\\", "codex", "sessions", "2026", "04", "30", "rollout-z.JSONL"]),
        path(&["C:", "\\", "codex", "sessions", "2026", "05", "24", "rollout-a.jsonl"]),
        path(&["C:", "\\", "codex", "sessions", "2026", "05", "3", ".jsonl"]),
        path(&["C:", "\\", "codex", "sessions", "2026", "05", "24", "rollout-a.jsonl.bak"]),
    ];
    let files = jsonl_files(&found);
    assert_eq!(
        files,
        vec![
            path(&["C:", "\\", "codex", "sessions", "2026", "04", "30", "rollout-z.JSONL"]),
            path(&["C:", "\\", "codex", "sessions", "2026", "05", "24", "rollout-a.jsonl"]),
            path(&["C:", "\\", "codex", "sessions", "2026", "05", "24", "rollout-b.jsonl"]),
        ]
    );
}

#[test]
fn path_order_matches_std() {
    let names = ["a.jsonl", "B.jsonl", "a-b.jsonl", "ab.jsonl", "a.JSONL", "é.jsonl", "z.jsonl"];
    let dirs = ["x", "x y", "xa", "x-1"];
    let mut found = Vec::new();
    let mut std_paths = Vec::new();
    for d in dirs {
        for n in names {
            found.push(path(&["root", d, n]));
            std_paths.push(PathBuf::from("root").join(d).join(n));
        }
    }
    std_paths.sort();
    let expected: Vec<Vec<String>> = std_paths
        .iter()
        .map(|p| p.iter().map(|c| c.to_string_lossy().into_owned()).collect())
        .collect();
    assert_eq!(jsonl_files(&found), expected);
}

#[test]
fn extensions_follow_path_rules() {
    assert!(is_jsonl_name(&chars("a.jsonl")));
    assert!(is_jsonl_name(&chars("a.b.JsonL")));
    assert!(!is_jsonl_name(&chars(".jsonl")));
    assert!(!is_jsonl_name(&chars("jsonl")));
    assert!(!is_jsonl_name(&chars("a.jsonl.gz")));
    assert!(is_jsonl_name(&chars("..jsonl")));
}

#[test]
fn file_dates_come_from_the_folders() {
    let p = path(&["C:", "\\", "codex", "sessions", "2026", "05", "24", "f.jsonl"]);
    assert_eq!(file_date(&p), Some(DateKey { year: 2026, month: 5, day: 24 }));
    assert_eq!(file_date(&path(&["2026", "05", "24", "f.jsonl"])), Some(DateKey { year: 2026, month: 5, day: 24 }));
    assert_eq!(file_date(&path(&["05", "24", "f.jsonl"])), None);
    assert_eq!(file_date(&path(&["2026", "May", "24", "f.jsonl"])), None);
    assert_eq!(file_date(&path(&["+2026", "005", "24", "f.jsonl"])), Some(DateKey { year: 2026, month: 5, day: 24 }));
}

#[test]
fn folder_numbers_parse_like_std() {
    for text in ["0", "65535", "65536", "+7", "+", "-1", "", "00012", "1e3", " 5", "99999999999"] {
        assert_eq!(parse_u16(&chars(text)), text.parse::<u16>().ok(), "{:?}", text);
    }
}

#[test]
fn database_keys_use_backslashes_and_lowercase() {
    assert_eq!(path_key("C:/Users/Ana/.codex/Sessions/A.jsonl"), "c:\\users\\ana\\.codex\\sessions\\a.jsonl");
    assert_eq!(path_key("D:\\X\\Ä.JSONL"), "d:\\x\\ä.jsonl");
}

#[test]
fn sessions_overlap_the_cycle_when_written_in_it() {
    let start = DateKey { year: 2026, month: 5, day: 10 };
    let before = DateKey { year: 2026, month: 5, day: 2 };
    let after = DateKey { year: 2026, month: 5, day: 12 };
    assert!(session_may_overlap(after, start, None));
    assert!(session_may_overlap(before, start, Some(after)));
    assert!(!session_may_overlap(before, start, Some(before)));
    assert!(session_may_overlap(before, start, None));
}
