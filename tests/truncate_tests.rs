use std::cell::Cell;

use ferris_bot::truncate::{needs_truncation, trim_text, trim_text_with, MAX_OUTPUT_LINES, MESSAGE_LIMIT};
use ferris_bot::merge::merge_output_and_errors;

fn numbered_lines(n: usize) -> String {
    (0..n).map(|i| format!("line {}", i)).collect::<Vec<_>>().join("\n")
}

#[test]
fn fitting_text_is_unchanged_and_notice_not_produced() {
    let body = "fn main() {}\n";
    let r = trim_text(body, "```", || -> String { panic!("notice produced") });
    assert_eq!(r, "fn main() {}\n```");
    let exact = "a".repeat(1997);
    let r = trim_text(&exact, "```", || -> String { panic!("notice produced") });
    assert_eq!(r.len(), 2000);
    let lines = numbered_lines(45);
    let r = trim_text(&lines, "```", || -> String { panic!("notice produced") });
    assert_eq!(r, format!("{}```", lines));
}

#[test]
fn long_body_is_cut_to_limit() {
    let body = "y".repeat(2500);
    let r = trim_text(&body, "```", || "Output too large.".to_string());
    assert!(r.len() <= 2000);
    assert!(r.ends_with("```Output too large."));
    let kept = &r[..r.len() - "```Output too large.".len()];
    assert!(body.starts_with(kept));
    assert_eq!(kept.len(), 2000 - 3 - "Output too large.".len());
}

#[test]
fn cut_respects_character_boundaries() {
    let body = "é".repeat(1500);
    let r = trim_text_with(&body, "```", "!!");
    assert!(r.len() <= 2000);
    assert!(r.ends_with("```!!"));
    let kept = &r[..r.len() - 5];
    assert!(body.starts_with(kept));
    assert_eq!(kept.len(), 1994);
    let body = "€".repeat(1000);
    let r = trim_text_with(&body, "", "");
    assert_eq!(r.len(), 1998);
}

#[test]
fn too_many_lines_keeps_first_lines() {
    let body = numbered_lines(50);
    let r = trim_text(&body, "```", || "[more]".to_string());
    let expected = format!("{}```[more]", numbered_lines(45));
    assert_eq!(r, expected);
    assert_eq!(MAX_OUTPUT_LINES, 45);
}

#[test]
fn line_cut_drops_carriage_returns_and_trailing_newline() {
    let body: String = (0..46).map(|i| format!("l{}\r\n", i)).collect();
    let r = trim_text_with(&body, "E", "N");
    let expected = format!("{}EN", (0..45).map(|i| format!("l{}", i)).collect::<Vec<_>>().join("\n"));
    assert_eq!(r, expected);
    let exact: String = (0..45).map(|i| format!("l{}\n", i)).collect();
    assert!(!needs_truncation(&exact, "E"));
    assert_eq!(trim_text_with(&exact, "E", "N"), format!("{}E", exact));
}

#[test]
fn notice_produced_once_when_both_limits_hit() {
    let calls = Cell::new(0u32);
    let body = format!("{}{}", numbered_lines(100), "z".repeat(3000));
    let r = trim_text(&body, "```", || {
        calls.set(calls.get() + 1);
        "cut".to_string()
    });
    assert_eq!(calls.get(), 1);
    assert!(r.ends_with("```cut"));
    assert!(r.len() <= MESSAGE_LIMIT);
    assert_eq!(r, format!("{}```cut", numbered_lines(45)));
}

#[test]
fn needs_truncation_decides() {
    assert!(!needs_truncation("short", "```"));
    assert!(needs_truncation(&"a".repeat(1998), "```"));
    assert!(needs_truncation(&numbered_lines(46), ""));
    assert!(!needs_truncation(&numbered_lines(45), ""));
}

#[test]
fn compiler_output_end_to_end() {
    let stdout = "x".repeat(4000);
    let merged = merge_output_and_errors(&stdout, "");
    let r = trim_text(&merged, "\n```", || "Output too large. Playground link: <link>".to_string());
    assert!(r.len() <= 2000);
    assert!(r.ends_with("\n```Output too large. Playground link: <link>"));
}

#[test]
fn delimiter_longer_than_limit() {
    let end = "e".repeat(2100);
    let r = trim_text_with("body", &end, "N");
    assert_eq!(r, format!("{}N", end));
}
