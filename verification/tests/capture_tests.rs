use device_ops::capture::{count_lines, split_lines, SystemCommandRunner};

#[test]
fn test_small_output_unchanged() {
    let (text, truncated) = SystemCommandRunner::limit_output("hello\nworld");
    assert_eq!(text, "hello\nworld");
    assert!(!truncated);
}

#[test]
fn test_empty_output() {
    let (text, truncated) = SystemCommandRunner::limit_output("");
    assert_eq!(text, "");
    assert!(!truncated);
}

#[test]
fn test_trailing_newline_dropped() {
    let (text, truncated) = SystemCommandRunner::limit_output("a\nb\n");
    assert_eq!(text, "a\nb");
    assert!(!truncated);
}

#[test]
fn test_crlf_normalized() {
    let (text, truncated) = SystemCommandRunner::limit_output("a\r\nb\r\n");
    assert_eq!(text, "a\nb");
    assert!(!truncated);
}

#[test]
fn test_line_cap_keeps_exactly_1000_lines() {
    // A process emitting 1500 lines yields exactly 1000 captured lines plus
    // one truncation-marker line.
    let mut input = String::new();
    for i in 0..1500 {
        input.push_str(&format!("line {}\n", i));
    }
    let (text, truncated) = SystemCommandRunner::limit_output(&input);
    assert!(truncated);
    let lines: Vec<&str> = text.lines().collect();
    assert_eq!(lines.len(), 1001);
    assert_eq!(lines[0], "line 0");
    assert_eq!(lines[999], "line 999");
    assert_eq!(lines[1000], "[Output truncated: exceeded limit]");
}

#[test]
fn test_single_long_line_hits_byte_budget() {
    // A single line over 32 KiB is cut down to the byte budget with the
    // distinct size marker.
    let input = "x".repeat(40000);
    let (text, truncated) = SystemCommandRunner::limit_output(&input);
    assert!(truncated);
    assert!(text.len() <= 32768);
    assert!(text.ends_with("[Output truncated: size limit]"));
}

#[test]
fn test_byte_cap_across_lines() {
    // Many moderate lines whose total passes the byte budget stop early.
    let mut input = String::new();
    for _ in 0..500 {
        input.push_str(&"y".repeat(100));
        input.push('\n');
    }
    let (text, truncated) = SystemCommandRunner::limit_output(&input);
    assert!(truncated);
    assert!(text.len() <= 32768);
    assert!(text.contains("[Output truncated: exceeded limit]"));
}

#[test]
fn test_split_lines_matches_line_semantics() {
    let lines = split_lines("a\n\nb\r\nc");
    assert_eq!(lines, vec!["a", "", "b", "c"]);
    assert_eq!(count_lines("a\n\nb\r\nc"), 4);
    assert_eq!(count_lines(""), 0);
    assert_eq!(count_lines("\n"), 1);
    assert_eq!(count_lines("x"), 1);
}
