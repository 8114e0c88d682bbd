use focus_todo::persist::{parse_task_line, parse_tasks, render_tasks};
use focus_todo::pomodoro::{Phase, Task};

#[test]
fn loads_counts_and_defaults() {
    let tasks = parse_tasks("Write spec | Rust | 3\nReview PR | Go\n");
    assert_eq!(tasks.len(), 2);
    assert_eq!(tasks[0].name, "Write spec");
    assert_eq!(tasks[0].language, "Rust");
    assert_eq!(tasks[0].completed_count, 3);
    assert_eq!(tasks[1].name, "Review PR");
    assert_eq!(tasks[1].language, "Go");
    assert_eq!(tasks[1].completed_count, 0);
}

#[test]
fn missing_language_is_unknown() {
    let t = parse_task_line("Solo");
    assert_eq!(t.name, "Solo");
    assert_eq!(t.language, "Unknown");
    assert_eq!(t.completed_count, 0);
    assert_eq!(t.state, Phase::Idle);
    assert_eq!(t.timer_start, None);
}

#[test]
fn unreadable_count_is_zero() {
    assert_eq!(parse_task_line("a | b | x1").completed_count, 0);
    assert_eq!(parse_task_line("a | b | ").completed_count, 0);
    assert_eq!(parse_task_line("a | b | 4294967296").completed_count, 0);
    assert_eq!(parse_task_line("a | b | 4294967295").completed_count, u32::MAX);
    assert_eq!(parse_task_line("a | b | +7").completed_count, 7);
    assert_eq!(parse_task_line("a | b | -7").completed_count, 0);
}

#[test]
fn trailing_whitespace_and_carriage_return_trimmed() {
    let tasks = parse_tasks("a | b | 12  \r\nc | d\r\n");
    assert_eq!(tasks[0].completed_count, 12);
    assert_eq!(tasks[1].language, "d");
}

#[test]
fn extra_fields_ignored() {
    let t = parse_task_line("a | b | 2 | extra");
    assert_eq!(t.language, "b");
    assert_eq!(t.completed_count, 2);
}

#[test]
fn empty_file_is_empty_store() {
    assert!(parse_tasks("").is_empty());
}

#[test]
fn last_line_without_line_feed() {
    let tasks = parse_tasks("a | b | 1\nc | d | 2");
    assert_eq!(tasks.len(), 2);
    assert_eq!(tasks[1].completed_count, 2);
}

#[test]
fn renders_lines() {
    let mut t = Task::new("Write spec".to_string(), "Rust".to_string());
    t.completed_count = 305;
    let u = Task::new("x".to_string(), "Go".to_string());
    assert_eq!(render_tasks(&vec![t, u]), "Write spec | Rust | 305\nx | Go | 0\n");
    assert_eq!(render_tasks(&Vec::new()), "");
}

#[test]
fn save_then_load_round_trip() {
    let mut a = Task::new("Write spec".to_string(), "Rust".to_string());
    a.completed_count = 42;
    a.start(99);
    let mut b = Task::new("Ünïcode task".to_string(), "日本語".to_string());
    b.completed_count = u32::MAX;
    let text = render_tasks(&vec![a, b]);
    let back = parse_tasks(&text);
    assert_eq!(back.len(), 2);
    assert_eq!(back[0].name, "Write spec");
    assert_eq!(back[0].language, "Rust");
    assert_eq!(back[0].completed_count, 42);
    assert_eq!(back[0].state, Phase::Idle);
    assert_eq!(back[0].timer_start, None);
    assert_eq!(back[1].name, "Ünïcode task");
    assert_eq!(back[1].language, "日本語");
    assert_eq!(back[1].completed_count, u32::MAX);
}
