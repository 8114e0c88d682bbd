use focus_todo::pomodoro::{Phase, Task};
use focus_todo::store::TaskStore;
use focus_todo::text::trim_str;

fn store_of(names: &[&str]) -> TaskStore {
    let mut s = TaskStore::new();
    for n in names {
        assert!(s.add(n, "Rust"));
    }
    s
}

#[test]
fn add_trims_name_and_language() {
    let mut s = TaskStore::new();
    assert!(s.add("  Write spec  ", "\tRust \n"));
    assert_eq!(s.len(), 1);
    let t = &s.tasks()[0];
    assert_eq!(t.name, "Write spec");
    assert_eq!(t.language, "Rust");
    assert_eq!(t.state, Phase::Idle);
    assert_eq!(t.timer_start, None);
    assert_eq!(t.completed_count, 0);
}

#[test]
fn add_rejects_blank_fields() {
    let mut s = TaskStore::new();
    assert!(!s.add("   ", "Rust"));
    assert!(!s.add("Task", ""));
    assert!(!s.add("Task", " \t "));
    assert!(s.is_empty());
}

#[test]
fn trim_removes_unicode_whitespace_at_both_ends() {
    assert_eq!(trim_str("\u{3000} a b \u{2003}"), "a b");
    assert_eq!(trim_str("   "), "");
    assert_eq!(trim_str("x"), "x");
}

#[test]
fn remove_last_selected_pulls_selection_back() {
    let mut s = store_of(&["a", "b", "c"]);
    s.move_selection(2);
    assert_eq!(s.selected_index(), 2);
    let removed = s.remove(2).unwrap();
    assert_eq!(removed.name, "c");
    assert_eq!(s.selected_index(), 1);
    assert!(s.selected_index() < s.len());
    assert_eq!(s.selected().unwrap().name, "b");
}

#[test]
fn remove_keeps_order_of_the_rest() {
    let mut s = store_of(&["a", "b", "c"]);
    s.remove(0).unwrap();
    let names: Vec<&str> = s.tasks().iter().map(|t| t.name.as_str()).collect();
    assert_eq!(names, vec!["b", "c"]);
    assert_eq!(s.selected_index(), 0);
}

#[test]
fn remove_only_task_empties_store() {
    let mut s = store_of(&["a"]);
    assert!(s.remove(0).is_some());
    assert!(s.is_empty());
    assert_eq!(s.selected_index(), 0);
    assert!(s.selected().is_none());
}

#[test]
fn remove_from_empty_store_is_refused() {
    let mut s = TaskStore::new();
    assert!(s.remove(0).is_none());
    let mut s = store_of(&["a"]);
    assert!(s.remove(1).is_none());
    assert_eq!(s.len(), 1);
}

#[test]
fn move_selection_stops_at_both_ends() {
    let mut s = store_of(&["a", "b", "c"]);
    s.move_selection(-1);
    assert_eq!(s.selected_index(), 0);
    s.move_selection(1);
    s.move_selection(1);
    assert_eq!(s.selected_index(), 2);
    s.move_selection(1);
    assert_eq!(s.selected_index(), 2);
    s.move_selection(i64::MIN);
    assert_eq!(s.selected_index(), 0);
    s.move_selection(i64::MAX);
    assert_eq!(s.selected_index(), 2);
}

#[test]
fn move_selection_on_empty_store_stays_zero() {
    let mut s = TaskStore::new();
    s.move_selection(1);
    assert_eq!(s.selected_index(), 0);
    assert!(s.selected().is_none());
}

#[test]
fn from_tasks_selects_first() {
    let s = TaskStore::from_tasks(vec![
        Task::new("x".to_string(), "Go".to_string()),
        Task::new("y".to_string(), "C".to_string()),
    ]);
    assert_eq!(s.selected_index(), 0);
    assert_eq!(s.selected().unwrap().name, "x");
}
