use focus_todo::pomodoro::{Phase, Task, WORK_DURATION_MS};
use focus_todo::session::{App, Effect, InputMode, Key};

fn type_text(app: &mut App, s: &str) {
    for c in s.chars() {
        assert_eq!(app.handle_key(Key::Char(c), 0), Effect::Nothing);
    }
}

fn with_task(name: &str) -> App {
    App::new(vec![Task::new(name.to_string(), "Rust".to_string())])
}

#[test]
fn wizard_creates_task() {
    let mut app = App::new(Vec::new());
    app.handle_key(Key::Char('i'), 0);
    assert_eq!(app.input_mode(), InputMode::Task);
    type_text(&mut app, "Review PR");
    assert_eq!(app.handle_key(Key::Enter, 0), Effect::Nothing);
    assert_eq!(app.input_mode(), InputMode::Language);
    type_text(&mut app, "Go");
    assert_eq!(app.handle_key(Key::Enter, 7), Effect::Persist);
    assert_eq!(app.input_mode(), InputMode::NoTyping);
    assert_eq!(app.task_input(), "");
    assert_eq!(app.language_input(), "");
    let t = &app.store().tasks()[0];
    assert_eq!(t.name, "Review PR");
    assert_eq!(t.language, "Go");
    assert_eq!(app.status_message(7), Some("New task added. Ready to focus!".to_string()));
}

#[test]
fn blank_language_does_not_create_task() {
    let mut app = App::new(Vec::new());
    app.handle_key(Key::Char('i'), 0);
    type_text(&mut app, "Task");
    app.handle_key(Key::Enter, 0);
    type_text(&mut app, "  ");
    assert_eq!(app.handle_key(Key::Enter, 0), Effect::Nothing);
    assert_eq!(app.input_mode(), InputMode::Language);
    assert!(app.store().is_empty());
}

#[test]
fn blank_name_does_not_advance() {
    let mut app = App::new(Vec::new());
    app.handle_key(Key::Char('i'), 0);
    app.handle_key(Key::Enter, 0);
    assert_eq!(app.input_mode(), InputMode::Task);
}

#[test]
fn command_letters_are_text_while_typing() {
    let mut app = App::new(Vec::new());
    app.handle_key(Key::Char('i'), 0);
    type_text(&mut app, "ipq");
    assert_eq!(app.task_input(), "ipq");
    assert_eq!(app.input_mode(), InputMode::Task);
}

#[test]
fn backspace_and_escape() {
    let mut app = App::new(Vec::new());
    app.handle_key(Key::Char('i'), 0);
    type_text(&mut app, "ab");
    app.handle_key(Key::Backspace, 0);
    assert_eq!(app.task_input(), "a");
    app.handle_key(Key::Backspace, 0);
    app.handle_key(Key::Backspace, 0);
    assert_eq!(app.task_input(), "");
    type_text(&mut app, "x");
    app.handle_key(Key::Esc, 100);
    assert_eq!(app.input_mode(), InputMode::NoTyping);
    assert_eq!(app.task_input(), "");
    assert_eq!(app.status_message(100), Some("Creation cancelled.".to_string()));
}

#[test]
fn characters_ignored_when_not_typing() {
    let mut app = App::new(Vec::new());
    app.handle_input('z');
    app.handle_key(Key::Char('z'), 0);
    assert_eq!(app.task_input(), "");
    assert_eq!(app.language_input(), "");
}

#[test]
fn q_quits_when_not_typing() {
    let mut app = App::new(Vec::new());
    assert_eq!(app.handle_key(Key::Char('q'), 0), Effect::Quit);
}

#[test]
fn p_starts_selected_timer_with_message() {
    let mut app = with_task("Write spec");
    assert_eq!(app.handle_key(Key::Char('p'), 50), Effect::Nothing);
    let t = &app.store().tasks()[0];
    assert_eq!(t.state, Phase::Work);
    assert_eq!(t.timer_start, Some(50));
    assert_eq!(
        app.status_message(50),
        Some("Started focus on 'Write spec'. Stay sharp!".to_string())
    );
    let o = app.pomodoro_overview(50);
    assert_eq!(o.done_ms, 0);
}

#[test]
fn start_on_empty_session_does_nothing() {
    let mut app = App::new(Vec::new());
    app.start_pomodoro(5);
    assert_eq!(app.status_message(5), None);
}

#[test]
fn tick_messages() {
    let mut app = with_task("Write spec");
    app.start_pomodoro(0);
    app.update_pomodoro(WORK_DURATION_MS);
    assert_eq!(
        app.status_message(WORK_DURATION_MS),
        Some("Work session done! Take a break, Write spec.".to_string())
    );
    assert_eq!(app.store().tasks()[0].completed_count, 1);
    app.update_pomodoro(WORK_DURATION_MS + 300_000);
    assert_eq!(
        app.status_message(WORK_DURATION_MS + 300_000),
        Some("Break finished. Ready for another round?".to_string())
    );
}

#[test]
fn status_message_expires_after_four_seconds() {
    let mut app = with_task("a");
    app.start_pomodoro(10_000);
    assert!(app.status_message(10_000).is_some());
    assert!(app.status_message(13_999).is_some());
    assert_eq!(app.status_message(14_000), None);
    assert_eq!(app.status_message(10_000), None);
}

#[test]
fn delete_removes_selected_and_reports() {
    let mut app = App::new(vec![
        Task::new("a".to_string(), "Rust".to_string()),
        Task::new("b".to_string(), "Go".to_string()),
    ]);
    app.handle_key(Key::Down, 0);
    assert_eq!(app.handle_key(Key::Delete, 3), Effect::Persist);
    assert_eq!(app.store().len(), 1);
    assert_eq!(app.store().selected_index(), 0);
    assert_eq!(app.status_message(3), Some("Removed 'b'.".to_string()));
    app.handle_key(Key::Delete, 3);
    assert!(app.store().is_empty());
    assert_eq!(app.handle_key(Key::Delete, 3), Effect::Nothing);
}

#[test]
fn arrows_move_selection_clamped() {
    let mut app = App::new(vec![
        Task::new("a".to_string(), "Rust".to_string()),
        Task::new("b".to_string(), "Go".to_string()),
    ]);
    app.handle_key(Key::Up, 0);
    assert_eq!(app.store().selected_index(), 0);
    app.handle_key(Key::Down, 0);
    app.handle_key(Key::Down, 0);
    assert_eq!(app.store().selected_index(), 1);
}

#[test]
fn save_failure_is_reported() {
    let mut app = with_task("a");
    app.report_save_failure(20);
    assert_eq!(app.status_message(20), Some("Could not save the task list.".to_string()));
    assert_eq!(app.store().len(), 1);
}
