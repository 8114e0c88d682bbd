use focus_todo::pomodoro::{
    ColorHint, OverviewPhase, Phase, Task, TickOutcome, BREAK_DURATION_MS, WORK_DURATION_MS,
};
use focus_todo::store::TaskStore;

fn task() -> Task {
    Task::new("Write spec".to_string(), "Rust".to_string())
}

#[test]
fn start_then_overview_shows_no_progress() {
    let mut t = task();
    t.start(10_000);
    let o = t.remaining_and_progress(10_000);
    assert_eq!(o.phase, OverviewPhase::Focus);
    assert_eq!(o.done_ms, 0);
    assert_eq!(o.total_ms, WORK_DURATION_MS);
    assert_eq!(o.remaining_ms, 1_500_000);
    assert_eq!(o.color, ColorHint::LightGreen);
}

#[test]
fn work_ends_exactly_at_duration() {
    let mut t = task();
    t.start(1_000);
    let now = 1_000 + WORK_DURATION_MS;
    assert_eq!(t.tick(now - 1), TickOutcome::Unchanged);
    assert_eq!(t.state, Phase::Work);
    assert_eq!(t.tick(now), TickOutcome::WorkDone);
    assert_eq!(t.state, Phase::Break);
    assert_eq!(t.timer_start, Some(now));
    assert_eq!(t.completed_count, 1);
    assert_eq!(t.tick(now + BREAK_DURATION_MS - 1), TickOutcome::Unchanged);
    assert_eq!(t.state, Phase::Break);
    assert_eq!(t.completed_count, 1);
}

#[test]
fn break_ends_in_idle() {
    let mut t = task();
    t.start(0);
    t.tick(WORK_DURATION_MS);
    assert_eq!(t.tick(WORK_DURATION_MS + 300_000), TickOutcome::BreakDone);
    assert_eq!(t.state, Phase::Idle);
    assert_eq!(t.timer_start, None);
    assert_eq!(t.completed_count, 1);
}

#[test]
fn tick_on_idle_task_does_nothing() {
    let mut t = task();
    assert_eq!(t.tick(u64::MAX), TickOutcome::Unchanged);
    assert_eq!(t.state, Phase::Idle);
    assert_eq!(t.completed_count, 0);
}

#[test]
fn restart_resets_clock_and_keeps_count() {
    let mut t = task();
    t.start(0);
    t.tick(WORK_DURATION_MS);
    t.start(2_000_000);
    assert_eq!(t.state, Phase::Work);
    assert_eq!(t.timer_start, Some(2_000_000));
    assert_eq!(t.completed_count, 1);
}

#[test]
fn count_stops_at_u32_max() {
    let mut t = task();
    t.completed_count = u32::MAX;
    t.start(0);
    t.tick(WORK_DURATION_MS);
    assert_eq!(t.completed_count, u32::MAX);
}

#[test]
fn overview_midway_and_overdue() {
    let mut t = task();
    t.start(0);
    let o = t.remaining_and_progress(60_000);
    assert_eq!(o.remaining_ms, 1_440_000);
    assert_eq!(o.done_ms, 60_000);
    let late = t.remaining_and_progress(2_000_000);
    assert_eq!(late.remaining_ms, 0);
    assert_eq!(late.done_ms, late.total_ms);
    let early = t.remaining_and_progress(0);
    assert_eq!(early.done_ms, 0);
}

#[test]
fn overview_of_break_and_idle() {
    let mut t = task();
    let idle = t.remaining_and_progress(5);
    assert_eq!(idle.phase, OverviewPhase::NotStarted);
    assert_eq!(idle.done_ms, 0);
    assert_eq!(idle.color, ColorHint::Gray);
    t.start(0);
    t.tick(WORK_DURATION_MS);
    let b = t.remaining_and_progress(WORK_DURATION_MS + 100_000);
    assert_eq!(b.phase, OverviewPhase::Break);
    assert_eq!(b.remaining_ms, 200_000);
    assert_eq!(b.total_ms, BREAK_DURATION_MS);
    assert_eq!(b.color, ColorHint::LightBlue);
    t.state = Phase::Idle;
    assert_eq!(t.remaining_and_progress(0).phase, OverviewPhase::Paused);
}

#[test]
fn store_ticks_only_the_selected_task() {
    let mut s = TaskStore::new();
    s.add("a", "Rust");
    s.add("b", "Go");
    assert!(s.start_selected(0));
    s.move_selection(1);
    assert!(s.start_selected(0));
    assert_eq!(s.tick_selected(WORK_DURATION_MS), TickOutcome::WorkDone);
    assert_eq!(s.tasks()[0].state, Phase::Work);
    assert_eq!(s.tasks()[1].state, Phase::Break);
}

#[test]
fn empty_store_overview_and_tick() {
    let mut s = TaskStore::new();
    assert!(!s.start_selected(0));
    assert_eq!(s.tick_selected(0), TickOutcome::Unchanged);
    let o = s.overview(0);
    assert_eq!(o.phase, OverviewPhase::NoTasks);
    assert_eq!(o.color, ColorHint::DarkGray);
}
