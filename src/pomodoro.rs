//! A task and the Work / Break / Idle timer that each task carries.
//! Time is a monotonic clock reading in milliseconds.
use vstd::prelude::*;

verus! {

/// Length of a focus interval: 25 minutes.
pub const WORK_DURATION_MS: u64 = 1_500_000;

/// Length of a break: 5 minutes.
pub const BREAK_DURATION_MS: u64 = 300_000;

/// The phase of a task's timer.
#[derive(Clone, Copy, Debug, PartialEq, Eq, Structural)]
pub enum Phase {
    Idle,
    Work,
    Break,
}

/// A named task with a language label, its timer and the number of focus
/// intervals it has completed.
pub struct Task {
    pub name: String,
    pub language: String,
    pub state: Phase,
    pub timer_start: Option<u64>,
    pub completed_count: u32,
}

/// A task as a value: its text as characters.
pub struct TaskView {
    pub name: Seq<char>,
    pub language: Seq<char>,
    pub state: Phase,
    pub timer_start: Option<u64>,
    pub completed_count: u32,
}

impl View for Task {
    type V = TaskView;

    open spec fn view(&self) -> TaskView {
        TaskView {
            name: self.name@,
            language: self.language@,
            state: self.state,
            timer_start: self.timer_start,
            completed_count: self.completed_count,
        }
    }
}

/// The values of a sequence of tasks.
pub open spec fn task_views(tasks: Seq<Task>) -> Seq<TaskView> {
    tasks.map_values(|t: Task| t@)
}

/// What a tick did to a task.
#[derive(Clone, Copy, Debug, PartialEq, Eq, Structural)]
pub enum TickOutcome {
    Unchanged,
    WorkDone,
    BreakDone,
}

/// What the timer display shows.
#[derive(Clone, Copy, Debug, PartialEq, Eq, Structural)]
pub enum OverviewPhase {
    NoTasks,
    NotStarted,
    Paused,
    Focus,
    Break,
}

/// The colour that goes with a display phase.
#[derive(Clone, Copy, Debug, PartialEq, Eq, Structural)]
pub enum ColorHint {
    DarkGray,
    Gray,
    LightGreen,
    LightBlue,
}

/// The timer as displayed: the phase, the time left in it, and the progress
/// ratio `done_ms / total_ms` (zero where `total_ms` is zero).
#[derive(Clone, Copy, Debug, PartialEq, Eq, Structural)]
pub struct Overview {
    pub phase: OverviewPhase,
    pub remaining_ms: u64,
    pub done_ms: u64,
    pub total_ms: u64,
    pub color: ColorHint,
}

/// Time since `start`, zero where the clock reads earlier than `start`.
pub open spec fn elapsed(start: u64, now: u64) -> nat {
    if now >= start {
        (now - start) as nat
    } else {
        0
    }
}

pub open spec fn phase_duration(p: Phase) -> nat {
    match p {
        Phase::Work => WORK_DURATION_MS as nat,
        Phase::Break => BREAK_DURATION_MS as nat,
        Phase::Idle => 0,
    }
}

/// The overview of a task, as a function of the clock.
pub open spec fn overview_of(t: TaskView, now: u64) -> Overview {
    match t.timer_start {
        None => Overview {
            phase: OverviewPhase::NotStarted,
            remaining_ms: 0,
            done_ms: 0,
            total_ms: 0,
            color: ColorHint::Gray,
        },
        Some(start) => match t.state {
            Phase::Idle => Overview {
                phase: OverviewPhase::Paused,
                remaining_ms: 0,
                done_ms: 0,
                total_ms: 0,
                color: ColorHint::Gray,
            },
            _ => {
                let d = phase_duration(t.state);
                let e = elapsed(start, now);
                Overview {
                    phase: if t.state == Phase::Work {
                        OverviewPhase::Focus
                    } else {
                        OverviewPhase::Break
                    },
                    remaining_ms: (if e < d {
                        d - e
                    } else {
                        0
                    }) as u64,
                    done_ms: (if e < d {
                        e
                    } else {
                        d
                    }) as u64,
                    total_ms: d as u64,
                    color: if t.state == Phase::Work {
                        ColorHint::LightGreen
                    } else {
                        ColorHint::LightBlue
                    },
                }
            },
        },
    }
}

/// The overview shown when there is no task.
pub open spec fn empty_overview() -> Overview {
    Overview {
        phase: OverviewPhase::NoTasks,
        remaining_ms: 0,
        done_ms: 0,
        total_ms: 0,
        color: ColorHint::DarkGray,
    }
}

/// One step of the timer at `now`, from its phase, start and completed
/// count: the new phase, start and count, and what happened.
pub open spec fn next_timer(state: Phase, timer_start: Option<u64>, count: u32, now: u64) -> (
    Phase,
    Option<u64>,
    u32,
    TickOutcome,
) {
    match timer_start {
        Some(start) if state == Phase::Work && elapsed(start, now) >= WORK_DURATION_MS => (
            Phase::Break,
            Some(now),
            if count < u32::MAX {
                (count + 1) as u32
            } else {
                u32::MAX
            },
            TickOutcome::WorkDone,
        ),
        Some(start) if state == Phase::Break && elapsed(start, now) >= BREAK_DURATION_MS => (
            Phase::Idle,
            None,
            count,
            TickOutcome::BreakDone,
        ),
        _ => (state, timer_start, count, TickOutcome::Unchanged),
    }
}

impl Task {
    /// The timer runs exactly when the task is not idle.
    pub open spec fn wf(&self) -> bool {
        (self.state == Phase::Idle) <==> self.timer_start.is_none()
    }

    /// A new idle task with no completed intervals.
    pub fn new(name: String, language: String) -> (r: Task)
        ensures
            r.name@ == name@,
            r.language@ == language@,
            r.state == Phase::Idle,
            r.timer_start.is_none(),
            r.completed_count == 0,
            r.wf(),
    {
        Task { name, language, state: Phase::Idle, timer_start: None, completed_count: 0 }
    }

    /// Moves the task into `Work` and restarts its clock, whatever its phase.
    pub fn start(&mut self, now: u64)
        ensures
            final(self).state == Phase::Work,
            final(self).timer_start == Some(now),
            final(self).completed_count == old(self).completed_count,
            final(self).name == old(self).name,
            final(self).language == old(self).language,
            final(self).wf(),
    {
        self.state = Phase::Work;
        self.timer_start = Some(now);
    }

    /// Advances the timer: `Work` becomes `Break` once the focus interval has
    /// run out (counting one more completed interval, up to `u32::MAX`),
    /// `Break` becomes `Idle` once the break has run out; nothing else changes.
    pub fn tick(&mut self, now: u64) -> (r: TickOutcome)
        ensures
            final(self).name == old(self).name,
            final(self).language == old(self).language,
            old(self).wf() ==> final(self).wf(),
            (final(self).state, final(self).timer_start, final(self).completed_count, r)
                == next_timer(old(self).state, old(self).timer_start, old(self).completed_count, now),
    {
        match self.timer_start {
            Some(start) => {
                let e: u64 = if now >= start { now - start } else { 0 };
                match self.state {
                    Phase::Work => {
                        if e >= WORK_DURATION_MS {
                            self.state = Phase::Break;
                            self.timer_start = Some(now);
                            self.completed_count = self.completed_count.saturating_add(1);
                            return TickOutcome::WorkDone;
                        }
                    },
                    Phase::Break => {
                        if e >= BREAK_DURATION_MS {
                            self.state = Phase::Idle;
                            self.timer_start = None;
                            return TickOutcome::BreakDone;
                        }
                    },
                    Phase::Idle => {},
                }
                TickOutcome::Unchanged
            },
            None => TickOutcome::Unchanged,
        }
    }

    /// The phase, time left and progress of the task's timer at `now`; the
    /// time left stops at zero and the progress at the full interval.
    pub fn remaining_and_progress(&self, now: u64) -> (r: Overview)
        ensures
            r == overview_of(self@, now),
    {
        match self.timer_start {
            None => Overview {
                phase: OverviewPhase::NotStarted,
                remaining_ms: 0,
                done_ms: 0,
                total_ms: 0,
                color: ColorHint::Gray,
            },
            Some(start) => {
                let e: u64 = if now >= start { now - start } else { 0 };
                let (phase, d, color) = match self.state {
                    Phase::Work => (OverviewPhase::Focus, WORK_DURATION_MS, ColorHint::LightGreen),
                    Phase::Break => (OverviewPhase::Break, BREAK_DURATION_MS, ColorHint::LightBlue),
                    Phase::Idle => {
                        return Overview {
                            phase: OverviewPhase::Paused,
                            remaining_ms: 0,
                            done_ms: 0,
                            total_ms: 0,
                            color: ColorHint::Gray,
                        };
                    },
                };
                let remaining_ms: u64 = if e < d { d - e } else { 0 };
                let done_ms: u64 = if e < d { e } else { d };
                Overview { phase, remaining_ms, done_ms, total_ms: d, color }
            },
        }
    }
}

/// Starting a task and reading its timer at once shows a focus interval
/// with no progress and the whole interval left.
pub proof fn lemma_start_then_overview(t: TaskView, now: u64)
    ensures
        ({
            let o = overview_of(TaskView { state: Phase::Work, timer_start: Some(now), ..t }, now);
            &&& o.phase == OverviewPhase::Focus
            &&& o.done_ms == 0
            &&& o.remaining_ms == WORK_DURATION_MS
            &&& o.total_ms == WORK_DURATION_MS
        }),
{
}

/// A focus interval whose full length has passed ends at the next tick, with
/// one more completed interval; a second tick before the break has run out
/// changes nothing.
pub proof fn lemma_work_ends_once(start: u64, count: u32, now: u64, later: u64)
    requires
        now == start + WORK_DURATION_MS,
        count < u32::MAX,
        now <= later,
        later < now + BREAK_DURATION_MS,
    ensures
        next_timer(Phase::Work, Some(start), count, now) == (
            Phase::Break,
            Some(now),
            (count + 1) as u32,
            TickOutcome::WorkDone,
        ),
        next_timer(Phase::Break, Some(now), (count + 1) as u32, later) == (
            Phase::Break,
            Some(now),
            (count + 1) as u32,
            TickOutcome::Unchanged,
        ),
{
}

} // verus!
