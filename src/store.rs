//! An ordered list of tasks with one selected position.
use vstd::prelude::*;
use crate::pomodoro::{Task, TickOutcome, Overview, overview_of, empty_overview, next_timer};
use crate::text::{trimmed, trim_str};

verus! {

/// The tasks in display order and the index of the selected one.
pub struct TaskStore {
    tasks: Vec<Task>,
    selected: usize,
}

/// Where the selection goes when moved by `delta` in a list of `len`
/// entries: clamped to the list, zero when the list is empty.
pub open spec fn moved_index(selected: int, delta: int, len: int) -> int {
    if len == 0 {
        0
    } else if selected + delta < 0 {
        0
    } else if selected + delta >= len {
        len - 1
    } else {
        selected + delta
    }
}

/// Where the selection goes after a removal left `len` entries.
pub open spec fn reclamped(selected: int, len: int) -> int {
    if selected >= len && selected > 0 {
        selected - 1
    } else {
        selected
    }
}

impl TaskStore {
    pub closed spec fn tasks_view(&self) -> Seq<Task> {
        self.tasks@
    }

    pub closed spec fn selected_view(&self) -> int {
        self.selected as int
    }

    /// The selection points into the list, or is zero when the list is empty.
    pub open spec fn wf(&self) -> bool {
        &&& (self.tasks_view().len() == 0 ==> self.selected_view() == 0)
        &&& (self.tasks_view().len() > 0 ==> 0 <= self.selected_view()
            < self.tasks_view().len())
    }

    /// A store holding `tasks`, with the first one selected.
    pub fn from_tasks(tasks: Vec<Task>) -> (r: TaskStore)
        ensures
            r.wf(),
            r.tasks_view() == tasks@,
            r.selected_view() == 0,
    {
        TaskStore { tasks, selected: 0 }
    }

    /// An empty store.
    pub fn new() -> (r: TaskStore)
        ensures
            r.wf(),
            r.tasks_view().len() == 0,
            r.selected_view() == 0,
    {
        TaskStore { tasks: Vec::new(), selected: 0 }
    }

    pub fn len(&self) -> (r: usize)
        ensures
            r == self.tasks_view().len(),
    {
        self.tasks.len()
    }

    pub fn is_empty(&self) -> (r: bool)
        ensures
            r == (self.tasks_view().len() == 0),
    {
        self.tasks.len() == 0
    }

    pub fn selected_index(&self) -> (r: usize)
        ensures
            r == self.selected_view(),
    {
        self.selected
    }

    pub fn tasks(&self) -> (r: &Vec<Task>)
        ensures
            r@ == self.tasks_view(),
    {
        &self.tasks
    }

    /// The selected task, `None` exactly when the store is empty.
    pub fn selected(&self) -> (r: Option<&Task>)
        requires
            self.wf(),
        ensures
            self.tasks_view().len() == 0 ==> r.is_none(),
            self.tasks_view().len() > 0 ==> r == Some(&self.tasks_view()[self.selected_view()]),
    {
        if self.tasks.len() == 0 {
            None
        } else {
            Some(&self.tasks[self.selected])
        }
    }

    /// Appends a new idle task named `name` with label `language`, both
    /// trimmed of whitespace; refuses, changing nothing, when either trims to
    /// nothing.
    pub fn add(&mut self, name: &str, language: &str) -> (r: bool)
        requires
            old(self).wf(),
        ensures
            final(self).wf(),
            r == (trimmed(name@).len() > 0 && trimmed(language@).len() > 0),
            final(self).selected_view() == old(self).selected_view(),
            !r ==> final(self).tasks_view() == old(self).tasks_view(),
            r ==> {
                &&& final(self).tasks_view().len() == old(self).tasks_view().len() + 1
                &&& final(self).tasks_view().drop_last() == old(self).tasks_view()
                &&& final(self).tasks_view().last().name@ == trimmed(name@)
                &&& final(self).tasks_view().last().language@ == trimmed(language@)
                &&& final(self).tasks_view().last().state == crate::pomodoro::Phase::Idle
                &&& final(self).tasks_view().last().timer_start.is_none()
                &&& final(self).tasks_view().last().completed_count == 0
            },
    {
        let n = trim_str(name);
        let l = trim_str(language);
        if n.as_str().is_empty() || l.as_str().is_empty() {
            return false;
        }
        let t = Task::new(n, l);
        self.tasks.push(t);
        assert(self.tasks@.drop_last() == old(self).tasks@);
        true
    }

    /// Removes the task at `index`, keeping the order of the others, and
    /// pulls the selection back by one when it would point past the end.
    /// Refuses, changing nothing, when `index` is out of range.
    pub fn remove(&mut self, index: usize) -> (r: Option<Task>)
        requires
            old(self).wf(),
        ensures
            final(self).wf(),
            index >= old(self).tasks_view().len() ==> r.is_none() && *final(self) == *old(self),
            index < old(self).tasks_view().len() ==> {
                &&& r == Some(old(self).tasks_view()[index as int])
                &&& final(self).tasks_view() == old(self).tasks_view().remove(index as int)
                &&& final(self).selected_view() == reclamped(
                    old(self).selected_view(),
                    final(self).tasks_view().len() as int,
                )
            },
    {
        if index >= self.tasks.len() {
            return None;
        }
        let t = self.tasks.remove(index);
        if self.selected >= self.tasks.len() && self.selected > 0 {
            self.selected = self.selected - 1;
        }
        Some(t)
    }

    /// Moves the selection by `delta`, stopping at either end of the list.
    pub fn move_selection(&mut self, delta: i64)
        requires
            old(self).wf(),
        ensures
            final(self).wf(),
            final(self).tasks_view() == old(self).tasks_view(),
            final(self).selected_view() == moved_index(
                old(self).selected_view(),
                delta as int,
                old(self).tasks_view().len() as int,
            ),
    {
        let n = self.tasks.len();
        if n == 0 {
            return ;
        }
        let s = self.selected;
        if delta < 0 {
            let back: u64 = if delta == i64::MIN { (i64::MAX as u64) + 1 } else { (-delta) as u64 };
            if (s as u64) < back {
                self.selected = 0;
            } else {
                self.selected = (s as u64 - back) as usize;
            }
        } else {
            let fwd = delta as u64;
            let room = (n - 1 - s) as u64;
            if fwd >= room {
                self.selected = n - 1;
            } else {
                self.selected = (s as u64 + fwd) as usize;
            }
        }
    }

    /// Starts the timer of the selected task at `now`; returns whether there
    /// was one to start.
    pub fn start_selected(&mut self, now: u64) -> (r: bool)
        requires
            old(self).wf(),
        ensures
            final(self).wf(),
            r == (old(self).tasks_view().len() > 0),
            final(self).selected_view() == old(self).selected_view(),
            final(self).tasks_view().len() == old(self).tasks_view().len(),
            !r ==> *final(self) == *old(self),
            r ==> {
                let i = old(self).selected_view();
                let t = old(self).tasks_view()[i];
                let u = final(self).tasks_view()[i];
                &&& final(self).tasks_view() == old(self).tasks_view().update(i, u)
                &&& u.state == crate::pomodoro::Phase::Work
                &&& u.timer_start == Some(now)
                &&& u.completed_count == t.completed_count
                &&& u.name == t.name
                &&& u.language == t.language
            },
    {
        if self.tasks.len() == 0 {
            return false;
        }
        let i = self.selected;
        let mut t = self.tasks.remove(i);
        t.start(now);
        self.tasks.insert(i, t);
        assert(self.tasks@ =~= old(self).tasks@.update(i as int, self.tasks@[i as int]));
        true
    }

    /// Advances the timer of the selected task, and of no other.
    pub fn tick_selected(&mut self, now: u64) -> (r: TickOutcome)
        requires
            old(self).wf(),
        ensures
            final(self).wf(),
            final(self).selected_view() == old(self).selected_view(),
            final(self).tasks_view().len() == old(self).tasks_view().len(),
            old(self).tasks_view().len() == 0 ==> r == TickOutcome::Unchanged && *final(self)
                == *old(self),
            old(self).tasks_view().len() > 0 ==> {
                let i = old(self).selected_view();
                let t = old(self).tasks_view()[i];
                let u = final(self).tasks_view()[i];
                &&& final(self).tasks_view() == old(self).tasks_view().update(i, u)
                &&& (u.state, u.timer_start, u.completed_count, r) == next_timer(
                    t.state,
                    t.timer_start,
                    t.completed_count,
                    now,
                )
                &&& u.name == t.name
                &&& u.language == t.language
            },
    {
        if self.tasks.len() == 0 {
            return TickOutcome::Unchanged;
        }
        let i = self.selected;
        let mut t = self.tasks.remove(i);
        let r = t.tick(now);
        self.tasks.insert(i, t);
        assert(self.tasks@ =~= old(self).tasks@.update(i as int, self.tasks@[i as int]));
        r
    }

    /// The timer display for the selected task at `now`.
    pub fn overview(&self, now: u64) -> (r: Overview)
        requires
            self.wf(),
        ensures
            self.tasks_view().len() == 0 ==> r == empty_overview(),
            self.tasks_view().len() > 0 ==> r == overview_of(
                self.tasks_view()[self.selected_view()]@,
                now,
            ),
    {
        if self.tasks.len() == 0 {
            return Overview {
                phase: crate::pomodoro::OverviewPhase::NoTasks,
                remaining_ms: 0,
                done_ms: 0,
                total_ms: 0,
                color: crate::pomodoro::ColorHint::DarkGray,
            };
        }
        self.tasks[self.selected].remaining_and_progress(now)
    }
}

/// Removing the selected task from a non-empty store leaves the selection
/// inside the list, or the list empty.
pub proof fn lemma_remove_keeps_selection(selected: int, old_len: int)
    requires
        0 <= selected < old_len,
    ensures
        old_len - 1 == 0 || 0 <= reclamped(selected, old_len - 1) < old_len - 1,
{
}

/// Moving up from the first entry, or down from the last, stays put.
pub proof fn lemma_move_stops_at_ends(len: int)
    requires
        len > 0,
    ensures
        moved_index(0, -1, len) == 0,
        moved_index(len - 1, 1, len) == len - 1,
{
}

} // verus!
