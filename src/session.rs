//! The session: the task store, the task-creation wizard and its text
//! buffers, and the transient status line, driven one key or tick at a time.
use vstd::prelude::*;
use crate::pomodoro::{Task, TaskView, task_views, Phase, TickOutcome, Overview, next_timer};
use crate::store::{TaskStore, moved_index, reclamped};
use crate::text::{trimmed, string_of, joined};

verus! {

/// How long a status message stays visible: 4 seconds.
pub const MESSAGE_VISIBLE_MS: u64 = 4_000;

/// Which text buffer, if any, receives typed characters.
#[derive(Clone, Copy, Debug, PartialEq, Eq, Structural)]
pub enum InputMode {
    Task,
    Language,
    NoTyping,
}

/// A key press, as far as the session tells keys apart.
#[derive(Clone, Copy, Debug, PartialEq, Eq, Structural)]
pub enum Key {
    Char(char),
    Esc,
    Enter,
    Backspace,
    Delete,
    Up,
    Down,
    Other,
}

/// What the caller has to do after a key: nothing, write the store out, or end.
#[derive(Clone, Copy, Debug, PartialEq, Eq, Structural)]
pub enum Effect {
    Nothing,
    Persist,
    Quit,
}

/// The session as a value.
pub struct SessionView {
    pub tasks: Seq<TaskView>,
    pub selected: int,
    pub mode: InputMode,
    pub task_buffer: Seq<char>,
    pub language_buffer: Seq<char>,
    pub status: Option<(Seq<char>, u64)>,
}

/// The session state.
pub struct App {
    store: TaskStore,
    input: Vec<char>,
    language_input: Vec<char>,
    input_mode: InputMode,
    status: Option<(String, u64)>,
}

pub open spec fn started_text(name: Seq<char>) -> Seq<char> {
    "Started focus on '"@ + name + "'. Stay sharp!"@
}

pub open spec fn work_done_text(name: Seq<char>) -> Seq<char> {
    "Work session done! Take a break, "@ + name + "."@
}

pub open spec fn removed_text(name: Seq<char>) -> Seq<char> {
    "Removed '"@ + name + "'."@
}

pub open spec fn break_done_text() -> Seq<char> {
    "Break finished. Ready for another round?"@
}

pub open spec fn cancelled_text() -> Seq<char> {
    "Creation cancelled."@
}

pub open spec fn added_text() -> Seq<char> {
    "New task added. Ready to focus!"@
}

pub open spec fn save_failed_text() -> Seq<char> {
    "Could not save the task list."@
}

/// A typed character goes to the buffer of the current mode.
pub open spec fn after_char(v: SessionView, c: char) -> SessionView {
    match v.mode {
        InputMode::Task => SessionView { task_buffer: v.task_buffer.push(c), ..v },
        InputMode::Language => SessionView { language_buffer: v.language_buffer.push(c), ..v },
        InputMode::NoTyping => v,
    }
}

/// Backspace drops the last character of the buffer of the current mode.
pub open spec fn after_backspace(v: SessionView) -> SessionView {
    match v.mode {
        InputMode::Task if v.task_buffer.len() > 0 => SessionView {
            task_buffer: v.task_buffer.drop_last(),
            ..v
        },
        InputMode::Language if v.language_buffer.len() > 0 => SessionView {
            language_buffer: v.language_buffer.drop_last(),
            ..v
        },
        _ => v,
    }
}

/// Escape abandons task creation.
pub open spec fn after_cancel(v: SessionView, now: u64) -> SessionView {
    SessionView {
        mode: InputMode::NoTyping,
        task_buffer: Seq::empty(),
        language_buffer: Seq::empty(),
        status: Some((cancelled_text(), now)),
        ..v
    }
}

/// The task that the wizard creates from its buffers.
pub open spec fn created_task(name: Seq<char>, language: Seq<char>) -> TaskView {
    TaskView {
        name: trimmed(name),
        language: trimmed(language),
        state: Phase::Idle,
        timer_start: None,
        completed_count: 0,
    }
}

/// Enter advances the wizard: a name that is not blank moves on to the
/// language; a language that is not blank (with a name that is not blank)
/// creates the task.
pub open spec fn after_enter(v: SessionView, now: u64) -> (SessionView, Effect) {
    match v.mode {
        InputMode::Task => if trimmed(v.task_buffer).len() > 0 {
            (SessionView { mode: InputMode::Language, ..v }, Effect::Nothing)
        } else {
            (v, Effect::Nothing)
        },
        InputMode::Language => if trimmed(v.task_buffer).len() > 0 && trimmed(
            v.language_buffer,
        ).len() > 0 {
            (
                SessionView {
                    tasks: v.tasks.push(created_task(v.task_buffer, v.language_buffer)),
                    mode: InputMode::NoTyping,
                    task_buffer: Seq::empty(),
                    language_buffer: Seq::empty(),
                    status: Some((added_text(), now)),
                    ..v
                },
                Effect::Persist,
            )
        } else {
            (v, Effect::Nothing)
        },
        InputMode::NoTyping => (v, Effect::Nothing),
    }
}

/// Starting the timer of the selected task.
pub open spec fn after_start(v: SessionView, now: u64) -> SessionView {
    if v.tasks.len() == 0 {
        v
    } else {
        let t = v.tasks[v.selected];
        SessionView {
            tasks: v.tasks.update(
                v.selected,
                TaskView { state: Phase::Work, timer_start: Some(now), ..t },
            ),
            status: Some((started_text(t.name), now)),
            ..v
        }
    }
}

/// One tick of the selected task's timer.
pub open spec fn after_tick(v: SessionView, now: u64) -> SessionView {
    if v.tasks.len() == 0 {
        v
    } else {
        let t = v.tasks[v.selected];
        let (state, timer_start, completed_count, outcome) = next_timer(
            t.state,
            t.timer_start,
            t.completed_count,
            now,
        );
        let tasks = v.tasks.update(
            v.selected,
            TaskView { state, timer_start, completed_count, ..t },
        );
        match outcome {
            TickOutcome::WorkDone => SessionView {
                tasks,
                status: Some((work_done_text(t.name), now)),
                ..v
            },
            TickOutcome::BreakDone => SessionView {
                tasks,
                status: Some((break_done_text(), now)),
                ..v
            },
            TickOutcome::Unchanged => v,
        }
    }
}

/// Deleting the selected task.
pub open spec fn after_delete(v: SessionView, now: u64) -> (SessionView, Effect) {
    if v.tasks.len() == 0 {
        (v, Effect::Nothing)
    } else {
        let tasks = v.tasks.remove(v.selected);
        (
            SessionView {
                tasks,
                selected: reclamped(v.selected, tasks.len() as int),
                status: Some((removed_text(v.tasks[v.selected].name), now)),
                ..v
            },
            Effect::Persist,
        )
    }
}

/// Moving the selection.
pub open spec fn after_move(v: SessionView, delta: int) -> SessionView {
    SessionView { selected: moved_index(v.selected, delta, v.tasks.len() as int), ..v }
}

/// What a key does. While typing, every character goes to the text buffer;
/// otherwise `q` quits, `p` starts the timer and `i` begins a new task.
pub open spec fn step(v: SessionView, key: Key, now: u64) -> (SessionView, Effect) {
    match key {
        Key::Char(c) => if v.mode != InputMode::NoTyping {
            (after_char(v, c), Effect::Nothing)
        } else if c == 'q' {
            (v, Effect::Quit)
        } else if c == 'p' {
            (after_start(v, now), Effect::Nothing)
        } else if c == 'i' {
            (SessionView { mode: InputMode::Task, ..v }, Effect::Nothing)
        } else {
            (v, Effect::Nothing)
        },
        Key::Esc => (after_cancel(v, now), Effect::Nothing),
        Key::Enter => after_enter(v, now),
        Key::Backspace => (after_backspace(v), Effect::Nothing),
        Key::Delete => after_delete(v, now),
        Key::Up => (after_move(v, -1), Effect::Nothing),
        Key::Down => (after_move(v, 1), Effect::Nothing),
        Key::Other => (v, Effect::Nothing),
    }
}

/// Whether a message set at `set_at` is still shown at `now`.
pub open spec fn message_visible(set_at: u64, now: u64) -> bool {
    crate::pomodoro::elapsed(set_at, now) < MESSAGE_VISIBLE_MS
}

impl View for App {
    type V = SessionView;

    closed spec fn view(&self) -> SessionView {
        SessionView {
            tasks: task_views(self.store.tasks_view()),
            selected: self.store.selected_view(),
            mode: self.input_mode,
            task_buffer: self.input@,
            language_buffer: self.language_input@,
            status: match self.status {
                Some((m, t)) => Some((m@, t)),
                None => None,
            },
        }
    }
}

impl App {
    pub closed spec fn wf(&self) -> bool {
        self.store.wf()
    }

    /// The selection points into the list, or is zero when it is empty.
    pub open spec fn selection_valid(v: SessionView) -> bool {
        &&& (v.tasks.len() == 0 ==> v.selected == 0)
        &&& (v.tasks.len() > 0 ==> 0 <= v.selected < v.tasks.len())
    }

    /// A session over the loaded `tasks`: first task selected, not typing,
    /// no message.
    pub fn new(tasks: Vec<Task>) -> (r: App)
        ensures
            r.wf(),
            r@.tasks == task_views(tasks@),
            r@.selected == 0,
            r@.mode == InputMode::NoTyping,
            r@.task_buffer.len() == 0,
            r@.language_buffer.len() == 0,
            r@.status.is_none(),
    {
        App {
            store: TaskStore::from_tasks(tasks),
            input: Vec::new(),
            language_input: Vec::new(),
            input_mode: InputMode::NoTyping,
            status: None,
        }
    }

    pub proof fn lemma_wf_selection(&self)
        requires
            self.wf(),
        ensures
            Self::selection_valid(self@),
    {
    }

    pub fn store(&self) -> (r: &TaskStore)
        requires
            self.wf(),
        ensures
            r.wf(),
            task_views(r.tasks_view()) == self@.tasks,
            r.selected_view() == self@.selected,
    {
        &self.store
    }

    pub fn input_mode(&self) -> (r: InputMode)
        ensures
            r == self@.mode,
    {
        self.input_mode
    }

    /// The name typed so far.
    pub fn task_input(&self) -> (r: String)
        ensures
            r@ == self@.task_buffer,
    {
        string_of(&self.input)
    }

    /// The language typed so far.
    pub fn language_input(&self) -> (r: String)
        ensures
            r@ == self@.language_buffer,
    {
        string_of(&self.language_input)
    }

    /// The timer display for the selected task at `now`.
    pub fn pomodoro_overview(&self, now: u64) -> (r: Overview)
        requires
            self.wf(),
        ensures
            self@.tasks.len() == 0 ==> r == crate::pomodoro::empty_overview(),
            self@.tasks.len() > 0 ==> r == crate::pomodoro::overview_of(
                self@.tasks[self@.selected],
                now,
            ),
    {
        self.store.overview(now)
    }

    /// Appends `c` to the buffer being typed into, if any.
    pub fn handle_input(&mut self, c: char)
        requires
            old(self).wf(),
        ensures
            final(self).wf(),
            final(self)@ == after_char(old(self)@, c),
    {
        match self.input_mode {
            InputMode::Task => self.input.push(c),
            InputMode::Language => self.language_input.push(c),
            InputMode::NoTyping => {},
        }
    }

    /// Drops the last character of the buffer being typed into, if any.
    pub fn handle_backspace(&mut self)
        requires
            old(self).wf(),
        ensures
            final(self).wf(),
            final(self)@ == after_backspace(old(self)@),
    {
        match self.input_mode {
            InputMode::Task => {
                if self.input.len() > 0 {
                    self.input.pop();
                }
            },
            InputMode::Language => {
                if self.language_input.len() > 0 {
                    self.language_input.pop();
                }
            },
            InputMode::NoTyping => {},
        }
    }

    /// Escape: leaves typing and clears both buffers, with a message.
    pub fn cancel_input(&mut self, now: u64)
        requires
            old(self).wf(),
        ensures
            final(self).wf(),
            final(self)@ == after_cancel(old(self)@, now),
    {
        self.input_mode = InputMode::NoTyping;
        self.input.clear();
        self.language_input.clear();
        self.status = Some((cancelled_message(), now));
        assert(self@.task_buffer =~= Seq::empty());
        assert(self@.language_buffer =~= Seq::empty());
    }

    /// Enter: moves the wizard on, or creates the task; returns whether the
    /// store changed.
    pub fn confirm_input(&mut self, now: u64) -> (r: Effect)
        requires
            old(self).wf(),
        ensures
            final(self).wf(),
            (final(self)@, r) == after_enter(old(self)@, now),
    {
        match self.input_mode {
            InputMode::Task => {
                let t = crate::text::trim_chars(&self.input);
                if t.len() > 0 {
                    self.input_mode = InputMode::Language;
                }
                Effect::Nothing
            },
            InputMode::Language => {
                let name = string_of(&self.input);
                let language = string_of(&self.language_input);
                let ghost before = self.store.tasks_view();
                if self.store.add(name.as_str(), language.as_str()) {
                    proof {
                        let after = self.store.tasks_view();
                        assert(task_views(after) =~= task_views(before).push(
                            created_task(old(self)@.task_buffer, old(self)@.language_buffer),
                        )) by {
                            assert(after.drop_last() == before);
                            assert forall|i: int| 0 <= i < before.len() implies after[i] == before[i] by {
                                assert(after.drop_last()[i] == after[i]);
                            }
                        }
                    }
                    self.input.clear();
                    self.language_input.clear();
                    self.input_mode = InputMode::NoTyping;
                    self.status = Some((added_message(), now));
                    Effect::Persist
                } else {
                    Effect::Nothing
                }
            },
            InputMode::NoTyping => Effect::Nothing,
        }
    }

    /// Starts the timer of the selected task, with a message naming it; does
    /// nothing when there is no task.
    pub fn start_pomodoro(&mut self, now: u64)
        requires
            old(self).wf(),
        ensures
            final(self).wf(),
            final(self)@ == after_start(old(self)@, now),
    {
        match self.store.selected() {
            None => {},
            Some(t) => {
                let msg = joined("Started focus on '", t.name.as_str(), "'. Stay sharp!");
                let ghost before = self.store.tasks_view();
                let ghost i = self.store.selected_view();
                self.store.start_selected(now);
                proof {
                    let after = self.store.tasks_view();
                    assert(task_views(after) =~= task_views(before).update(
                        i,
                        TaskView { state: Phase::Work, timer_start: Some(now), ..before[i]@ },
                    ));
                }
                self.status = Some((msg, now));
            },
        }
    }

    /// Advances the timer of the selected task, and of no other; a change of
    /// phase comes with a message.
    pub fn update_pomodoro(&mut self, now: u64)
        requires
            old(self).wf(),
        ensures
            final(self).wf(),
            final(self)@ == after_tick(old(self)@, now),
    {
        let ghost before = self.store.tasks_view();
        let ghost i = self.store.selected_view();
        let outcome = self.store.tick_selected(now);
        if self.store.is_empty() {
            return ;
        }
        proof {
            let after = self.store.tasks_view();
            let u = after[i];
            assert(task_views(after) =~= task_views(before).update(i, u@));
            if outcome == TickOutcome::Unchanged {
                assert(u@ == before[i]@);
                assert(task_views(before).update(i, u@) =~= task_views(before));
            }
        }
        match outcome {
            TickOutcome::WorkDone => {
                let t = &self.store.tasks()[self.store.selected_index()];
                let msg = joined("Work session done! Take a break, ", t.name.as_str(), ".");
                self.status = Some((msg, now));
            },
            TickOutcome::BreakDone => {
                self.status = Some((break_done_message(), now));
            },
            TickOutcome::Unchanged => {},
        }
    }

    /// Removes the selected task, with a message naming it; the selection
    /// stays inside the list. Returns whether the store changed.
    pub fn delete_selected(&mut self, now: u64) -> (r: Effect)
        requires
            old(self).wf(),
        ensures
            final(self).wf(),
            (final(self)@, r) == after_delete(old(self)@, now),
    {
        let ghost before = self.store.tasks_view();
        let i = self.store.selected_index();
        match self.store.remove(i) {
            None => Effect::Nothing,
            Some(t) => {
                proof {
                    let after = self.store.tasks_view();
                    assert(task_views(after) =~= task_views(before).remove(i as int));
                }
                let msg = joined("Removed '", t.name.as_str(), "'.");
                self.status = Some((msg, now));
                Effect::Persist
            },
        }
    }

    /// Moves the selection by `delta`, stopping at either end.
    pub fn move_selection(&mut self, delta: i64)
        requires
            old(self).wf(),
        ensures
            final(self).wf(),
            final(self)@ == after_move(old(self)@, delta as int),
    {
        self.store.move_selection(delta);
    }

    /// The status message while it is visible; once it has expired it is
    /// cleared and `None` is returned.
    pub fn status_message(&mut self, now: u64) -> (r: Option<String>)
        requires
            old(self).wf(),
        ensures
            final(self).wf(),
            match old(self)@.status {
                Some((m, t)) if message_visible(t, now) => {
                    &&& r.is_some()
                    &&& r.unwrap()@ == m
                    &&& final(self)@ == old(self)@
                },
                _ => {
                    &&& r.is_none()
                    &&& final(self)@ == SessionView { status: None, ..old(self)@ }
                },
            },
    {
        match &self.status {
            Some((m, t)) => {
                let e: u64 = if now >= *t { now - *t } else { 0 };
                if e < MESSAGE_VISIBLE_MS {
                    return Some(m.clone());
                }
            },
            None => {},
        }
        self.status = None;
        None
    }

    /// Reports that writing the task list out failed; nothing else changes.
    pub fn report_save_failure(&mut self, now: u64)
        requires
            old(self).wf(),
        ensures
            final(self).wf(),
            final(self)@ == (SessionView { status: Some((save_failed_text(), now)), ..old(self)@ }),
    {
        self.status = Some((save_failed_message(), now));
    }

    /// Applies one key press; see `step`.
    pub fn handle_key(&mut self, key: Key, now: u64) -> (r: Effect)
        requires
            old(self).wf(),
        ensures
            final(self).wf(),
            (final(self)@, r) == step(old(self)@, key, now),
    {
        match key {
            Key::Char(c) => {
                if self.input_mode != InputMode::NoTyping {
                    self.handle_input(c);
                    Effect::Nothing
                } else if c == 'q' {
                    Effect::Quit
                } else if c == 'p' {
                    self.start_pomodoro(now);
                    Effect::Nothing
                } else if c == 'i' {
                    self.input_mode = InputMode::Task;
                    Effect::Nothing
                } else {
                    Effect::Nothing
                }
            },
            Key::Esc => {
                self.cancel_input(now);
                Effect::Nothing
            },
            Key::Enter => self.confirm_input(now),
            Key::Backspace => {
                self.handle_backspace();
                Effect::Nothing
            },
            Key::Delete => self.delete_selected(now),
            Key::Up => {
                self.move_selection(-1);
                Effect::Nothing
            },
            Key::Down => {
                self.move_selection(1);
                Effect::Nothing
            },
            Key::Other => Effect::Nothing,
        }
    }
}

/// Deleting the selected task of a session with a valid selection leaves
/// the selection valid.
pub proof fn lemma_delete_keeps_selection_valid(v: SessionView, now: u64)
    requires
        App::selection_valid(v),
    ensures
        App::selection_valid(after_delete(v, now).0),
{
}

/// Confirming a blank language creates no task and stays in language entry.
pub proof fn lemma_blank_language_rejected(v: SessionView, now: u64)
    requires
        v.mode == InputMode::Language,
        trimmed(v.language_buffer).len() == 0,
    ensures
        step(v, Key::Enter, now) == (v, Effect::Nothing),
{
}

/// A status message set at `set_at` is visible up to, and not including,
/// `set_at` plus the visibility window, and never again once it has expired.
pub proof fn lemma_message_window(set_at: u64, now: u64, later: u64)
    requires
        set_at <= now <= later,
    ensures
        message_visible(set_at, now) <==> now < set_at + MESSAGE_VISIBLE_MS,
        !message_visible(set_at, now) ==> !message_visible(set_at, later),
{
}

/// The message shown after a task was added.
fn added_message() -> (r: String)
    ensures
        r@ == added_text(),
{
    let r = crate::text::chars_of("New task added. Ready to focus!");
    string_of(&r)
}

/// The message shown when task creation is abandoned.
fn cancelled_message() -> (r: String)
    ensures
        r@ == cancelled_text(),
{
    let r = crate::text::chars_of("Creation cancelled.");
    string_of(&r)
}

/// The message shown when the task list could not be written.
fn save_failed_message() -> (r: String)
    ensures
        r@ == save_failed_text(),
{
    let r = crate::text::chars_of("Could not save the task list.");
    string_of(&r)
}

/// The message shown after a break.
fn break_done_message() -> (r: String)
    ensures
        r@ == break_done_text(),
{
    let r = crate::text::chars_of("Break finished. Ready for another round?");
    string_of(&r)
}

} // verus!
