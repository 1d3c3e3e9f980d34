//! The dashboard's state and its event-dispatch step.
//!
//! One `App` value owns everything the view reads: the current snapshot of
//! active builds, the refresh interval, the table selection, the pane
//! layout and the running flag. The surrounding loop renders the state,
//! waits for the next event off one merged stream, and hands it to `step`;
//! the returned action tells the loop what to do beyond rendering —
//! re-arm the refresh cycle, emit a quit event, or nothing.

use vstd::prelude::*;

use crate::ps::Build;
use crate::ps::Output;
use crate::ps::find_by_nix_pid;
use crate::ps::position_of_nix_pid;

verus! {

/// The floor of the refresh interval, in milliseconds.
pub const MIN_REFRESH_MS: u64 = 100;

/// One step of an interval adjustment, in milliseconds.
pub const INTERVAL_STEP_MS: u64 = 100;

/// The refresh interval a fresh state starts with, in milliseconds.
pub const DEFAULT_REFRESH_MS: u64 = 2000;

/// A key, reduced to what the dashboard reads.
#[derive(Debug, Clone, Copy, PartialEq, Eq, Structural)]
pub enum KeyCode {
    /// A printable character.
    Char(char),
    /// The up arrow.
    Up,
    /// The down arrow.
    Down,
    /// The escape key.
    Esc,
    /// Any other key; ignored.
    Other,
}

/// One key press, with its modifier state.
#[derive(Debug, Clone, Copy, PartialEq, Eq, Structural)]
pub struct KeyEvent {
    /// Which key was pressed.
    pub code: KeyCode,
    /// Whether control — and control alone — was held.
    pub ctrl: bool,
}

/// Terminal input, reduced to what the dispatch reads.
#[derive(Debug, Clone, Copy, PartialEq, Eq, Structural)]
pub enum InputEvent {
    /// A key was pressed.
    KeyPress(KeyEvent),
    /// Anything else — a release, a resize; dispatch ignores it and the
    /// loop simply renders again.
    Other,
}

/// A failed fetch. Its cause is opaque to the dashboard: the prior
/// snapshot is kept and the cycle goes on.
#[derive(Debug, Clone, Copy, PartialEq, Eq, Structural)]
pub struct FetchError;

/// An application-internal event.
#[derive(Debug)]
pub enum AppEvent {
    /// A refresh completed, carrying the new snapshot or a failure.
    Refresh(Result<Output, FetchError>),
    /// The application should stop.
    Quit,
}

/// One event off the merged stream.
#[derive(Debug)]
pub enum Event {
    /// From the terminal.
    Terminal(InputEvent),
    /// From the application's own tasks.
    App(AppEvent),
}

/// Which way the two panes are laid out.
#[derive(Debug, Clone, Copy, PartialEq, Eq, Structural)]
pub enum Direction {
    /// Side by side.
    Horizontal,
    /// Stacked.
    Vertical,
}

/// What the surrounding loop must do after one dispatch step, beyond
/// rendering.
#[derive(Debug, Clone, Copy, PartialEq, Eq, Structural)]
pub enum Action {
    /// Nothing; render and wait for the next event.
    Continue,
    /// Arm the next refresh cycle: wait the current interval, fetch, and
    /// send the completion back as a `Refresh` event.
    ScheduleRefresh,
    /// Send a `Quit` event into the stream.
    EmitQuit,
}

/// The dashboard's whole state.
#[derive(Debug)]
pub struct App {
    /// Cleared by a quit event; the loop exits once it is false.
    pub running: bool,
    /// Milliseconds between a refresh's completion and the next fetch.
    pub refresh_interval: u64,
    /// The current snapshot of active builds.
    pub active_builds: Vec<Build>,
    /// The selected row of the builds table, when any.
    pub selection: Option<usize>,
    /// The pane layout.
    pub direction: Direction,
}

/// The interval after one decrease press: one step down, except that a
/// step which would land under the floor leaves the interval unchanged.
pub open spec fn dec_interval(ms: u64) -> u64 {
    if ms >= MIN_REFRESH_MS + INTERVAL_STEP_MS {
        (ms - INTERVAL_STEP_MS) as u64
    } else {
        ms
    }
}

/// The interval after one increase press: one step up, saturating at the
/// top of the range; there is no ceiling below that.
pub open spec fn inc_interval(ms: u64) -> u64 {
    if ms + INTERVAL_STEP_MS <= u64::MAX {
        (ms + INTERVAL_STEP_MS) as u64
    } else {
        u64::MAX
    }
}

/// The selection after one step up: the previous row, stopping at the
/// first; from no selection, the last row; none when the list is empty.
pub open spec fn selection_previous(sel: Option<usize>, len: nat) -> Option<usize> {
    if len == 0 {
        Option::None
    } else {
        match sel {
            Option::Some(i) => Option::Some(
                if i > 0 {
                    (i - 1) as usize
                } else {
                    0usize
                },
            ),
            Option::None => Option::Some((len - 1) as usize),
        }
    }
}

/// The selection after one step down: the next row, stopping at the last;
/// from no selection, the first row; none when the list is empty.
pub open spec fn selection_next(sel: Option<usize>, len: nat) -> Option<usize> {
    if len == 0 {
        Option::None
    } else {
        match sel {
            Option::Some(i) => Option::Some(
                if i + 1 < len {
                    (i + 1) as usize
                } else {
                    (len - 1) as usize
                },
            ),
            Option::None => Option::Some(0usize),
        }
    }
}

/// The other pane layout.
pub open spec fn flipped(d: Direction) -> Direction {
    match d {
        Direction::Horizontal => Direction::Vertical,
        Direction::Vertical => Direction::Horizontal,
    }
}

/// What one key press does: the state after it, and whether a quit event
/// must be emitted. Control matters only for the quit chord; every other
/// binding acts on the bare character.
pub open spec fn key_transition(s: App, key: KeyEvent) -> (App, bool) {
    match key.code {
        KeyCode::Char(c) => if c == '-' {
            (App { refresh_interval: dec_interval(s.refresh_interval), ..s }, false)
        } else if c == '=' || c == '+' {
            (App { refresh_interval: inc_interval(s.refresh_interval), ..s }, false)
        } else if c == 'k' {
            (
                App {
                    selection: selection_previous(s.selection, s.active_builds@.len()),
                    ..s
                },
                false,
            )
        } else if c == 'j' {
            (App { selection: selection_next(s.selection, s.active_builds@.len()), ..s }, false)
        } else if c == '/' {
            (App { direction: flipped(s.direction), ..s }, false)
        } else if c == 'q' {
            (s, true)
        } else if (c == 'c' || c == 'C') && key.ctrl {
            (s, true)
        } else {
            (s, false)
        },
        KeyCode::Up => (
            App { selection: selection_previous(s.selection, s.active_builds@.len()), ..s },
            false,
        ),
        KeyCode::Down => (
            App { selection: selection_next(s.selection, s.active_builds@.len()), ..s },
            false,
        ),
        KeyCode::Esc => (App { selection: Option::None, ..s }, false),
        KeyCode::Other => (s, false),
    }
}

/// The selection carried across a snapshot replacement: the new index of
/// the build with the previously selected identity, or none when that
/// identity is gone.
pub open spec fn reconciled_selection(
    prev_builds: Seq<Build>,
    prev_sel: Option<usize>,
    new_builds: Seq<Build>,
) -> Option<usize> {
    match prev_sel {
        Option::Some(i) => if i < prev_builds.len() {
            match find_by_nix_pid(new_builds, prev_builds[i as int].nix_pid) {
                Option::Some(j) => Option::Some(j as usize),
                Option::None => Option::None,
            }
        } else {
            Option::None
        },
        Option::None => Option::None,
    }
}

/// What one refresh completion does: a successful fetch replaces the
/// snapshot wholesale and the selection follows the selected identity; a
/// failed fetch leaves the state untouched.
pub open spec fn refresh_transition(s: App, output: Result<Output, FetchError>) -> App {
    match output {
        Result::Ok(builds) => App {
            active_builds: builds,
            selection: reconciled_selection(s.active_builds@, s.selection, builds@),
            ..s
        },
        Result::Err(_) => s,
    }
}

/// What one event does: the state after it and the action asked of the
/// loop. A key press may ask for a quit emission; a refresh completion
/// always re-arms the cycle; a quit event clears the running flag and asks
/// for nothing more.
pub open spec fn step_transition(s: App, event: Event) -> (App, Action) {
    match event {
        Event::Terminal(input) => match input {
            InputEvent::KeyPress(k) => {
                let r = key_transition(s, k);
                (
                    r.0,
                    if r.1 {
                        Action::EmitQuit
                    } else {
                        Action::Continue
                    },
                )
            },
            InputEvent::Other => (s, Action::Continue),
        },
        Event::App(app_event) => match app_event {
            AppEvent::Refresh(output) => (refresh_transition(s, output), Action::ScheduleRefresh),
            AppEvent::Quit => (App { running: false, ..s }, Action::Continue),
        },
    }
}

impl App {
    /// The state's invariant: the interval respects its floor and a
    /// selection points into the builds list.
    pub open spec fn wf(self) -> bool {
        &&& self.refresh_interval >= MIN_REFRESH_MS
        &&& match self.selection {
            Option::Some(i) => i < self.active_builds@.len(),
            Option::None => true,
        }
    }

    /// A fresh state: running, an empty snapshot, the default interval,
    /// nothing selected, panes stacked.
    pub fn new() -> (r: App)
        ensures
            r.wf(),
            r.running,
            r.refresh_interval == DEFAULT_REFRESH_MS,
            r.active_builds@.len() == 0,
            r.selection is None,
            r.direction == Direction::Vertical,
    {
        App {
            running: true,
            refresh_interval: DEFAULT_REFRESH_MS,
            active_builds: Vec::new(),
            selection: Option::None,
            direction: Direction::Vertical,
        }
    }

    /// Applies one key press and says whether a quit event must be
    /// emitted.
    pub fn handle_key_events(&mut self, key_event: KeyEvent) -> (emit_quit: bool)
        requires
            old(self).wf(),
        ensures
            final(self).wf(),
            *final(self) == key_transition(*old(self), key_event).0,
            emit_quit == key_transition(*old(self), key_event).1,
    {
        match key_event.code {
            KeyCode::Char('-') => {
                if self.refresh_interval >= MIN_REFRESH_MS + INTERVAL_STEP_MS {
                    self.refresh_interval = self.refresh_interval - INTERVAL_STEP_MS;
                }
                false
            },
            KeyCode::Char('=') | KeyCode::Char('+') => {
                if self.refresh_interval <= u64::MAX - INTERVAL_STEP_MS {
                    self.refresh_interval = self.refresh_interval + INTERVAL_STEP_MS;
                } else {
                    self.refresh_interval = u64::MAX;
                }
                false
            },
            KeyCode::Up | KeyCode::Char('k') => {
                self.select_previous();
                false
            },
            KeyCode::Down | KeyCode::Char('j') => {
                self.select_next();
                false
            },
            KeyCode::Esc => {
                self.selection = Option::None;
                false
            },
            KeyCode::Char('/') => {
                self.direction = match self.direction {
                    Direction::Horizontal => Direction::Vertical,
                    Direction::Vertical => Direction::Horizontal,
                };
                false
            },
            KeyCode::Char('q') => true,
            KeyCode::Char('c') | KeyCode::Char('C') => key_event.ctrl,
            _ => false,
        }
    }

    /// Moves the selection one row up; from none, to the last row.
    pub fn select_previous(&mut self)
        requires
            old(self).wf(),
        ensures
            final(self).wf(),
            *final(self) == (App {
                selection: selection_previous(old(self).selection, old(self).active_builds@.len()),
                ..*old(self)
            }),
    {
        let len = self.active_builds.len();
        self.selection = if len == 0 {
            Option::None
        } else {
            match self.selection {
                Option::Some(i) => Option::Some(
                    if i > 0 {
                        i - 1
                    } else {
                        0
                    },
                ),
                Option::None => Option::Some(len - 1),
            }
        };
    }

    /// Moves the selection one row down; from none, to the first row.
    pub fn select_next(&mut self)
        requires
            old(self).wf(),
        ensures
            final(self).wf(),
            *final(self) == (App {
                selection: selection_next(old(self).selection, old(self).active_builds@.len()),
                ..*old(self)
            }),
    {
        let len = self.active_builds.len();
        self.selection = if len == 0 {
            Option::None
        } else {
            match self.selection {
                Option::Some(i) => Option::Some(
                    if i + 1 < len {
                        i + 1
                    } else {
                        len - 1
                    },
                ),
                Option::None => Option::Some(0),
            }
        };
    }

    /// Applies one refresh completion: a successful fetch replaces the
    /// snapshot and the selection follows the selected build's identity; a
    /// failed fetch leaves everything as it was.
    pub fn refresh(&mut self, output: Result<Output, FetchError>)
        requires
            old(self).wf(),
        ensures
            final(self).wf(),
            *final(self) == refresh_transition(*old(self), output),
    {
        match output {
            Result::Ok(builds) => {
                let prev_pid: Option<usize> = match self.selection {
                    Option::Some(i) => if i < self.active_builds.len() {
                        Option::Some(self.active_builds[i].nix_pid)
                    } else {
                        Option::None
                    },
                    Option::None => Option::None,
                };
                self.active_builds = builds;
                self.selection = match prev_pid {
                    Option::Some(pid) => position_of_nix_pid(&self.active_builds, pid),
                    Option::None => Option::None,
                };
            },
            Result::Err(_) => {},
        }
    }

    /// Dispatches one event and says what the loop must do beyond
    /// rendering.
    pub fn step(&mut self, event: Event) -> (action: Action)
        requires
            old(self).wf(),
        ensures
            final(self).wf(),
            *final(self) == step_transition(*old(self), event).0,
            action == step_transition(*old(self), event).1,
    {
        match event {
            Event::Terminal(input) => match input {
                InputEvent::KeyPress(k) => {
                    let emit_quit = self.handle_key_events(k);
                    if emit_quit {
                        Action::EmitQuit
                    } else {
                        Action::Continue
                    }
                },
                InputEvent::Other => Action::Continue,
            },
            Event::App(app_event) => match app_event {
                AppEvent::Refresh(output) => {
                    self.refresh(output);
                    Action::ScheduleRefresh
                },
                AppEvent::Quit => {
                    self.running = false;
                    Action::Continue
                },
            },
        }
    }

    /// The selected build, when one is selected.
    pub fn selected_build(&self) -> (r: Option<&Build>)
        requires
            self.wf(),
        ensures
            match self.selection {
                Option::Some(i) => match r {
                    Option::Some(b) => *b == self.active_builds@[i as int],
                    Option::None => false,
                },
                Option::None => r is None,
            },
    {
        match self.selection {
            Option::Some(i) => Option::Some(&self.active_builds[i]),
            Option::None => Option::None,
        }
    }
}

} // verus!
