//! The list-navigation state machine: a cursor over the catalog — none,
//! or an index in range — and the total transition function that every
//! keypress drives.

use vstd::prelude::*;

use crate::catalog::Catalog;

verus! {

/// A navigation transition over the catalog.
#[derive(Clone, Copy, Debug, PartialEq, Eq)]
pub enum NavInput {
    Deselect,
    Next,
    Previous,
    First,
    Last,
}

/// A cursor that is either nothing or a valid index into a catalog of
/// `n` entries. An empty catalog admits only the empty cursor.
pub open spec fn cursor_ok(c: Option<int>, n: int) -> bool {
    match c {
        None => true,
        Some(i) => 0 <= i < n,
    }
}

/// What one transition does to the cursor, over a catalog of `n`
/// entries. Total: defined for every cursor and every `n`, the empty
/// catalog too. Stepping never wraps around: `Next` saturates at the last
/// index, `Previous` at the first.
pub open spec fn nav_step(c: Option<int>, t: NavInput, n: int) -> Option<int> {
    match t {
        NavInput::Deselect => None,
        NavInput::Next => match c {
            None => if n > 0 {
                Some(0)
            } else {
                None
            },
            Some(i) => Some(if i + 1 < n {
                i + 1
            } else {
                n - 1
            }),
        },
        NavInput::Previous => match c {
            None => if n > 0 {
                Some(n - 1)
            } else {
                None
            },
            Some(i) => Some(if i > 0 {
                i - 1
            } else {
                0
            }),
        },
        NavInput::First => if n > 0 {
            Some(0)
        } else {
            None
        },
        NavInput::Last => if n > 0 {
            Some(n - 1)
        } else {
            None
        },
    }
}

/// The cursor after a whole sequence of transitions, applied in order.
pub open spec fn nav_run(c: Option<int>, inputs: Seq<NavInput>, n: int) -> Option<int>
    decreases inputs.len(),
{
    if inputs.len() == 0 {
        c
    } else {
        nav_run(nav_step(c, inputs[0], n), inputs.skip(1), n)
    }
}

/// One transition keeps the cursor in bounds: from nothing or a valid
/// index it reaches nothing or a valid index, never a dangling one.
pub proof fn lemma_nav_step_in_bounds(c: Option<int>, t: NavInput, n: int)
    requires
        cursor_ok(c, n),
    ensures
        cursor_ok(nav_step(c, t, n), n),
{
}

/// Selection stays in bounds under any sequence of transitions — and on
/// an empty catalog the cursor stays empty throughout.
pub proof fn lemma_nav_run_in_bounds(c: Option<int>, inputs: Seq<NavInput>, n: int)
    requires
        cursor_ok(c, n),
    ensures
        cursor_ok(nav_run(c, inputs, n), n),
    decreases inputs.len(),
{
    if inputs.len() > 0 {
        lemma_nav_run_in_bounds(nav_step(c, inputs[0], n), inputs.skip(1), n);
    }
}

/// No wraparound: `Next` at the last index stays at the last index, and
/// `Previous` at the first index stays at the first.
pub proof fn lemma_nav_saturates(n: int)
    requires
        n > 0,
    ensures
        nav_step(Some(n - 1), NavInput::Next, n) == Some(n - 1),
        nav_step(Some(0), NavInput::Previous, n) == Some(0int),
{
}

/// Deselect/reselect round trip: `First`, then `Deselect`, then `Next`
/// lands on the first entry, whatever the cursor held before.
pub proof fn lemma_deselect_reselect(c: Option<int>, n: int)
    requires
        n > 0,
    ensures
        nav_step(
            nav_step(nav_step(c, NavInput::First, n), NavInput::Deselect, n),
            NavInput::Next,
            n,
        ) == Some(0int),
{
}

/// Empty catalog safety: with no entries, every transition leaves the
/// cursor empty.
pub proof fn lemma_empty_catalog_stays_deselected(c: Option<int>, t: NavInput)
    requires
        cursor_ok(c, 0),
    ensures
        nav_step(c, t, 0) == None::<int>,
{
}

/// The current cursor position over the catalog, `None` meaning nothing
/// selected.
#[derive(Clone, Copy, Debug, PartialEq, Eq)]
pub struct SelectionState {
    pub cursor: Option<usize>,
}

impl View for SelectionState {
    type V = Option<int>;

    open spec fn view(&self) -> Option<int> {
        match self.cursor {
            None => None,
            Some(i) => Some(i as int),
        }
    }
}

impl SelectionState {
    /// The initial state: nothing selected.
    pub fn new() -> (s: SelectionState)
        ensures
            s@ == None::<int>,
    {
        SelectionState { cursor: None }
    }

    /// Drop the selection.
    pub fn select_none(&mut self, n: usize)
        ensures
            final(self)@ == nav_step(old(self)@, NavInput::Deselect, n as int),
    {
        self.cursor = None;
    }

    /// Step down the list; from nothing, enter it at the top.
    pub fn select_next(&mut self, n: usize)
        requires
            cursor_ok(old(self)@, n as int),
        ensures
            final(self)@ == nav_step(old(self)@, NavInput::Next, n as int),
    {
        self.cursor = match self.cursor {
            None => if n > 0 {
                Some(0)
            } else {
                None
            },
            Some(i) => Some(if i + 1 < n {
                i + 1
            } else {
                n - 1
            }),
        };
    }

    /// Step up the list; from nothing, enter it at the bottom.
    pub fn select_previous(&mut self, n: usize)
        requires
            cursor_ok(old(self)@, n as int),
        ensures
            final(self)@ == nav_step(old(self)@, NavInput::Previous, n as int),
    {
        self.cursor = match self.cursor {
            None => if n > 0 {
                Some(n - 1)
            } else {
                None
            },
            Some(i) => Some(if i > 0 {
                i - 1
            } else {
                0
            }),
        };
    }

    /// Jump to the top of the list.
    pub fn select_first(&mut self, n: usize)
        ensures
            final(self)@ == nav_step(old(self)@, NavInput::First, n as int),
    {
        self.cursor = if n > 0 {
            Some(0)
        } else {
            None
        };
    }

    /// Jump to the bottom of the list.
    pub fn select_last(&mut self, n: usize)
        ensures
            final(self)@ == nav_step(old(self)@, NavInput::Last, n as int),
    {
        self.cursor = if n > 0 {
            Some(n - 1)
        } else {
            None
        };
    }

    /// Apply one navigation transition.
    pub fn apply(&mut self, t: NavInput, n: usize)
        requires
            cursor_ok(old(self)@, n as int),
        ensures
            final(self)@ == nav_step(old(self)@, t, n as int),
    {
        match t {
            NavInput::Deselect => self.select_none(n),
            NavInput::Next => self.select_next(n),
            NavInput::Previous => self.select_previous(n),
            NavInput::First => self.select_first(n),
            NavInput::Last => self.select_last(n),
        }
    }
}

/// A terminal key, reduced to what navigation reads. Anything the state
/// machine does not recognize arrives as `Other`.
#[derive(Clone, Copy, Debug, PartialEq, Eq)]
pub enum Key {
    Char(char),
    Left,
    Right,
    Up,
    Down,
    Home,
    End,
    Esc,
    Other,
}

/// How a key event was reported. Only a press is actionable; release and
/// repeat reports are dropped, so a terminal that reports both press and
/// release does not double-step.
#[derive(Clone, Copy, Debug, PartialEq, Eq)]
pub enum KeyEventKind {
    Press,
    Release,
    Repeat,
}

/// One terminal key event.
#[derive(Clone, Copy, Debug, PartialEq, Eq)]
pub struct KeyEvent {
    pub kind: KeyEventKind,
    pub key: Key,
}

/// What a key event asks of the application.
#[derive(Clone, Copy, Debug, PartialEq, Eq)]
pub enum KeyAction {
    Exit,
    Nav(NavInput),
    Ignore,
}

/// The key binding: which action each key event produces. Every event
/// that is not a press, and every unbound key, produces no transition.
pub open spec fn key_action(e: KeyEvent) -> KeyAction {
    if e.kind != KeyEventKind::Press {
        KeyAction::Ignore
    } else {
        match e.key {
            Key::Char(c) => if c == 'q' {
                KeyAction::Exit
            } else if c == 'h' {
                KeyAction::Nav(NavInput::Deselect)
            } else if c == 'j' {
                KeyAction::Nav(NavInput::Next)
            } else if c == 'k' {
                KeyAction::Nav(NavInput::Previous)
            } else if c == 'g' {
                KeyAction::Nav(NavInput::First)
            } else if c == 'G' {
                KeyAction::Nav(NavInput::Last)
            } else {
                KeyAction::Ignore
            },
            Key::Esc => KeyAction::Exit,
            Key::Left => KeyAction::Nav(NavInput::Deselect),
            Key::Down => KeyAction::Nav(NavInput::Next),
            Key::Up => KeyAction::Nav(NavInput::Previous),
            Key::Home => KeyAction::Nav(NavInput::First),
            Key::End => KeyAction::Nav(NavInput::Last),
            _ => KeyAction::Ignore,
        }
    }
}

/// The interactive application: the immutable catalog, the cursor over
/// it, and the stop flag the event loop checks once per iteration.
pub struct App {
    pub catalog: Catalog,
    pub selection: SelectionState,
    pub should_exit: bool,
}

impl App {
    /// The selection invariant: no dangling cursor, ever.
    pub open spec fn wf(self) -> bool {
        cursor_ok(self.selection@, self.catalog@.len() as int)
    }

    /// Start over a loaded catalog with nothing selected.
    pub fn new(catalog: Catalog) -> (app: App)
        ensures
            app.wf(),
            app.catalog == catalog,
            app.selection@ == None::<int>,
            !app.should_exit,
    {
        App { catalog, selection: SelectionState::new(), should_exit: false }
    }

    /// Feed one terminal key event through the key binding: an exit key
    /// raises the stop flag, a bound navigation key steps the cursor, and
    /// everything else — releases, repeats, unbound keys — changes
    /// nothing. The catalog is never touched.
    pub fn handle_key(&mut self, event: KeyEvent)
        requires
            old(self).wf(),
        ensures
            final(self).wf(),
            final(self).catalog == old(self).catalog,
            match key_action(event) {
                KeyAction::Exit => final(self).should_exit
                    && final(self).selection == old(self).selection,
                KeyAction::Nav(t) => final(self).should_exit == old(self).should_exit
                    && final(self).selection@ == nav_step(
                        old(self).selection@,
                        t,
                        old(self).catalog@.len() as int,
                    ),
                KeyAction::Ignore => *final(self) == *old(self),
            },
    {
        if !matches!(event.kind, KeyEventKind::Press) {
            return ;
        }
        let n = self.catalog.len();
        match event.key {
            Key::Char(c) => {
                if c == 'q' {
                    self.should_exit = true;
                } else if c == 'h' {
                    self.selection.select_none(n);
                } else if c == 'j' {
                    self.selection.select_next(n);
                } else if c == 'k' {
                    self.selection.select_previous(n);
                } else if c == 'g' {
                    self.selection.select_first(n);
                } else if c == 'G' {
                    self.selection.select_last(n);
                }
            },
            Key::Esc => {
                self.should_exit = true;
            },
            Key::Left => {
                self.selection.select_none(n);
            },
            Key::Down => {
                self.selection.select_next(n);
            },
            Key::Up => {
                self.selection.select_previous(n);
            },
            Key::Home => {
                self.selection.select_first(n);
            },
            Key::End => {
                self.selection.select_last(n);
            },
            _ => {},
        }
    }
}

} // verus!
