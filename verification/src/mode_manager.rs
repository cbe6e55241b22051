//! Editing modes and the manager that moves between them.

use vstd::prelude::*;
use crate::key::KeyEvent;
use crate::state_machine::FSM;

verus! {

/// Editor states.
#[derive(Copy, Debug)]
pub enum State {
    NormalMode,
    InsertMode,
    VisualMode,
    CommandLineMode,
}

impl Clone for State {
    fn clone(&self) -> (r: Self)
        ensures
            r == *self,
    {
        *self
    }
}

impl PartialEq for State {
    fn eq(&self, other: &Self) -> (r: bool) {
        match (self, other) {
            (State::NormalMode, State::NormalMode) => true,
            (State::InsertMode, State::InsertMode) => true,
            (State::VisualMode, State::VisualMode) => true,
            (State::CommandLineMode, State::CommandLineMode) => true,
            _ => false,
        }
    }
}

impl vstd::std_specs::cmp::PartialEqSpecImpl for State {
    open spec fn obeys_eq_spec() -> bool {
        true
    }

    open spec fn eq_spec(&self, other: &Self) -> bool {
        *self == *other
    }
}

/// The editor's fixed transition table, oldest registration first.
pub open spec fn wiring() -> Seq<(State, KeyEvent, State)> {
    seq![
        (State::InsertMode, KeyEvent::Esc, State::NormalMode),
        (State::VisualMode, KeyEvent::Esc, State::NormalMode),
        (State::CommandLineMode, KeyEvent::Esc, State::NormalMode),
        (State::NormalMode, KeyEvent::Char('v'), State::VisualMode),
        (State::NormalMode, KeyEvent::Char('i'), State::InsertMode),
        (State::NormalMode, KeyEvent::Char(':'), State::CommandLineMode),
    ]
}

/// The mode change the fixed table prescribes for `(m, k)`: `None` when
/// the pair is absent from the table.
pub open spec fn mode_transition(m: State, k: KeyEvent) -> Option<State> {
    match (m, k) {
        (State::InsertMode, KeyEvent::Esc) => Some(State::NormalMode),
        (State::VisualMode, KeyEvent::Esc) => Some(State::NormalMode),
        (State::CommandLineMode, KeyEvent::Esc) => Some(State::NormalMode),
        (State::NormalMode, KeyEvent::Char(c)) => if c == 'v' {
            Some(State::VisualMode)
        } else if c == 'i' {
            Some(State::InsertMode)
        } else if c == ':' {
            Some(State::CommandLineMode)
        } else {
            None
        },
        _ => None,
    }
}

/// The mode after `k` arrives in mode `m`: the table's target, or `m`
/// unchanged when `(m, k)` is absent.
pub open spec fn apply_transition(m: State, k: KeyEvent) -> State {
    match mode_transition(m, k) {
        Some(t) => t,
        None => m,
    }
}

/// Looking any `(m, k)` up in the fixed wiring agrees with
/// `mode_transition`; in particular every pair absent from the table
/// yields `None`.
pub proof fn lemma_wiring_lookup(m: State, k: KeyEvent)
    ensures
        FSM::<State, KeyEvent>::lookup(wiring(), m, k) == mode_transition(m, k),
{
    reveal_with_fuel(FSM::<_, _>::lookup, 8);
}

/// Owns the current editing mode and the machine that moves between
/// modes.
pub struct ModeManager {
    state_machine: FSM<State, KeyEvent>,
    current_state: State,
}

impl ModeManager {
    /// The current editing mode.
    pub closed spec fn mode(self) -> State {
        self.current_state
    }

    /// The machine carries exactly the editor's fixed wiring.
    pub closed spec fn wf(self) -> bool {
        self.state_machine.table() == wiring()
    }

    /// A manager holding the fixed editor wiring, starting in
    /// `NormalMode`.
    pub fn new() -> (r: Self)
        ensures
            r.wf(),
            r.mode() == State::NormalMode,
    {
        let mut state_machine = FSM::<State, KeyEvent>::new();

        state_machine.add_transition(State::InsertMode, KeyEvent::Esc, State::NormalMode);
        state_machine.add_transition(State::VisualMode, KeyEvent::Esc, State::NormalMode);
        state_machine.add_transition(State::CommandLineMode, KeyEvent::Esc, State::NormalMode);

        state_machine.add_transition(State::NormalMode, KeyEvent::Char('v'), State::VisualMode);

        state_machine.add_transition(State::NormalMode, KeyEvent::Char('i'), State::InsertMode);

        state_machine.add_transition(State::NormalMode, KeyEvent::Char(':'), State::CommandLineMode);

        proof {
            assert(state_machine.table() =~= wiring());
        }
        ModeManager { state_machine, current_state: State::NormalMode }
    }

    /// Moves to the mode the table registers for `(mode, key)`; the mode
    /// is unchanged when the pair is absent.
    pub fn handle_key(&mut self, key: KeyEvent)
        requires
            old(self).wf(),
        ensures
            final(self).wf(),
            final(self).mode() == apply_transition(old(self).mode(), key),
    {
        proof {
            lemma_wiring_lookup(self.current_state, key);
            assert(crate::state_machine::eq_is_exact::<State>());
            assert(crate::state_machine::eq_is_exact::<KeyEvent>());
        }
        if let Some(next) = self.state_machine.next_state(&self.current_state, &key) {
            self.current_state = next;
        }
    }

    /// The current mode.
    pub fn current_state(&self) -> (r: State)
        ensures
            r == self.mode(),
    {
        self.current_state
    }
}

} // verus!
