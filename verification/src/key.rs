//! Abstract key events consumed by the editor core.

use vstd::prelude::*;

verus! {

/// One key event from the input source: a printable character carrying a
/// single Unicode scalar value, or one of the named editing keys.
/// Events outside this vocabulary are dropped by the input layer before
/// they reach the core.
#[derive(Copy, Debug)]
pub enum KeyEvent {
    Char(char),
    Backspace,
    Enter,
    Up,
    Down,
    Left,
    Right,
    Esc,
}

impl Clone for KeyEvent {
    fn clone(&self) -> (r: Self)
        ensures
            r == *self,
    {
        *self
    }
}

impl PartialEq for KeyEvent {
    fn eq(&self, other: &Self) -> (r: bool) {
        match (self, other) {
            (KeyEvent::Char(a), KeyEvent::Char(b)) => *a == *b,
            (KeyEvent::Backspace, KeyEvent::Backspace) => true,
            (KeyEvent::Enter, KeyEvent::Enter) => true,
            (KeyEvent::Up, KeyEvent::Up) => true,
            (KeyEvent::Down, KeyEvent::Down) => true,
            (KeyEvent::Left, KeyEvent::Left) => true,
            (KeyEvent::Right, KeyEvent::Right) => true,
            (KeyEvent::Esc, KeyEvent::Esc) => true,
            _ => false,
        }
    }
}

impl vstd::std_specs::cmp::PartialEqSpecImpl for KeyEvent {
    open spec fn obeys_eq_spec() -> bool {
        true
    }

    open spec fn eq_spec(&self, other: &Self) -> bool {
        *self == *other
    }
}

} // verus!
