//! A data-driven deterministic finite-state machine over arbitrary state
//! and event types.

use vstd::prelude::*;

verus! {

use vstd::std_specs::cmp::PartialEqSpec;
use vstd::pervasive::cloned;

/// Whether `T`'s executable equality is an exact decision procedure for
/// equality of values: it obeys its specification, and that
/// specification coincides with structural equality.
pub open spec fn eq_is_exact<T: PartialEq>() -> bool {
    &&& T::obeys_eq_spec()
    &&& forall|a: T, b: T| #[trigger] a.eq_spec(&b) <==> a == b
}

/// A deterministic finite-state machine held as plain transition data.
///
/// Each registered transition maps a (state, event) pair to a successor
/// state. Registrations are kept in order and lookup prefers the most
/// recent entry, so registering the same pair twice silently overwrites
/// the earlier outcome.
pub struct FSM<State, Event> {
    transitions: Vec<(State, Event, State)>,
}

impl<State, Event> FSM<State, Event> where
    State: PartialEq + Clone,
    Event: PartialEq + Clone,
 {
    /// The registered transitions, oldest first.
    pub closed spec fn table(self) -> Seq<(State, Event, State)> {
        self.transitions@
    }

    /// The registered outcome for `(current, event)` in table `t`: the
    /// target of the most recently registered entry whose state and
    /// event both match, or `None` when no entry matches.
    pub open spec fn lookup(
        t: Seq<(State, Event, State)>,
        current: State,
        event: Event,
    ) -> Option<State>
        decreases t.len(),
    {
        if t.len() == 0 {
            None
        } else if t.last().0 == current && t.last().1 == event {
            Some(t.last().2)
        } else {
            Self::lookup(t.drop_last(), current, event)
        }
    }

    /// A machine with no transitions registered: every lookup misses.
    pub fn new() -> (r: Self)
        ensures
            r.table() == Seq::<(State, Event, State)>::empty(),
    {
        FSM { transitions: Vec::new() }
    }

    /// Registers `(from, event) -> to`, overwriting any earlier
    /// registration for the same pair.
    pub fn add_transition(&mut self, from: State, event: Event, to: State)
        ensures
            final(self).table() == old(self).table().push((from, event, to)),
    {
        self.transitions.push((from, event, to));
    }

    /// Looks up the registered target for `(current, event)`; `None`
    /// when the pair was never registered.
    pub fn next_state(&self, current: &State, event: &Event) -> (r: Option<State>)
        ensures
            eq_is_exact::<State>() && eq_is_exact::<Event>() ==> match (
                Self::lookup(self.table(), *current, *event),
                r,
            ) {
                (Some(t), Some(c)) => cloned(t, c),
                (None, None) => true,
                _ => false,
            },
    {
        let mut i: usize = self.transitions.len();
        proof {
            assert(self.table().take(i as int) =~= self.table());
        }
        while i > 0
            invariant
                i <= self.transitions.len(),
                eq_is_exact::<State>() && eq_is_exact::<Event>() ==> Self::lookup(
                    self.table(),
                    *current,
                    *event,
                ) == Self::lookup(self.table().take(i as int), *current, *event),
            decreases i,
        {
            i = i - 1;
            let entry = &self.transitions[i];
            if entry.0 == *current && entry.1 == *event {
                proof {
                    if eq_is_exact::<State>() && eq_is_exact::<Event>() {
                        assert(self.table().take(i + 1).last() == self.table()[i as int]);
                    }
                }
                return Some(entry.2.clone());
            }
            proof {
                if eq_is_exact::<State>() && eq_is_exact::<Event>() {
                    assert(self.table().take(i + 1).drop_last() =~= self.table().take(i as int));
                }
            }
        }
        proof {
            assert(self.table().take(0) =~= Seq::<(State, Event, State)>::empty());
        }
        None
    }

    /// When no entry of the table matches `(current, event)`, lookup
    /// misses: the machine proposes no successor for an unregistered
    /// pair.
    pub proof fn lemma_lookup_absent(
        t: Seq<(State, Event, State)>,
        current: State,
        event: Event,
    )
        requires
            forall|j: int| 0 <= j < t.len() ==> !(t[j].0 == current && t[j].1 == event),
        ensures
            Self::lookup(t, current, event) == None::<State>,
        decreases t.len(),
    {
        if t.len() > 0 {
            assert(t.last() == t[t.len() - 1]);
            Self::lemma_lookup_absent(t.drop_last(), current, event);
        }
    }
}

} // verus!
