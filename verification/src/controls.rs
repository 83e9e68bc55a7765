//! Driving controls: which keys steer the focused car, which of them are held,
//! and the moves that the held controls ask for on each update.

use vstd::prelude::*;

verus! {

/// The keys the game reacts to; every other key is `Other`.
#[derive(Clone, Copy, Debug, PartialEq, Eq, Structural)]
pub enum KeyCode {
    KeyW,
    KeyS,
    KeyA,
    KeyD,
    Other,
}

/// What a control does to the focused car.
#[derive(Clone, Copy, Debug, PartialEq, Eq, Structural)]
pub enum Action {
    Forward,
    Backward,
    Left,
    Right,
}

/// The action that a key drives.
pub open spec fn action_for_key(code: KeyCode) -> Option<Action> {
    match code {
        KeyCode::KeyW => Some(Action::Forward),
        KeyCode::KeyS => Some(Action::Backward),
        KeyCode::KeyA => Some(Action::Left),
        KeyCode::KeyD => Some(Action::Right),
        KeyCode::Other => None,
    }
}

/// Position of an action's control in a control set.
pub open spec fn slot(a: Action) -> int {
    match a {
        Action::Forward => 0,
        Action::Backward => 1,
        Action::Left => 2,
        Action::Right => 3,
    }
}

/// A control: the keys bound to it and whether it is held.
#[derive(Debug)]
pub struct Control {
    pub binds: Vec<KeyCode>,
    pub state: bool,
}

impl Control {
    /// A released control with the given bindings.
    pub fn new(new_binds: Vec<KeyCode>) -> (c: Self)
        ensures
            c.binds@ == new_binds@,
            !c.state,
    {
        Control { binds: new_binds, state: false }
    }
}

/// The held states after a key event: the key's control takes the new state,
/// every other control keeps its own; a key that drives nothing changes nothing.
pub open spec fn key_states(states: Seq<bool>, code: KeyCode, state: bool) -> Seq<bool> {
    match action_for_key(code) {
        Some(a) => states.update(slot(a), state),
        None => states,
    }
}

/// The moves that held controls ask for, in the order forward, backward,
/// left, right.
pub open spec fn pending(states: Seq<bool>) -> Seq<Action> {
    (if states[0] { seq![Action::Forward] } else { Seq::empty() })
        + (if states[1] { seq![Action::Backward] } else { Seq::empty() })
        + (if states[2] { seq![Action::Left] } else { Seq::empty() })
        + (if states[3] { seq![Action::Right] } else { Seq::empty() })
}

/// The four driving controls.
#[derive(Debug)]
pub struct Controls {
    pub forward: Control,
    pub backward: Control,
    pub left: Control,
    pub right: Control,
}

impl Controls {
    /// Whether each control is held, in slot order.
    pub open spec fn states(&self) -> Seq<bool> {
        seq![self.forward.state, self.backward.state, self.left.state, self.right.state]
    }

    /// The keys bound to each control, in slot order.
    pub open spec fn bindings(&self) -> Seq<Seq<KeyCode>> {
        seq![self.forward.binds@, self.backward.binds@, self.left.binds@, self.right.binds@]
    }

    /// The standard set: W forward, S backward, A left, D right, none held.
    pub fn new() -> (c: Self)
        ensures
            c.bindings() == seq![
                seq![KeyCode::KeyW],
                seq![KeyCode::KeyS],
                seq![KeyCode::KeyA],
                seq![KeyCode::KeyD],
            ],
            c.states() == seq![false, false, false, false],
    {
        let c = Controls {
            forward: Control::new(vec![KeyCode::KeyW]),
            backward: Control::new(vec![KeyCode::KeyS]),
            left: Control::new(vec![KeyCode::KeyA]),
            right: Control::new(vec![KeyCode::KeyD]),
        };
        assert(c.bindings() =~~= seq![
            seq![KeyCode::KeyW],
            seq![KeyCode::KeyS],
            seq![KeyCode::KeyA],
            seq![KeyCode::KeyD],
        ]);
        c
    }

    /// The control that drives `a`.
    pub fn control(&self, a: Action) -> (c: &Control)
        ensures
            c.binds@ == self.bindings()[slot(a)],
            c.state == self.states()[slot(a)],
    {
        match a {
            Action::Forward => &self.forward,
            Action::Backward => &self.backward,
            Action::Left => &self.left,
            Action::Right => &self.right,
        }
    }

    /// Records that `code` was pressed (`state` true) or released.
    pub fn key_input(&mut self, code: KeyCode, state: bool)
        ensures
            final(self).states() == key_states(old(self).states(), code, state),
            final(self).bindings() == old(self).bindings(),
            final(self).forward.state == (if code == KeyCode::KeyW { state } else { old(self).forward.state }),
            final(self).backward.state == (if code == KeyCode::KeyS { state } else { old(self).backward.state }),
            final(self).left.state == (if code == KeyCode::KeyA { state } else { old(self).left.state }),
            final(self).right.state == (if code == KeyCode::KeyD { state } else { old(self).right.state }),
    {
        match code {
            KeyCode::KeyW => { self.forward.state = state; },
            KeyCode::KeyS => { self.backward.state = state; },
            KeyCode::KeyA => { self.left.state = state; },
            KeyCode::KeyD => { self.right.state = state; },
            KeyCode::Other => {},
        }
        assert(final(self).states() =~= key_states(old(self).states(), code, state));
    }

    /// The moves that the held controls ask for on this update.
    pub fn pending_moves(&self) -> (moves: Vec<Action>)
        ensures
            moves@ == pending(self.states()),
    {
        let mut moves: Vec<Action> = Vec::new();
        if self.forward.state {
            moves.push(Action::Forward);
        }
        if self.backward.state {
            moves.push(Action::Backward);
        }
        if self.left.state {
            moves.push(Action::Left);
        }
        if self.right.state {
            moves.push(Action::Right);
        }
        assert(moves@ =~= pending(self.states()));
        moves
    }
}


/// The last event of a key decides its control: a press followed by a release
/// leaves the control released, whatever came before.
pub proof fn lemma_last_key_event_wins(states: Seq<bool>, code: KeyCode, first: bool, second: bool)
    requires
        states.len() == 4,
    ensures
        key_states(key_states(states, code, first), code, second) == key_states(states, code, second),
{
    assert(key_states(key_states(states, code, first), code, second) =~= key_states(states, code, second));
}

/// Events of keys that drive different controls do not interfere: their
/// order does not matter.
pub proof fn lemma_key_events_commute(states: Seq<bool>, c1: KeyCode, s1: bool, c2: KeyCode, s2: bool)
    requires
        states.len() == 4,
        action_for_key(c1) != action_for_key(c2),
    ensures
        key_states(key_states(states, c1, s1), c2, s2) == key_states(key_states(states, c2, s2), c1, s1),
{
    assert(key_states(key_states(states, c1, s1), c2, s2) =~= key_states(key_states(states, c2, s2), c1, s1));
}

/// A move is pending exactly when its control is held, and each pending move
/// appears once.
pub proof fn lemma_pending_iff_held(states: Seq<bool>, a: Action)
    requires
        states.len() == 4,
    ensures
        pending(states).contains(a) <==> states[slot(a)],
        pending(states).no_duplicates(),
{
    let p = pending(states);
    if states[slot(a)] {
        let i: int = (if states[0] && slot(a) > 0 { 1int } else { 0int })
            + (if states[1] && slot(a) > 1 { 1int } else { 0int })
            + (if states[2] && slot(a) > 2 { 1int } else { 0int });
        assert(p[i] == a);
    }
    if p.contains(a) {
        let i = choose|i: int| 0 <= i < p.len() && p[i] == a;
        assert(states[slot(a)]);
    }
    assert forall|i: int, j: int| 0 <= i < p.len() && 0 <= j < p.len() && i != j implies p[i] != p[j] by {
        assert(states[slot(p[i])] && states[slot(p[j])]);
    }
}

/// After a key event the key's move is pending exactly when the key is down;
/// the other moves stay as they were.
pub proof fn lemma_key_event_and_pending(states: Seq<bool>, code: KeyCode, state: bool, a: Action)
    requires
        states.len() == 4,
    ensures
        action_for_key(code) == Some(a) ==> (pending(key_states(states, code, state)).contains(a) <==> state),
        action_for_key(code) != Some(a) ==> (pending(key_states(states, code, state)).contains(a)
            <==> pending(states).contains(a)),
{
    lemma_pending_iff_held(states, a);
    lemma_pending_iff_held(key_states(states, code, state), a);
}

/// A fresh control set asks for no move.
pub proof fn lemma_new_controls_idle(c: Controls)
    requires
        c.states() == seq![false, false, false, false],
    ensures
        pending(c.states()) == Seq::<Action>::empty(),
{
    assert(pending(c.states()) =~= Seq::<Action>::empty());
}


/// A key other than W, S, A and D drives no control: its events leave every
/// held state as it was.
pub proof fn lemma_non_driving_keys_change_nothing(states: Seq<bool>, state: bool)
    requires
        states.len() == 4,
    ensures
        action_for_key(KeyCode::Other) == None::<Action>,
        key_states(states, KeyCode::Other, state) == states,
        pending(key_states(states, KeyCode::Other, state)) == pending(states),
{
}

/// Each driving key sets exactly its own control, the others keep theirs:
/// W the first (forward), S the second (backward), A the third (left), D the
/// fourth (right).
pub proof fn lemma_each_driving_key_sets_its_control(states: Seq<bool>, state: bool)
    requires
        states.len() == 4,
    ensures
        key_states(states, KeyCode::KeyW, state) == seq![state, states[1], states[2], states[3]],
        key_states(states, KeyCode::KeyS, state) == seq![states[0], state, states[2], states[3]],
        key_states(states, KeyCode::KeyA, state) == seq![states[0], states[1], state, states[3]],
        key_states(states, KeyCode::KeyD, state) == seq![states[0], states[1], states[2], state],
{
    assert(key_states(states, KeyCode::KeyW, state) =~= seq![state, states[1], states[2], states[3]]);
    assert(key_states(states, KeyCode::KeyS, state) =~= seq![states[0], state, states[2], states[3]]);
    assert(key_states(states, KeyCode::KeyA, state) =~= seq![states[0], states[1], state, states[3]]);
    assert(key_states(states, KeyCode::KeyD, state) =~= seq![states[0], states[1], states[2], state]);
}

/// From released controls, holding only a key that drives nothing asks for
/// no move, and holding one driving key asks for exactly its move.
pub proof fn lemma_single_key_moves(code: KeyCode)
    ensures
        code == KeyCode::Other ==> pending(key_states(seq![false, false, false, false], code, true))
            == Seq::<Action>::empty(),
        code == KeyCode::KeyW ==> pending(key_states(seq![false, false, false, false], code, true))
            == seq![Action::Forward],
        code == KeyCode::KeyS ==> pending(key_states(seq![false, false, false, false], code, true))
            == seq![Action::Backward],
        code == KeyCode::KeyA ==> pending(key_states(seq![false, false, false, false], code, true))
            == seq![Action::Left],
        code == KeyCode::KeyD ==> pending(key_states(seq![false, false, false, false], code, true))
            == seq![Action::Right],
{
    let z = seq![false, false, false, false];
    lemma_each_driving_key_sets_its_control(z, true);
    assert(pending(key_states(z, code, true)) =~= match code {
        KeyCode::Other => Seq::<Action>::empty(),
        KeyCode::KeyW => seq![Action::Forward],
        KeyCode::KeyS => seq![Action::Backward],
        KeyCode::KeyA => seq![Action::Left],
        KeyCode::KeyD => seq![Action::Right],
    });
}

} // verus!
