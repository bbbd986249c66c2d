//! Cell states, the generation-transition rule, and the per-cell color
//! tokens emitted while a generation is computed.

use vstd::prelude::*;

verus! {

/// The state of one cell. A dead cell remembers for how many consecutive
/// generations it has been dead; the counter starts at 1 and saturates at
/// 254, and is never 0 in a well-formed grid.
#[derive(Clone, Copy, PartialEq, Eq, Structural, Debug)]
pub enum State {
    Alive,
    Dead(u8),
}

/// One paint instruction for exactly one cell: either the fixed bright
/// token used for living cells, or an RGB triple whose blue channel fades
/// with the age of a dead cell.
#[derive(Clone, Copy, PartialEq, Eq, Structural, Debug)]
pub enum Color {
    Bright,
    Rgb(u8, u8, u8),
}

/// A dead cell's age counter is at least 1.
pub open spec fn state_wf(s: State) -> bool {
    match s {
        State::Alive => true,
        State::Dead(age) => 1 <= age,
    }
}

/// The transition rule, a pure function of the cell's current state and its
/// alive-neighbor count:
/// an alive cell survives exactly on 2 or 3 alive neighbors, otherwise it
/// dies with age 1; a dead cell is born exactly on 3 alive neighbors,
/// otherwise its age grows by 1, saturating at 254.
pub open spec fn transition(c: State, n: int) -> State {
    match c {
        State::Alive => if n == 2 || n == 3 {
            State::Alive
        } else {
            State::Dead(1u8)
        },
        State::Dead(age) => if n == 3 {
            State::Alive
        } else {
            State::Dead(if age >= 254 { 254u8 } else { (age + 1) as u8 })
        },
    }
}

/// The rule never produces a dead cell of age 0, whatever the input state.
pub proof fn lemma_transition_wf(c: State, n: int)
    ensures
        state_wf(transition(c, n)),
{
}

/// The color a cell contributes to the token stream, derived from its state
/// before the transition: bright for an alive cell; for a dead cell of age
/// `a`, blue channel `255 - a` and red and green channels `(255 - a) / 10`,
/// so a fresh corpse is near-white and fades toward pure blue.
pub open spec fn color_of(c: State) -> Color {
    match c {
        State::Alive => Color::Bright,
        State::Dead(age) => Color::Rgb(
            ((255 - age) / 10) as u8,
            ((255 - age) / 10) as u8,
            (255 - age) as u8,
        ),
    }
}

/// Apply the transition rule to one cell.
pub fn next_state(c: State, n: u8) -> (r: State)
    ensures
        r == transition(c, n as int),
{
    match c {
        State::Alive => if n == 2 || n == 3 {
            State::Alive
        } else {
            State::Dead(1)
        },
        State::Dead(age) => if n == 3 {
            State::Alive
        } else if age >= 254 {
            State::Dead(254)
        } else {
            State::Dead(age + 1)
        },
    }
}

/// Compute the color token for one cell.
pub fn color_token(c: State) -> (r: Color)
    ensures
        r == color_of(c),
{
    match c {
        State::Alive => Color::Bright,
        State::Dead(age) => {
            let b: u8 = 255 - age;
            Color::Rgb(b / 10, b / 10, b)
        },
    }
}

impl Default for State {
    /// A freshly dead cell: `Dead` with the minimum age.
    fn default() -> (r: Self)
        ensures
            r == State::Dead(1u8),
    {
        State::Dead(1)
    }
}

} // verus!
