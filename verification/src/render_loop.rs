//! What the render loop makes of the user's input.

use crate::tiled_layout::Direction;
use vstd::prelude::*;

verus! {

/// A key of the keyboard, as far as the loop tells keys apart.
#[derive(Clone, Copy, PartialEq, Eq, Debug, Structural)]
pub enum Key {
    Escape,
    Left,
    Right,
    Up,
    Down,
    Other,
}

/// An event of the window.
#[derive(Clone, Copy, PartialEq, Eq, Debug, Structural)]
pub enum Input {
    /// The window is to be closed.
    Quit,
    /// A key went down.
    KeyDown(Key),
    /// Anything else.
    Other,
}

/// What the loop does about an event.
#[derive(Clone, Copy, PartialEq, Eq, Debug, Structural)]
pub enum Reaction {
    /// Leave the loop, which ends the program.
    Exit,
    /// Move the selection by one step.
    Step(Direction),
    /// Nothing.
    Ignore,
}

/// Closing the window and the escape key end the loop, the arrow keys move
/// the selection, and nothing else has an effect.
pub open spec fn reaction_to(input: Input) -> Reaction {
    match input {
        Input::Quit => Reaction::Exit,
        Input::KeyDown(Key::Escape) => Reaction::Exit,
        Input::KeyDown(Key::Left) => Reaction::Step(Direction::Left),
        Input::KeyDown(Key::Right) => Reaction::Step(Direction::Right),
        Input::KeyDown(Key::Up) => Reaction::Step(Direction::Up),
        Input::KeyDown(Key::Down) => Reaction::Step(Direction::Down),
        Input::KeyDown(Key::Other) => Reaction::Ignore,
        Input::Other => Reaction::Ignore,
    }
}

/// See [`reaction_to`].
pub fn on_input(input: Input) -> (reaction: Reaction)
    ensures
        reaction == reaction_to(input),
{
    match input {
        Input::Quit | Input::KeyDown(Key::Escape) => Reaction::Exit,
        Input::KeyDown(key) => {
            let maybe_direction = match key {
                Key::Left => Some(Direction::Left),
                Key::Right => Some(Direction::Right),
                Key::Up => Some(Direction::Up),
                Key::Down => Some(Direction::Down),
                _ => None,
            };
            match maybe_direction {
                Some(direction) => Reaction::Step(direction),
                None => Reaction::Ignore,
            }
        },
        Input::Other => Reaction::Ignore,
    }
}

} // verus!
