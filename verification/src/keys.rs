//! Key events as the control loop reads them, and what each one asks for.

use vstd::prelude::*;
use crate::direction::MoveDirection;

verus! {

/// The key that ends the session.
pub const EXIT_KEY: char = '~';

/// The keys that steer, one for each direction that moves.
pub const UP_KEY: char = 'w';

pub const DOWN_KEY: char = 's';

pub const LEFT_KEY: char = 'a';

pub const RIGHT_KEY: char = 'd';

/// What the control loop reads of one terminal event.
#[derive(Copy, Clone, PartialEq, Eq, Structural, Debug)]
pub enum KeyEvent {
    /// A plain character key, the enter key included.
    Char(char),
    /// Any other key: backspace, arrows, function keys, modified characters.
    OtherKey,
    /// An event that is no key press, such as a mouse report.
    NotKey,
}

/// What a key event asks the control loop to do.
#[derive(Copy, Clone, PartialEq, Eq, Structural, Debug)]
pub enum Command {
    /// Toggle the given direction, which is never `Stop`.
    Move(MoveDirection),
    /// End the session.
    Exit,
    /// Nothing at all.
    Ignore,
}

/// The key bound to a direction; `Stop` has none, it is reached by hitting
/// the key of the direction in force.
pub open spec fn key_of(direction: MoveDirection) -> Option<char> {
    match direction {
        MoveDirection::Stop => None,
        MoveDirection::Up => Some(UP_KEY),
        MoveDirection::Down => Some(DOWN_KEY),
        MoveDirection::Left => Some(LEFT_KEY),
        MoveDirection::Right => Some(RIGHT_KEY),
    }
}

/// The command bound to an event: the four steering keys move, the exit
/// key ends the session, everything else is ignored.
pub open spec fn command_of(event: KeyEvent) -> Command {
    match event {
        KeyEvent::Char(c) => {
            if c == UP_KEY {
                Command::Move(MoveDirection::Up)
            } else if c == DOWN_KEY {
                Command::Move(MoveDirection::Down)
            } else if c == LEFT_KEY {
                Command::Move(MoveDirection::Left)
            } else if c == RIGHT_KEY {
                Command::Move(MoveDirection::Right)
            } else if c == EXIT_KEY {
                Command::Exit
            } else {
                Command::Ignore
            }
        },
        KeyEvent::OtherKey => Command::Ignore,
        KeyEvent::NotKey => Command::Ignore,
    }
}

/// Computes `command_of`.
pub fn interpret(event: KeyEvent) -> (command: Command)
    ensures
        command == command_of(event),
{
    match event {
        KeyEvent::Char(c) => {
            if c == UP_KEY {
                Command::Move(MoveDirection::Up)
            } else if c == DOWN_KEY {
                Command::Move(MoveDirection::Down)
            } else if c == LEFT_KEY {
                Command::Move(MoveDirection::Left)
            } else if c == RIGHT_KEY {
                Command::Move(MoveDirection::Right)
            } else if c == EXIT_KEY {
                Command::Exit
            } else {
                Command::Ignore
            }
        },
        KeyEvent::OtherKey => Command::Ignore,
        KeyEvent::NotKey => Command::Ignore,
    }
}

/// A command moves in a direction exactly when the event is that
/// direction's key, and no key moves to `Stop`.
pub proof fn law_steering_keys(event: KeyEvent, direction: MoveDirection)
    ensures
        command_of(event) == Command::Move(direction) <==> (key_of(direction) matches Some(c)
            && event == KeyEvent::Char(c)),
        command_of(event) != Command::Move(MoveDirection::Stop),
{
}

} // verus!
