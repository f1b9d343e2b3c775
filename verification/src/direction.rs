//! The movement commands and their wire codes.

use vstd::prelude::*;

verus! {

/// A movement command for the remote device.
#[derive(Copy, Clone, PartialEq, Eq, Structural, Debug)]
pub enum MoveDirection {
    Stop,
    Up,
    Down,
    Left,
    Right,
}

impl MoveDirection {
    /// The byte that stands for this direction on the wire.
    pub open spec fn code(self) -> u8 {
        match self {
            MoveDirection::Stop => 0,
            MoveDirection::Up => 1,
            MoveDirection::Down => 2,
            MoveDirection::Left => 3,
            MoveDirection::Right => 4,
        }
    }

    /// The direction that a wire byte stands for, if it stands for one.
    pub open spec fn of_code(byte: u8) -> Option<MoveDirection> {
        if byte == 0 {
            Some(MoveDirection::Stop)
        } else if byte == 1 {
            Some(MoveDirection::Up)
        } else if byte == 2 {
            Some(MoveDirection::Down)
        } else if byte == 3 {
            Some(MoveDirection::Left)
        } else if byte == 4 {
            Some(MoveDirection::Right)
        } else {
            None
        }
    }

    /// The direction in force after the key of `pressed` is hit while
    /// `self` is in force: hitting the key of the current direction stops,
    /// any other key takes over at once.
    pub open spec fn toggle(self, pressed: MoveDirection) -> MoveDirection {
        if self == pressed {
            MoveDirection::Stop
        } else {
            pressed
        }
    }

    /// The name under which the direction is shown to the operator.
    pub open spec fn label(self) -> Seq<char> {
        match self {
            MoveDirection::Stop => "Stop"@,
            MoveDirection::Up => "Up"@,
            MoveDirection::Down => "Down"@,
            MoveDirection::Left => "Left"@,
            MoveDirection::Right => "Right"@,
        }
    }

    /// Encodes the direction as its wire byte.
    pub fn to_u8(self) -> (byte: u8)
        ensures
            byte == self.code(),
    {
        match self {
            MoveDirection::Stop => 0,
            MoveDirection::Up => 1,
            MoveDirection::Down => 2,
            MoveDirection::Left => 3,
            MoveDirection::Right => 4,
        }
    }

    /// Decodes a wire byte; bytes above 4 stand for nothing.
    pub fn from_u8(byte: u8) -> (direction: Option<MoveDirection>)
        ensures
            direction == Self::of_code(byte),
    {
        match byte {
            0 => Some(MoveDirection::Stop),
            1 => Some(MoveDirection::Up),
            2 => Some(MoveDirection::Down),
            3 => Some(MoveDirection::Left),
            4 => Some(MoveDirection::Right),
            _ => None,
        }
    }

    /// Computes `toggle`.
    pub fn toggled(self, pressed: MoveDirection) -> (next: MoveDirection)
        ensures
            next == self.toggle(pressed),
    {
        if self == pressed {
            MoveDirection::Stop
        } else {
            pressed
        }
    }

    /// The label as a string slice.
    pub fn name(self) -> (text: &'static str)
        ensures
            text@ == self.label(),
    {
        match self {
            MoveDirection::Stop => "Stop",
            MoveDirection::Up => "Up",
            MoveDirection::Down => "Down",
            MoveDirection::Left => "Left",
            MoveDirection::Right => "Right",
        }
    }
}

/// Encoding and decoding are inverse to each other: every direction comes
/// back from its code, and a byte that decodes is the code of what it
/// decodes to.
pub proof fn law_code_round_trip(direction: MoveDirection, byte: u8)
    ensures
        MoveDirection::of_code(direction.code()) == Some(direction),
        MoveDirection::of_code(byte) matches Some(d) ==> d.code() == byte,
{
}

/// The codes are the bytes 0 to 4 and no others, and two directions never
/// share one.
pub proof fn law_codes_exact(a: MoveDirection, b: MoveDirection, byte: u8)
    ensures
        a.code() <= 4,
        a.code() == b.code() ==> a == b,
        byte <= 4 <==> MoveDirection::of_code(byte) is Some,
        byte <= 4 ==> exists|d: MoveDirection| d.code() == byte,
{
    if byte <= 4 {
        let d = MoveDirection::of_code(byte).unwrap();
        assert(d.code() == byte);
    }
}

} // verus!
