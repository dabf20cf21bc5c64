//! The 8-way compass direction carried by movement and spawn messages.
//!
//! On the wire a direction is a one-hot bit flag (0x01..0x80), never a dense
//! index; the zero byte doubles as "no direction", and any unmapped byte
//! decodes to it. That catch-all is a deliberate wire contract, not an error.

use vstd::prelude::*;

verus! {

#[derive(Clone, Copy, Debug, PartialEq, Eq, Structural)]
pub enum Direction {
    NoDirection,
    Up,
    Left,
    Down,
    Right,
    UpLeft,
    UpRight,
    DownLeft,
    DownRight,
}

pub open spec fn spec_direction_byte(d: Direction) -> u8 {
    match d {
        Direction::Up => 0x01,
        Direction::Left => 0x02,
        Direction::Down => 0x04,
        Direction::Right => 0x08,
        Direction::UpLeft => 0x10,
        Direction::UpRight => 0x20,
        Direction::DownLeft => 0x40,
        Direction::DownRight => 0x80,
        Direction::NoDirection => 0x00,
    }
}

pub open spec fn spec_direction_of_byte(b: u8) -> Direction {
    if b == 0x01 {
        Direction::Up
    } else if b == 0x02 {
        Direction::Left
    } else if b == 0x04 {
        Direction::Down
    } else if b == 0x08 {
        Direction::Right
    } else if b == 0x10 {
        Direction::UpLeft
    } else if b == 0x20 {
        Direction::UpRight
    } else if b == 0x40 {
        Direction::DownLeft
    } else if b == 0x80 {
        Direction::DownRight
    } else {
        Direction::NoDirection
    }
}

/// The one-hot wire flag of a direction.
pub fn translate_direction(direction: Direction) -> (b: u8)
    ensures
        b == spec_direction_byte(direction),
{
    match direction {
        Direction::Up => 0x01,
        Direction::Left => 0x02,
        Direction::Down => 0x04,
        Direction::Right => 0x08,
        Direction::UpLeft => 0x10,
        Direction::UpRight => 0x20,
        Direction::DownLeft => 0x40,
        Direction::DownRight => 0x80,
        Direction::NoDirection => 0x00,
    }
}

/// The direction a wire byte stands for; unmapped bytes mean "no direction".
pub fn direction_from_byte(b: u8) -> (d: Direction)
    ensures
        d == spec_direction_of_byte(b),
{
    if b == 0x01 {
        Direction::Up
    } else if b == 0x02 {
        Direction::Left
    } else if b == 0x04 {
        Direction::Down
    } else if b == 0x08 {
        Direction::Right
    } else if b == 0x10 {
        Direction::UpLeft
    } else if b == 0x20 {
        Direction::UpRight
    } else if b == 0x40 {
        Direction::DownLeft
    } else if b == 0x80 {
        Direction::DownRight
    } else {
        Direction::NoDirection
    }
}

/// Decoding undoes encoding for every direction, the absent one included.
pub proof fn lemma_direction_round(d: Direction)
    ensures
        spec_direction_of_byte(spec_direction_byte(d)) == d,
{
}

} // verus!
