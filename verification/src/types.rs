//! Shared value types: scalars, positions, velocities and the game state.

use vstd::prelude::*;

verus! {

/// An IEEE-754 single-precision number, held by its bit pattern.
pub type Single = u32;

/// An IEEE-754 double-precision number, held by its bit pattern.
pub type Double = u64;

/// Positive zero in single precision.
pub const ZERO: Single = 0;

/// One in single precision.
pub const ONE: Single = 0x3f80_0000;

/// Positive zero in double precision.
pub const DOUBLE_ZERO: Double = 0;

/// A world-space coordinate: where an entity's pivot anchor lies.
#[derive(Clone, Copy, Debug, PartialEq, Eq, Structural)]
pub struct Position {
    pub x: Single,
    pub y: Single,
}

impl Default for Position {
    /// The origin.
    fn default() -> (position: Position)
        ensures
            position == (Position { x: ZERO, y: ZERO }),
    {
        Position { x: ZERO, y: ZERO }
    }
}

/// The displacement that one tick adds to a position.
#[derive(Clone, Copy, Debug, PartialEq, Eq, Structural)]
pub struct Velocity {
    pub x: Single,
    pub y: Single,
}

/// The state that every system shares: whether the loop is to stop, the
/// seconds since the last update, and where the pointer is.
#[derive(Clone, Copy, Debug, PartialEq, Eq, Structural)]
pub struct GameState {
    pub exit: bool,
    pub delta: Double,
    pub mouse_position: Position,
}

impl Default for GameState {
    /// Running, no time elapsed, pointer at the origin.
    fn default() -> (state: GameState)
        ensures
            state == (GameState {
                exit: false,
                delta: DOUBLE_ZERO,
                mouse_position: Position { x: ZERO, y: ZERO },
            }),
    {
        GameState { exit: false, delta: DOUBLE_ZERO, mouse_position: Position { x: ZERO, y: ZERO } }
    }
}

} // verus!
