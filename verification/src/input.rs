//! The per-player control record exchanged every tick, and the decisions the
//! simulation derives from it.

use vstd::prelude::*;

verus! {

/// Bit set while "up" (forward thrust) is held.
pub const INPUT_UP: u8 = 1;

/// Bit set while "down" (reverse thrust) is held.
pub const INPUT_DOWN: u8 = 2;

/// Bit set while "left" is held.
pub const INPUT_LEFT: u8 = 4;

/// Bit set while "right" is held.
pub const INPUT_RIGHT: u8 = 8;

/// Frame number that marks an input as missing: the player's data for this
/// tick has not arrived, or the player is gone.
pub const NULL_FRAME: i32 = -1;

/// The four controls as sampled from the local input device.
#[derive(Clone, Copy, Debug, PartialEq, Eq, Structural)]
pub struct Keys {
    pub up: bool,
    pub down: bool,
    pub left: bool,
    pub right: bool,
}

/// One player's controls for one tick, packed into a single byte.
#[derive(Clone, Copy, Debug, PartialEq, Eq, Structural)]
pub struct Input {
    pub inp: u8,
}

/// An input as the session hands it over: the frame it belongs to, or
/// [`NULL_FRAME`] where none is available, and the control byte.
#[derive(Clone, Copy, Debug, PartialEq, Eq, Structural)]
pub struct PlayerInput {
    pub frame: i32,
    pub input: Input,
}

/// What the thrust controls ask for in one tick.
#[derive(Clone, Copy, Debug, PartialEq, Eq, Structural)]
pub enum Thrust {
    Forward,
    Reverse,
    Coast,
}

/// What the turn controls ask for in one tick.
#[derive(Clone, Copy, Debug, PartialEq, Eq, Structural)]
pub enum Turn {
    Left,
    Right,
    Straight,
}

/// The resolved decisions for one player in one tick.
#[derive(Clone, Copy, Debug, PartialEq, Eq, Structural)]
pub struct Controls {
    pub thrust: Thrust,
    pub turn: Turn,
}

/// Whether `mask` has the bit `flag` set.
pub open spec fn has_flag(mask: u8, flag: u8) -> bool {
    mask & flag != 0
}

/// The control byte that stands for `keys`: one bit per held control, all
/// other bits clear.
pub open spec fn pack_spec(keys: Keys) -> u8 {
    (if keys.up { INPUT_UP } else { 0u8 })
        | (if keys.down { INPUT_DOWN } else { 0u8 })
        | (if keys.left { INPUT_LEFT } else { 0u8 })
        | (if keys.right { INPUT_RIGHT } else { 0u8 })
}

/// The control byte the simulation acts on: the player's own byte, or
/// "turn right only" where the input is missing.
pub open spec fn effective_spec(input: PlayerInput) -> u8 {
    if input.frame == NULL_FRAME {
        INPUT_RIGHT
    } else {
        input.input.inp
    }
}

/// Thrust is applied only when exactly one of up and down is held.
pub open spec fn thrust_spec(mask: u8) -> Thrust {
    if has_flag(mask, INPUT_UP) && !has_flag(mask, INPUT_DOWN) {
        Thrust::Forward
    } else if !has_flag(mask, INPUT_UP) && has_flag(mask, INPUT_DOWN) {
        Thrust::Reverse
    } else {
        Thrust::Coast
    }
}

/// The ship turns only when exactly one of left and right is held.
pub open spec fn turn_spec(mask: u8) -> Turn {
    if has_flag(mask, INPUT_LEFT) && !has_flag(mask, INPUT_RIGHT) {
        Turn::Left
    } else if !has_flag(mask, INPUT_LEFT) && has_flag(mask, INPUT_RIGHT) {
        Turn::Right
    } else {
        Turn::Straight
    }
}

/// The decisions for one player: thrust and turn of the effective byte.
pub open spec fn controls_spec(input: PlayerInput) -> Controls {
    Controls {
        thrust: thrust_spec(effective_spec(input)),
        turn: turn_spec(effective_spec(input)),
    }
}

impl Input {
    /// Packs the sampled controls into the control byte.
    pub fn from_keys(keys: Keys) -> (input: Input)
        ensures
            input.inp == pack_spec(keys),
            input.inp <= 15,
            has_flag(input.inp, INPUT_UP) == keys.up,
            has_flag(input.inp, INPUT_DOWN) == keys.down,
            has_flag(input.inp, INPUT_LEFT) == keys.left,
            has_flag(input.inp, INPUT_RIGHT) == keys.right,
    {
        let up: u8 = if keys.up { INPUT_UP } else { 0 };
        let down: u8 = if keys.down { INPUT_DOWN } else { 0 };
        let left: u8 = if keys.left { INPUT_LEFT } else { 0 };
        let right: u8 = if keys.right { INPUT_RIGHT } else { 0 };
        let inp: u8 = up | down | left | right;
        proof {
            assert(inp <= 15 && (inp & 1 != 0) == (up == 1) && (inp & 2 != 0) == (down == 2) && (inp
                & 4 != 0) == (left == 4) && (inp & 8 != 0) == (right == 8)) by (bit_vector)
                requires
                    inp == up | down | left | right,
                    up == 0 || up == 1,
                    down == 0 || down == 2,
                    left == 0 || left == 4,
                    right == 0 || right == 8,
            ;
        }
        Input { inp }
    }

    /// Reads the four controls back out of the control byte.
    pub fn keys(&self) -> (keys: Keys)
        ensures
            keys.up == has_flag(self.inp, INPUT_UP),
            keys.down == has_flag(self.inp, INPUT_DOWN),
            keys.left == has_flag(self.inp, INPUT_LEFT),
            keys.right == has_flag(self.inp, INPUT_RIGHT),
    {
        Keys {
            up: self.inp & INPUT_UP != 0,
            down: self.inp & INPUT_DOWN != 0,
            left: self.inp & INPUT_LEFT != 0,
            right: self.inp & INPUT_RIGHT != 0,
        }
    }
}

impl PlayerInput {
    /// An input that arrived for `frame`.
    pub fn present(frame: i32, input: Input) -> (player_input: PlayerInput)
        ensures
            player_input == (PlayerInput { frame, input }),
    {
        PlayerInput { frame, input }
    }

    /// The placeholder for a player whose input is not available.
    pub fn missing() -> (player_input: PlayerInput)
        ensures
            player_input.frame == NULL_FRAME,
            player_input.input.inp == 0,
    {
        PlayerInput { frame: NULL_FRAME, input: Input { inp: 0 } }
    }

    /// The control byte the simulation acts on for this input.
    pub fn effective(&self) -> (mask: u8)
        ensures
            mask == effective_spec(*self),
    {
        if self.frame == NULL_FRAME {
            INPUT_RIGHT
        } else {
            self.input.inp
        }
    }

    /// The thrust and turn decisions for this input.
    pub fn controls(&self) -> (controls: Controls)
        ensures
            controls == controls_spec(*self),
    {
        let mask: u8 = self.effective();
        let up: bool = mask & INPUT_UP != 0;
        let down: bool = mask & INPUT_DOWN != 0;
        let left: bool = mask & INPUT_LEFT != 0;
        let right: bool = mask & INPUT_RIGHT != 0;
        let thrust = if up && !down {
            Thrust::Forward
        } else if !up && down {
            Thrust::Reverse
        } else {
            Thrust::Coast
        };
        let turn = if left && !right {
            Turn::Left
        } else if !left && right {
            Turn::Right
        } else {
            Turn::Straight
        };
        Controls { thrust, turn }
    }
}

/// Opposing controls cancel: with up and down both held there is no thrust,
/// and with left and right both held there is no turn, whatever else is held.
pub proof fn lemma_opposing_controls_cancel(input: PlayerInput)
    requires
        input.frame != NULL_FRAME,
    ensures
        has_flag(input.input.inp, INPUT_UP) && has_flag(input.input.inp, INPUT_DOWN)
            ==> controls_spec(input).thrust == Thrust::Coast,
        has_flag(input.input.inp, INPUT_LEFT) && has_flag(input.input.inp, INPUT_RIGHT)
            ==> controls_spec(input).turn == Turn::Straight,
{
}

/// A missing input is acted on exactly as a present input with only "right"
/// held: no thrust, a turn to the right.
pub proof fn lemma_missing_input_turns_right(missing: PlayerInput, present: PlayerInput)
    requires
        missing.frame == NULL_FRAME,
        present.frame != NULL_FRAME,
        present.input.inp == INPUT_RIGHT,
    ensures
        effective_spec(missing) == effective_spec(present),
        controls_spec(missing) == controls_spec(present),
        controls_spec(missing) == (Controls { thrust: Thrust::Coast, turn: Turn::Right }),
{
    assert(8u8 & 1 == 0 && 8u8 & 2 == 0 && 8u8 & 4 == 0 && 8u8 & 8 != 0) by (bit_vector);
}

} // verus!
