//! The canonical byte form of a simulation state, produced by the `bincode`
//! crate, and the checksum taken over it.

use vstd::prelude::*;
use crate::checksum::{fletcher16, fletcher16_spec};
use crate::state::{State, StateView};

verus! {

/// The error type of `bincode`, carried through unopened.
#[verifier::external_type_specification]
#[verifier::external_body]
pub struct ExBincodeErrorKind(bincode::ErrorKind);

/// The bytes that `bincode::serialize` produces for the five parts of a
/// state, taken in this order as one tuple. They depend on the parts alone.
pub uninterp spec fn encoded_parts(
    frame: i32,
    num_players: usize,
    positions: Seq<(u32, u32)>,
    velocities: Seq<(u32, u32)>,
    rotations: Seq<u32>,
) -> Seq<u8>;

/// Calls `bincode::serialize` on the tuple of the five parts. Claimed of it
/// and not proved: the call succeeds, and the bytes are those that the
/// encoding assigns to these parts. It succeeds because the encoder, which
/// has no size limit here, fails only on a sequence of unknown length or
/// when its writer fails, and it writes integers and vectors into a vector
/// of its own.
#[verifier::external_body]
fn serialize_parts(
    frame: i32,
    num_players: usize,
    positions: &Vec<(u32, u32)>,
    velocities: &Vec<(u32, u32)>,
    rotations: &Vec<u32>,
) -> (encoded: Result<Vec<u8>, Box<bincode::ErrorKind>>)
    ensures
        encoded is Ok,
        encoded matches Ok(bytes) ==> bytes@ == encoded_parts(
            frame,
            num_players,
            positions@,
            velocities@,
            rotations@,
        ),
{
    bincode::serialize(&(frame, num_players, positions, velocities, rotations))
}

/// The canonical bytes of a state.
pub open spec fn encoded_state(state: StateView) -> Seq<u8> {
    encoded_parts(
        state.frame,
        state.num_players,
        state.positions,
        state.velocities,
        state.rotations,
    )
}

/// The checksum of a state: the Fletcher checksum of its canonical bytes.
pub open spec fn state_checksum(state: StateView) -> nat {
    fletcher16_spec(encoded_state(state))
}

impl State {
    /// The canonical bytes of the state.
    pub fn encode(&self) -> (bytes: Vec<u8>)
        ensures
            bytes@ == encoded_state(self@),
    {
        match serialize_parts(
            self.frame,
            self.num_players,
            &self.positions,
            &self.velocities,
            &self.rotations,
        ) {
            Ok(bytes) => bytes,
            Err(_) => vstd::pervasive::unreached(),
        }
    }

    /// The checksum of the state.
    pub fn checksum(&self) -> (sum: u64)
        ensures
            sum == state_checksum(self@),
    {
        let bytes = self.encode();
        let sum: u16 = fletcher16(bytes.as_slice());
        sum as u64
    }
}

} // verus!
