//! Per-frame player input: the control bitmask, its byte codec, the policy for
//! disconnected players, and the velocity each control resolves to.

use vstd::prelude::*;
use crate::error::GameError;

verus! {

pub const INPUT_UP: u8 = 1;
pub const INPUT_DOWN: u8 = 2;
pub const INPUT_LEFT: u8 = 4;
pub const INPUT_RIGHT: u8 = 8;

/// Frame marker the session uses for "no input available".
pub const NULL_FRAME: i32 = -1;

/// Control value applied for a player whose input is missing: disconnected players spin.
pub const DISCONNECTED_INPUT: u8 = 4;

/// Speed of a player along each axis, in world units per second.
pub const PLAYER_SPEED: i32 = 10;

#[verifier::external_type_specification]
#[verifier::external_body]
pub struct ExBincodeErrorKind(bincode::ErrorKind);

/// Relies on bincode::serialize: with its default options a `u8` is written as
/// that single byte, and writing into a growable buffer does not fail.
#[verifier::external_body]
fn bincode_encode_u8(mask: u8) -> (r: Result<Vec<u8>, Box<bincode::ErrorKind>>)
    ensures
        r is Ok,
        r->Ok_0@ == seq![mask],
{
    bincode::serialize(&mask)
}

/// Relies on bincode::deserialize: a `u8` is read from the first byte, trailing
/// bytes are allowed, and an empty buffer is an unexpected end of input.
#[verifier::external_body]
fn bincode_decode_u8(bytes: &[u8]) -> (r: Result<u8, Box<bincode::ErrorKind>>)
    ensures
        bytes@.len() >= 1 <==> r is Ok,
        r is Ok ==> r->Ok_0 == bytes@[0],
{
    bincode::deserialize::<u8>(bytes)
}

/// Encodes one player's control bitmask for the session.
pub fn encode_input(mask: u8) -> (r: Vec<u8>)
    ensures
        r@ == seq![mask],
{
    bincode_encode_u8(mask).unwrap()
}

/// Decodes one player's control bitmask; every bit, reserved ones included, is kept.
pub fn decode_input(bytes: &[u8]) -> (r: Result<u8, GameError>)
    ensures
        bytes@.len() == 0 <==> r == Err::<u8, GameError>(GameError::InputDecode),
        bytes@.len() > 0 ==> r == Ok::<u8, GameError>(bytes@[0]),
{
    match bincode_decode_u8(bytes) {
        Ok(v) => Ok(v),
        Err(_) => Err(GameError::InputDecode),
    }
}

/// One player's input for a frame as the session hands it over.
#[derive(Debug, Clone)]
pub struct InputFrame {
    /// Frame the input belongs to; `NULL_FRAME` when none was received.
    pub frame: i32,
    /// The encoded control bitmask.
    pub bytes: Vec<u8>,
}

/// The control value a player's input stands for.
pub open spec fn effective_input_spec(frame: i32, bytes: Seq<u8>) -> Result<u8, GameError> {
    if frame == NULL_FRAME {
        Ok(DISCONNECTED_INPUT)
    } else if bytes.len() == 0 {
        Err(GameError::InputDecode)
    } else {
        Ok(bytes[0])
    }
}

/// Resolves the control value of one player, substituting the fixed default
/// for a player whose input is missing.
pub fn effective_input(input: &InputFrame) -> (r: Result<u8, GameError>)
    ensures
        r == effective_input_spec(input.frame, input.bytes@),
{
    if input.frame == NULL_FRAME {
        Ok(DISCONNECTED_INPUT)
    } else {
        decode_input(input.bytes.as_slice())
    }
}

/// Builds the control bitmask from the pressed state of up, left, down and right.
pub open spec fn mask_from_keys(up: bool, left: bool, down: bool, right: bool) -> u8 {
    ((if up { INPUT_UP } else { 0u8 }) | (if left { INPUT_LEFT } else { 0u8 })
        | (if down { INPUT_DOWN } else { 0u8 }) | (if right { INPUT_RIGHT } else { 0u8 }))
}

pub fn keys_to_mask(up: bool, left: bool, down: bool, right: bool) -> (r: u8)
    ensures
        r == mask_from_keys(up, left, down, right),
{
    let up_bit: u8 = if up { INPUT_UP } else { 0 };
    let left_bit: u8 = if left { INPUT_LEFT } else { 0 };
    let down_bit: u8 = if down { INPUT_DOWN } else { 0 };
    let right_bit: u8 = if right { INPUT_RIGHT } else { 0 };
    up_bit | left_bit | down_bit | right_bit
}

/// Velocity of a player body in world units per second.
#[derive(Debug, Clone, Copy, PartialEq, Eq, Structural)]
pub struct Velocity {
    pub x: i32,
    pub y: i32,
}

/// Direction along one axis from the two opposing bits: the bit tested first wins a tie.
pub open spec fn axis_spec(first: bool, second: bool, first_dir: int) -> int {
    if first {
        first_dir * PLAYER_SPEED
    } else if second {
        -first_dir * PLAYER_SPEED
    } else {
        0
    }
}

/// Vertical velocity: DOWN is tested first and wins over UP.
pub open spec fn vertical_spec(input: u8) -> int {
    axis_spec(input & INPUT_DOWN != 0, input & INPUT_UP != 0, 1)
}

/// Horizontal velocity: LEFT is tested first and wins over RIGHT.
pub open spec fn horizontal_spec(input: u8) -> int {
    axis_spec(input & INPUT_LEFT != 0, input & INPUT_RIGHT != 0, -1)
}

pub open spec fn controls_spec(input: u8) -> Velocity {
    Velocity { x: horizontal_spec(input) as i32, y: vertical_spec(input) as i32 }
}

fn resolve_axis(first: bool, second: bool, first_dir: i32) -> (r: i32)
    requires
        first_dir == 1 || first_dir == -1,
    ensures
        r == axis_spec(first, second, first_dir as int),
{
    if first {
        first_dir * PLAYER_SPEED
    } else if second {
        -first_dir * PLAYER_SPEED
    } else {
        0
    }
}

/// The velocity a control bitmask asks for. Each axis is decided by the input
/// alone: both bits of an axis set resolve by a fixed order, neither set stops.
pub fn controls(input: u8) -> (r: Velocity)
    ensures
        r == controls_spec(input),
        input & INPUT_DOWN != 0 ==> r.y == PLAYER_SPEED,
        input & INPUT_LEFT != 0 ==> r.x == -PLAYER_SPEED,
        input & (INPUT_UP | INPUT_DOWN) == 0 ==> r.y == 0,
        input & (INPUT_LEFT | INPUT_RIGHT) == 0 ==> r.x == 0,
{
    let down = input & INPUT_DOWN != 0;
    let up = input & INPUT_UP != 0;
    let left = input & INPUT_LEFT != 0;
    let right = input & INPUT_RIGHT != 0;
    assert(input & (INPUT_UP | INPUT_DOWN) == 0 ==> input & INPUT_DOWN == 0 && input & INPUT_UP == 0)
        by (bit_vector);
    assert(input & (INPUT_LEFT | INPUT_RIGHT) == 0 ==> input & INPUT_LEFT == 0 && input & INPUT_RIGHT == 0)
        by (bit_vector);
    Velocity { x: resolve_axis(left, right, -1), y: resolve_axis(down, up, 1) }
}

} // verus!
