//! The game state container and its versioned byte encoding.
//!
//! Layout: a version byte, the frame as a little-endian `u32`, the player
//! count, nine bytes per player (body index, collider index, grounded flag),
//! then the length of the physics snapshot and the snapshot itself.

use vstd::prelude::*;
use crate::error::GameError;

verus! {

/// Number of players in every game.
pub const NUM_PLAYERS: usize = 2;

/// Version tag written in front of every encoded state.
pub const FORMAT_VERSION: u8 = 1;

/// Offset of the physics snapshot length in an encoded state.
pub const PHYSICS_LEN_OFFSET: usize = 24;

/// Offset of the physics snapshot in an encoded state.
pub const PHYSICS_OFFSET: usize = 28;

/// Largest physics snapshot an encoded state can carry.
pub const MAX_PHYSICS_LEN: usize = 0xffff_ffff;

/// One competitor: indices into the physics world's body and collider tables,
/// and whether it stood on something at the start of the last frame.
#[derive(Debug, Clone, Copy, PartialEq, Eq, Structural)]
pub struct Player {
    pub body_handle: u32,
    pub collider_handle: u32,
    pub is_grounded: bool,
}

/// The authoritative snapshot of the simulation. `physics` is the physics
/// world's own snapshot, kept as the engine wrote it.
#[derive(Debug, Clone)]
pub struct BoxGameState {
    pub frame: i32,
    pub players: Vec<Player>,
    pub physics: Vec<u8>,
}

impl View for BoxGameState {
    type V = (i32, Seq<Player>, Seq<u8>);

    open spec fn view(&self) -> (i32, Seq<Player>, Seq<u8>) {
        (self.frame, self.players@, self.physics@)
    }
}

/// A state model that can be encoded: a non-negative frame, the fixed number
/// of players, and a snapshot whose length fits the length field.
pub open spec fn model_wf(m: (i32, Seq<Player>, Seq<u8>)) -> bool {
    &&& m.0 >= 0
    &&& m.1.len() == NUM_PLAYERS
    &&& m.2.len() <= MAX_PHYSICS_LEN
}

pub open spec fn le32(v: int) -> Seq<u8> {
    seq![
        (v % 256) as u8,
        ((v / 256) % 256) as u8,
        ((v / 65536) % 256) as u8,
        ((v / 16777216) % 256) as u8,
    ]
}

pub open spec fn read_le32(b: Seq<u8>, at: int) -> int {
    b[at] as int + 256 * b[at + 1] as int + 65536 * b[at + 2] as int + 16777216 * b[at + 3] as int
}

pub open spec fn player_bytes(p: Player) -> Seq<u8> {
    le32(p.body_handle as int) + le32(p.collider_handle as int) + seq![
        if p.is_grounded {
            1u8
        } else {
            0u8
        },
    ]
}

pub open spec fn player_at(b: Seq<u8>, at: int) -> Player {
    Player {
        body_handle: read_le32(b, at) as u32,
        collider_handle: read_le32(b, at + 4) as u32,
        is_grounded: b[at + 8] == 1,
    }
}

/// The encoding of a state model.
pub open spec fn encode_state(m: (i32, Seq<Player>, Seq<u8>)) -> Seq<u8> {
    seq![FORMAT_VERSION] + le32(m.0 as int) + seq![NUM_PLAYERS as u8] + player_bytes(m.1[0])
        + player_bytes(m.1[1]) + le32(m.2.len() as int) + m.2
}

/// What a buffer decodes to: `None` unless it is laid out exactly as
/// `encode_state` writes, with flag bytes of 0 or 1 and nothing after the snapshot.
pub open spec fn parse_state(b: Seq<u8>) -> Option<(i32, Seq<Player>, Seq<u8>)> {
    if b.len() < PHYSICS_OFFSET || b[0] != FORMAT_VERSION || b[5] != NUM_PLAYERS as u8
        || read_le32(b, 1) > i32::MAX || b[14] > 1 || b[23] > 1
        || b.len() != PHYSICS_OFFSET + read_le32(b, PHYSICS_LEN_OFFSET as int) {
        None
    } else {
        Some(
            (
                read_le32(b, 1) as i32,
                seq![player_at(b, 6), player_at(b, 15)],
                b.subrange(PHYSICS_OFFSET as int, b.len() as int),
            ),
        )
    }
}

proof fn lemma_read_le32(b: Seq<u8>, at: int, v: int)
    requires
        0 <= v < 0x1_0000_0000,
        0 <= at,
        at + 4 <= b.len(),
        b.subrange(at, at + 4) == le32(v),
    ensures
        read_le32(b, at) == v,
{
    assert(b[at] == le32(v)[0]);
    assert(b[at + 1] == le32(v)[1]);
    assert(b[at + 2] == le32(v)[2]);
    assert(b[at + 3] == le32(v)[3]);
    let b0 = v % 256;
    let b1 = (v / 256) % 256;
    let b2 = (v / 65536) % 256;
    let b3 = (v / 16777216) % 256;
    assert(b0 + 256 * b1 + 65536 * b2 + 16777216 * b3 == v) by (nonlinear_arith)
        requires
            0 <= v < 0x1_0000_0000,
            b0 == v % 256,
            b1 == (v / 256) % 256,
            b2 == (v / 65536) % 256,
            b3 == (v / 16777216) % 256,
    ;
}

proof fn lemma_read_le32_bound(b: Seq<u8>, at: int)
    requires
        0 <= at,
        at + 4 <= b.len(),
    ensures
        0 <= read_le32(b, at) < 0x1_0000_0000,
{
    let (b0, b1, b2, b3) = (b[at] as int, b[at + 1] as int, b[at + 2] as int, b[at + 3] as int);
    assert(0 <= b0 + 256 * b1 + 65536 * b2 + 16777216 * b3 < 0x1_0000_0000) by (nonlinear_arith)
        requires
            0 <= b0 < 256,
            0 <= b1 < 256,
            0 <= b2 < 256,
            0 <= b3 < 256,
    ;
}

/// Decoding the encoding of a well-formed state model gives that model back.
pub proof fn lemma_state_round_trip(m: (i32, Seq<Player>, Seq<u8>))
    requires
        model_wf(m),
    ensures
        parse_state(encode_state(m)) == Some(m),
{
    let b = encode_state(m);
    let p0 = m.1[0];
    let p1 = m.1[1];
    assert(b.len() == PHYSICS_OFFSET + m.2.len());
    assert(b.subrange(1, 5) =~= le32(m.0 as int));
    assert(b.subrange(6, 10) =~= le32(p0.body_handle as int));
    assert(b.subrange(10, 14) =~= le32(p0.collider_handle as int));
    assert(b.subrange(15, 19) =~= le32(p1.body_handle as int));
    assert(b.subrange(19, 23) =~= le32(p1.collider_handle as int));
    assert(b.subrange(24, 28) =~= le32(m.2.len() as int));
    lemma_read_le32(b, 1, m.0 as int);
    lemma_read_le32(b, 6, p0.body_handle as int);
    lemma_read_le32(b, 10, p0.collider_handle as int);
    lemma_read_le32(b, 15, p1.body_handle as int);
    lemma_read_le32(b, 19, p1.collider_handle as int);
    lemma_read_le32(b, 24, m.2.len() as int);
    assert(player_at(b, 6) == p0);
    assert(player_at(b, 15) == p1);
    assert(seq![p0, p1] =~= m.1);
    assert(b.subrange(PHYSICS_OFFSET as int, b.len() as int) =~= m.2);
}

proof fn lemma_le32_of_read(b: Seq<u8>, at: int)
    requires
        0 <= at,
        at + 4 <= b.len(),
    ensures
        le32(read_le32(b, at)) == b.subrange(at, at + 4),
{
    let (b0, b1, b2, b3) = (b[at] as int, b[at + 1] as int, b[at + 2] as int, b[at + 3] as int);
    let v = read_le32(b, at);
    assert(v % 256 == b0 && (v / 256) % 256 == b1 && (v / 65536) % 256 == b2 && (v / 16777216)
        % 256 == b3) by (nonlinear_arith)
        requires
            0 <= b0 < 256,
            0 <= b1 < 256,
            0 <= b2 < 256,
            0 <= b3 < 256,
            v == b0 + 256 * b1 + 65536 * b2 + 16777216 * b3,
    ;
    assert(le32(v) =~= b.subrange(at, at + 4));
}

/// Only exact encodings decode: a buffer that decodes is the encoding of what
/// it decodes to, so a damaged buffer never yields a different state.
#[verifier::rlimit(40)]
pub proof fn lemma_parse_canonical(b: Seq<u8>)
    ensures
        parse_state(b) matches Some(m) ==> encode_state(m) == b,
{
    if let Some(m) = parse_state(b) {
        lemma_read_le32_bound(b, 1);
        lemma_read_le32_bound(b, 6);
        lemma_read_le32_bound(b, 10);
        lemma_read_le32_bound(b, 15);
        lemma_read_le32_bound(b, 19);
        lemma_read_le32_bound(b, 24);
        lemma_le32_of_read(b, 1);
        lemma_le32_of_read(b, 6);
        lemma_le32_of_read(b, 10);
        lemma_le32_of_read(b, 15);
        lemma_le32_of_read(b, 19);
        lemma_le32_of_read(b, 24);
        let n = b.len() as int;
        assert(b =~= seq![b[0]] + b.subrange(1, 5) + seq![b[5]] + b.subrange(6, 15) + b.subrange(
            15,
            24,
        ) + b.subrange(24, 28) + b.subrange(28, n));
        assert(m.0 as int == read_le32(b, 1));
        assert(m.2.len() == read_le32(b, 24));
        assert(b.subrange(6, 15) =~= b.subrange(6, 10) + b.subrange(10, 14) + seq![b[14]]);
        assert(b.subrange(15, 24) =~= b.subrange(15, 19) + b.subrange(19, 23) + seq![b[23]]);
        assert(player_bytes(m.1[0]) == b.subrange(6, 15));
        assert(player_bytes(m.1[1]) == b.subrange(15, 24));
    }
}

/// Every buffer that decodes at all decodes to an encodable state.
pub proof fn lemma_parse_wf(b: Seq<u8>)
    ensures
        parse_state(b) matches Some(m) ==> model_wf(m),
{
    if let Some(m) = parse_state(b) {
        lemma_read_le32_bound(b, 1);
        lemma_read_le32_bound(b, 24);
        assert(m.2.len() == b.len() - 28);
    }
}

fn push_le32(out: &mut Vec<u8>, v: u32)
    ensures
        final(out)@ == old(out)@ + le32(v as int),
{
    out.push((v % 256) as u8);
    out.push(((v / 256) % 256) as u8);
    out.push(((v / 65536) % 256) as u8);
    out.push(((v / 16777216) % 256) as u8);
    assert(final(out)@ =~= old(out)@ + le32(v as int));
}

fn read_u32_at(b: &[u8], at: usize) -> (r: u32)
    requires
        at + 4 <= b@.len(),
    ensures
        r as int == read_le32(b@, at as int),
{
    assert(at + 4 <= b.len());
    proof {
        lemma_read_le32_bound(b@, at as int);
    }
    let b0 = b[at] as u32;
    let b1 = b[at + 1] as u32;
    let b2 = b[at + 2] as u32;
    let b3 = b[at + 3] as u32;
    assert(b0 + 256 * b1 + 65536 * b2 + 16777216 * b3 < 0x1_0000_0000) by (nonlinear_arith)
        requires
            b0 < 256,
            b1 < 256,
            b2 < 256,
            b3 < 256,
    ;
    b0 + 256 * b1 + 65536 * b2 + 16777216 * b3
}

fn push_player(out: &mut Vec<u8>, p: Player)
    ensures
        final(out)@ == old(out)@ + player_bytes(p),
{
    push_le32(out, p.body_handle);
    push_le32(out, p.collider_handle);
    out.push(if p.is_grounded { 1 } else { 0 });
    assert(final(out)@ =~= old(out)@ + player_bytes(p));
}

fn read_player_at(b: &[u8], at: usize) -> (r: Player)
    requires
        at + 9 <= b@.len(),
    ensures
        r == player_at(b@, at as int),
{
    assert(at + 9 <= b.len());
    Player {
        body_handle: read_u32_at(b, at),
        collider_handle: read_u32_at(b, at + 4),
        is_grounded: b[at + 8] == 1,
    }
}

impl BoxGameState {
    pub open spec fn wf(&self) -> bool {
        model_wf(self@)
    }

    /// Encodes the state in the versioned layout described above.
    pub fn serialize(&self) -> (r: Vec<u8>)
        requires
            self.wf(),
        ensures
            r@ == encode_state(self@),
    {
        let mut out: Vec<u8> = Vec::new();
        out.push(FORMAT_VERSION);
        push_le32(&mut out, self.frame as u32);
        out.push(NUM_PLAYERS as u8);
        push_player(&mut out, self.players[0]);
        push_player(&mut out, self.players[1]);
        push_le32(&mut out, self.physics.len() as u32);
        let ghost head = out@;
        let mut i: usize = 0;
        while i < self.physics.len()
            invariant
                0 <= i <= self.physics@.len(),
                out@ == head + self.physics@.take(i as int),
            decreases self.physics@.len() - i,
        {
            out.push(self.physics[i]);
            i = i + 1;
            assert(out@ =~= head + self.physics@.take(i as int));
        }
        assert(self.physics@.take(self.physics@.len() as int) =~= self.physics@);
        assert(out@ =~= encode_state(self@));
        out
    }

    /// Decodes a state; any buffer not laid out exactly as `serialize` writes
    /// is rejected as corrupt.
    pub fn deserialize(bytes: &[u8]) -> (r: Result<BoxGameState, GameError>)
        ensures
            match parse_state(bytes@) {
                Some(m) => r matches Ok(s) && s@ == m,
                None => r == Err::<BoxGameState, GameError>(GameError::StateCorruption),
            },
            r matches Ok(s) ==> s.wf() && encode_state(s@) == bytes@,
    {
        proof {
            lemma_parse_wf(bytes@);
            lemma_parse_canonical(bytes@);
        }
        if bytes.len() < PHYSICS_OFFSET || bytes[0] != FORMAT_VERSION || bytes[5] != NUM_PLAYERS as u8 {
            return Err(GameError::StateCorruption);
        }
        let frame = read_u32_at(bytes, 1);
        if frame > i32::MAX as u32 || bytes[14] > 1 || bytes[23] > 1 {
            return Err(GameError::StateCorruption);
        }
        let physics_len = read_u32_at(bytes, PHYSICS_LEN_OFFSET);
        if (bytes.len() - PHYSICS_OFFSET) as u64 != physics_len as u64 {
            return Err(GameError::StateCorruption);
        }
        let mut players: Vec<Player> = Vec::new();
        players.push(read_player_at(bytes, 6));
        players.push(read_player_at(bytes, 15));
        let mut physics: Vec<u8> = Vec::new();
        let mut i: usize = PHYSICS_OFFSET;
        while i < bytes.len()
            invariant
                PHYSICS_OFFSET <= i <= bytes@.len(),
                physics@ == bytes@.subrange(PHYSICS_OFFSET as int, i as int),
            decreases bytes@.len() - i,
        {
            physics.push(bytes[i]);
            i = i + 1;
            assert(physics@ =~= bytes@.subrange(PHYSICS_OFFSET as int, i as int));
        }
        assert(players@ =~= seq![player_at(bytes@, 6), player_at(bytes@, 15)]);
        Ok(BoxGameState { frame: frame as i32, players, physics })
    }
}

} // verus!
