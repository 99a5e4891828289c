//! The rollback protocol: save, load and advance requests applied to the game
//! state, with the checksum records kept for desync diagnostics.
//!
//! The physics engine works in floating point and lives with its host; one
//! frame is therefore advanced in two calls: `advance_frame` decides the
//! grounded flags and the velocities to apply, the host applies them and
//! steps the world, and `complete_frame` takes the world's new snapshot and
//! records the checksum.

use vstd::prelude::*;
use crate::checksum::{fletcher16, fletcher16_spec};
use crate::error::GameError;
use crate::input::{
    controls, controls_spec, effective_input, effective_input_spec, encode_input, keys_to_mask,
    mask_from_keys, InputFrame, Velocity, DISCONNECTED_INPUT, NULL_FRAME,
};
use crate::level::NUM_TILES;
use crate::state::{
    encode_state, lemma_state_round_trip, model_wf, parse_state, BoxGameState, Player,
    MAX_PHYSICS_LEN, NUM_PLAYERS,
};

verus! {

/// Every this many frames the checksum is also kept as the periodic record.
pub const CHECKSUM_PERIOD: i32 = 100;

/// True iff at least one of the player's current collisions has a contact
/// normal whose vertical component is non-negative.
pub open spec fn grounded_spec(normals_y: Seq<i32>) -> bool {
    exists|j: int| 0 <= j < normals_y.len() && normals_y[j] >= 0
}

/// Decides whether a player stands on something, from the vertical components
/// of the contact normals of its collisions.
pub fn check_grounded(normals_y: &Vec<i32>) -> (r: bool)
    ensures
        r == grounded_spec(normals_y@),
{
    let mut j: usize = 0;
    while j < normals_y.len()
        invariant
            0 <= j <= normals_y@.len(),
            forall|k: int| 0 <= k < j ==> normals_y@[k] < 0,
        decreases normals_y@.len() - j,
    {
        if normals_y[j] >= 0 {
            return true;
        }
        j = j + 1;
    }
    false
}

/// The players as a fresh game creates them: bodies and colliders right after
/// the level tiles, nobody grounded.
pub open spec fn initial_players() -> Seq<Player> {
    seq![
        Player { body_handle: NUM_TILES as u32, collider_handle: NUM_TILES as u32, is_grounded: false },
        Player {
            body_handle: (NUM_TILES + 1) as u32,
            collider_handle: (NUM_TILES + 1) as u32,
            is_grounded: false,
        },
    ]
}

/// The state after one advance, before the physics world is stepped.
pub open spec fn advanced_model(
    m: (i32, Seq<Player>, Seq<u8>),
    normals: Seq<Vec<i32>>,
) -> (i32, Seq<Player>, Seq<u8>) {
    (
        (m.0 + 1) as i32,
        Seq::new(
            m.1.len(),
            |i: int| Player { is_grounded: grounded_spec(normals[i]@), ..m.1[i] },
        ),
        m.2,
    )
}

/// Every player's input can be resolved to a control value.
pub open spec fn inputs_resolve(inputs: Seq<InputFrame>) -> bool {
    forall|i: int| 0 <= i < inputs.len() ==> effective_input_spec(inputs[i].frame, inputs[i].bytes@) is Ok
}

pub open spec fn checksum_of(m: (i32, Seq<Player>, Seq<u8>)) -> u64 {
    fletcher16_spec(encode_state(m)) as u64
}

/// A saved state as handed to the session's storage.
#[derive(Debug, Clone)]
pub struct SavedState {
    pub frame: i32,
    pub buffer: Vec<u8>,
    pub checksum: u64,
}

#[verifier::external_type_specification]
#[verifier::external_body]
pub struct ExGameStateCell(ggrs::GameStateCell);

/// What a session's storage cell holds: frame, serialized state and checksum.
pub uninterp spec fn cell_contents(c: ggrs::GameStateCell) -> (i32, Option<Seq<u8>>, u64);

/// Relies on ggrs::GameStateCell::save, handed a ggrs::GameState::new built
/// with an explicit checksum: the cell then holds that frame, buffer and
/// checksum. It panics on the null frame.
#[verifier::external_body]
fn store_in_cell(cell: &mut ggrs::GameStateCell, saved: SavedState)
    requires
        saved.frame != NULL_FRAME,
    ensures
        cell_contents(*final(cell)) == (saved.frame, Some(saved.buffer@), saved.checksum),
{
    cell.save(ggrs::GameState::new(saved.frame, Some(saved.buffer), Some(saved.checksum)))
}

impl BoxGameState {
    pub fn new(physics: Vec<u8>) -> (r: BoxGameState)
        requires
            physics@.len() <= MAX_PHYSICS_LEN,
        ensures
            r.wf(),
            r@ == (0i32, initial_players(), physics@),
    {
        let mut players: Vec<Player> = Vec::new();
        let mut i: usize = 0;
        while i < NUM_PLAYERS
            invariant
                0 <= i <= NUM_PLAYERS,
                players@ == initial_players().take(i as int),
            decreases NUM_PLAYERS - i,
        {
            let handle = (NUM_TILES + i) as u32;
            players.push(Player { body_handle: handle, collider_handle: handle, is_grounded: false });
            i = i + 1;
            assert(players@ =~= initial_players().take(i as int));
        }
        assert(initial_players().take(2) =~= initial_players());
        BoxGameState { frame: 0, players, physics }
    }
}

pub struct BoxGame {
    game_state: BoxGameState,
    /// Pressed state of up, left, down and right, in that order.
    pub key_states: [bool; 4],
    last_checksum: (i32, u64),
    periodic_checksum: (i32, u64),
}

impl BoxGame {
    pub closed spec fn state(&self) -> BoxGameState {
        self.game_state
    }

    pub closed spec fn keys(&self) -> [bool; 4] {
        self.key_states
    }

    pub closed spec fn last(&self) -> (i32, u64) {
        self.last_checksum
    }

    pub closed spec fn periodic(&self) -> (i32, u64) {
        self.periodic_checksum
    }

    /// The state is encodable, the periodic record is at a multiple of the
    /// period, the last record is empty or at a real frame, and the two match
    /// whenever the last record is at a multiple of the period.
    pub closed spec fn wf(&self) -> bool {
        &&& self.game_state.wf()
        &&& self.periodic_checksum.0 >= 0
        &&& self.periodic_checksum.0 % CHECKSUM_PERIOD == 0
        &&& (self.last_checksum.0 == NULL_FRAME || self.last_checksum.0 >= 0)
        &&& (self.last_checksum.0 >= 0 && self.last_checksum.0 % CHECKSUM_PERIOD == 0
            ==> self.periodic_checksum == self.last_checksum)
    }

    /// Sets the pressed state of up, left, down and right.
    pub fn set_key_states(&mut self, keys: [bool; 4])
        requires
            old(self).wf(),
        ensures
            final(self).wf(),
            final(self).keys() == keys,
            final(self).state() == old(self).state(),
            final(self).last() == old(self).last(),
            final(self).periodic() == old(self).periodic(),
    {
        self.key_states = keys;
    }

    /// A fresh game at frame 0 over the given initial physics snapshot. The
    /// periodic record starts with the checksum of that frame-0 state.
    pub fn new(physics: Vec<u8>) -> (r: BoxGame)
        requires
            physics@.len() <= MAX_PHYSICS_LEN,
        ensures
            r.wf(),
            r.state()@ == (0i32, initial_players(), physics@),
            r.keys()@ == seq![false, false, false, false],
            r.last() == (NULL_FRAME, 0u64),
            r.periodic() == (0i32, checksum_of(r.state()@)),
            r.periodic().0 >= 0 && r.periodic().0 % CHECKSUM_PERIOD == 0,
    {
        let game_state = BoxGameState::new(physics);
        let buffer = game_state.serialize();
        let checksum = fletcher16(buffer.as_slice()) as u64;
        let r = BoxGame {
            game_state,
            key_states: [false; 4],
            last_checksum: (NULL_FRAME, 0),
            periodic_checksum: (0, checksum),
        };
        assert(r.key_states@ =~= seq![false, false, false, false]);
        r
    }

    pub fn game_state(&self) -> (r: &BoxGameState)
        ensures
            *r == self.state(),
            self.wf() ==> r.wf(),
    {
        &self.game_state
    }

    pub fn last_checksum(&self) -> (r: (i32, u64))
        ensures
            r == self.last(),
    {
        self.last_checksum
    }

    pub fn periodic_checksum(&self) -> (r: (i32, u64))
        ensures
            r == self.periodic(),
    {
        self.periodic_checksum
    }

    /// Serializes the current state for the session's storage, after checking
    /// that the session asks for the frame the simulation is at.
    pub fn save_state(&self, frame: i32) -> (r: Result<SavedState, GameError>)
        requires
            self.wf(),
        ensures
            frame != self.state().frame <==> r == Err::<SavedState, GameError>(
                GameError::FrameConsistency,
            ),
            frame == self.state().frame ==> (r matches Ok(s) && s.frame == frame
                && s.buffer@ == encode_state(self.state()@) && s.checksum == checksum_of(
                self.state()@,
            )),
    {
        if self.game_state.frame != frame {
            return Err(GameError::FrameConsistency);
        }
        let buffer = self.game_state.serialize();
        let checksum = fletcher16(buffer.as_slice()) as u64;
        Ok(SavedState { frame, buffer, checksum })
    }

    /// Saves the current state, its checksum and frame into the session's cell.
    pub fn save_game_state(&self, cell: &mut ggrs::GameStateCell, frame: i32) -> (r: Result<
        (),
        GameError,
    >)
        requires
            self.wf(),
        ensures
            frame != self.state().frame <==> r == Err::<(), GameError>(GameError::FrameConsistency),
            frame == self.state().frame <==> r is Ok,
            r is Ok ==> cell_contents(*final(cell)) == (
                frame,
                Some(encode_state(self.state()@)),
                checksum_of(self.state()@),
            ),
            r is Err ==> *final(cell) == *old(cell),
    {
        match self.save_state(frame) {
            Ok(saved) => {
                store_in_cell(cell, saved);
                Ok(())
            },
            Err(e) => Err(e),
        }
    }

    /// Replaces the state with one decoded from a saved buffer. A missing or
    /// corrupt buffer leaves the game as it was.
    pub fn load_game_state(&mut self, buffer: Option<Vec<u8>>) -> (r: Result<(), GameError>)
        requires
            old(self).wf(),
        ensures
            final(self).wf(),
            final(self).keys() == old(self).keys(),
            final(self).last() == old(self).last(),
            final(self).periodic() == old(self).periodic(),
            match buffer {
                Some(b) => match parse_state(b@) {
                    Some(m) => r is Ok && final(self).state()@ == m,
                    None => r == Err::<(), GameError>(GameError::StateCorruption)
                        && final(self).state()@ == old(self).state()@,
                },
                None => r == Err::<(), GameError>(GameError::StateCorruption)
                    && final(self).state()@ == old(self).state()@,
            },
    {
        match buffer {
            Some(b) => {
                match BoxGameState::deserialize(b.as_slice()) {
                    Ok(s) => {
                        self.game_state = s;
                        Ok(())
                    },
                    Err(e) => Err(e),
                }
            },
            None => Err(GameError::StateCorruption),
        }
    }

    /// Starts one frame: counts it, recomputes each player's grounded flag from
    /// its current contacts and resolves each player's input to a velocity for
    /// the physics host to apply. If an input cannot be decoded nothing changes.
    pub fn advance_frame(
        &mut self,
        inputs: &Vec<InputFrame>,
        contact_normals: &Vec<Vec<i32>>,
    ) -> (r: Result<Vec<Velocity>, GameError>)
        requires
            old(self).wf(),
            inputs@.len() == NUM_PLAYERS,
            contact_normals@.len() == NUM_PLAYERS,
            old(self).state().frame < i32::MAX,
        ensures
            final(self).wf(),
            final(self).keys() == old(self).keys(),
            final(self).last() == old(self).last(),
            final(self).periodic() == old(self).periodic(),
            inputs_resolve(inputs@) <==> r is Ok,
            (forall|i: int|
                0 <= i < NUM_PLAYERS ==> inputs@[i].frame == NULL_FRAME || inputs@[i].bytes@.len()
                    > 0) ==> r is Ok,
            r is Ok ==> forall|i: int|
                0 <= i < NUM_PLAYERS && inputs@[i].frame == NULL_FRAME ==> r->Ok_0@[i]
                    == controls_spec(DISCONNECTED_INPUT),
            r is Ok ==> final(self).state()@ == advanced_model(
                old(self).state()@,
                contact_normals@,
            ),
            r is Ok ==> final(self).state().frame == old(self).state().frame + 1,
            r is Ok ==> r->Ok_0@.len() == NUM_PLAYERS && forall|i: int|
                0 <= i < NUM_PLAYERS ==> r->Ok_0@[i] == controls_spec(
                    effective_input_spec(inputs@[i].frame, inputs@[i].bytes@)->Ok_0,
                ),
            r is Err ==> r->Err_0 == GameError::InputDecode && final(self).state()@ == old(
                self,
            ).state()@,
    {
        let mut velocities: Vec<Velocity> = Vec::new();
        let mut i: usize = 0;
        while i < NUM_PLAYERS
            invariant
                0 <= i <= NUM_PLAYERS,
                *self == *old(self),
                self.wf(),
                inputs@.len() == NUM_PLAYERS,
                velocities@.len() == i,
                forall|k: int| 0 <= k < i ==> effective_input_spec(inputs@[k].frame, inputs@[k].bytes@) is Ok,
                forall|k: int|
                    0 <= k < i ==> velocities@[k] == controls_spec(
                        effective_input_spec(inputs@[k].frame, inputs@[k].bytes@)->Ok_0,
                    ),
            decreases NUM_PLAYERS - i,
        {
            match effective_input(&inputs[i]) {
                Ok(input) => {
                    velocities.push(controls(input));
                },
                Err(e) => {
                    return Err(e);
                },
            }
            i = i + 1;
        }
        let ghost before = self.game_state@;
        self.game_state.frame = self.game_state.frame + 1;
        let mut j: usize = 0;
        while j < NUM_PLAYERS
            invariant
                0 <= j <= NUM_PLAYERS,
                self.key_states == old(self).key_states,
                self.last_checksum == old(self).last_checksum,
                self.periodic_checksum == old(self).periodic_checksum,
                before == old(self).game_state@,
                model_wf(before),
                contact_normals@.len() == NUM_PLAYERS,
                before.1.len() == NUM_PLAYERS,
                self.game_state.players@.len() == NUM_PLAYERS,
                self.game_state.frame == before.0 + 1,
                self.game_state.physics@ == before.2,
                forall|k: int|
                    0 <= k < j ==> self.game_state.players@[k] == (Player {
                        is_grounded: grounded_spec(contact_normals@[k]@),
                        ..before.1[k]
                    }),
                forall|k: int| j <= k < NUM_PLAYERS ==> self.game_state.players@[k] == before.1[k],
            decreases NUM_PLAYERS - j,
        {
            let grounded = check_grounded(&contact_normals[j]);
            let mut player = self.game_state.players[j];
            player.is_grounded = grounded;
            self.game_state.players.set(j, player);
            j = j + 1;
        }
        assert(self.game_state.players@ =~= advanced_model(before, contact_normals@).1);
        Ok(velocities)
    }

    /// Ends a frame: takes the physics world's snapshot after the step and
    /// records the checksum of the new state, also as the periodic record when
    /// the frame is a multiple of the period.
    pub fn complete_frame(&mut self, physics: Vec<u8>)
        requires
            old(self).wf(),
            physics@.len() <= MAX_PHYSICS_LEN,
        ensures
            final(self).wf(),
            final(self).keys() == old(self).keys(),
            final(self).state()@ == (old(self).state().frame, old(self).state().players@, physics@),
            final(self).last() == (final(self).state().frame, checksum_of(final(self).state()@)),
            final(self).periodic() == if final(self).state().frame % CHECKSUM_PERIOD == 0 {
                final(self).last()
            } else {
                old(self).periodic()
            },
    {
        self.game_state.physics = physics;
        let buffer = self.game_state.serialize();
        let checksum = fletcher16(buffer.as_slice()) as u64;
        self.last_checksum = (self.game_state.frame, checksum);
        if self.game_state.frame % CHECKSUM_PERIOD == 0 {
            self.periodic_checksum = (self.game_state.frame, checksum);
        }
    }

    /// The local player's encoded input from the current key states.
    pub fn local_input(&self) -> (r: Vec<u8>)
        ensures
            r@ == seq![
                mask_from_keys(
                    self.keys()@[0],
                    self.keys()@[1],
                    self.keys()@[2],
                    self.keys()@[3],
                ),
            ],
    {
        let mask = keys_to_mask(self.key_states[0], self.key_states[1], self.key_states[2], self.key_states[3]);
        encode_input(mask)
    }
}

/// The periodic record is always empty or at a multiple of the period, and
/// it is the last record whenever the last record is at such a frame.
pub proof fn lemma_periodic_cadence(g: BoxGame)
    requires
        g.wf(),
    ensures
        g.periodic().0 >= 0,
        g.periodic().0 % CHECKSUM_PERIOD == 0,
        g.last().0 % CHECKSUM_PERIOD == 0 ==> g.periodic() == g.last(),
{
}

/// A well-formed game holds an encodable state.
pub proof fn lemma_game_state_wf(g: BoxGame)
    requires
        g.wf(),
    ensures
        g.state().wf(),
        g.state().players@.len() == NUM_PLAYERS,
        g.state().frame >= 0,
{
}

/// Loading the buffer that a save of a game stores restores exactly the
/// game's state, with the checksum recorded at that save.
pub proof fn lemma_load_after_save(g: BoxGame)
    requires
        g.wf(),
    ensures
        parse_state(encode_state(g.state()@)) == Some(g.state()@),
        checksum_of(parse_state(encode_state(g.state()@))->Some_0) == checksum_of(g.state()@),
{
    lemma_state_round_trip(g.state()@);
}

/// A player whose input is missing always resolves, to the fixed default:
/// inputs that are each missing or non-empty all resolve.
pub proof fn lemma_missing_inputs_resolve(inputs: Seq<InputFrame>)
    requires
        forall|i: int| 0 <= i < inputs.len() ==> inputs[i].frame == NULL_FRAME || inputs[i].bytes@.len() > 0,
    ensures
        inputs_resolve(inputs),
        forall|i: int|
            0 <= i < inputs.len() && inputs[i].frame == NULL_FRAME ==> effective_input_spec(
                inputs[i].frame,
                inputs[i].bytes@,
            ) == Ok::<u8, GameError>(DISCONNECTED_INPUT),
{
}

/// After `M` advances from frame `f0` the state is at frame `f0 + M`; the
/// snapshots taken by `complete_frame` in between do not move the counter.
pub proof fn lemma_frame_after_advances(
    models: Seq<(i32, Seq<Player>, Seq<u8>)>,
    normals: Seq<Seq<Vec<i32>>>,
)
    requires
        models.len() == normals.len() + 1,
        models[0].0 + normals.len() <= i32::MAX,
        forall|k: int|
            0 <= k < normals.len() ==> models[k + 1].0 == advanced_model(models[k], normals[k]).0,
    ensures
        models.last().0 == models[0].0 + normals.len(),
    decreases normals.len(),
{
    if normals.len() > 0 {
        let n = normals.len() as int;
        lemma_frame_after_advances(models.drop_last(), normals.drop_last());
        assert(models.drop_last().last() == models[n - 1]);
        assert(models[n].0 == advanced_model(models[n - 1], normals[n - 1]).0);
    }
}

/// Equal states fed equal inputs and contacts advance to equal states with
/// equal encodings and checksums: nothing else enters a frame.
pub proof fn lemma_advance_deterministic(
    a: (i32, Seq<Player>, Seq<u8>),
    b: (i32, Seq<Player>, Seq<u8>),
    normals: Seq<Vec<i32>>,
    physics: Seq<u8>,
)
    requires
        a == b,
    ensures
        advanced_model(a, normals) == advanced_model(b, normals),
        ({
            let na = advanced_model(a, normals);
            let nb = advanced_model(b, normals);
            encode_state((na.0, na.1, physics)) == encode_state((nb.0, nb.1, physics))
                && checksum_of((na.0, na.1, physics)) == checksum_of((nb.0, nb.1, physics))
        }),
{
}

} // verus!
