use box_game::checksum::fletcher16;
use box_game::error::GameError;
use box_game::game::{check_grounded, BoxGame, CHECKSUM_PERIOD};
use box_game::input::{
    controls, decode_input, effective_input, encode_input, keys_to_mask, InputFrame, Velocity,
    DISCONNECTED_INPUT, INPUT_DOWN, INPUT_LEFT, INPUT_RIGHT, INPUT_UP, NULL_FRAME, PLAYER_SPEED,
};
use box_game::level::{level_tiles, player_spawn, NUM_TILES, WINDOW_HEIGHT, WINDOW_WIDTH};
use box_game::state::{BoxGameState, Player, FORMAT_VERSION};

fn input(frame: i32, mask: u8) -> InputFrame {
    InputFrame { frame, bytes: encode_input(mask) }
}

fn no_contacts() -> Vec<Vec<i32>> {
    vec![vec![], vec![]]
}

/// Runs one full frame: advance, then a physics snapshot derived from the frame.
fn step(game: &mut BoxGame, masks: [u8; 2]) -> Vec<Velocity> {
    let frame = game.game_state().frame;
    let inputs = vec![input(frame + 1, masks[0]), input(frame + 1, masks[1])];
    let v = game.advance_frame(&inputs, &no_contacts()).unwrap();
    game.complete_frame(vec![masks[0], masks[1], (frame % 251) as u8]);
    v
}

#[test]
fn checksum_of_empty_is_zero() {
    assert_eq!(fletcher16(&[]), 0);
}

#[test]
fn checksum_known_values() {
    assert_eq!(fletcher16(b"abcde"), 0xC8F0);
    assert_eq!(fletcher16(b"abcdef"), 0x2057);
    assert_eq!(fletcher16(b"abcdefgh"), 0x0627);
}

#[test]
fn checksum_detects_every_single_bit_flip() {
    let buffers: Vec<Vec<u8>> = vec![vec![0], vec![255], vec![0, 255, 7], vec![1, 2, 3, 4, 5, 6]];
    for b in buffers {
        let c = fletcher16(&b);
        for i in 0..b.len() {
            for k in 0..8 {
                let mut f = b.clone();
                f[i] ^= 1u8 << k;
                assert_ne!(fletcher16(&f), c);
            }
        }
    }
}

#[test]
fn input_codec_round_trips_every_mask() {
    for m in 0..=255u8 {
        let e = encode_input(m);
        assert_eq!(e, vec![m]);
        assert_eq!(decode_input(&e), Ok(m));
    }
    assert_eq!(decode_input(&[9, 1]), Ok(9));
}

#[test]
fn decoding_empty_input_fails() {
    assert_eq!(decode_input(&[]), Err(GameError::InputDecode));
    let missing = InputFrame { frame: 3, bytes: vec![] };
    assert_eq!(effective_input(&missing), Err(GameError::InputDecode));
}

#[test]
fn disconnected_player_gets_default_input() {
    let gone = InputFrame { frame: NULL_FRAME, bytes: vec![] };
    assert_eq!(effective_input(&gone), Ok(DISCONNECTED_INPUT));
    let gone_with_bytes = InputFrame { frame: NULL_FRAME, bytes: vec![INPUT_UP] };
    assert_eq!(effective_input(&gone_with_bytes), Ok(DISCONNECTED_INPUT));
    let mut game = BoxGame::new(vec![]);
    let inputs = vec![gone, input(1, 0)];
    let v = game.advance_frame(&inputs, &no_contacts()).unwrap();
    assert_eq!(v[0], controls(DISCONNECTED_INPUT));
    assert_eq!(v[0], Velocity { x: -PLAYER_SPEED, y: 0 });
    assert_eq!(v[1], Velocity { x: 0, y: 0 });
}

#[test]
fn vertical_tie_resolves_to_down() {
    let v = controls(INPUT_UP | INPUT_DOWN);
    assert_eq!(v.y, PLAYER_SPEED);
    assert_eq!(controls(INPUT_UP).y, -PLAYER_SPEED);
    assert_eq!(controls(INPUT_DOWN).y, PLAYER_SPEED);
}

#[test]
fn horizontal_tie_resolves_to_left() {
    let v = controls(INPUT_LEFT | INPUT_RIGHT);
    assert_eq!(v.x, -PLAYER_SPEED);
    assert_eq!(controls(INPUT_RIGHT).x, PLAYER_SPEED);
    assert_eq!(controls(INPUT_LEFT).x, -PLAYER_SPEED);
}

#[test]
fn no_input_stops_both_axes() {
    assert_eq!(controls(0), Velocity { x: 0, y: 0 });
    assert_eq!(controls(0xF0), Velocity { x: 0, y: 0 });
}

#[test]
fn key_states_build_the_mask() {
    assert_eq!(keys_to_mask(true, false, false, false), INPUT_UP);
    assert_eq!(keys_to_mask(false, true, false, false), INPUT_LEFT);
    assert_eq!(keys_to_mask(false, false, true, false), INPUT_DOWN);
    assert_eq!(keys_to_mask(false, false, false, true), INPUT_RIGHT);
    let mut game = BoxGame::new(vec![]);
    game.set_key_states([true, false, true, true]);
    assert_eq!(game.local_input(), vec![INPUT_UP | INPUT_DOWN | INPUT_RIGHT]);
}

#[test]
fn grounded_needs_a_non_negative_normal() {
    assert!(!check_grounded(&vec![]));
    assert!(!check_grounded(&vec![-1, -1]));
    assert!(check_grounded(&vec![-1, 0]));
    assert!(check_grounded(&vec![1]));
}

#[test]
fn level_layout_is_a_closed_border() {
    let tiles = level_tiles();
    assert_eq!(tiles.len(), NUM_TILES);
    assert_eq!(tiles[0], (16, 16));
    assert_eq!(tiles[24], (784, 16));
    assert_eq!(tiles[25], (16, 48));
    assert_eq!(tiles[41], (16, 560));
    assert_eq!(tiles[42], (784, 48));
    assert_eq!(tiles[58], (784, 560));
    assert_eq!(tiles[59], (48, 560));
    assert_eq!(tiles[81], (752, 560));
}

#[test]
fn fresh_game_scenario() {
    let mut game = BoxGame::new(vec![1, 2, 3]);
    let s = game.game_state();
    assert_eq!(s.frame, 0);
    assert_eq!(s.players.len(), 2);
    assert!(!s.players[0].is_grounded && !s.players[1].is_grounded);
    assert_eq!(s.players[0].body_handle as usize, NUM_TILES);
    assert_eq!(s.players[1].body_handle as usize, NUM_TILES + 1);
    let (a, b) = (player_spawn(0), player_spawn(1));
    assert_eq!(a, (150, 400));
    assert_eq!(b, (450, 400));
    assert_eq!(a.0 + b.0, WINDOW_WIDTH);
    assert_eq!(a.1, WINDOW_HEIGHT / 2);
    assert_eq!(game.last_checksum(), (NULL_FRAME, 0));
    let initial = game.save_state(0).unwrap();
    assert_eq!(game.periodic_checksum(), (0, initial.checksum));
    assert_eq!(initial.checksum, fletcher16(&game.game_state().serialize()) as u64);
    let v = step(&mut game, [0, 0]);
    assert_eq!(v, vec![Velocity { x: 0, y: 0 }, Velocity { x: 0, y: 0 }]);
    assert_eq!(game.game_state().frame, 1);
}

#[test]
fn state_round_trips() {
    let s = BoxGameState {
        frame: 77,
        players: vec![
            Player { body_handle: 82, collider_handle: 90, is_grounded: true },
            Player { body_handle: 0x01020304, collider_handle: 7, is_grounded: false },
        ],
        physics: vec![5, 0, 255, 9],
    };
    let bytes = s.serialize();
    assert_eq!(bytes[0], FORMAT_VERSION);
    assert_eq!(bytes.len(), 28 + 4);
    let back = BoxGameState::deserialize(&bytes).unwrap();
    assert_eq!(back.frame, s.frame);
    assert_eq!(back.players, s.players);
    assert_eq!(back.physics, s.physics);
    assert_eq!(back.serialize(), bytes);
}

#[test]
fn corrupt_state_buffers_are_rejected() {
    let s = BoxGame::new(vec![4, 4]);
    let bytes = s.game_state().serialize();
    assert!(BoxGameState::deserialize(&bytes).is_ok());
    let mut bad_version = bytes.clone();
    bad_version[0] = 2;
    let truncated = bytes[..bytes.len() - 1].to_vec();
    let mut trailing = bytes.clone();
    trailing.push(0);
    let mut bad_flag = bytes.clone();
    bad_flag[14] = 2;
    let mut bad_count = bytes.clone();
    bad_count[5] = 3;
    let mut negative_frame = bytes.clone();
    negative_frame[4] = 0x80;
    for b in [bad_version, truncated, trailing, bad_flag, bad_count, negative_frame, vec![]] {
        assert_eq!(BoxGameState::deserialize(&b).err(), Some(GameError::StateCorruption));
    }
}

#[test]
fn save_checks_the_frame() {
    let game = BoxGame::new(vec![]);
    assert_eq!(game.save_state(1).err(), Some(GameError::FrameConsistency));
    let saved = game.save_state(0).unwrap();
    assert_eq!(saved.frame, 0);
    assert_eq!(saved.checksum, fletcher16(&saved.buffer) as u64);
}

#[test]
fn load_of_nothing_is_corruption() {
    let mut game = BoxGame::new(vec![1]);
    step(&mut game, [INPUT_UP, 0]);
    assert_eq!(game.load_game_state(None), Err(GameError::StateCorruption));
    assert_eq!(game.load_game_state(Some(vec![1, 2, 3])), Err(GameError::StateCorruption));
    assert_eq!(game.game_state().frame, 1);
}

#[test]
fn bad_input_leaves_state_unchanged() {
    let mut game = BoxGame::new(vec![]);
    let before = game.game_state().serialize();
    let inputs = vec![input(1, 0), InputFrame { frame: 1, bytes: vec![] }];
    assert_eq!(game.advance_frame(&inputs, &no_contacts()).err(), Some(GameError::InputDecode));
    assert_eq!(game.game_state().serialize(), before);
}

#[test]
fn advance_updates_grounded_flags() {
    let mut game = BoxGame::new(vec![]);
    let inputs = vec![input(1, 0), input(1, 0)];
    game.advance_frame(&inputs, &vec![vec![-1, 0], vec![-1]]).unwrap();
    assert!(game.game_state().players[0].is_grounded);
    assert!(!game.game_state().players[1].is_grounded);
}

#[test]
fn idempotent_load() {
    let mut game = BoxGame::new(vec![8, 9]);
    step(&mut game, [INPUT_DOWN, INPUT_LEFT]);
    let saved = game.save_state(1).unwrap();
    game.load_game_state(Some(saved.buffer.clone())).unwrap();
    assert_eq!(game.game_state().serialize(), saved.buffer);
    assert_eq!(game.save_state(1).unwrap().checksum, saved.checksum);
}

#[test]
fn rollback_to_a_saved_frame_reproduces_it() {
    let mut game = BoxGame::new(vec![0; 16]);
    for _ in 0..5 {
        step(&mut game, [INPUT_RIGHT, INPUT_UP]);
    }
    let saved = game.save_state(5).unwrap();
    for f in 6..=8 {
        step(&mut game, [INPUT_LEFT, INPUT_DOWN]);
        assert_eq!(game.game_state().frame, f);
    }
    game.load_game_state(Some(saved.buffer.clone())).unwrap();
    let again = game.save_state(5).unwrap();
    assert_eq!(again.buffer, saved.buffer);
    assert_eq!(again.checksum, saved.checksum);
}

#[test]
fn frame_counts_advances() {
    let mut game = BoxGame::new(vec![]);
    for _ in 0..3 {
        step(&mut game, [0, 0]);
    }
    let f0 = game.game_state().frame;
    for _ in 0..17 {
        step(&mut game, [INPUT_UP, INPUT_RIGHT]);
    }
    assert_eq!(game.game_state().frame, f0 + 17);
}

#[test]
fn periodic_checksum_cadence() {
    let mut game = BoxGame::new(vec![]);
    for _ in 0..250 {
        step(&mut game, [INPUT_UP, INPUT_LEFT]);
        let (pf, _) = game.periodic_checksum();
        assert!(pf >= 0 && pf % CHECKSUM_PERIOD == 0);
        let last = game.last_checksum();
        if last.0 % CHECKSUM_PERIOD == 0 {
            assert_eq!(game.periodic_checksum(), last);
        }
    }
    assert_eq!(game.last_checksum().0, 250);
    assert_eq!(game.periodic_checksum().0, 200);
}

#[test]
fn two_simulations_agree_frame_by_frame() {
    let mut a = BoxGame::new(vec![3, 1, 4]);
    let mut b = BoxGame::new(vec![3, 1, 4]);
    for k in 0..40u8 {
        let masks = [k % 16, (k * 7) % 16];
        assert_eq!(step(&mut a, masks), step(&mut b, masks));
        assert_eq!(a.game_state().serialize(), b.game_state().serialize());
        assert_eq!(a.last_checksum(), b.last_checksum());
    }
}

#[test]
fn save_into_session_cell() {
    let mut game = BoxGame::new(vec![6, 6]);
    step(&mut game, [INPUT_DOWN, 0]);
    let mut cell = ggrs::GameStateCell::default();
    assert_eq!(game.save_game_state(&mut cell, 0), Err(GameError::FrameConsistency));
    assert_eq!(game.save_game_state(&mut cell, 1), Ok(()));
    let stored = cell.load();
    let expected = game.save_state(1).unwrap();
    assert_eq!(stored.frame, 1);
    assert_eq!(stored.buffer, Some(expected.buffer));
    assert_eq!(stored.checksum, expected.checksum);
}
