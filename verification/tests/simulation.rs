use ggrs::GameStateCell;
use rollback_sim::cells::SessionRequest;
use rollback_sim::connection::ConnectionStatus;
use rollback_sim::game::{Game, Request, RequestError};
use rollback_sim::input::{
    Controls, Input, Keys, PlayerInput, Thrust, Turn, INPUT_DOWN, INPUT_LEFT, INPUT_RIGHT,
    INPUT_UP, NULL_FRAME,
};
use rollback_sim::state::{
    clamp_axis, move_body, Body, State, Task, ARENA_HEIGHT_BITS, ARENA_WIDTH_BITS, INFINITY_BITS,
};
use rollback_sim::store::SaveStore;

const ARENA_WIDTH: f32 = 800.0;
const ARENA_HEIGHT: f32 = 800.0;
const MOVEMENT_SPEED: f32 = 15.0 / 60.0;
const ROTATION_SPEED: f32 = 2.5 / 60.0;
const MAX_SPEED: f32 = 7.0;
const FRICTION: f32 = 0.98;
const TAU: f32 = 2.0 * std::f32::consts::PI;

fn float(bits: u32) -> f32 {
    f32::from_bits(bits)
}

fn solve(task: Task) -> (u32, u32) {
    match task {
        Task::Start { index, count } => {
            let r = ARENA_WIDTH / 4.0;
            let rot = index as i32 as f32 / count as f32 * 2.0 * std::f32::consts::PI;
            let x = ARENA_WIDTH / 2.0 + r * rot.cos();
            let y = ARENA_HEIGHT / 2.0 + r * rot.sin();
            (x.to_bits(), y.to_bits())
        }
        Task::Facing { index, count } => {
            let rot = index as i32 as f32 / count as f32 * 2.0 * std::f32::consts::PI;
            (((rot + std::f32::consts::PI) % TAU).to_bits(), 0)
        }
        Task::Damp { vel_x, vel_y } => {
            ((float(vel_x) * FRICTION).to_bits(), (float(vel_y) * FRICTION).to_bits())
        }
        Task::Thrust { vel_x, vel_y, rotation, forward } => {
            let rot = float(rotation);
            let mut x = float(vel_x);
            let mut y = float(vel_y);
            if forward {
                x += MOVEMENT_SPEED * rot.cos();
                y += MOVEMENT_SPEED * rot.sin();
            } else {
                x -= MOVEMENT_SPEED * rot.cos();
                y -= MOVEMENT_SPEED * rot.sin();
            }
            (x.to_bits(), y.to_bits())
        }
        Task::Turn { rotation, left } => {
            let rot = float(rotation);
            let turned = if left {
                (rot - ROTATION_SPEED).rem_euclid(TAU)
            } else {
                (rot + ROTATION_SPEED).rem_euclid(TAU)
            };
            (turned.to_bits(), 0)
        }
        Task::Limit { vel_x, vel_y } => {
            let mut x = float(vel_x);
            let mut y = float(vel_y);
            let magnitude = (x * x + y * y).sqrt();
            if magnitude > MAX_SPEED {
                x = (x * MAX_SPEED) / magnitude;
                y = (y * MAX_SPEED) / magnitude;
            }
            (x.to_bits(), y.to_bits())
        }
        Task::Travel { x, y, vel_x, vel_y } => {
            ((float(x) + float(vel_x)).to_bits(), (float(y) + float(vel_y)).to_bits())
        }
    }
}

fn held(mask: u8) -> PlayerInput {
    PlayerInput::present(0, Input { inp: mask })
}

fn both(mask: u8) -> Vec<PlayerInput> {
    vec![held(mask), held(mask)]
}

fn close(bits: u32, expected: f32) -> bool {
    (f32::from_bits(bits) - expected).abs() < 1e-3
}

fn float_parts(state: &State) -> (i32, usize, Vec<(f32, f32)>, Vec<(f32, f32)>, Vec<f32>) {
    let pairs = |v: &Vec<(u32, u32)>| -> Vec<(f32, f32)> {
        v.iter().map(|p| (f32::from_bits(p.0), f32::from_bits(p.1))).collect()
    };
    (
        state.frame,
        state.num_players,
        pairs(&state.positions),
        pairs(&state.velocities),
        state.rotations.iter().map(|r| f32::from_bits(*r)).collect(),
    )
}

#[test]
fn new_state_places_two_players_on_the_circle() {
    let state = State::new(2, &solve);
    assert_eq!(state.frame, 0);
    assert_eq!(state.num_players, 2);
    assert!(state.is_well_formed());
    assert!(close(state.positions[0].0, 600.0));
    assert!(close(state.positions[0].1, 400.0));
    assert!(close(state.rotations[0], std::f32::consts::PI));
    assert!(close(state.positions[1].0, 200.0));
    assert!(close(state.positions[1].1, 400.0));
    assert!(close(state.rotations[1], 0.0));
    assert_eq!(state.velocities, vec![(0, 0), (0, 0)]);
}

#[test]
fn idle_tick_leaves_positions_and_velocities() {
    let mut state = State::new(2, &solve);
    let before = state.duplicate();
    state.advance(both(0), &solve);
    assert_eq!(state.frame, 1);
    assert_eq!(state.positions, before.positions);
    assert_eq!(state.velocities, before.velocities);
    assert_eq!(state.rotations, before.rotations);
}

#[test]
fn forward_thrust_moves_along_the_facing() {
    let mut state = State::new(2, &solve);
    state.advance(both(INPUT_UP), &solve);
    // Player 0 faces the centre from the right: it moves left by one thrust.
    assert!(close(state.velocities[0].0, -0.25));
    assert!(close(state.velocities[0].1, 0.0));
    assert!(close(state.positions[0].0, 599.75));
    assert!(close(state.velocities[1].0, 0.25));
    assert!(close(state.positions[1].0, 200.25));
    state.advance(both(0), &solve);
    assert!(close(state.velocities[0].0, -0.245));
    assert!(close(state.positions[0].0, 599.505));
}

#[test]
fn reverse_thrust_moves_against_the_facing() {
    let mut state = State::new(2, &solve);
    state.advance(both(INPUT_DOWN), &solve);
    assert!(close(state.velocities[0].0, 0.25));
    assert!(close(state.positions[0].0, 600.25));
}

#[test]
fn opposing_controls_cancel() {
    let mut pressed = State::new(2, &solve);
    let mut idle = State::new(2, &solve);
    pressed.advance(both(INPUT_UP), &solve);
    idle.advance(both(INPUT_UP), &solve);
    pressed.advance(both(INPUT_UP | INPUT_DOWN | INPUT_LEFT | INPUT_RIGHT), &solve);
    idle.advance(both(0), &solve);
    assert_eq!(pressed.positions, idle.positions);
    assert_eq!(pressed.velocities, idle.velocities);
    assert_eq!(pressed.rotations, idle.rotations);
}

#[test]
fn turning_changes_rotation_by_one_step_and_wraps() {
    let mut state = State::new(2, &solve);
    state.advance(both(INPUT_RIGHT), &solve);
    assert!(close(state.rotations[0], std::f32::consts::PI + ROTATION_SPEED));
    assert!(close(state.rotations[1], ROTATION_SPEED));
    let mut state = State::new(2, &solve);
    state.advance(both(INPUT_LEFT), &solve);
    assert!(close(state.rotations[0], std::f32::consts::PI - ROTATION_SPEED));
    assert!(close(state.rotations[1], TAU - ROTATION_SPEED));
}

#[test]
fn missing_input_acts_as_right_turn() {
    let mut missing = State::new(2, &solve);
    let mut right = State::new(2, &solve);
    for _ in 0..200 {
        missing.advance(vec![PlayerInput::missing(), held(INPUT_UP)], &solve);
        right.advance(vec![held(INPUT_RIGHT), held(INPUT_UP)], &solve);
        assert_eq!(missing.positions, right.positions);
        assert_eq!(missing.velocities, right.velocities);
        assert_eq!(missing.rotations, right.rotations);
    }
    let ignored = PlayerInput { frame: NULL_FRAME, input: Input { inp: INPUT_UP | INPUT_LEFT } };
    assert_eq!(ignored.effective(), INPUT_RIGHT);
}

#[test]
fn sustained_thrust_stays_inside_the_arena() {
    for count in 1..=4usize {
        let mut state = State::new(count, &solve);
        for tick in 0..3000 {
            let mask = if tick % 700 < 350 { INPUT_UP } else { INPUT_UP | INPUT_LEFT };
            state.advance(vec![held(mask); count], &solve);
            for i in 0..count {
                let x = f32::from_bits(state.positions[i].0);
                let y = f32::from_bits(state.positions[i].1);
                let vx = f32::from_bits(state.velocities[i].0);
                let vy = f32::from_bits(state.velocities[i].1);
                assert!((0.0..=ARENA_WIDTH).contains(&x));
                assert!((0.0..=ARENA_HEIGHT).contains(&y));
                assert!((vx * vx + vy * vy).sqrt() <= MAX_SPEED + 1e-3);
                let rot = f32::from_bits(state.rotations[i]);
                assert!((0.0..=TAU).contains(&rot));
            }
        }
    }
}

#[test]
fn arena_size_is_eight_hundred() {
    assert_eq!(ARENA_WIDTH_BITS, ARENA_WIDTH.to_bits());
    assert_eq!(ARENA_HEIGHT_BITS, ARENA_HEIGHT.to_bits());
    assert_eq!(INFINITY_BITS, f32::INFINITY.to_bits());
}

#[test]
fn clamp_axis_agrees_with_the_float_clamp() {
    let samples: [f32; 14] = [
        0.0,
        1.0e-40,
        0.5,
        399.99997,
        799.99994,
        800.0,
        800.00006,
        1.0e30,
        f32::INFINITY,
        -1.0e-40,
        -0.25,
        -800.0,
        f32::NEG_INFINITY,
        f32::NAN,
    ];
    for value in samples {
        let expected = value.max(0.0).min(ARENA_WIDTH);
        assert_eq!(clamp_axis(value.to_bits(), ARENA_WIDTH_BITS), expected.to_bits());
    }
    assert_eq!(clamp_axis((-0.0f32).to_bits(), ARENA_WIDTH_BITS), 0);
    assert_eq!(clamp_axis(0xffc0_0000, ARENA_WIDTH_BITS), 0);
    assert_eq!(clamp_axis(2.0f32.to_bits(), 1.0f32.to_bits()), 1.0f32.to_bits());
}

#[test]
fn move_body_puts_the_tasks_in_order() {
    // An arithmetic that only records which task it was given.
    let tag = |task: Task| -> (u32, u32) {
        match task {
            Task::Damp { vel_x, vel_y } => (vel_x + 1, vel_y + 1),
            Task::Thrust { vel_x, vel_y, rotation, forward } => {
                (vel_x + 10 + rotation, vel_y + if forward { 20 } else { 30 })
            }
            Task::Turn { rotation, left } => (rotation + if left { 100 } else { 200 }, 9),
            Task::Limit { vel_x, vel_y } => (vel_x + 1000, vel_y + 1000),
            Task::Travel { x, y, vel_x, vel_y } => (x + vel_x, y + vel_y),
            _ => (0, 0),
        }
    };
    let before = Body { x: 5, y: 6, vel_x: 0, vel_y: 0, rotation: 7 };
    let idle = Controls { thrust: Thrust::Coast, turn: Turn::Straight };
    assert_eq!(
        move_body(before, idle, &tag),
        Body { x: 1006, y: 1007, vel_x: 1001, vel_y: 1001, rotation: 7 }
    );
    let forward_left = Controls { thrust: Thrust::Forward, turn: Turn::Left };
    assert_eq!(
        move_body(before, forward_left, &tag),
        Body { x: 1023, y: 1027, vel_x: 1018, vel_y: 1021, rotation: 107 }
    );
    let reverse_right = Controls { thrust: Thrust::Reverse, turn: Turn::Right };
    assert_eq!(
        move_body(before, reverse_right, &tag),
        Body { x: 1023, y: 1037, vel_x: 1018, vel_y: 1031, rotation: 207 }
    );
}

#[test]
fn move_body_holds_the_position_and_not_the_velocity() {
    let fling = |task: Task| -> (u32, u32) {
        match task {
            Task::Travel { .. } => (900.0f32.to_bits(), (-3.0f32).to_bits()),
            Task::Limit { .. } => (9.0f32.to_bits(), (-9.0f32).to_bits()),
            _ => (0, 0),
        }
    };
    let before = Body { x: 0, y: 0, vel_x: 0, vel_y: 0, rotation: 7.0f32.to_bits() };
    let idle = Controls { thrust: Thrust::Coast, turn: Turn::Straight };
    let held_in = move_body(before, idle, &fling);
    assert_eq!(held_in.x, 800.0f32.to_bits());
    assert_eq!(held_in.y, 0);
    assert_eq!(held_in.vel_x, 9.0f32.to_bits());
    assert_eq!(held_in.vel_y, (-9.0f32).to_bits());
    assert_eq!(held_in.rotation, before.rotation);
}

#[test]
fn wall_keeps_velocity_into_it() {
    let mut state = State::new(2, &solve);
    for _ in 0..2000 {
        state.advance(both(INPUT_DOWN), &solve);
    }
    // Player 0 backs away from the centre into the right wall.
    assert_eq!(f32::from_bits(state.positions[0].0), ARENA_WIDTH);
    assert!(f32::from_bits(state.velocities[0].0) > 1.0);
}

#[test]
fn two_runs_agree_byte_for_byte() {
    let mut one = Game::new(3, &solve);
    let mut other = Game::new(3, &solve);
    let mut store_one = SaveStore::new();
    let mut store_other = SaveStore::new();
    for tick in 0..350u32 {
        let inputs = vec![
            held((tick % 16) as u8),
            held(((tick / 3) % 16) as u8),
            if tick % 7 == 0 { PlayerInput::missing() } else { held(INPUT_UP) },
        ];
        let r1 = one.handle_requests(
            vec![Request::AdvanceFrame { inputs: inputs.clone() }],
            &mut store_one,
            &solve,
        );
        let r2 = other.handle_requests(
            vec![Request::AdvanceFrame { inputs }],
            &mut store_other,
            &solve,
        );
        assert_eq!(r1, Ok(()));
        assert_eq!(r2, Ok(()));
        assert_eq!(one.game_state.encode(), other.game_state.encode());
        assert_eq!(one.last_checksum, other.last_checksum);
        assert_eq!(one.periodic_checksum, other.periodic_checksum);
        if one.game_state.frame % 100 == 0 {
            assert_eq!(one.periodic_checksum.0, one.game_state.frame);
            assert_eq!(one.periodic_checksum, one.last_checksum);
        }
    }
    assert_eq!(one.periodic_checksum.0, 300);
    assert_eq!(one.last_checksum.0, 350);
}

#[test]
fn new_game_has_no_checksum_and_synchronizing_players() {
    let game = Game::new(4, &solve);
    assert_eq!(game.num_players, 4);
    assert_eq!(game.last_checksum, (NULL_FRAME, 0));
    assert_eq!(game.periodic_checksum, (NULL_FRAME, 0));
    assert_eq!(game.connection_info.len(), 4);
    for info in &game.connection_info {
        assert_eq!(info.status, ConnectionStatus::Synchronizing);
        assert_eq!(info.stats, None);
    }
    let empty = Game::new(0, &solve);
    assert_eq!(empty.game_state.positions.len(), 0);
}

#[test]
fn advance_notes_the_checksum_of_the_new_state() {
    let mut game = Game::new(2, &solve);
    let mut store = SaveStore::new();
    let result = game.handle_requests(
        vec![Request::AdvanceFrame { inputs: both(INPUT_UP) }],
        &mut store,
        &solve,
    );
    assert_eq!(result, Ok(()));
    assert_eq!(game.game_state.frame, 1);
    let bytes = game.game_state.encode();
    let expected = rollback_sim::checksum::fletcher16(&bytes) as u64;
    assert_eq!(game.last_checksum, (1, expected));
    assert_eq!(game.game_state.checksum(), expected);
    assert_eq!(game.periodic_checksum, (NULL_FRAME, 0));
}

#[test]
fn save_then_load_restores_the_state() {
    let mut game = Game::new(2, &solve);
    let mut store = SaveStore::new();
    let first = vec![
        Request::AdvanceFrame { inputs: both(INPUT_UP) },
        Request::AdvanceFrame { inputs: both(INPUT_UP | INPUT_RIGHT) },
        Request::SaveGameState { frame: 2 },
    ];
    assert_eq!(game.handle_requests(first, &mut store, &solve), Ok(()));
    let saved_bytes = game.game_state.encode();
    assert!(store.contains(2));
    let entry = store.get(2).unwrap();
    assert_eq!(entry.0.encode(), saved_bytes);
    assert_eq!(entry.1, rollback_sim::checksum::fletcher16(&saved_bytes) as u64);

    let roll = vec![
        Request::LoadGameState { frame: 2 },
    ];
    assert_eq!(game.handle_requests(roll, &mut store, &solve), Ok(()));
    assert_eq!(game.game_state.encode(), saved_bytes);

    let replay = vec![
        Request::AdvanceFrame { inputs: both(INPUT_LEFT) },
        Request::AdvanceFrame { inputs: both(INPUT_DOWN) },
        Request::LoadGameState { frame: 2 },
    ];
    assert_eq!(game.handle_requests(replay, &mut store, &solve), Ok(()));
    assert_eq!(game.game_state.frame, 2);
    assert_eq!(game.game_state.encode(), saved_bytes);
    // The checksums shown are those of the last advance, not of the load.
    assert_eq!(game.last_checksum.0, 4);
}

#[test]
fn save_of_another_frame_is_refused() {
    let mut game = Game::new(2, &solve);
    let mut store = SaveStore::new();
    let requests = vec![
        Request::AdvanceFrame { inputs: both(0) },
        Request::SaveGameState { frame: 5 },
        Request::AdvanceFrame { inputs: both(0) },
    ];
    assert_eq!(
        game.handle_requests(requests, &mut store, &solve),
        Err(RequestError::FrameMismatch)
    );
    assert_eq!(game.game_state.frame, 1);
    assert!(!store.contains(5));
    assert!(!store.contains(1));
}

#[test]
fn load_of_an_unsaved_frame_is_refused() {
    let mut game = Game::new(2, &solve);
    let mut store = SaveStore::new();
    let before = game.game_state.encode();
    assert_eq!(
        game.handle_request(&Request::LoadGameState { frame: 0 }, &mut store, &solve),
        Err(RequestError::MissingState)
    );
    assert_eq!(game.game_state.encode(), before);
}

#[test]
fn advance_at_the_last_frame_is_refused() {
    let mut game = Game::new(1, &solve);
    game.game_state.frame = i32::MAX;
    let mut store = SaveStore::new();
    assert_eq!(
        game.handle_request(&Request::AdvanceFrame { inputs: vec![held(0)] }, &mut store, &solve),
        Err(RequestError::FrameLimit)
    );
    assert_eq!(game.game_state.frame, i32::MAX);
}

#[test]
fn encoding_is_that_of_the_float_state() {
    let mut state = State::new(3, &solve);
    state.advance(vec![held(INPUT_UP), held(INPUT_LEFT), held(INPUT_DOWN)], &solve);
    let bytes = state.encode();
    assert_eq!(bytes, bincode::serialize(&float_parts(&state)).unwrap());
    assert_eq!(bytes.len(), 4 + 8 + (8 + 3 * 8) + (8 + 3 * 8) + (8 + 3 * 4));
}

#[test]
fn encoding_of_a_small_state_byte_by_byte() {
    let state = State::from_parts(
        258,
        1,
        vec![(1.0f32.to_bits(), 2.0f32.to_bits())],
        vec![(0, 0x0403_0201)],
        vec![0x8000_0000],
    )
    .unwrap();
    let expected: Vec<u8> = vec![
        2, 1, 0, 0, // frame
        1, 0, 0, 0, 0, 0, 0, 0, // player count
        1, 0, 0, 0, 0, 0, 0, 0, // positions
        0, 0, 0x80, 0x3f, 0, 0, 0, 0x40, //
        1, 0, 0, 0, 0, 0, 0, 0, // velocities
        0, 0, 0, 0, 1, 2, 3, 4, //
        1, 0, 0, 0, 0, 0, 0, 0, // rotations
        0, 0, 0, 0x80,
    ];
    assert_eq!(state.encode(), expected);
}

#[test]
fn from_parts_checks_the_lengths() {
    assert!(State::from_parts(0, 2, vec![(0, 0)], vec![(0, 0), (0, 0)], vec![0, 0]).is_none());
    assert!(State::from_parts(0, 1, vec![(0, 0)], vec![(0, 0)], vec![]).is_none());
    assert!(State::from_parts(-1, 0, vec![], vec![], vec![]).is_none());
    assert!(State::from_parts(7, 0, vec![], vec![], vec![]).is_some());
    let outside = 800.5f32.to_bits();
    assert!(State::from_parts(0, 1, vec![(outside, 0)], vec![(0, 0)], vec![0]).is_none());
    assert!(State::from_parts(0, 1, vec![(0, (-1.0f32).to_bits())], vec![(0, 0)], vec![0]).is_none());
    assert!(State::from_parts(0, 1, vec![(ARENA_WIDTH_BITS, 0)], vec![(outside, outside)], vec![0])
        .is_some());
}

#[test]
fn local_input_reads_the_players_own_keys() {
    let game = Game::new(2, &solve);
    let wasd = Keys { up: true, down: false, left: true, right: false };
    let arrows = Keys { up: false, down: true, left: false, right: true };
    assert_eq!(game.local_input(0, wasd, arrows).inp, INPUT_UP | INPUT_LEFT);
    assert_eq!(game.local_input(1, wasd, arrows).inp, INPUT_DOWN | INPUT_RIGHT);
    assert_eq!(game.local_input(2, wasd, arrows).inp, 0);
}

#[test]
fn serve_saves_into_the_cell_and_loads_from_it() {
    let mut game = Game::new(2, &solve);
    let cell: GameStateCell<State> = GameStateCell::default();
    let mut first = vec![
        SessionRequest::AdvanceFrame { inputs: both(INPUT_UP) },
        SessionRequest::SaveGameState { cell: cell.clone(), frame: 1 },
        SessionRequest::AdvanceFrame { inputs: both(INPUT_UP | INPUT_LEFT) },
    ];
    assert_eq!(game.serve(&mut first, &solve), Ok(()));
    assert_eq!(game.game_state.frame, 2);
    let after_two = game.game_state.encode();
    let saved = cell.load().unwrap();
    assert_eq!(saved.frame, 1);
    let saved_bytes = saved.encode();
    assert_ne!(saved_bytes, after_two);

    let mut roll = vec![
        SessionRequest::LoadGameState { cell: cell.clone(), frame: 1 },
    ];
    assert_eq!(game.serve(&mut roll, &solve), Ok(()));
    assert_eq!(game.game_state.encode(), saved_bytes);

    let mut replay = vec![
        SessionRequest::AdvanceFrame { inputs: both(INPUT_UP | INPUT_LEFT) },
    ];
    assert_eq!(game.serve(&mut replay, &solve), Ok(()));
    assert_eq!(game.game_state.encode(), after_two);
}

#[test]
fn serve_refuses_a_load_from_an_empty_cell() {
    let mut game = Game::new(2, &solve);
    let cell: GameStateCell<State> = GameStateCell::default();
    let before = game.game_state.encode();
    let mut requests = vec![
        SessionRequest::LoadGameState { cell: cell.clone(), frame: 3 },
        SessionRequest::AdvanceFrame { inputs: both(0) },
    ];
    assert_eq!(game.serve(&mut requests, &solve), Err(RequestError::MissingState));
    assert_eq!(game.game_state.encode(), before);
}

#[test]
fn serve_refuses_a_save_of_another_frame() {
    let mut game = Game::new(2, &solve);
    let cell: GameStateCell<State> = GameStateCell::default();
    let mut requests = vec![SessionRequest::SaveGameState { cell: cell.clone(), frame: 4 }];
    assert_eq!(game.serve(&mut requests, &solve), Err(RequestError::FrameMismatch));
    assert!(cell.load().is_none());
}

#[test]
fn store_and_cell_exchange_states() {
    let game = Game::new(3, &solve);
    let mut cell: GameStateCell<State> = GameStateCell::default();
    let mut store = SaveStore::new();
    assert!(!store.fetch(&cell, 0, 3));
    assert!(!store.contains(0));
    assert!(!store.deliver(&mut cell, 0));

    store.put(0, game.game_state.duplicate(), 77);
    assert!(!store.deliver(&mut cell, 1));
    assert!(!store.deliver(&mut cell, NULL_FRAME));
    assert!(store.deliver(&mut cell, 0));
    assert_eq!(
        cell.load().unwrap().encode(),
        game.game_state.encode()
    );

    let mut other = SaveStore::new();
    assert!(!other.fetch(&cell, 5, 2));
    assert!(!other.contains(5));
    assert!(other.fetch(&cell, 5, 3));
    assert_eq!(
        other.get(5).unwrap().0.encode(),
        game.game_state.encode()
    );
}

#[test]
fn take_in_checks_the_state() {
    let mut store = SaveStore::new();
    assert!(!store.take_in(1, None, 1));
    let outside = State {
        frame: 1,
        num_players: 1,
        positions: vec![(900.0f32.to_bits(), 0)],
        velocities: vec![(0, 0)],
        rotations: vec![0],
    };
    assert!(!store.take_in(1, Some(outside), 1));
    let inside = State::from_parts(1, 1, vec![(0, 0)], vec![(0, 0)], vec![0]).unwrap();
    assert!(store.take_in(1, Some(inside), 1));
    assert_eq!(store.get(1).unwrap().1, 0);
}

#[test]
fn deliver_leaves_the_cell_where_nothing_is_saved() {
    let game = Game::new(2, &solve);
    let mut store = SaveStore::new();
    store.put(4, game.game_state.duplicate(), 9);
    let mut cell: GameStateCell<State> = GameStateCell::default();
    assert!(store.deliver(&mut cell, 4));
    let held = cell.load().unwrap().encode();
    assert!(!store.deliver(&mut cell, 5));
    assert!(!store.deliver(&mut cell, NULL_FRAME));
    assert_eq!(cell.load().unwrap().encode(), held);
}

#[test]
fn serve_writes_every_save_cell_of_a_run() {
    let mut game = Game::new(2, &solve);
    let first: GameStateCell<State> = GameStateCell::default();
    let second: GameStateCell<State> = GameStateCell::default();
    let mut requests = vec![
        SessionRequest::SaveGameState { cell: first.clone(), frame: 0 },
        SessionRequest::AdvanceFrame { inputs: both(INPUT_UP) },
        SessionRequest::SaveGameState { cell: second.clone(), frame: 1 },
        SessionRequest::AdvanceFrame { inputs: both(INPUT_UP) },
    ];
    assert_eq!(game.serve(&mut requests, &solve), Ok(()));
    assert_eq!(requests.len(), 4);
    let at_start = first.load().unwrap();
    let after_one = second.load().unwrap();
    assert_eq!(at_start.frame, 0);
    assert_eq!(after_one.frame, 1);
    assert_eq!(at_start.encode(), Game::new(2, &solve).game_state.encode());
    assert_ne!(after_one.encode(), at_start.encode());
    assert_eq!(game.game_state.frame, 2);
}

#[test]
fn serve_writes_no_cell_after_a_failure() {
    let mut game = Game::new(2, &solve);
    let saved: GameStateCell<State> = GameStateCell::default();
    let empty: GameStateCell<State> = GameStateCell::default();
    let mut requests = vec![
        SessionRequest::SaveGameState { cell: saved.clone(), frame: 0 },
        SessionRequest::LoadGameState { cell: empty.clone(), frame: 7 },
    ];
    assert_eq!(game.serve(&mut requests, &solve), Err(RequestError::MissingState));
    assert!(saved.load().is_none());
}

#[test]
fn save_and_load_by_hand() {
    let mut game = Game::new(2, &solve);
    let mut store = SaveStore::new();
    game.save_game_state(&mut store, 0);
    let at_start = game.game_state.encode();
    let entry = store.get(0).unwrap();
    assert_eq!(entry.0.encode(), at_start);
    assert_eq!(entry.1, rollback_sim::checksum::fletcher16(&at_start) as u64);
    game.game_state.advance(both(INPUT_UP), &solve);
    assert_ne!(game.game_state.encode(), at_start);
    game.load_game_state(&store, 0);
    assert_eq!(game.game_state.encode(), at_start);
    assert_eq!(game.game_state.frame, 0);
}
