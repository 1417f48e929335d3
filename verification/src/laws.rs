//! What holds of the simulation as a whole: replays agree, a saved state
//! comes back as it was, and a missing input is one particular input.

use vstd::prelude::*;
use crate::encoding::{encoded_state, state_checksum};
use crate::game::{GameView, RequestError};
use crate::input::{
    controls_spec, has_flag, Controls, PlayerInput, Thrust, Turn, INPUT_DOWN, INPUT_LEFT,
    INPUT_RIGHT, INPUT_UP, NULL_FRAME,
};
use crate::state::{moved_by, placed_at, thrust_done, turn_done, Body, StateView, Task};

verus! {

/// The arithmetic is deterministic when the same task always gets the same
/// answer.
pub open spec fn deterministic<F: Fn(Task) -> (u32, u32)>(solve: F) -> bool {
    forall|task: Task, one: (u32, u32), other: (u32, u32)|
        call_ensures(solve, (task,), one) && call_ensures(solve, (task,), other) ==> one == other
}

/// `states` is the run that starts in `states[0]` and applies the inputs of
/// `log` tick by tick: one state more than there are ticks, each one tick
/// after the one before it.
pub open spec fn is_run<F: Fn(Task) -> (u32, u32)>(
    states: Seq<StateView>,
    log: Seq<Seq<PlayerInput>>,
    solve: F,
) -> bool {
    &&& states.len() == log.len() + 1
    &&& forall|k: int|
        0 <= k < log.len() ==> (#[trigger] states[k]).advanced_to(log[k], solve, states[k + 1])
}

/// Two states with the same player count whose players have the same
/// kinematics, one by one, are the same state but for the frame.
proof fn lemma_same_bodies(a: StateView, b: StateView)
    requires
        a.wf(),
        b.wf(),
        a.num_players == b.num_players,
        forall|i: int| 0 <= i < a.num_players ==> a.body(i) == b.body(i),
    ensures
        a.positions == b.positions,
        a.velocities == b.velocities,
        a.rotations == b.rotations,
{
    assert forall|i: int| 0 <= i < a.num_players implies a.positions[i] == b.positions[i]
        && a.velocities[i] == b.velocities[i] && a.rotations[i] == b.rotations[i] by {
        assert(a.body(i) == b.body(i));
        assert(a.positions[i].0 == a.body(i).x);
        assert(a.positions[i].1 == a.body(i).y);
        assert(a.velocities[i].0 == a.body(i).vel_x);
        assert(a.velocities[i].1 == a.body(i).vel_y);
    }
    assert(a.positions =~= b.positions);
    assert(a.velocities =~= b.velocities);
    assert(a.rotations =~= b.rotations);
}

/// Under deterministic arithmetic a player's move is determined by where
/// the player was and what was decided.
pub proof fn lemma_move_is_deterministic<F: Fn(Task) -> (u32, u32)>(
    solve: F,
    before: Body,
    controls: Controls,
    one: Body,
    other: Body,
)
    requires
        deterministic(solve),
        moved_by(solve, before, controls, one),
        moved_by(solve, before, controls, other),
    ensures
        one == other,
{
    let (d1, p1, r1) = choose|damped: (u32, u32), pushed: (u32, u32), reached: (u32, u32)|
        {
            &&& call_ensures(
                solve,
                (Task::Damp { vel_x: before.vel_x, vel_y: before.vel_y },),
                damped,
            )
            &&& #[trigger] thrust_done(solve, damped, before.rotation, controls.thrust, pushed)
            &&& call_ensures(
                solve,
                (Task::Limit { vel_x: pushed.0, vel_y: pushed.1 },),
                (one.vel_x, one.vel_y),
            )
            &&& turn_done(solve, before.rotation, controls.turn, one.rotation)
            &&& #[trigger] call_ensures(
                solve,
                (Task::Travel { x: before.x, y: before.y, vel_x: one.vel_x, vel_y: one.vel_y },),
                reached,
            )
            &&& one.x == crate::state::clamp_spec(reached.0, crate::state::ARENA_WIDTH_BITS)
            &&& one.y == crate::state::clamp_spec(reached.1, crate::state::ARENA_HEIGHT_BITS)
        };
    let (d2, p2, r2) = choose|damped: (u32, u32), pushed: (u32, u32), reached: (u32, u32)|
        {
            &&& call_ensures(
                solve,
                (Task::Damp { vel_x: before.vel_x, vel_y: before.vel_y },),
                damped,
            )
            &&& #[trigger] thrust_done(solve, damped, before.rotation, controls.thrust, pushed)
            &&& call_ensures(
                solve,
                (Task::Limit { vel_x: pushed.0, vel_y: pushed.1 },),
                (other.vel_x, other.vel_y),
            )
            &&& turn_done(solve, before.rotation, controls.turn, other.rotation)
            &&& #[trigger] call_ensures(
                solve,
                (Task::Travel {
                    x: before.x,
                    y: before.y,
                    vel_x: other.vel_x,
                    vel_y: other.vel_y,
                },),
                reached,
            )
            &&& other.x == crate::state::clamp_spec(reached.0, crate::state::ARENA_WIDTH_BITS)
            &&& other.y == crate::state::clamp_spec(reached.1, crate::state::ARENA_HEIGHT_BITS)
        };
    assert(d1 == d2);
    assert(p1 == p2);
    assert((one.vel_x, one.vel_y) == (other.vel_x, other.vel_y));
    assert(one.rotation == other.rotation) by {
        match controls.turn {
            Turn::Straight => {},
            Turn::Left => {
                let a = choose|rest: u32| #[trigger]
                    call_ensures(
                        solve,
                        (Task::Turn { rotation: before.rotation, left: true },),
                        (one.rotation, rest),
                    );
                let b = choose|rest: u32| #[trigger]
                    call_ensures(
                        solve,
                        (Task::Turn { rotation: before.rotation, left: true },),
                        (other.rotation, rest),
                    );
                assert((one.rotation, a) == (other.rotation, b));
            },
            Turn::Right => {
                let a = choose|rest: u32| #[trigger]
                    call_ensures(
                        solve,
                        (Task::Turn { rotation: before.rotation, left: false },),
                        (one.rotation, rest),
                    );
                let b = choose|rest: u32| #[trigger]
                    call_ensures(
                        solve,
                        (Task::Turn { rotation: before.rotation, left: false },),
                        (other.rotation, rest),
                    );
                assert((one.rotation, a) == (other.rotation, b));
            },
        }
    }
    assert(r1 == r2);
}

/// With no thrust and no turn decided, as when opposing controls are held
/// together, a tick leaves the rotation as it was, and the new velocity is
/// the old one after friction and the speed limit: no thrust task and no
/// turn task has any part in it.
pub proof fn lemma_cancelled_controls<F: Fn(Task) -> (u32, u32)>(
    solve: F,
    before: Body,
    controls: Controls,
    after: Body,
)
    requires
        moved_by(solve, before, controls, after),
        controls.thrust == Thrust::Coast,
        controls.turn == Turn::Straight,
    ensures
        after.rotation == before.rotation,
        exists|damped: (u32, u32)|
            {
                &&& #[trigger] call_ensures(
                    solve,
                    (Task::Damp { vel_x: before.vel_x, vel_y: before.vel_y },),
                    damped,
                )
                &&& call_ensures(
                    solve,
                    (Task::Limit { vel_x: damped.0, vel_y: damped.1 },),
                    (after.vel_x, after.vel_y),
                )
            },
{
    let (damped, pushed, reached) = choose|
        damped: (u32, u32),
        pushed: (u32, u32),
        reached: (u32, u32),
    |
        {
            &&& call_ensures(
                solve,
                (Task::Damp { vel_x: before.vel_x, vel_y: before.vel_y },),
                damped,
            )
            &&& #[trigger] thrust_done(solve, damped, before.rotation, controls.thrust, pushed)
            &&& call_ensures(
                solve,
                (Task::Limit { vel_x: pushed.0, vel_y: pushed.1 },),
                (after.vel_x, after.vel_y),
            )
            &&& turn_done(solve, before.rotation, controls.turn, after.rotation)
            &&& #[trigger] call_ensures(
                solve,
                (Task::Travel {
                    x: before.x,
                    y: before.y,
                    vel_x: after.vel_x,
                    vel_y: after.vel_y,
                },),
                reached,
            )
            &&& after.x == crate::state::clamp_spec(reached.0, crate::state::ARENA_WIDTH_BITS)
            &&& after.y == crate::state::clamp_spec(reached.1, crate::state::ARENA_HEIGHT_BITS)
        };
    assert(pushed == damped);
    assert(call_ensures(
        solve,
        (Task::Damp { vel_x: before.vel_x, vel_y: before.vel_y },),
        damped,
    ));
}

/// A player who holds up and down together, and left and right together,
/// keeps its rotation, and its new velocity is the old one after friction
/// and the speed limit, whatever else the input holds.
pub proof fn lemma_opposing_controls_leave_friction<F: Fn(Task) -> (u32, u32)>(
    solve: F,
    before: Body,
    input: PlayerInput,
    after: Body,
)
    requires
        input.frame != NULL_FRAME,
        has_flag(input.input.inp, INPUT_UP) && has_flag(input.input.inp, INPUT_DOWN),
        has_flag(input.input.inp, INPUT_LEFT) && has_flag(input.input.inp, INPUT_RIGHT),
        moved_by(solve, before, controls_spec(input), after),
    ensures
        after.rotation == before.rotation,
        exists|damped: (u32, u32)|
            {
                &&& #[trigger] call_ensures(
                    solve,
                    (Task::Damp { vel_x: before.vel_x, vel_y: before.vel_y },),
                    damped,
                )
                &&& call_ensures(
                    solve,
                    (Task::Limit { vel_x: damped.0, vel_y: damped.1 },),
                    (after.vel_x, after.vel_y),
                )
            },
{
    crate::input::lemma_opposing_controls_cancel(input);
    lemma_cancelled_controls(solve, before, controls_spec(input), after);
}

/// Two fresh states for the same number of players, under deterministic
/// arithmetic, are the same state.
pub proof fn lemma_new_is_deterministic<F: Fn(Task) -> (u32, u32)>(
    num_players: usize,
    solve: F,
    one: StateView,
    other: StateView,
)
    requires
        deterministic(solve),
        one.placed_by(num_players, solve),
        other.placed_by(num_players, solve),
    ensures
        one == other,
{
    assert forall|i: int| 0 <= i < num_players implies one.body(i) == other.body(i) by {
        let a = one.body(i);
        let b = other.body(i);
        assert(placed_at(solve, i as usize, num_players, a));
        assert(placed_at(solve, i as usize, num_players, b));
        let (p1, r1) = choose|point: (u32, u32), rest: u32|
            {
                &&& #[trigger] call_ensures(
                    solve,
                    (Task::Start { index: i as usize, count: num_players },),
                    point,
                )
                &&& #[trigger] call_ensures(
                    solve,
                    (Task::Facing { index: i as usize, count: num_players },),
                    (a.rotation, rest),
                )
                &&& a.x == crate::state::clamp_spec(point.0, crate::state::ARENA_WIDTH_BITS)
                &&& a.y == crate::state::clamp_spec(point.1, crate::state::ARENA_HEIGHT_BITS)
                &&& a.vel_x == 0
                &&& a.vel_y == 0
            };
        let (p2, r2) = choose|point: (u32, u32), rest: u32|
            {
                &&& #[trigger] call_ensures(
                    solve,
                    (Task::Start { index: i as usize, count: num_players },),
                    point,
                )
                &&& #[trigger] call_ensures(
                    solve,
                    (Task::Facing { index: i as usize, count: num_players },),
                    (b.rotation, rest),
                )
                &&& b.x == crate::state::clamp_spec(point.0, crate::state::ARENA_WIDTH_BITS)
                &&& b.y == crate::state::clamp_spec(point.1, crate::state::ARENA_HEIGHT_BITS)
                &&& b.vel_x == 0
                &&& b.vel_y == 0
            };
        assert(p1 == p2);
        assert((a.rotation, r1) == (b.rotation, r2));
    }
    lemma_same_bodies(one, other);
}

/// One tick from the same state with the same inputs, under deterministic
/// arithmetic, ends in the same state: the same bytes and the same
/// checksum.
pub proof fn lemma_advance_is_deterministic<F: Fn(Task) -> (u32, u32)>(
    pre: StateView,
    inputs: Seq<PlayerInput>,
    solve: F,
    one: StateView,
    other: StateView,
)
    requires
        deterministic(solve),
        pre.advanced_to(inputs, solve, one),
        pre.advanced_to(inputs, solve, other),
    ensures
        one == other,
        encoded_state(one) == encoded_state(other),
        state_checksum(one) == state_checksum(other),
{
    assert forall|i: int| 0 <= i < one.num_players implies one.body(i) == other.body(i) by {
        lemma_move_is_deterministic(
            solve,
            pre.body(i),
            controls_spec(inputs[i]),
            one.body(i),
            other.body(i),
        );
    }
    lemma_same_bodies(one, other);
}

/// Two runs from the same state over the same input log, under
/// deterministic arithmetic, agree at every frame: in the state, in
/// its bytes and in its checksum.
pub proof fn lemma_replay_agrees<F: Fn(Task) -> (u32, u32)>(
    one: Seq<StateView>,
    other: Seq<StateView>,
    log: Seq<Seq<PlayerInput>>,
    solve: F,
    frame: int,
)
    requires
        deterministic(solve),
        is_run(one, log, solve),
        is_run(other, log, solve),
        one[0] == other[0],
        0 <= frame <= log.len(),
    ensures
        one[frame] == other[frame],
        encoded_state(one[frame]) == encoded_state(other[frame]),
        state_checksum(one[frame]) == state_checksum(other[frame]),
    decreases frame,
{
    if frame > 0 {
        lemma_replay_agrees(one, other, log, solve, frame - 1);
        assert(one[frame - 1].advanced_to(log[frame - 1], solve, one[frame - 1 + 1]));
        assert(other[frame - 1].advanced_to(log[frame - 1], solve, other[frame - 1 + 1]));
        lemma_advance_is_deterministic(
            one[frame - 1],
            log[frame - 1],
            solve,
            one[frame],
            other[frame],
        );
    }
}

/// Two games that note the checksum of the same state note the same last
/// checksum and, at a frame that is a multiple of the period, the same
/// periodic checksum.
pub proof fn lemma_noted_checksums_agree(one: GameView, other: GameView)
    requires
        one.state == other.state,
    ensures
        one.noting(state_checksum(one.state) as u64).last_checksum == other.noting(
            state_checksum(other.state) as u64,
        ).last_checksum,
        one.state.frame % crate::game::CHECKSUM_PERIOD == 0 ==> one.noting(
            state_checksum(one.state) as u64,
        ).periodic_checksum == other.noting(state_checksum(other.state) as u64).periodic_checksum,
{
}

/// A save of the current frame, followed at once by a load of the same
/// frame: both succeed, and the game is as it was before the save, in its
/// state and in its bytes.
pub proof fn lemma_save_then_load(
    before: GameView,
    store: Map<i32, (StateView, u64)>,
    frame: i32,
    saved: GameView,
    saved_store: Map<i32, (StateView, u64)>,
    save_result: Result<(), RequestError>,
    loaded: GameView,
    loaded_store: Map<i32, (StateView, u64)>,
    load_result: Result<(), RequestError>,
)
    requires
        before.state.frame == frame,
        before.saved(store, frame, saved, saved_store, save_result),
        saved.loaded(saved_store, frame, loaded, loaded_store, load_result),
    ensures
        save_result is Ok,
        load_result is Ok,
        loaded == before,
        encoded_state(loaded.state) == encoded_state(before.state),
        loaded_store == saved_store,
{
}

/// `games` is the run of a game that starts as `games[0]` and advances by
/// the inputs of `log` tick by tick, every advance succeeding.
pub open spec fn is_game_run<F: Fn(Task) -> (u32, u32)>(
    games: Seq<GameView>,
    log: Seq<Seq<PlayerInput>>,
    solve: F,
) -> bool {
    &&& games.len() == log.len() + 1
    &&& forall|k: int|
        0 <= k < log.len() ==> (#[trigger] games[k]).frame_advanced(
            log[k],
            solve,
            games[k + 1],
            Ok(()),
        )
}

/// Two games in the same state that advance with the same inputs, under
/// deterministic arithmetic, succeed or fail together. Where they succeed
/// they end in the same state with the same last checksum, and with the same
/// periodic checksum too where they had the same before or the new frame is
/// a multiple of the period.
pub proof fn lemma_frame_advance_is_deterministic<F: Fn(Task) -> (u32, u32)>(
    one: GameView,
    other: GameView,
    inputs: Seq<PlayerInput>,
    solve: F,
    one_after: GameView,
    other_after: GameView,
    one_result: Result<(), RequestError>,
    other_result: Result<(), RequestError>,
)
    requires
        deterministic(solve),
        one.state == other.state,
        one.frame_advanced(inputs, solve, one_after, one_result),
        other.frame_advanced(inputs, solve, other_after, other_result),
    ensures
        one_result is Ok == other_result is Ok,
        one_after.state == other_after.state,
        encoded_state(one_after.state) == encoded_state(other_after.state),
        one_result is Ok ==> one_after.last_checksum == other_after.last_checksum,
        one_result is Ok ==> one_after.last_checksum == (
            one_after.state.frame,
            state_checksum(one_after.state) as u64,
        ),
        one.periodic_checksum == other.periodic_checksum ==> one_after.periodic_checksum
            == other_after.periodic_checksum,
        one_result is Ok && one_after.state.frame % crate::game::CHECKSUM_PERIOD == 0
            ==> one_after.periodic_checksum == other_after.periodic_checksum
            && one_after.periodic_checksum == one_after.last_checksum,
{
    if one.state.frame != i32::MAX {
        lemma_advance_is_deterministic(
            one.state,
            inputs,
            solve,
            one_after.state,
            other_after.state,
        );
    }
}

/// Two games that start with the same state and the same checksums noted,
/// as two new games of the same size do, and replay the same input log
/// under deterministic arithmetic, agree at every frame: in the state, in
/// its bytes, in the last checksum and in the periodic checksum. After at
/// least one tick the last checksum is the one of the current state, and at
/// a frame that is a multiple of the period it is the periodic one too.
pub proof fn lemma_game_replay_agrees<F: Fn(Task) -> (u32, u32)>(
    one: Seq<GameView>,
    other: Seq<GameView>,
    log: Seq<Seq<PlayerInput>>,
    solve: F,
    tick: int,
)
    requires
        deterministic(solve),
        is_game_run(one, log, solve),
        is_game_run(other, log, solve),
        one[0].state == other[0].state,
        one[0].last_checksum == other[0].last_checksum,
        one[0].periodic_checksum == other[0].periodic_checksum,
        0 <= tick <= log.len(),
    ensures
        one[tick].state == other[tick].state,
        encoded_state(one[tick].state) == encoded_state(other[tick].state),
        one[tick].last_checksum == other[tick].last_checksum,
        one[tick].periodic_checksum == other[tick].periodic_checksum,
        one[tick].state.frame == one[0].state.frame + tick,
        tick > 0 ==> one[tick].last_checksum == (
            one[tick].state.frame,
            state_checksum(one[tick].state) as u64,
        ),
        tick > 0 && one[tick].state.frame % crate::game::CHECKSUM_PERIOD == 0
            ==> one[tick].periodic_checksum == one[tick].last_checksum,
    decreases tick,
{
    if tick > 0 {
        lemma_game_replay_agrees(one, other, log, solve, tick - 1);
        assert(one[tick - 1].frame_advanced(log[tick - 1], solve, one[tick - 1 + 1], Ok(())));
        assert(other[tick - 1].frame_advanced(log[tick - 1], solve, other[tick - 1 + 1], Ok(())));
        lemma_frame_advance_is_deterministic(
            one[tick - 1],
            other[tick - 1],
            log[tick - 1],
            solve,
            one[tick],
            other[tick],
            Ok(()),
            Ok(()),
        );
    }
}

/// A tick in which one player's input is missing is the same tick as one in
/// which that player holds "right" and nothing else, whatever the player's
/// rotation and whatever the arithmetic.
pub proof fn lemma_missing_input_is_right_turn<F: Fn(Task) -> (u32, u32)>(
    pre: StateView,
    inputs: Seq<PlayerInput>,
    player: int,
    solve: F,
    post: StateView,
)
    requires
        inputs.len() == pre.num_players,
        0 <= player < inputs.len(),
        inputs[player].frame == NULL_FRAME,
    ensures
        pre.advanced_to(inputs, solve, post) <==> pre.advanced_to(
            inputs.update(
                player,
                PlayerInput { frame: 0, input: crate::input::Input { inp: INPUT_RIGHT } },
            ),
            solve,
            post,
        ),
{
    let present = PlayerInput { frame: 0, input: crate::input::Input { inp: INPUT_RIGHT } };
    let swapped = inputs.update(player, present);
    crate::input::lemma_missing_input_turns_right(inputs[player], present);
    assert forall|i: int| 0 <= i < inputs.len() implies controls_spec(#[trigger] inputs[i])
        == controls_spec(swapped[i]) by {}
    if pre.advanced_to(inputs, solve, post) {
        assert forall|i: int| 0 <= i < pre.num_players implies moved_by(
            solve,
            pre.body(i),
            controls_spec(swapped[i]),
            #[trigger] post.body(i),
        ) by {
            if i < inputs.len() {
                assert(controls_spec(inputs[i]) == controls_spec(swapped[i]));
            }
        }
    }
    if pre.advanced_to(swapped, solve, post) {
        assert forall|i: int| 0 <= i < pre.num_players implies moved_by(
            solve,
            pre.body(i),
            controls_spec(inputs[i]),
            #[trigger] post.body(i),
        ) by {
            if i < inputs.len() {
                assert(controls_spec(inputs[i]) == controls_spec(swapped[i]));
            }
        }
    }
}

} // verus!
