//! The simulation state: a frame counter and, per player, position,
//! velocity and rotation.
//!
//! Every number is held as the bit pattern of an IEEE 754 single, so that two
//! states are equal exactly when they are bit-identical. The arithmetic on
//! those numbers is not part of this module: each piece of it is a [`Task`]
//! put to a function that the caller supplies, and everything said here holds
//! for whatever that function is. Which tasks are put, in which order and on
//! which numbers, is decided here. The walls of the arena are this module's
//! own too: for singles that are not negative, the order of the bit patterns
//! is the order of the numbers, so a position is held inside the arena by
//! comparing bit patterns.

use vstd::prelude::*;
use crate::input::{controls_spec, Controls, PlayerInput, Thrust, Turn};

verus! {

/// The width of the arena, 800, as the bit pattern of a single.
pub const ARENA_WIDTH_BITS: u32 = 0x4448_0000;

/// The height of the arena, 800, as the bit pattern of a single.
pub const ARENA_HEIGHT_BITS: u32 = 0x4448_0000;

/// The bit pattern of positive infinity. Every pattern above it is a NaN or
/// has the sign bit set.
pub const INFINITY_BITS: u32 = 0x7f80_0000;

/// Position, velocity and rotation of one player, each number as the bit
/// pattern of a single.
#[derive(Clone, Copy, Debug, PartialEq, Eq, Structural)]
pub struct Body {
    pub x: u32,
    pub y: u32,
    pub vel_x: u32,
    pub vel_y: u32,
    pub rotation: u32,
}

/// One piece of arithmetic on singles. The answer is a pair of bit patterns;
/// a task with a single answer gives it first.
#[derive(Clone, Copy, Debug, PartialEq, Eq, Structural)]
pub enum Task {
    /// The point on the starting circle of player `index` of `count`.
    Start { index: usize, count: usize },
    /// The rotation at which player `index` of `count` faces the centre of
    /// the starting circle.
    Facing { index: usize, count: usize },
    /// The velocity after one tick of friction.
    Damp { vel_x: u32, vel_y: u32 },
    /// The velocity after one tick of thrust along `rotation`, or against it
    /// where `forward` is false.
    Thrust { vel_x: u32, vel_y: u32, rotation: u32, forward: bool },
    /// The rotation after one angular step to the left or to the right,
    /// wrapped into a full turn.
    Turn { rotation: u32, left: bool },
    /// The velocity scaled down to the top speed where it is faster.
    Limit { vel_x: u32, vel_y: u32 },
    /// The position after the velocity is added to it.
    Travel { x: u32, y: u32, vel_x: u32, vel_y: u32 },
}

/// The whole simulation state.
#[derive(Clone, Debug)]
pub struct State {
    pub frame: i32,
    pub num_players: usize,
    pub positions: Vec<(u32, u32)>,
    pub velocities: Vec<(u32, u32)>,
    pub rotations: Vec<u32>,
}

/// The mathematical content of a [`State`].
pub ghost struct StateView {
    pub frame: i32,
    pub num_players: usize,
    pub positions: Seq<(u32, u32)>,
    pub velocities: Seq<(u32, u32)>,
    pub rotations: Seq<u32>,
}

/// A coordinate held between 0 and `limit`: a number below zero, a negative
/// zero or a NaN becomes zero, a number above the limit becomes the limit,
/// and every other number stays as it is.
pub open spec fn clamp_spec(bits: u32, limit: u32) -> u32 {
    if bits > INFINITY_BITS {
        0
    } else if bits > limit {
        limit
    } else {
        bits
    }
}

/// A position lies inside the arena when neither coordinate is negative, a
/// NaN or beyond the arena's size.
pub open spec fn in_arena(position: (u32, u32)) -> bool {
    position.0 <= ARENA_WIDTH_BITS && position.1 <= ARENA_HEIGHT_BITS
}

/// `pushed` is the damped velocity after the thrust that was decided: left
/// as it is where there is none, and otherwise what `solve` answers to the
/// thrust task along or against `rotation`.
pub open spec fn thrust_done<F: Fn(Task) -> (u32, u32)>(
    solve: F,
    damped: (u32, u32),
    rotation: u32,
    thrust: Thrust,
    pushed: (u32, u32),
) -> bool {
    match thrust {
        Thrust::Coast => pushed == damped,
        Thrust::Forward => call_ensures(
            solve,
            (Task::Thrust { vel_x: damped.0, vel_y: damped.1, rotation, forward: true },),
            pushed,
        ),
        Thrust::Reverse => call_ensures(
            solve,
            (Task::Thrust { vel_x: damped.0, vel_y: damped.1, rotation, forward: false },),
            pushed,
        ),
    }
}

/// `turned` is the rotation after the turn that was decided: left as it is
/// where there is none, and otherwise the first answer of `solve` to the
/// turn task.
pub open spec fn turn_done<F: Fn(Task) -> (u32, u32)>(
    solve: F,
    rotation: u32,
    turn: Turn,
    turned: u32,
) -> bool {
    match turn {
        Turn::Straight => turned == rotation,
        Turn::Left => exists|rest: u32| #[trigger]
            call_ensures(solve, (Task::Turn { rotation, left: true },), (turned, rest)),
        Turn::Right => exists|rest: u32| #[trigger]
            call_ensures(solve, (Task::Turn { rotation, left: false },), (turned, rest)),
    }
}

/// `after` is `before` one tick later under `controls`, with `solve` doing
/// the arithmetic. In this order: friction on the old velocity; the thrust
/// that was decided, along the old rotation; the speed limit, which gives the
/// new velocity; the turn that was decided, which gives the new rotation; the
/// new velocity added to the old position; and the walls, which hold the new
/// position and leave the velocity alone.
pub open spec fn moved_by<F: Fn(Task) -> (u32, u32)>(
    solve: F,
    before: Body,
    controls: Controls,
    after: Body,
) -> bool {
    exists|damped: (u32, u32), pushed: (u32, u32), reached: (u32, u32)|
        {
            &&& call_ensures(
                solve,
                (Task::Damp { vel_x: before.vel_x, vel_y: before.vel_y },),
                damped,
            )
            &&& #[trigger] thrust_done(solve, damped, before.rotation, controls.thrust, pushed)
            &&& call_ensures(
                solve,
                (Task::Limit { vel_x: pushed.0, vel_y: pushed.1 },),
                (after.vel_x, after.vel_y),
            )
            &&& turn_done(solve, before.rotation, controls.turn, after.rotation)
            &&& #[trigger] call_ensures(
                solve,
                (Task::Travel {
                    x: before.x,
                    y: before.y,
                    vel_x: after.vel_x,
                    vel_y: after.vel_y,
                },),
                reached,
            )
            &&& after.x == clamp_spec(reached.0, ARENA_WIDTH_BITS)
            &&& after.y == clamp_spec(reached.1, ARENA_HEIGHT_BITS)
        }
}

/// `body` is where player `index` of `count` starts, with `solve` doing the
/// arithmetic: at the player's point on the starting circle, held inside the
/// arena, facing the centre, at rest.
pub open spec fn placed_at<F: Fn(Task) -> (u32, u32)>(
    solve: F,
    index: usize,
    count: usize,
    body: Body,
) -> bool {
    exists|point: (u32, u32), rest: u32|
        {
            &&& #[trigger] call_ensures(solve, (Task::Start { index, count },), point)
            &&& #[trigger] call_ensures(
                solve,
                (Task::Facing { index, count },),
                (body.rotation, rest),
            )
            &&& body.x == clamp_spec(point.0, ARENA_WIDTH_BITS)
            &&& body.y == clamp_spec(point.1, ARENA_HEIGHT_BITS)
            &&& body.vel_x == 0
            &&& body.vel_y == 0
        }
}

impl StateView {
    /// Every per-player sequence has one entry per player, the frame counter
    /// has not gone below its start, and every player is inside the arena.
    pub open spec fn wf(self) -> bool {
        &&& self.frame >= 0
        &&& self.positions.len() == self.num_players
        &&& self.velocities.len() == self.num_players
        &&& self.rotations.len() == self.num_players
        &&& forall|i: int| 0 <= i < self.positions.len() ==> in_arena(#[trigger] self.positions[i])
    }

    /// The kinematics of player `i`.
    pub open spec fn body(self, i: int) -> Body {
        Body {
            x: self.positions[i].0,
            y: self.positions[i].1,
            vel_x: self.velocities[i].0,
            vel_y: self.velocities[i].1,
            rotation: self.rotations[i],
        }
    }

    /// `self` is a fresh state for `num_players` players, each at the start.
    pub open spec fn placed_by<F: Fn(Task) -> (u32, u32)>(
        self,
        num_players: usize,
        solve: F,
    ) -> bool {
        &&& self.frame == 0
        &&& self.num_players == num_players
        &&& self.wf()
        &&& forall|i: int|
            0 <= i < num_players ==> placed_at(solve, i as usize, num_players, #[trigger] self.body(i))
    }

    /// `post` is one tick after `self`: the frame counter is one higher, the
    /// player count is the same, and each player has moved by one tick under
    /// the decisions for that player's input.
    pub open spec fn advanced_to<F: Fn(Task) -> (u32, u32)>(
        self,
        inputs: Seq<PlayerInput>,
        solve: F,
        post: StateView,
    ) -> bool {
        &&& post.frame == self.frame + 1
        &&& post.num_players == self.num_players
        &&& post.wf()
        &&& forall|i: int|
            0 <= i < self.num_players ==> moved_by(
                solve,
                self.body(i),
                controls_spec(inputs[i]),
                #[trigger] post.body(i),
            )
    }
}

impl View for State {
    type V = StateView;

    open spec fn view(&self) -> StateView {
        StateView {
            frame: self.frame,
            num_players: self.num_players,
            positions: self.positions@,
            velocities: self.velocities@,
            rotations: self.rotations@,
        }
    }
}

/// Holds one coordinate between 0 and `limit`.
pub fn clamp_axis(bits: u32, limit: u32) -> (held: u32)
    ensures
        held == clamp_spec(bits, limit),
        limit <= INFINITY_BITS ==> held <= limit,
{
    if bits > INFINITY_BITS {
        0
    } else if bits > limit {
        limit
    } else {
        bits
    }
}

/// Moves one player by one tick under `controls`, with `solve` doing the
/// arithmetic.
pub fn move_body<F: Fn(Task) -> (u32, u32)>(
    before: Body,
    controls: Controls,
    solve: &F,
) -> (after: Body)
    requires
        forall|task: Task| call_requires(*solve, (task,)),
    ensures
        moved_by(*solve, before, controls, after),
        in_arena((after.x, after.y)),
{
    let damped = solve(Task::Damp { vel_x: before.vel_x, vel_y: before.vel_y });
    let pushed = match controls.thrust {
        Thrust::Coast => damped,
        Thrust::Forward => solve(
            Task::Thrust {
                vel_x: damped.0,
                vel_y: damped.1,
                rotation: before.rotation,
                forward: true,
            },
        ),
        Thrust::Reverse => solve(
            Task::Thrust {
                vel_x: damped.0,
                vel_y: damped.1,
                rotation: before.rotation,
                forward: false,
            },
        ),
    };
    let limited = solve(Task::Limit { vel_x: pushed.0, vel_y: pushed.1 });
    let turned = match controls.turn {
        Turn::Straight => (before.rotation, 0),
        Turn::Left => solve(Task::Turn { rotation: before.rotation, left: true }),
        Turn::Right => solve(Task::Turn { rotation: before.rotation, left: false }),
    };
    let reached = solve(
        Task::Travel { x: before.x, y: before.y, vel_x: limited.0, vel_y: limited.1 },
    );
    let after = Body {
        x: clamp_axis(reached.0, ARENA_WIDTH_BITS),
        y: clamp_axis(reached.1, ARENA_HEIGHT_BITS),
        vel_x: limited.0,
        vel_y: limited.1,
        rotation: turned.0,
    };
    proof {
        assert(thrust_done(*solve, damped, before.rotation, controls.thrust, pushed));
        assert(turned == (turned.0, turned.1));
        assert(turn_done(*solve, before.rotation, controls.turn, after.rotation));
    }
    after
}

/// A copy of a vector of plain values.
pub(crate) fn copy_of<T: Copy>(source: &Vec<T>) -> (copy: Vec<T>)
    ensures
        copy@ == source@,
{
    let mut copy: Vec<T> = Vec::new();
    let mut i: usize = 0;
    while i < source.len()
        invariant
            i <= source.len(),
            copy@ == source@.take(i as int),
        decreases source.len() - i,
    {
        copy.push(source[i]);
        proof {
            assert(source@.take(i + 1) =~= source@.take(i as int).push(source@[i as int]));
        }
        i += 1;
    }
    proof {
        assert(source@.take(i as int) =~= source@);
    }
    copy
}

impl State {
    /// Well-formedness of the state, as of its view.
    pub open spec fn wf(&self) -> bool {
        self@.wf()
    }

    /// Whether the state is well formed, decided at run time.
    pub fn is_well_formed(&self) -> (ok: bool)
        ensures
            ok == self.wf(),
    {
        if self.frame < 0 || self.positions.len() != self.num_players || self.velocities.len()
            != self.num_players || self.rotations.len() != self.num_players {
            return false;
        }
        let mut i: usize = 0;
        while i < self.positions.len()
            invariant
                i <= self.positions.len(),
                forall|j: int| 0 <= j < i ==> in_arena(#[trigger] self.positions@[j]),
            decreases self.positions.len() - i,
        {
            let position = self.positions[i];
            if position.0 > ARENA_WIDTH_BITS || position.1 > ARENA_HEIGHT_BITS {
                proof {
                    assert(!in_arena(self.positions@[i as int]));
                }
                return false;
            }
            i += 1;
        }
        true
    }

    /// A fresh state at frame 0: every player at its point on the starting
    /// circle, facing the centre, at rest, with `solve` doing the arithmetic.
    pub fn new<F: Fn(Task) -> (u32, u32)>(num_players: usize, solve: &F) -> (state: State)
        requires
            forall|task: Task| call_requires(*solve, (task,)),
        ensures
            state@.placed_by(num_players, *solve),
    {
        let mut positions: Vec<(u32, u32)> = Vec::new();
        let mut velocities: Vec<(u32, u32)> = Vec::new();
        let mut rotations: Vec<u32> = Vec::new();
        let mut i: usize = 0;
        while i < num_players
            invariant
                i <= num_players,
                positions.len() == i,
                velocities.len() == i,
                rotations.len() == i,
                forall|task: Task| call_requires(*solve, (task,)),
                forall|j: int| 0 <= j < i ==> in_arena(#[trigger] positions@[j]),
                forall|j: int|
                    0 <= j < i ==> placed_at(
                        *solve,
                        j as usize,
                        num_players,
                        Body {
                            x: (#[trigger] positions@[j]).0,
                            y: positions@[j].1,
                            vel_x: velocities@[j].0,
                            vel_y: velocities@[j].1,
                            rotation: rotations@[j],
                        },
                    ),
            decreases num_players - i,
        {
            let point = solve(Task::Start { index: i, count: num_players });
            let facing = solve(Task::Facing { index: i, count: num_players });
            let x: u32 = clamp_axis(point.0, ARENA_WIDTH_BITS);
            let y: u32 = clamp_axis(point.1, ARENA_HEIGHT_BITS);
            let ghost placed = (positions@, velocities@, rotations@);
            positions.push((x, y));
            velocities.push((0, 0));
            rotations.push(facing.0);
            proof {
                assert(facing == (facing.0, facing.1));
                assert(call_ensures(
                    *solve,
                    (Task::Start { index: i, count: num_players },),
                    point,
                ));
                let body = Body { x, y, vel_x: 0, vel_y: 0, rotation: facing.0 };
                assert(call_ensures(
                    *solve,
                    (Task::Facing { index: i, count: num_players },),
                    (body.rotation, facing.1),
                ));
                assert(placed_at(*solve, i, num_players, body));
                assert forall|j: int| 0 <= j < i implies positions@[j] == placed.0[j]
                    && velocities@[j] == placed.1[j] && rotations@[j] == placed.2[j] by {}
            }
            i += 1;
        }
        State { frame: 0, num_players, positions, velocities, rotations }
    }

    /// Puts a state together from its parts, or returns `None` where the
    /// parts do not make a well-formed state.
    pub fn from_parts(
        frame: i32,
        num_players: usize,
        positions: Vec<(u32, u32)>,
        velocities: Vec<(u32, u32)>,
        rotations: Vec<u32>,
    ) -> (made: Option<State>)
        ensures
            made.is_some() == (StateView {
                frame,
                num_players,
                positions: positions@,
                velocities: velocities@,
                rotations: rotations@,
            }).wf(),
            made matches Some(state) ==> state.wf() && state@ == (StateView {
                frame,
                num_players,
                positions: positions@,
                velocities: velocities@,
                rotations: rotations@,
            }),
    {
        let state = State { frame, num_players, positions, velocities, rotations };
        if state.is_well_formed() {
            Some(state)
        } else {
            None
        }
    }

    /// An independent copy with the same content.
    pub fn duplicate(&self) -> (copy: State)
        ensures
            copy@ == self@,
    {
        State {
            frame: self.frame,
            num_players: self.num_players,
            positions: copy_of(&self.positions),
            velocities: copy_of(&self.velocities),
            rotations: copy_of(&self.rotations),
        }
    }

    /// The kinematics of player `i`.
    pub fn body(&self, i: usize) -> (body: Body)
        requires
            self.wf(),
            i < self.num_players,
        ensures
            body == self@.body(i as int),
    {
        Body {
            x: self.positions[i].0,
            y: self.positions[i].1,
            vel_x: self.velocities[i].0,
            vel_y: self.velocities[i].1,
            rotation: self.rotations[i],
        }
    }

    /// Advances the simulation by one tick.
    ///
    /// The frame counter goes up by one. For each player the decisions are
    /// taken from that player's input (a missing input counts as "turn right
    /// only"), and the player moves as [`moved_by`] says, with `solve` doing
    /// the arithmetic. A player driven into a wall keeps its velocity into
    /// the wall.
    pub fn advance<F: Fn(Task) -> (u32, u32)>(&mut self, inputs: Vec<PlayerInput>, solve: &F)
        requires
            old(self).wf(),
            old(self).frame < i32::MAX,
            inputs.len() == old(self).num_players,
            forall|task: Task| call_requires(*solve, (task,)),
        ensures
            old(self)@.advanced_to(inputs@, *solve, final(self)@),
    {
        self.advance_with(&inputs, solve);
    }

    /// [`State::advance`] on borrowed inputs.
    pub fn advance_with<F: Fn(Task) -> (u32, u32)>(
        &mut self,
        inputs: &Vec<PlayerInput>,
        solve: &F,
    )
        requires
            old(self).wf(),
            old(self).frame < i32::MAX,
            inputs.len() == old(self).num_players,
            forall|task: Task| call_requires(*solve, (task,)),
        ensures
            old(self)@.advanced_to(inputs@, *solve, final(self)@),
    {
        self.frame += 1;
        let count: usize = self.num_players;
        let mut i: usize = 0;
        while i < count
            invariant
                i <= count,
                count == self.num_players,
                self.num_players == old(self).num_players,
                self.frame == old(self).frame + 1,
                self.wf(),
                old(self).wf(),
                inputs.len() == count,
                forall|task: Task| call_requires(*solve, (task,)),
                forall|j: int| i <= j < count ==> self@.body(j) == old(self)@.body(j),
                forall|j: int|
                    0 <= j < i ==> moved_by(
                        *solve,
                        old(self)@.body(j),
                        controls_spec(inputs@[j]),
                        #[trigger] self@.body(j),
                    ),
            decreases count - i,
        {
            let controls = inputs[i].controls();
            let before = self.body(i);
            let ghost prior = self@;
            let after = move_body(before, controls, solve);
            self.positions.set(i, (after.x, after.y));
            self.velocities.set(i, (after.vel_x, after.vel_y));
            self.rotations.set(i, after.rotation);
            proof {
                assert(self@.body(i as int) == after);
                assert forall|j: int| 0 <= j < self.positions.len() implies in_arena(
                    #[trigger] self.positions@[j],
                ) by {
                    if j != i {
                        assert(self.positions@[j] == prior.positions[j]);
                    }
                }
                assert forall|j: int| 0 <= j < i + 1 implies moved_by(
                    *solve,
                    old(self)@.body(j),
                    controls_spec(inputs@[j]),
                    #[trigger] self@.body(j),
                ) by {
                    if j < i {
                        assert(self@.body(j) == prior.body(j));
                    }
                }
                assert forall|j: int| i + 1 <= j < count implies self@.body(j) == old(self)@.body(
                    j,
                ) by {
                    assert(self@.body(j) == prior.body(j));
                }
            }
            i += 1;
        }
    }
}

/// After a tick every player is inside the arena, whatever the inputs were
/// and whatever the arithmetic answered.
pub proof fn lemma_players_stay_in_arena<F: Fn(Task) -> (u32, u32)>(
    pre: StateView,
    inputs: Seq<PlayerInput>,
    solve: F,
    post: StateView,
    player: int,
)
    requires
        pre.advanced_to(inputs, solve, post),
        0 <= player < pre.num_players,
    ensures
        in_arena(post.positions[player]),
        post.body(player).x <= ARENA_WIDTH_BITS,
        post.body(player).y <= ARENA_HEIGHT_BITS,
{
    assert(in_arena(post.positions[player]));
}

/// Holding a coordinate inside the arena leaves one that is inside as it is,
/// and doing it twice is doing it once.
pub proof fn lemma_clamp_is_settled(bits: u32, limit: u32)
    requires
        limit <= INFINITY_BITS,
    ensures
        clamp_spec(bits, limit) <= limit,
        bits <= limit ==> clamp_spec(bits, limit) == bits,
        clamp_spec(clamp_spec(bits, limit), limit) == clamp_spec(bits, limit),
{
}

} // verus!
