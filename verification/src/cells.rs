//! The session's storage cells. The session of the `ggrs` crate hands out one
//! cell with every save and load request and keeps the cells itself; this
//! module carries saved states between such a cell and the store that the
//! dispatcher works on.

use vstd::prelude::*;
use crate::game::{inputs_fit, Game, GameView, Request, RequestError};
use crate::input::{PlayerInput, NULL_FRAME};
use crate::state::{copy_of, State, StateView, Task};
use crate::store::{store_fits, SaveStore};

verus! {

/// The cell type of `ggrs`, carried through unopened.
#[verifier::external_type_specification]
#[verifier::external_body]
#[verifier::reject_recursive_types(T)]
pub struct ExGameStateCell<T: Clone>(ggrs::GameStateCell<T>);

/// Calls `GameStateCell::load`, which returns a copy of the state in the
/// cell, if there is one. Nothing is claimed of what comes back: the cell is
/// shared with the session.
#[verifier::external_body]
fn cell_load(cell: &ggrs::GameStateCell<State>) -> (loaded: Option<State>) {
    cell.load()
}

/// What a cell holds: the frame, the state and the checksum that
/// `GameStateCell::save` last put into it.
pub uninterp spec fn cell_holds(cell: ggrs::GameStateCell<State>) -> Option<(i32, StateView, u64)>;

/// Calls `GameStateCell::save` with the frame, the state and the checksum.
/// The call panics on the null frame, which is left out here. Claimed of it
/// and not proved: afterwards the cell holds this frame, this state and
/// this checksum, as the call sets all three.
#[verifier::external_body]
fn cell_save(cell: &mut ggrs::GameStateCell<State>, frame: i32, state: State, checksum: u64)
    requires
        frame != NULL_FRAME,
    ensures
        cell_holds(*final(cell)) == Some((frame, state@, checksum)),
{
    cell.save(frame, Some(state), Some(checksum as u128));
}

/// A request as the session makes it: a save or a load comes with the cell
/// to write to or read from.
pub enum SessionRequest {
    SaveGameState { cell: ggrs::GameStateCell<State>, frame: i32 },
    LoadGameState { cell: ggrs::GameStateCell<State>, frame: i32 },
    AdvanceFrame { inputs: Vec<PlayerInput> },
}

/// `plain` is the request `asked` without its cell.
pub open spec fn mirrors(asked: SessionRequest, plain: Request) -> bool {
    match asked {
        SessionRequest::SaveGameState { cell, frame } => plain matches Request::SaveGameState {
            frame: same,
        } && same == frame,
        SessionRequest::LoadGameState { cell, frame } => plain matches Request::LoadGameState {
            frame: same,
        } && same == frame,
        SessionRequest::AdvanceFrame { inputs } => plain matches Request::AdvanceFrame {
            inputs: same,
        } && same@ == inputs@,
    }
}

/// `plain` is `asked`, request by request, without the cells.
pub open spec fn mirror_all(asked: Seq<SessionRequest>, plain: Seq<Request>) -> bool {
    &&& plain.len() == asked.len()
    &&& forall|k: int| 0 <= k < asked.len() ==> mirrors(#[trigger] asked[k], plain[k])
}

/// Whether every advance among `asked` brings one input per player.
pub open spec fn session_inputs_fit(asked: Seq<SessionRequest>, num_players: usize) -> bool {
    forall|k: int|
        0 <= k < asked.len() ==> (#[trigger] asked[k] matches SessionRequest::AdvanceFrame {
            inputs,
        } ==> inputs.len() == num_players)
}

/// The store after it took in what a cell held for `frame`: a well-formed
/// state of `num_players` players goes in under `frame`, with no checksum
/// noted; anything else leaves the store as it was.
pub open spec fn taken_in(
    store: Map<i32, (StateView, u64)>,
    frame: i32,
    loaded: Option<State>,
    num_players: usize,
) -> Map<i32, (StateView, u64)> {
    match loaded {
        Some(state) if state.wf() && state.num_players == num_players => store.insert(
            frame,
            (state@, 0u64),
        ),
        _ => store,
    }
}

impl SaveStore {
    /// Takes in what a cell held for `frame`, and says whether it was a
    /// state that fits a game of `num_players` players.
    pub fn take_in(
        &mut self,
        frame: i32,
        loaded: Option<State>,
        num_players: usize,
    ) -> (taken: bool)
        ensures
            final(self)@ == taken_in(old(self)@, frame, loaded, num_players),
            taken == (loaded matches Some(state) && state.wf() && state.num_players
                == num_players),
            store_fits(old(self)@, num_players) ==> store_fits(final(self)@, num_players),
    {
        match loaded {
            Some(state) => {
                if state.is_well_formed() && state.num_players == num_players {
                    self.put(frame, state, 0);
                    true
                } else {
                    false
                }
            },
            None => false,
        }
    }

    /// Reads the cell of a load request for `frame` into the store. The
    /// store changes only by a state that fits a game of `num_players`
    /// players, put under `frame`.
    pub fn fetch(
        &mut self,
        cell: &ggrs::GameStateCell<State>,
        frame: i32,
        num_players: usize,
    ) -> (taken: bool)
        ensures
            !taken ==> final(self)@ == old(self)@,
            taken ==> {
                &&& final(self)@.contains_key(frame)
                &&& final(self)@[frame].0.wf()
                &&& final(self)@[frame].0.num_players == num_players
                &&& final(self)@ == old(self)@.insert(frame, final(self)@[frame])
            },
            store_fits(old(self)@, num_players) ==> store_fits(final(self)@, num_players),
    {
        let loaded = cell_load(cell);
        self.take_in(frame, loaded, num_players)
    }

    /// Writes the state saved under `frame`, with its checksum, into the
    /// cell of a save request, and says whether there was one to write.
    /// Where there was none the cell is left as it is.
    pub fn deliver(&self, cell: &mut ggrs::GameStateCell<State>, frame: i32) -> (written: bool)
        ensures
            written == (frame != NULL_FRAME && self@.contains_key(frame)),
            written ==> cell_holds(*final(cell)) == Some(
                (frame, self@[frame].0, self@[frame].1),
            ),
            !written ==> *final(cell) == *old(cell),
    {
        if frame == NULL_FRAME {
            return false;
        }
        match self.get(frame) {
            Some(entry) => {
                cell_save(cell, frame, entry.0, entry.1);
                true
            },
            None => false,
        }
    }
}

/// A run of requests never takes a saved state out of the store.
proof fn lemma_store_only_grows<F: Fn(Task) -> (u32, u32)>(
    pre: GameView,
    store: Map<i32, (StateView, u64)>,
    plain: Seq<Request>,
    from: int,
    solve: F,
    post: GameView,
    post_store: Map<i32, (StateView, u64)>,
    result: Result<(), RequestError>,
    frame: i32,
)
    requires
        0 <= from,
        pre.handled_all(store, plain, from, solve, post, post_store, result),
        store.contains_key(frame),
    ensures
        post_store.contains_key(frame),
    decreases plain.len() - from,
{
    if from < plain.len() {
        let (mid, mid_store, first) = choose|
            mid: GameView,
            mid_store: Map<i32, (StateView, u64)>,
            first: Result<(), RequestError>,
        |
            {
                &&& #[trigger] pre.handled(store, plain[from], solve, mid, mid_store, first)
                &&& if first is Ok {
                    mid.handled_all(mid_store, plain, from + 1, solve, post, post_store, result)
                } else {
                    post == mid && post_store == mid_store && result == first
                }
            };
        assert(mid_store.contains_key(frame));
        if first is Ok {
            lemma_store_only_grows(
                mid,
                mid_store,
                plain,
                from + 1,
                solve,
                post,
                post_store,
                result,
                frame,
            );
        }
    }
}

/// No state in the store is at a frame below zero.
pub open spec fn frames_started(store: Map<i32, (StateView, u64)>) -> bool {
    forall|frame: i32| #[trigger] store.contains_key(frame) ==> store[frame].0.frame >= 0
}

/// After a run in which every request succeeded, the store holds a state
/// under the frame of every save request of the run, and none of these
/// frames is below zero.
proof fn lemma_saved_frames_are_stored<F: Fn(Task) -> (u32, u32)>(
    pre: GameView,
    store: Map<i32, (StateView, u64)>,
    plain: Seq<Request>,
    from: int,
    solve: F,
    post: GameView,
    post_store: Map<i32, (StateView, u64)>,
    result: Result<(), RequestError>,
    at: int,
)
    requires
        0 <= from <= at < plain.len(),
        pre.state.frame >= 0,
        frames_started(store),
        result is Ok,
        pre.handled_all(store, plain, from, solve, post, post_store, result),
    ensures
        plain[at] matches Request::SaveGameState { frame } ==> frame >= 0
            && post_store.contains_key(frame),
    decreases plain.len() - from,
{
    let (mid, mid_store, first) = choose|
        mid: GameView,
        mid_store: Map<i32, (StateView, u64)>,
        first: Result<(), RequestError>,
    |
        {
            &&& #[trigger] pre.handled(store, plain[from], solve, mid, mid_store, first)
            &&& if first is Ok {
                mid.handled_all(mid_store, plain, from + 1, solve, post, post_store, result)
            } else {
                post == mid && post_store == mid_store && result == first
            }
        };
    assert(first is Ok);
    if from == at {
        if let Request::SaveGameState { frame } = plain[at] {
            assert(mid_store.contains_key(frame));
            lemma_store_only_grows(
                mid,
                mid_store,
                plain,
                from + 1,
                solve,
                post,
                post_store,
                result,
                frame,
            );
        }
    } else {
        assert(mid.state.frame >= 0);
        assert(frames_started(mid_store));
        lemma_saved_frames_are_stored(
            mid,
            mid_store,
            plain,
            from + 1,
            solve,
            post,
            post_store,
            result,
            at,
        );
    }
}

/// What `after` is of `before` once the save request's cell was written:
/// the same request, its cell holding what the store holds under its frame.
/// A request of another kind is as it was.
pub open spec fn written_from(
    before: SessionRequest,
    store: Map<i32, (StateView, u64)>,
    after: SessionRequest,
) -> bool {
    match before {
        SessionRequest::SaveGameState { cell, frame } => {
            &&& store.contains_key(frame)
            &&& after matches SessionRequest::SaveGameState { cell: written, frame: same }
            &&& same == frame
            &&& cell_holds(written) == Some((frame, store[frame].0, store[frame].1))
        },
        _ => after == before,
    }
}

impl Game {
    /// Serves the session's requests of one tick.
    ///
    /// The cells of the load requests are read into a fresh store, the
    /// requests are carried out in the order given against that store, and,
    /// where all of them succeeded, the cell of every save request is
    /// written with the state and the checksum that the store then holds
    /// under the request's frame. After a failure no cell is written: the
    /// failure is final for the session.
    pub fn serve<F: Fn(Task) -> (u32, u32)>(
        &mut self,
        requests: &mut Vec<SessionRequest>,
        solve: &F,
    ) -> (result: Result<(), RequestError>)
        requires
            old(self).wf(),
            session_inputs_fit(old(requests)@, old(self).num_players),
            forall|task: Task| call_requires(*solve, (task,)),
        ensures
            final(self).wf(),
            final(self).num_players == old(self).num_players,
            final(requests)@.len() == old(requests)@.len(),
            result is Err ==> final(requests)@ == old(requests)@,
            exists|
                plain: Seq<Request>,
                before: Map<i32, (StateView, u64)>,
                after: Map<i32, (StateView, u64)>,
            |
                {
                    &&& mirror_all(old(requests)@, plain)
                    &&& store_fits(before, old(self).num_players)
                    &&& #[trigger] old(self)@.handled_all(
                        before,
                        plain,
                        0,
                        *solve,
                        final(self)@,
                        after,
                        result,
                    )
                    &&& result is Ok ==> forall|k: int|
                        0 <= k < old(requests)@.len() ==> written_from(
                            old(requests)@[k],
                            after,
                            #[trigger] final(requests)@[k],
                        )
                },
    {
        let num_players: usize = self.num_players;
        let mut store = SaveStore::new();
        let mut list: Vec<Request> = Vec::new();
        let mut i: usize = 0;
        while i < requests.len()
            invariant
                i <= requests.len(),
                list.len() == i,
                num_players == self.num_players,
                *requests == *old(requests),
                session_inputs_fit(requests@, num_players),
                store_fits(store@, num_players),
                inputs_fit(list@, num_players),
                forall|k: int| 0 <= k < i ==> mirrors(#[trigger] requests@[k], list@[k]),
            decreases requests.len() - i,
        {
            let ghost listed = list@;
            match &requests[i] {
                SessionRequest::LoadGameState { cell, frame } => {
                    store.fetch(cell, *frame, num_players);
                    list.push(Request::LoadGameState { frame: *frame });
                },
                SessionRequest::SaveGameState { frame, .. } => {
                    list.push(Request::SaveGameState { frame: *frame });
                },
                SessionRequest::AdvanceFrame { inputs } => {
                    list.push(Request::AdvanceFrame { inputs: copy_of(inputs) });
                },
            }
            proof {
                assert(forall|k: int| 0 <= k < i ==> list@[k] == listed[k]);
                assert(mirrors(requests@[i as int], list@[i as int]));
            }
            i += 1;
        }
        let ghost plain = list@;
        let ghost before = store@;
        let result = self.handle_requests(list, &mut store, solve);
        proof {
            assert(mirror_all(requests@, plain));
            assert(old(self)@.handled_all(before, plain, 0, *solve, self@, store@, result));
        }
        if result.is_ok() {
            proof {
                assert forall|k: int| 0 <= k < plain.len() implies (
                #[trigger] plain[k] matches Request::SaveGameState { frame } ==> frame >= 0
                    && store@.contains_key(frame)) by {
                    lemma_saved_frames_are_stored(
                        old(self)@,
                        before,
                        plain,
                        0,
                        *solve,
                        self@,
                        store@,
                        result,
                        k,
                    );
                }
            }
            let mut j: usize = 0;
            while j < requests.len()
                invariant
                    j <= requests.len(),
                    requests@.len() == old(requests)@.len(),
                    plain.len() == requests@.len(),
                    mirror_all(old(requests)@, plain),
                    forall|k: int|
                        0 <= k < plain.len() ==> (#[trigger] plain[k] matches Request::SaveGameState {
                            frame,
                        } ==> frame >= 0 && store@.contains_key(frame)),
                    forall|k: int|
                        0 <= k < j ==> written_from(
                            old(requests)@[k],
                            store@,
                            #[trigger] requests@[k],
                        ),
                    forall|k: int| j <= k < requests@.len() ==> requests@[k] == old(requests)@[k],
                decreases requests.len() - j,
            {
                let ghost served = requests@;
                match &mut requests[j] {
                    SessionRequest::SaveGameState { cell, frame } => {
                        let frame: i32 = *frame;
                        proof {
                            assert(mirrors(old(requests)@[j as int], plain[j as int]));
                        }
                        store.deliver(cell, frame);
                    },
                    _ => {},
                }
                proof {
                    assert(forall|k: int|
                        0 <= k < requests@.len() && k != j ==> requests@[k] == served[k]);
                    assert(mirrors(old(requests)@[j as int], plain[j as int]));
                    assert(written_from(old(requests)@[j as int], store@, requests@[j as int]));
                }
                j += 1;
            }
        }
        result
    }
}

} // verus!
