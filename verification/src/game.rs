//! The game: the simulation state, the checksums kept for display, the
//! connection record of every player, and the dispatcher that applies the
//! session's save, load and advance requests.

use vstd::prelude::*;
use crate::connection::{ConnectionInfo, ConnectionStatus, NetworkStats, SessionEvent};
use crate::encoding::state_checksum;
use crate::input::{Input, Keys, PlayerInput, NULL_FRAME};
use crate::state::{State, StateView, Task};
use crate::store::{store_fits, SaveStore};

verus! {

/// A checksum is also kept for the last frame divisible by this period.
pub const CHECKSUM_PERIOD: i32 = 100;

/// The largest number of players a game can have.
pub const MAX_PLAYERS: usize = 4;

/// What the session asks of the game, in the order it asks.
#[derive(Debug)]
pub enum Request {
    /// Save the current state, which must be at `frame`.
    SaveGameState { frame: i32 },
    /// Replace the current state by the one saved under `frame`.
    LoadGameState { frame: i32 },
    /// Advance by one tick with one input per player.
    AdvanceFrame { inputs: Vec<PlayerInput> },
}

/// Why a request could not be carried out. None of these can be recovered
/// from: the session and the game no longer agree.
#[derive(Clone, Copy, Debug, PartialEq, Eq, Structural)]
pub enum RequestError {
    /// A save was asked for a frame other than the current one.
    FrameMismatch,
    /// A load was asked for a frame under which nothing is saved.
    MissingState,
    /// The frame counter cannot go any higher.
    FrameLimit,
}

/// The game.
pub struct Game {
    pub num_players: usize,
    pub game_state: State,
    pub last_checksum: (i32, u64),
    pub periodic_checksum: (i32, u64),
    pub connection_info: Vec<ConnectionInfo>,
}

/// The mathematical content of a [`Game`].
pub ghost struct GameView {
    pub num_players: usize,
    pub state: StateView,
    pub last_checksum: (i32, u64),
    pub periodic_checksum: (i32, u64),
    pub connection_info: Seq<ConnectionInfo>,
}

impl View for Game {
    type V = GameView;

    open spec fn view(&self) -> GameView {
        GameView {
            num_players: self.num_players,
            state: self.game_state@,
            last_checksum: self.last_checksum,
            periodic_checksum: self.periodic_checksum,
            connection_info: self.connection_info@,
        }
    }
}

/// The control byte of the local player `handle`: player 0 is on the first
/// set of keys, player 1 on the second, and no other player has keys.
pub open spec fn local_input_spec(handle: usize, first: Keys, second: Keys) -> u8 {
    if handle == 0 {
        crate::input::pack_spec(first)
    } else if handle == 1 {
        crate::input::pack_spec(second)
    } else {
        0
    }
}

impl GameView {
    /// The state belongs to this game, and every player has a connection
    /// record.
    pub open spec fn wf(self) -> bool {
        &&& self.num_players <= MAX_PLAYERS
        &&& self.state.wf()
        &&& self.state.num_players == self.num_players
        &&& self.connection_info.len() == self.num_players
    }

    /// The game after `checksum` was noted for the current frame: it is the
    /// last checksum, and the periodic one too where the frame is a multiple
    /// of the period.
    pub open spec fn noting(self, checksum: u64) -> GameView {
        GameView {
            last_checksum: (self.state.frame, checksum),
            periodic_checksum: if self.state.frame % CHECKSUM_PERIOD == 0 {
                (self.state.frame, checksum)
            } else {
                self.periodic_checksum
            },
            ..self
        }
    }

    /// The game with its state replaced by `state`.
    pub open spec fn with_state(self, state: StateView) -> GameView {
        GameView { state, ..self }
    }

    /// What a save request for `frame` leads to: it is refused where the
    /// current frame is another; otherwise the state goes into the store
    /// under `frame`, with its checksum.
    pub open spec fn saved(
        self,
        store: Map<i32, (StateView, u64)>,
        frame: i32,
        post: GameView,
        post_store: Map<i32, (StateView, u64)>,
        result: Result<(), RequestError>,
    ) -> bool {
        &&& post == self
        &&& if self.state.frame != frame {
            result == Err::<(), RequestError>(RequestError::FrameMismatch) && post_store == store
        } else {
            result is Ok && post_store == store.insert(
                frame,
                (self.state, state_checksum(self.state) as u64),
            )
        }
    }

    /// What a load request for `frame` leads to: it is refused where nothing
    /// is saved under `frame`; otherwise the saved state takes the place of
    /// the current one.
    pub open spec fn loaded(
        self,
        store: Map<i32, (StateView, u64)>,
        frame: i32,
        post: GameView,
        post_store: Map<i32, (StateView, u64)>,
        result: Result<(), RequestError>,
    ) -> bool {
        &&& post_store == store
        &&& if store.contains_key(frame) {
            result is Ok && post == self.with_state(store[frame].0)
        } else {
            result == Err::<(), RequestError>(RequestError::MissingState) && post == self
        }
    }

    /// What an advance with `inputs` may lead to: refused at the last frame;
    /// otherwise the state is one tick on and its checksum is noted.
    pub open spec fn frame_advanced<F: Fn(Task) -> (u32, u32)>(
        self,
        inputs: Seq<PlayerInput>,
        solve: F,
        post: GameView,
        result: Result<(), RequestError>,
    ) -> bool {
        if self.state.frame == i32::MAX {
            result == Err::<(), RequestError>(RequestError::FrameLimit) && post == self
        } else {
            &&& self.state.advanced_to(inputs, solve, post.state)
            &&& result is Ok
            &&& post == self.with_state(post.state).noting(state_checksum(post.state) as u64)
        }
    }

    /// What carrying out one request may lead to.
    pub open spec fn handled<F: Fn(Task) -> (u32, u32)>(
        self,
        store: Map<i32, (StateView, u64)>,
        request: Request,
        solve: F,
        post: GameView,
        post_store: Map<i32, (StateView, u64)>,
        result: Result<(), RequestError>,
    ) -> bool {
        match request {
            Request::SaveGameState { frame } => self.saved(store, frame, post, post_store, result),
            Request::LoadGameState { frame } => self.loaded(store, frame, post, post_store, result),
            Request::AdvanceFrame { inputs } => post_store == store && self.frame_advanced(
                inputs@,
                solve,
                post,
                result,
            ),
        }
    }

    /// What carrying out `requests[from..]` in order may lead to: each
    /// request starts from what the one before it left, and the first failure
    /// ends the run with its error.
    pub open spec fn handled_all<F: Fn(Task) -> (u32, u32)>(
        self,
        store: Map<i32, (StateView, u64)>,
        requests: Seq<Request>,
        from: int,
        solve: F,
        post: GameView,
        post_store: Map<i32, (StateView, u64)>,
        result: Result<(), RequestError>,
    ) -> bool
        decreases requests.len() - from,
    {
        if from < 0 || from >= requests.len() {
            post == self && post_store == store && result is Ok
        } else {
            exists|
                mid: GameView,
                mid_store: Map<i32, (StateView, u64)>,
                first: Result<(), RequestError>,
            |
                {
                    &&& #[trigger] self.handled(
                        store,
                        requests[from],
                        solve,
                        mid,
                        mid_store,
                        first,
                    )
                    &&& if first is Ok {
                        mid.handled_all(
                            mid_store,
                            requests,
                            from + 1,
                            solve,
                            post,
                            post_store,
                            result,
                        )
                    } else {
                        post == mid && post_store == mid_store && result == first
                    }
                }
        }
    }
}

/// Whether every advance among `requests` brings one input per player.
pub open spec fn inputs_fit(requests: Seq<Request>, num_players: usize) -> bool {
    forall|i: int|
        0 <= i < requests.len() ==> (#[trigger] requests[i] matches Request::AdvanceFrame {
            inputs,
        } ==> inputs.len() == num_players)
}

impl Game {
    /// Well-formedness of the game, as of its view.
    pub open spec fn wf(&self) -> bool {
        self@.wf()
    }

    /// A new game of `num_players` players at frame 0, every player
    /// `Synchronizing` with no statistics, and no checksum noted yet.
    pub fn new<F: Fn(Task) -> (u32, u32)>(num_players: usize, solve: &F) -> (game: Game)
        requires
            num_players <= MAX_PLAYERS,
            forall|task: Task| call_requires(*solve, (task,)),
        ensures
            game.wf(),
            game.num_players == num_players,
            game@.state.placed_by(num_players, *solve),
            game.last_checksum == (NULL_FRAME, 0u64),
            game.periodic_checksum == (NULL_FRAME, 0u64),
            forall|i: int|
                0 <= i < num_players ==> #[trigger] game.connection_info@[i] == (ConnectionInfo {
                    status: ConnectionStatus::Synchronizing,
                    stats: None,
                }),
    {
        let game_state = State::new(num_players, solve);
        let mut connection_info: Vec<ConnectionInfo> = Vec::new();
        let mut i: usize = 0;
        while i < num_players
            invariant
                i <= num_players,
                connection_info.len() == i,
                forall|j: int|
                    0 <= j < i ==> #[trigger] connection_info@[j] == (ConnectionInfo {
                        status: ConnectionStatus::Synchronizing,
                        stats: None,
                    }),
            decreases num_players - i,
        {
            connection_info.push(ConnectionInfo::default());
            i += 1;
        }
        Game {
            num_players,
            game_state,
            last_checksum: (NULL_FRAME, 0),
            periodic_checksum: (NULL_FRAME, 0),
            connection_info,
        }
    }

    /// Assigns `status` to every player in `handles`. A local player stays
    /// local and a disconnected player stays disconnected; every other named
    /// player takes the status and keeps its statistics.
    pub fn set_connection_status(&mut self, handles: Vec<usize>, status: ConnectionStatus)
        requires
            forall|k: int| 0 <= k < handles.len() ==> handles[k] < old(self).connection_info.len(),
        ensures
            final(self)@ == (GameView { connection_info: final(self)@.connection_info, ..old(self)@ }),
            final(self).connection_info.len() == old(self).connection_info.len(),
            forall|i: int|
                0 <= i < old(self).connection_info.len() ==> #[trigger] final(self).connection_info@[i]
                    == if handles@.contains(i as usize) {
                    old(self).connection_info@[i].assigned(status)
                } else {
                    old(self).connection_info@[i]
                },
    {
        let mut k: usize = 0;
        while k < handles.len()
            invariant
                k <= handles.len(),
                self.connection_info.len() == old(self).connection_info.len(),
                self@ == (GameView { connection_info: self@.connection_info, ..old(self)@ }),
                forall|j: int|
                    0 <= j < handles.len() ==> handles[j] < old(self).connection_info.len(),
                forall|i: int|
                    0 <= i < old(self).connection_info.len() ==> #[trigger] self.connection_info@[i]
                        == if handles@.take(k as int).contains(i as usize) {
                        old(self).connection_info@[i].assigned(status)
                    } else {
                        old(self).connection_info@[i]
                    },
            decreases handles.len() - k,
        {
            let handle: usize = handles[k];
            let ghost before = self.connection_info@;
            let next = self.connection_info[handle].assign(status);
            self.connection_info.set(handle, next);
            proof {
                let grown = handles@.take(k + 1);
                let prefix = handles@.take(k as int);
                assert(grown =~= prefix.push(handles@[k as int]));
                assert forall|i: int|
                    0 <= i < old(self).connection_info.len() implies #[trigger] self.connection_info@[i]
                    == if grown.contains(i as usize) {
                    old(self).connection_info@[i].assigned(status)
                } else {
                    old(self).connection_info@[i]
                } by {
                    if i == handle {
                        assert(grown[k as int] == handle);
                        crate::connection::lemma_assignment_keeps_ends(
                            old(self).connection_info@[i],
                            status,
                        );
                    } else {
                        assert(self.connection_info@[i] == before[i]);
                        if prefix.contains(i as usize) {
                            let w = choose|w: int| 0 <= w < prefix.len() && prefix[w] == i as usize;
                            assert(grown[w] == i as usize);
                        }
                        if grown.contains(i as usize) {
                            let w = choose|w: int| 0 <= w < grown.len() && grown[w] == i as usize;
                            assert(w < k);
                            assert(prefix[w] == i as usize);
                        }
                    }
                }
            }
            k += 1;
        }
        proof {
            assert(handles@.take(k as int) =~= handles@);
        }
    }

    /// Reports `event` for every player in `handles`: their statuses move as
    /// the state machine says, and nothing else changes. A player named more
    /// than once moves as if named once.
    pub fn handle_events(&mut self, handles: Vec<usize>, event: SessionEvent)
        requires
            forall|k: int| 0 <= k < handles.len() ==> handles[k] < old(self).connection_info.len(),
        ensures
            final(self)@ == (GameView { connection_info: final(self)@.connection_info, ..old(self)@ }),
            final(self).connection_info.len() == old(self).connection_info.len(),
            forall|i: int|
                0 <= i < old(self).connection_info.len() ==> #[trigger] final(self).connection_info@[i]
                    == if handles@.contains(i as usize) {
                    ConnectionInfo {
                        status: old(self).connection_info@[i].status.after(event),
                        stats: old(self).connection_info@[i].stats,
                    }
                } else {
                    old(self).connection_info@[i]
                },
    {
        let mut k: usize = 0;
        while k < handles.len()
            invariant
                k <= handles.len(),
                self.connection_info.len() == old(self).connection_info.len(),
                self@ == (GameView { connection_info: self@.connection_info, ..old(self)@ }),
                forall|j: int|
                    0 <= j < handles.len() ==> handles[j] < old(self).connection_info.len(),
                forall|i: int|
                    0 <= i < old(self).connection_info.len() ==> #[trigger] self.connection_info@[i]
                        == if handles@.take(k as int).contains(i as usize) {
                        ConnectionInfo {
                            status: old(self).connection_info@[i].status.after(event),
                            stats: old(self).connection_info@[i].stats,
                        }
                    } else {
                        old(self).connection_info@[i]
                    },
            decreases handles.len() - k,
        {
            let handle: usize = handles[k];
            let ghost before = self.connection_info@;
            self.handle_event(handle, event);
            proof {
                let grown = handles@.take(k + 1);
                let prefix = handles@.take(k as int);
                assert(grown =~= prefix.push(handles@[k as int]));
                assert forall|i: int|
                    0 <= i < old(self).connection_info.len() implies #[trigger] self.connection_info@[i]
                    == if grown.contains(i as usize) {
                    ConnectionInfo {
                        status: old(self).connection_info@[i].status.after(event),
                        stats: old(self).connection_info@[i].stats,
                    }
                } else {
                    old(self).connection_info@[i]
                } by {
                    if i == handle {
                        assert(grown[k as int] == handle);
                        crate::connection::lemma_event_settles(
                            old(self).connection_info@[i].status,
                            event,
                        );
                    } else {
                        assert(self.connection_info@[i] == before[i]);
                        if prefix.contains(i as usize) {
                            let w = choose|w: int| 0 <= w < prefix.len() && prefix[w] == i as usize;
                            assert(grown[w] == i as usize);
                        }
                        if grown.contains(i as usize) {
                            let w = choose|w: int| 0 <= w < grown.len() && grown[w] == i as usize;
                            assert(w < k);
                            assert(prefix[w] == i as usize);
                        }
                    }
                }
            }
            k += 1;
        }
        proof {
            assert(handles@.take(k as int) =~= handles@);
        }
    }

    /// Reports `event` for the player `handle`: the player's status moves as
    /// the state machine says, and nothing else changes.
    pub fn handle_event(&mut self, handle: usize, event: SessionEvent)
        requires
            handle < old(self).connection_info.len(),
        ensures
            final(self)@ == (GameView {
                connection_info: old(self)@.connection_info.update(
                    handle as int,
                    ConnectionInfo {
                        status: old(self).connection_info@[handle as int].status.after(event),
                        stats: old(self).connection_info@[handle as int].stats,
                    },
                ),
                ..old(self)@
            }),
    {
        let next = self.connection_info[handle].on_event(event);
        self.connection_info.set(handle, next);
    }

    /// Takes in the answer to a statistics query for the player `handle`: a
    /// remote player's figures are replaced where the query succeeded and
    /// kept where it failed.
    pub fn update_stats(&mut self, handle: usize, fresh: Option<NetworkStats>)
        requires
            handle < old(self).connection_info.len(),
        ensures
            final(self)@ == (GameView {
                connection_info: old(self)@.connection_info.update(
                    handle as int,
                    ConnectionInfo {
                        status: old(self).connection_info@[handle as int].status,
                        stats: if old(self).connection_info@[handle as int].status
                            != ConnectionStatus::Local && fresh.is_some() {
                            fresh
                        } else {
                            old(self).connection_info@[handle as int].stats
                        },
                    },
                ),
                ..old(self)@
            }),
    {
        let next = self.connection_info[handle].refreshed(fresh);
        self.connection_info.set(handle, next);
    }

    /// The control byte of the local player `handle`, from the two sets of
    /// keys as they are held now.
    pub fn local_input(&self, handle: usize, first: Keys, second: Keys) -> (input: Input)
        ensures
            input.inp == local_input_spec(handle, first, second),
            input.inp <= 15,
    {
        if handle == 0 {
            Input::from_keys(first)
        } else if handle == 1 {
            Input::from_keys(second)
        } else {
            Input { inp: 0 }
        }
    }

    /// Notes `checksum` as the checksum of the current frame.
    pub fn note_checksum(&mut self, checksum: u64)
        requires
            old(self).game_state.frame >= 0,
        ensures
            final(self)@ == old(self)@.noting(checksum),
    {
        self.last_checksum = (self.game_state.frame, checksum);
        if self.game_state.frame % CHECKSUM_PERIOD == 0 {
            self.periodic_checksum = (self.game_state.frame, checksum);
        }
    }

    /// Saves the current state and its checksum under `frame`, which is the
    /// current frame.
    pub fn save_game_state(&self, store: &mut SaveStore, frame: i32)
        requires
            self.game_state.frame == frame,
        ensures
            final(store)@ == old(store)@.insert(
                frame,
                (self@.state, state_checksum(self@.state) as u64),
            ),
    {
        let checksum = self.game_state.checksum();
        store.put(frame, self.game_state.duplicate(), checksum);
    }

    /// Replaces the current state by the one saved under `frame`.
    pub fn load_game_state(&mut self, store: &SaveStore, frame: i32)
        requires
            store@.contains_key(frame),
        ensures
            final(self)@ == old(self)@.with_state(store@[frame].0),
    {
        match store.get(frame) {
            Some(entry) => {
                self.game_state = entry.0;
            },
            None => vstd::pervasive::unreached(),
        }
    }

    /// Advances the state by one tick and notes the new state's checksum.
    pub fn advance_frame<F: Fn(Task) -> (u32, u32)>(
        &mut self,
        inputs: &Vec<PlayerInput>,
        solve: &F,
    ) -> (result: Result<(), RequestError>)
        requires
            old(self).wf(),
            inputs.len() == old(self).num_players,
            forall|task: Task| call_requires(*solve, (task,)),
        ensures
            final(self).wf(),
            old(self)@.frame_advanced(inputs@, *solve, final(self)@, result),
    {
        if self.game_state.frame == i32::MAX {
            return Err(RequestError::FrameLimit);
        }
        self.game_state.advance_with(inputs, solve);
        let checksum = self.game_state.checksum();
        self.note_checksum(checksum);
        Ok(())
    }

    /// Carries out one request.
    pub fn handle_request<F: Fn(Task) -> (u32, u32)>(
        &mut self,
        request: &Request,
        store: &mut SaveStore,
        solve: &F,
    ) -> (result: Result<(), RequestError>)
        requires
            old(self).wf(),
            store_fits(old(store)@, old(self).num_players),
            request matches Request::AdvanceFrame { inputs } ==> inputs.len() == old(self).num_players,
            forall|task: Task| call_requires(*solve, (task,)),
        ensures
            final(self).wf(),
            final(self).num_players == old(self).num_players,
            store_fits(final(store)@, final(self).num_players),
            old(self)@.handled(old(store)@, *request, *solve, final(self)@, final(store)@, result),
    {
        match request {
            Request::SaveGameState { frame } => {
                if self.game_state.frame != *frame {
                    return Err(RequestError::FrameMismatch);
                }
                self.save_game_state(store, *frame);
                Ok(())
            },
            Request::LoadGameState { frame } => {
                if !store.contains(*frame) {
                    return Err(RequestError::MissingState);
                }
                self.load_game_state(store, *frame);
                Ok(())
            },
            Request::AdvanceFrame { inputs } => self.advance_frame(inputs, solve),
        }
    }

    /// Carries out `requests` in the order given and stops at the first that
    /// fails.
    pub fn handle_requests<F: Fn(Task) -> (u32, u32)>(
        &mut self,
        requests: Vec<Request>,
        store: &mut SaveStore,
        solve: &F,
    ) -> (result: Result<(), RequestError>)
        requires
            old(self).wf(),
            store_fits(old(store)@, old(self).num_players),
            inputs_fit(requests@, old(self).num_players),
            forall|task: Task| call_requires(*solve, (task,)),
        ensures
            final(self).wf(),
            final(self).num_players == old(self).num_players,
            store_fits(final(store)@, final(self).num_players),
            old(self)@.handled_all(
                old(store)@,
                requests@,
                0,
                *solve,
                final(self)@,
                final(store)@,
                result,
            ),
    {
        self.handle_from(&requests, 0, store, solve)
    }

    /// Carries out `requests[from..]` in order.
    fn handle_from<F: Fn(Task) -> (u32, u32)>(
        &mut self,
        requests: &Vec<Request>,
        from: usize,
        store: &mut SaveStore,
        solve: &F,
    ) -> (result: Result<(), RequestError>)
        requires
            old(self).wf(),
            store_fits(old(store)@, old(self).num_players),
            inputs_fit(requests@, old(self).num_players),
            forall|task: Task| call_requires(*solve, (task,)),
        ensures
            final(self).wf(),
            final(self).num_players == old(self).num_players,
            store_fits(final(store)@, final(self).num_players),
            old(self)@.handled_all(
                old(store)@,
                requests@,
                from as int,
                *solve,
                final(self)@,
                final(store)@,
                result,
            ),
        decreases requests.len() - from,
    {
        if from >= requests.len() {
            return Ok(());
        }
        let first = self.handle_request(&requests[from], store, solve);
        let ghost mid = self@;
        let ghost mid_store = store@;
        match first {
            Ok(()) => {
                let result = self.handle_from(requests, from + 1, store, solve);
                proof {
                    assert(old(self)@.handled(
                        old(store)@,
                        requests@[from as int],
                        *solve,
                        mid,
                        mid_store,
                        first,
                    ));
                }
                result
            },
            Err(e) => {
                proof {
                    assert(old(self)@.handled(
                        old(store)@,
                        requests@[from as int],
                        *solve,
                        mid,
                        mid_store,
                        first,
                    ));
                }
                Err(e)
            },
        }
    }
}

} // verus!
