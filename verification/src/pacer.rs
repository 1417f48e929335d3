//! Fixed-timestep pacing: how much simulated time is owed, how many frames
//! that is worth, and what to make of the session's answer to each frame.
//!
//! Time debt is counted in thirds of a nanosecond, the coarsest unit in which
//! a sixtieth of a second and eleven tenths of it are both whole numbers.

use vstd::prelude::*;

verus! {

/// Thirds of a nanosecond in one nanosecond.
pub const UNITS_PER_NANO: u64 = 3;

/// The target step, a sixtieth of a second, in thirds of a nanosecond.
pub const BASE_STEP: u64 = 50_000_000;

/// The stretched step used while this peer runs ahead of the others: eleven
/// tenths of the target step.
pub const SLOW_STEP: u64 = 55_000_000;

/// Whether the session is ready to run frames.
#[derive(Clone, Copy, Debug, PartialEq, Eq, Structural)]
pub enum SessionState {
    Synchronizing,
    Running,
}

/// The session's answer to a request to advance by one frame.
#[derive(Clone, Copy, Debug, PartialEq, Eq, Structural)]
pub enum AdvanceOutcome {
    /// It answered with a list of requests.
    Requests,
    /// It cannot predict any further until remote input arrives.
    PredictionThreshold,
    /// It failed in any other way.
    Failed,
}

/// How the last frame went, for display.
#[derive(Clone, Copy, Debug, PartialEq, Eq, Structural)]
pub enum FrameStatus {
    Normal,
    Slow,
    Halt,
}

/// What to do with the session's answer.
#[derive(Clone, Copy, Debug, PartialEq, Eq, Structural)]
pub enum Verdict {
    /// Hand the requests to the dispatcher.
    Dispatch,
    /// Skip this frame and go on.
    Skip,
    /// Give up: the failure cannot be recovered from.
    Abort,
}

/// The pacer's state.
#[derive(Clone, Copy, Debug, PartialEq, Eq, Structural)]
pub struct Pacer {
    /// Time owed to the simulation, in thirds of a nanosecond.
    pub debt: u64,
    /// How the last frame went.
    pub frame_info: FrameStatus,
}

/// The step in force: stretched while this peer is ahead.
pub open spec fn step_spec(ahead: bool) -> u64 {
    if ahead {
        SLOW_STEP
    } else {
        BASE_STEP
    }
}

/// The debt after `elapsed_nanos` more nanoseconds, held at the largest
/// value the counter can take.
pub open spec fn accumulated(debt: u64, elapsed_nanos: u64) -> u64 {
    if debt + elapsed_nanos * UNITS_PER_NANO > u64::MAX {
        u64::MAX
    } else {
        (debt + elapsed_nanos * UNITS_PER_NANO) as u64
    }
}

/// The number of frames that `debt` is worth at `step`: one for every time
/// the step can be taken off while the debt still exceeds it.
pub open spec fn frames_owed(debt: u64, step: u64) -> nat
    decreases debt,
{
    if step == 0 || debt <= step {
        0
    } else {
        1 + frames_owed((debt - step) as u64, step)
    }
}

/// The status to show and the verdict on the session's answer.
pub open spec fn settled(outcome: AdvanceOutcome, ahead: bool, before: FrameStatus) -> (
    FrameStatus,
    Verdict,
) {
    match outcome {
        AdvanceOutcome::Requests => (
            if ahead {
                FrameStatus::Slow
            } else {
                FrameStatus::Normal
            },
            Verdict::Dispatch,
        ),
        AdvanceOutcome::PredictionThreshold => (FrameStatus::Halt, Verdict::Skip),
        AdvanceOutcome::Failed => (before, Verdict::Abort),
    }
}

/// The stretched step is exactly eleven tenths of the target step, and sixty
/// target steps make one second.
pub proof fn lemma_step_ratio()
    ensures
        SLOW_STEP * 10 == BASE_STEP * 11,
        BASE_STEP * 60 == 1_000_000_000 * UNITS_PER_NANO,
{
}

/// The frames owed are the one count that leaves a debt no larger than the
/// step and, where any frame was owed, larger than zero.
pub proof fn lemma_frames_owed(debt: u64, step: u64)
    requires
        step > 0,
    ensures
        frames_owed(debt, step) * step <= debt,
        debt - frames_owed(debt, step) * step <= step,
        debt > step ==> frames_owed(debt, step) >= 1 && debt - frames_owed(debt, step) * step > 0,
        debt <= step ==> frames_owed(debt, step) == 0,
    decreases debt,
{
    if debt > step {
        let rest = (debt - step) as u64;
        let fewer = frames_owed(rest, step);
        lemma_frames_owed(rest, step);
        assert(frames_owed(debt, step) == 1 + fewer);
        assert((1 + fewer) * step == step + fewer * step) by (nonlinear_arith);
        assert(frames_owed(debt, step) * step == step + fewer * step);
        if rest <= step {
            assert(fewer * step == 0) by (nonlinear_arith)
                requires
                    fewer == 0,
            ;
        }
    }
}

/// The step in force.
pub fn effective_step(ahead: bool) -> (step: u64)
    ensures
        step == step_spec(ahead),
        step > 0,
{
    if ahead {
        SLOW_STEP
    } else {
        BASE_STEP
    }
}

/// Whether a frame is run in this state of the session: only while it runs.
pub fn runs_frames(state: SessionState) -> (runs: bool)
    ensures
        runs == (state == SessionState::Running),
{
    match state {
        SessionState::Running => true,
        SessionState::Synchronizing => false,
    }
}

impl Pacer {
    /// A pacer that owes nothing.
    pub fn new() -> (pacer: Pacer)
        ensures
            pacer == (Pacer { debt: 0, frame_info: FrameStatus::Normal }),
    {
        Pacer { debt: 0, frame_info: FrameStatus::Normal }
    }

    /// Adds the time that went by since the last sample to the debt.
    pub fn accumulate(&mut self, elapsed_nanos: u64)
        ensures
            final(self).debt == accumulated(old(self).debt, elapsed_nanos),
            final(self).frame_info == old(self).frame_info,
    {
        let room: u64 = u64::MAX - self.debt;
        if elapsed_nanos > room / UNITS_PER_NANO {
            self.debt = u64::MAX;
        } else {
            self.debt = self.debt + elapsed_nanos * UNITS_PER_NANO;
        }
    }

    /// Takes one step off the debt if the debt exceeds the step, and says
    /// whether it did.
    pub fn take_step(&mut self, ahead: bool) -> (taken: bool)
        ensures
            taken == (old(self).debt > step_spec(ahead)),
            final(self).debt == if taken {
                (old(self).debt - step_spec(ahead)) as u64
            } else {
                old(self).debt
            },
            final(self).frame_info == old(self).frame_info,
    {
        let step: u64 = effective_step(ahead);
        if self.debt > step {
            self.debt = self.debt - step;
            true
        } else {
            false
        }
    }

    /// Takes off the debt every step that is owed and returns their number.
    pub fn take_all(&mut self, ahead: bool) -> (frames: u64)
        ensures
            frames == frames_owed(old(self).debt, step_spec(ahead)),
            final(self).debt == old(self).debt - frames * step_spec(ahead),
            final(self).debt <= step_spec(ahead),
            final(self).frame_info == old(self).frame_info,
    {
        let mut frames: u64 = 0;
        proof {
            lemma_frames_owed(self.debt, step_spec(ahead));
        }
        while self.take_step(ahead)
            invariant
                self.frame_info == old(self).frame_info,
                frames + frames_owed(self.debt, step_spec(ahead)) == frames_owed(
                    old(self).debt,
                    step_spec(ahead),
                ),
                self.debt + frames * step_spec(ahead) == old(self).debt,
                frames <= old(self).debt,
            decreases self.debt,
        {
            proof {
                let step = step_spec(ahead);
                assert((frames + 1) * step == frames * step + step) by (nonlinear_arith);
                assert(frames + 1 <= (frames + 1) * step) by (nonlinear_arith)
                    requires
                        step >= 1,
                        frames >= 0,
                ;
            }
            frames += 1;
        }
        frames
    }

    /// Records how the frame went and says what to do with the session's
    /// answer. `ahead` is the session's backpressure signal after the answer.
    pub fn settle(&mut self, outcome: AdvanceOutcome, ahead: bool) -> (verdict: Verdict)
        ensures
            (final(self).frame_info, verdict) == settled(outcome, ahead, old(self).frame_info),
            final(self).debt == old(self).debt,
    {
        match outcome {
            AdvanceOutcome::Requests => {
                self.frame_info = if ahead {
                    FrameStatus::Slow
                } else {
                    FrameStatus::Normal
                };
                Verdict::Dispatch
            },
            AdvanceOutcome::PredictionThreshold => {
                self.frame_info = FrameStatus::Halt;
                Verdict::Skip
            },
            AdvanceOutcome::Failed => Verdict::Abort,
        }
    }
}

} // verus!
