//! What the animation loop does on each tick.
//!
//! The loop itself polls the window for input and presents the frames.
//! Here is only the decision it takes once per tick, from the phase it is
//! in and from whether the user has asked to quit.

use vstd::prelude::*;

verus! {

/// The phase of the animation.
#[derive(Clone, Copy, Debug, PartialEq, Eq, Structural)]
pub enum Phase {
    /// Frames are being produced.
    Running,
    /// The user has asked to quit; no frame is produced any more.
    Terminated,
}

/// What the loop has to do in a tick.
#[derive(Clone, Copy, Debug, PartialEq, Eq, Structural)]
pub enum Action {
    /// Turn every gradient by a small angle, render a frame, present it.
    Animate,
    /// Leave the loop.
    Stop,
}

/// The phase after a tick: running goes on until a quit request is seen,
/// and what has terminated stays terminated.
pub open spec fn next_phase(phase: Phase, quit_requested: bool) -> Phase {
    if phase == Phase::Running && !quit_requested {
        Phase::Running
    } else {
        Phase::Terminated
    }
}

/// The action of a tick that ends in phase `next`: a frame as long as the
/// animation runs.
pub open spec fn action_in(next: Phase) -> Action {
    match next {
        Phase::Running => Action::Animate,
        Phase::Terminated => Action::Stop,
    }
}

/// Decides one tick: the phase that follows, and what to do in it.
pub fn tick(phase: Phase, quit_requested: bool) -> (step: (Phase, Action))
    ensures
        step.0 == next_phase(phase, quit_requested),
        step.1 == action_in(step.0),
        step.1 == Action::Animate <==> phase == Phase::Running && !quit_requested,
{
    match phase {
        Phase::Running => {
            if quit_requested {
                (Phase::Terminated, Action::Stop)
            } else {
                (Phase::Running, Action::Animate)
            }
        },
        Phase::Terminated => (Phase::Terminated, Action::Stop),
    }
}

/// Once terminated, the animation never produces a frame again, whatever
/// input arrives.
pub proof fn lemma_terminated_is_final(quit_requested: bool)
    ensures
        next_phase(Phase::Terminated, quit_requested) == Phase::Terminated,
        action_in(next_phase(Phase::Terminated, quit_requested)) == Action::Stop,
{
}

} // verus!
