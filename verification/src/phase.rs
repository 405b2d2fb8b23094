//! The phases of a run.
use vstd::prelude::*;

verus! {

/// The phase that the game is in. A change of phase is asked for during a tick
/// and made at its end.
#[derive(Debug, Clone, Copy, Eq, PartialEq, Structural)]
pub enum Phase {
    Menu,
    Initialize,
    Setup,
    Play,
    WaitingForLastEnemy,
    GameOver,
}

impl Phase {
    /// Whether a wave is under way in this phase.
    pub open spec fn in_play(self) -> bool {
        self == Phase::Play || self == Phase::WaitingForLastEnemy
    }

    /// Whether a wave is under way in this phase.
    pub fn is_in_play(self) -> (b: bool)
        ensures
            b == self.in_play(),
    {
        match self {
            Phase::Play => true,
            Phase::WaitingForLastEnemy => true,
            _ => false,
        }
    }
}

/// A change of phase that was asked for during a tick, to be made when the
/// tick ends: into the setup between two levels, or into the next level.
#[derive(Debug, Clone, Copy, Eq, PartialEq, Structural)]
pub enum NextPhase {
    Setup,
    Play,
}

impl NextPhase {
    /// The phase that is asked for.
    pub open spec fn target(self) -> Phase {
        match self {
            NextPhase::Setup => Phase::Setup,
            NextPhase::Play => Phase::Play,
        }
    }

    /// The phase that is asked for.
    pub fn phase(self) -> (p: Phase)
        ensures
            p == self.target(),
    {
        match self {
            NextPhase::Setup => Phase::Setup,
            NextPhase::Play => Phase::Play,
        }
    }
}

impl Default for Phase {
    fn default() -> (p: Phase)
        ensures
            p == Phase::Menu,
    {
        Phase::Menu
    }
}

} // verus!
