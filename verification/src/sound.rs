use vstd::prelude::*;

verus! {

/// Sounds requested by the game logic since they were last played.
#[derive(Clone, Copy, Debug, PartialEq, Eq, Structural)]
pub struct PlaySounds {
    pub play_hit: bool,
    pub play_shot: bool,
}

impl PlaySounds {
    /// Nothing requested.
    pub open spec fn none() -> PlaySounds {
        PlaySounds { play_hit: false, play_shot: false }
    }
}

impl Default for PlaySounds {
    fn default() -> (s: Self)
        ensures
            s == PlaySounds::none(),
    {
        PlaySounds { play_hit: false, play_shot: false }
    }
}

/// Which sounds the audio device is told to start now.
#[derive(Clone, Copy, Debug, PartialEq, Eq, Structural)]
pub struct SoundCues {
    pub start_hit: bool,
    pub start_shot: bool,
}

} // verus!
