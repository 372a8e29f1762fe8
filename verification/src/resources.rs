//! State that outlives a step: the count of enemies and the player's fate.
use vstd::prelude::*;

verus! {

/// Number of enemies alive.
#[derive(Clone, Copy, Debug, PartialEq, Eq, Structural)]
pub struct EnemyCount(pub u32);

/// What `last_shot` holds while the player has not been shot.
pub const NOT_SHOT: i64 = -1;

/// Whether the player is alive and, if it was shot, when. Times count the
/// milliseconds since the game began.
#[derive(Clone, Copy, Debug, PartialEq, Eq, Structural)]
pub struct PlayerState {
    pub on: bool,
    pub last_shot: i64,
}

impl Default for PlayerState {
    /// Before the first spawn the player is neither alive nor shot.
    fn default() -> (state: PlayerState)
        ensures
            state == (PlayerState { on: false, last_shot: NOT_SHOT }),
    {
        PlayerState { on: false, last_shot: NOT_SHOT }
    }
}

impl PlayerState {
    /// Records that the player was shot at `time`.
    pub fn shot(&mut self, time: i64)
        ensures
            *final(self) == (PlayerState { on: false, last_shot: time }),
    {
        self.on = false;
        self.last_shot = time;
    }

    /// Records that the player is alive again.
    pub fn spawn(&mut self)
        ensures
            *final(self) == (PlayerState { on: true, last_shot: NOT_SHOT }),
    {
        self.on = true;
        self.last_shot = NOT_SHOT;
    }
}

} // verus!
