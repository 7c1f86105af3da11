//! Player-side session state and the default entity speed.

use vstd::prelude::*;

verus! {

use crate::DEFAULT_SPEED;

/// Whether the player ship is alive, and when it was last shot down.
/// `last_shot` is a host timestamp in milliseconds since session start;
/// the host uses it to gate the respawn delay.
#[derive(Clone, Copy, PartialEq, Eq, Structural, Debug)]
pub struct PlayerState {
    pub on: bool,
    pub last_shot: i64,
}

impl Default for PlayerState {
    /// A fresh session starts with no live player and no recorded death.
    fn default() -> (s: Self)
        ensures
            s == (PlayerState { on: false, last_shot: 0 }),
    {
        PlayerState { on: false, last_shot: 0 }
    }
}

impl PlayerState {
    /// Record that the player was shot down at `time`.
    pub fn shot(&mut self, time: i64)
        ensures
            *final(self) == (PlayerState { on: false, last_shot: time }),
    {
        self.on = false;
        self.last_shot = time;
    }

    /// Record that the player ship is back on the field.
    pub fn spawned(&mut self)
        ensures
            *final(self) == (PlayerState { on: true, last_shot: 0 }),
    {
        self.on = true;
        self.last_shot = 0;
    }
}

/// A scalar speed in thousandths of a pixel per second.
#[derive(Clone, Copy, PartialEq, Eq, Structural, Debug)]
pub struct Speed(pub i64);

impl Default for Speed {
    /// Entities move at 500 pixels per second unless told otherwise.
    fn default() -> (s: Self)
        ensures
            s == Speed(DEFAULT_SPEED),
    {
        Speed(DEFAULT_SPEED)
    }
}

} // verus!
