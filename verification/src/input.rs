//! The keys, as two signals each: held now, and pressed in this frame.

use vstd::prelude::*;

verus! {

/// What one frame knows of one key.
#[derive(Clone, Copy, Debug, PartialEq, Eq)]
pub struct KeySignal {
    /// The key is down in this frame.
    pub held: bool,
    /// The key is down in this frame and was up in the frame before.
    pub just_pressed: bool,
}

/// The keys that the game reads.
#[derive(Clone, Copy, Debug, PartialEq, Eq)]
pub struct Controls {
    pub up: KeySignal,
    pub down: KeySignal,
    pub left: KeySignal,
    pub right: KeySignal,
    /// The key that buys a pig.
    pub action: KeySignal,
}

impl KeySignal {
    /// A key that is up.
    pub open spec fn idle() -> KeySignal {
        KeySignal { held: false, just_pressed: false }
    }

    /// The signal of the frame after `self`, in which the key is down or not.
    pub open spec fn next(self, down: bool) -> KeySignal {
        KeySignal { held: down, just_pressed: down && !self.held }
    }

    /// A key that is up.
    pub fn released() -> (signal: KeySignal)
        ensures
            signal == KeySignal::idle(),
    {
        KeySignal { held: false, just_pressed: false }
    }

    /// The signal of the next frame: a key counts as just pressed only in
    /// the frame in which it goes from up to down.
    pub fn sample(&self, down: bool) -> (signal: KeySignal)
        ensures
            signal == self.next(down),
    {
        KeySignal { held: down, just_pressed: down && !self.held }
    }
}

impl Controls {
    /// All keys up.
    pub open spec fn idle() -> Controls {
        Controls {
            up: KeySignal::idle(),
            down: KeySignal::idle(),
            left: KeySignal::idle(),
            right: KeySignal::idle(),
            action: KeySignal::idle(),
        }
    }

    /// The controls of the frame after `self`, given which keys are down.
    pub open spec fn next(self, up: bool, down: bool, left: bool, right: bool, action: bool)
        -> Controls {
        Controls {
            up: self.up.next(up),
            down: self.down.next(down),
            left: self.left.next(left),
            right: self.right.next(right),
            action: self.action.next(action),
        }
    }

    /// All keys up.
    pub fn released() -> (controls: Controls)
        ensures
            controls == Controls::idle(),
    {
        Controls {
            up: KeySignal::released(),
            down: KeySignal::released(),
            left: KeySignal::released(),
            right: KeySignal::released(),
            action: KeySignal::released(),
        }
    }

    /// The controls of the next frame, given which keys are down in it.
    pub fn sample(&self, up: bool, down: bool, left: bool, right: bool, action: bool) -> (controls:
        Controls)
        ensures
            controls == self.next(up, down, left, right, action),
    {
        Controls {
            up: self.up.sample(up),
            down: self.down.sample(down),
            left: self.left.sample(left),
            right: self.right.sample(right),
            action: self.action.sample(action),
        }
    }
}

/// A key that stays down is just pressed in no frame after the first.
pub proof fn lemma_held_key_is_not_pressed_again(before: KeySignal)
    requires
        before.held,
    ensures
        !before.next(true).just_pressed,
        before.next(true).held,
{
}

} // verus!
