//! The avatars a session can wear.

use vstd::prelude::*;

verus! {

/// The playable characters. The tag describes a session and drives nothing.
#[derive(Debug, Clone, Copy, PartialEq, Eq, Structural)]
pub enum Character {
    PepperRoni,
}

impl Default for Character {
    /// Every new session starts as Pepper Roni.
    fn default() -> (c: Self)
        ensures
            c == Character::PepperRoni,
    {
        Character::PepperRoni
    }
}

} // verus!
