//! The record the server keeps of one connected client.

use vstd::prelude::*;
use crate::character::Character;
use crate::position::Position;
use crate::vector::{Triple, Vector};

verus! {

/// The mathematical value of a [`Player`].
pub struct PlayerView {
    pub username: Seq<char>,
    pub position: Triple,
    pub direction: Triple,
    pub character: Character,
}

/// One client's session: the name it announced and where it last said it was.
#[derive(Debug, Clone, PartialEq, Eq)]
pub struct Player {
    pub username: String,
    pub position: Position,
    pub direction: Vector,
    pub character: Character,
}

impl View for Player {
    type V = PlayerView;

    open spec fn view(&self) -> PlayerView {
        PlayerView {
            username: self.username@,
            position: self.position@,
            direction: self.direction@,
            character: self.character,
        }
    }
}

impl PlayerView {
    /// The session of a client that has just announced `username`: at the
    /// origin, heading nowhere, as the default character.
    pub open spec fn joined(username: Seq<char>) -> PlayerView {
        PlayerView {
            username,
            position: Triple::zero(),
            direction: Triple::zero(),
            character: Character::PepperRoni,
        }
    }

    /// This session after a move to `position`, heading `direction`.
    pub open spec fn moved(self, position: Triple, direction: Triple) -> PlayerView {
        PlayerView { position, direction, ..self }
    }
}

impl Player {
    /// A session named `username`, placed at `position` and heading `direction`.
    /// The name is taken as given; the character is the default one.
    pub fn new(username: &str, position: Position, direction: Vector) -> (p: Self)
        ensures
            p@ == (PlayerView {
                username: username@,
                position: position@,
                direction: direction@,
                character: Character::PepperRoni,
            }),
    {
        Player {
            username: username.to_owned(),
            position,
            direction,
            character: Character::PepperRoni,
        }
    }
}

} // verus!
