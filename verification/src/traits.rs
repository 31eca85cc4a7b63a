//! What things in the environment have in common.

use crate::environment::Position;
use crate::numeric::random_int;
use vstd::prelude::*;

verus! {

/// A thing that stands somewhere relative to the player.
pub trait Positionable {
    /// Where the thing stands.
    spec fn spec_position(&self) -> Position;

    /// The same thing at another position.
    spec fn spec_at(&self, position: Position) -> Self where Self: Sized;

    /// Where the thing stands.
    fn position(&self) -> (p: Position)
        ensures
            p == self.spec_position(),
    ;

    /// Moves the thing to `position`.
    fn set_position(&mut self, position: Position) where Self: Sized
        ensures
            final(self).spec_position() == position,
            *final(self) == old(self).spec_at(position),
    ;

    /// Moves the thing to a position picked at random, each of the three
    /// with the same chance.
    fn randomize_position(&mut self) where Self: Sized
        ensures
            exists|position: Position| *final(self) == old(self).spec_at(position),
    {
        let roll: u8 = random_int(1, 3);
        self.set_position(Position::from_roll(roll));
    }
}

/// The kinds of damage.
#[derive(Clone, Copy, Debug, PartialEq, Eq, Structural)]
pub enum DamageType {
    PHYSICAL,
    MAGICAL,
    MIXED,
    TRUE,
}

} // verus!
