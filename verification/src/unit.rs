//! Units: the creatures that roam the environment.

use crate::ability::Ability;
use crate::constants::UNIT_MOVE_CHANCE;
use crate::entity::{Entity, Instance};
use crate::environment::Position;
use crate::numeric::random_chance;
use crate::text::{chars_of, decimal, push_decimal, unlines};
use crate::traits::Positionable;
use crate::unit_loader::UnitLoader;
use vstd::prelude::*;
use vstd::string::StringExecFns;

verus! {

/// One unit in the environment.
#[derive(Clone, Copy, Debug, PartialEq, Eq, Structural)]
pub struct Unit {
    pub id: u64,
    pub despawn: bool,
    pub position: Position,
    pub view_index: i64,
    pub level: u8,
}

impl Positionable for Unit {
    open spec fn spec_position(&self) -> Position {
        self.position
    }

    open spec fn spec_at(&self, position: Position) -> Unit {
        Unit { position, ..*self }
    }

    fn position(&self) -> (p: Position) {
        self.position
    }

    fn set_position(&mut self, position: Position) {
        self.position = position;
        assert(self.spec_position() == position);
    }
}

/// The chance, in hundredths, that a thing stays where it is while `time`
/// passes, if it moves with a chance of `chance` hundredths in one unit of
/// time.
pub open spec fn stay_chance(time: u8, chance: u8) -> u8 {
    if time * chance >= 100 {
        0
    } else {
        (100 - time * chance) as u8
    }
}

/// The chance, in hundredths, that a thing stays where it is.
pub fn chance_to_stay(time: u8, chance: u8) -> (r: u8)
    ensures
        r == stay_chance(time, chance),
        time == 0 ==> r == 100,
{
    assert(0 <= time * chance <= 255 * 255 && (time == 0 ==> time * chance == 0)) by (nonlinear_arith)
        requires
            0 <= time <= 255,
            0 <= chance <= 255,
    ;
    let moved: u32 = time as u32 * chance as u32;
    if moved >= 100 {
        0
    } else {
        (100 - moved) as u8
    }
}

impl Instance for Unit {
    open spec fn spec_entity(&self) -> Entity {
        Entity {
            id: self.id,
            despawn: self.despawn,
            position: self.position,
            view_index: self.view_index,
            level: self.level,
        }
    }

    open spec fn spec_from_entity(e: Entity) -> Unit {
        Unit {
            id: e.id,
            despawn: e.despawn,
            position: e.position,
            view_index: e.view_index,
            level: e.level,
        }
    }

    fn entity(&self) -> (e: Entity) {
        Entity {
            id: self.id,
            despawn: self.despawn,
            position: self.position,
            view_index: self.view_index,
            level: self.level,
        }
    }

    fn from_entity(e: Entity) -> (r: Unit) {
        Unit {
            id: e.id,
            despawn: e.despawn,
            position: e.position,
            view_index: e.view_index,
            level: e.level,
        }
    }

    proof fn lemma_from_entity(self) {
    }

    proof fn lemma_entity_of(e: Entity) {
    }
}

impl Unit {
    /// A unit fresh from the catalog: far away, not yet seen.
    pub open spec fn spec_new(id: u64, level: u8) -> Unit {
        Unit { id, despawn: false, position: Position::FAR, view_index: 0, level }
    }

    /// A unit fresh from the catalog.
    pub fn new(id: u64, level: u8) -> (u: Unit)
        ensures
            u == Unit::spec_new(id, level),
    {
        Unit { id, despawn: false, position: Position::FAR, view_index: 0, level }
    }

    /// What the unit can do in combat.
    pub fn abilities(&self) -> (r: Vec<Ability>)
        ensures
            r@ == seq![Ability::NOTHING],
    {
        vec![Ability::NOTHING]
    }

    /// Whether the unit is to leave the environment.
    pub fn despawn(&self) -> (r: bool)
        ensures
            r == self.despawn,
    {
        self.despawn
    }

    /// The unit after a move, and whether it attacks the player instead of
    /// moving. The coin decides between the two ways open from a position:
    /// from far away to the middle or out of the world, from the middle
    /// outwards or inwards, from nearby back to the middle or into an attack.
    pub open spec fn spec_step(self, coin: bool) -> (Unit, bool) {
        match self.position {
            Position::FAR => if coin {
                (Unit { position: Position::MEDIUM, ..self }, false)
            } else {
                (Unit { despawn: true, ..self }, false)
            },
            Position::MEDIUM => if coin {
                (Unit { position: Position::FAR, ..self }, false)
            } else {
                (Unit { position: Position::NEAR, ..self }, false)
            },
            Position::NEAR => if coin {
                (Unit { position: Position::MEDIUM, ..self }, false)
            } else {
                (self, true)
            },
        }
    }

    /// Moves the unit as the coin decides. Returns whether the unit attacks
    /// the player.
    pub fn step(&mut self, coin: bool) -> (attack: bool)
        ensures
            (*final(self), attack) == old(self).spec_step(coin),
    {
        match self.position {
            Position::FAR => {
                if coin {
                    self.position = Position::MEDIUM;
                } else {
                    self.despawn = true;
                }
                false
            },
            Position::MEDIUM => {
                if coin {
                    self.position = Position::FAR;
                } else {
                    self.position = Position::NEAR;
                }
                false
            },
            Position::NEAR => {
                if coin {
                    self.position = Position::MEDIUM;
                    false
                } else {
                    true
                }
            },
        }
    }

    /// Whether `after` and `attack` are what may become of the unit in one
    /// update: it stayed as it was, or it made one step.
    pub open spec fn may_become(self, after: Unit, attack: bool) -> bool {
        ||| (after == self && !attack)
        ||| (after, attack) == self.spec_step(true)
        ||| (after, attack) == self.spec_step(false)
    }

    /// Whether `after` is the unit after one step, wherever the coin sent it.
    pub open spec fn steps_to(self, after: Unit) -> bool {
        after == self.spec_step(true).0 || after == self.spec_step(false).0
    }

    /// Whether `after` is what may become of the unit in one update,
    /// whether or not it attacks.
    pub open spec fn stays_or_steps(self, after: Unit) -> bool {
        self.may_become(after, true) || self.may_become(after, false)
    }

    /// Lets the unit move, with a chance that grows with the time that has
    /// passed: none at all when no time has passed, and for sure when the
    /// chance to stay has shrunk to nothing. Returns whether the unit
    /// attacks the player.
    pub fn possible_move(&mut self, time: u8) -> (attack: bool)
        ensures
            old(self).may_become(*final(self), attack),
            time == 0 ==> *final(self) == *old(self) && !attack,
            stay_chance(time, UNIT_MOVE_CHANCE) == 0 ==> old(self).steps_to(*final(self)),
    {
        if random_chance(chance_to_stay(time, UNIT_MOVE_CHANCE)) {
            return false;
        }
        let coin: bool = random_chance(50);
        self.step(coin)
    }

    /// The text that names the unit: `ID: ` and its catalog id.
    pub open spec fn spec_to_string(self) -> Seq<char> {
        "ID: "@ + decimal(self.id as nat)
    }

    /// The text that names the unit.
    pub fn to_string(&self) -> (s: String)
        ensures
            s@ == self.spec_to_string(),
    {
        let mut out = String::from_str("ID: ");
        push_decimal(&mut out, self.id);
        out
    }

    /// How the unit is shown in a list: the name, and the level in brackets.
    pub open spec fn spec_view_short(self, name: Seq<char>) -> Seq<char> {
        name + " ("@ + decimal(self.level as nat) + ")"@
    }

    /// How the unit is shown in a list, under its name in the catalog.
    pub fn view_short(&self, loader: &UnitLoader) -> (s: String)
        ensures
            s@ == self.spec_view_short(loader.data(self.id).name),
    {
        let data = loader.get_data(self.id);
        let mut out = data.name.clone();
        out.append(" (");
        push_decimal(&mut out, self.level as u64);
        out.append(")");
        out
    }

    /// The lines that describe the unit in a save.
    pub open spec fn spec_file_lines(self) -> Seq<Seq<char>> {
        self.spec_entity().spec_lines()
    }

    /// The text that describes the unit in a save: one line for each field,
    /// each with a line feed before it.
    pub fn file_content(&self) -> (s: String)
        ensures
            s@ == unlines(self.spec_file_lines()),
    {
        let mut out = String::new();
        self.entity().write(&mut out);
        assert(Seq::<char>::empty() + unlines(self.spec_file_lines()) == unlines(
            self.spec_file_lines(),
        ));
        out
    }

    /// The unit after one line of a save has been read into it.
    pub open spec fn spec_read_line(self, line: Seq<char>) -> Unit {
        Unit::spec_from_entity(self.spec_entity().spec_read(line))
    }

    /// Reads one line of a save into the unit.
    pub fn read_chars(&mut self, line: &Vec<char>)
        ensures
            *final(self) == old(self).spec_read_line(line@),
    {
        *self = Unit::from_entity(self.entity().read(line));
    }

    /// Reads one line of a save into the unit. A line without a colon or
    /// with an unknown key changes nothing.
    pub fn read_line(&mut self, line: String)
        ensures
            *final(self) == old(self).spec_read_line(line@),
    {
        let v = chars_of(line.as_str());
        self.read_chars(&v);
    }
}

} // verus!
