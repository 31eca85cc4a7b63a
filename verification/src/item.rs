//! Items: the things that lie in the environment or in the inventory.

use crate::constants::ITEM_MOVE_CHANCE;
use crate::entity::{Entity, Instance};
use crate::environment::Position;
use crate::numeric::{random_chance, random_choice};
use crate::player::RotfPlayer;
use crate::text::{chars_of, decimal, push_decimal, unlines};
use crate::traits::Positionable;
use crate::item_loader::ItemLoader;
use crate::unit::chance_to_stay;
use vstd::prelude::*;
use vstd::string::StringExecFns;

verus! {

/// One item, in the environment or in the inventory.
#[derive(Clone, Copy, Debug, PartialEq, Eq, Structural)]
pub struct Item {
    pub id: u64,
    pub despawn: bool,
    pub position: Position,
    pub view_index: i64,
    pub level: u8,
}

impl Positionable for Item {
    open spec fn spec_position(&self) -> Position {
        self.position
    }

    open spec fn spec_at(&self, position: Position) -> Item {
        Item { position, ..*self }
    }

    fn position(&self) -> (p: Position) {
        self.position
    }

    fn set_position(&mut self, position: Position) {
        self.position = position;
        assert(self.spec_position() == position);
    }
}

impl Instance for Item {
    open spec fn spec_entity(&self) -> Entity {
        Entity {
            id: self.id,
            despawn: self.despawn,
            position: self.position,
            view_index: self.view_index,
            level: self.level,
        }
    }

    open spec fn spec_from_entity(e: Entity) -> Item {
        Item {
            id: e.id,
            despawn: e.despawn,
            position: e.position,
            view_index: e.view_index,
            level: e.level,
        }
    }

    fn entity(&self) -> (e: Entity) {
        Entity {
            id: self.id,
            despawn: self.despawn,
            position: self.position,
            view_index: self.view_index,
            level: self.level,
        }
    }

    fn from_entity(e: Entity) -> (r: Item) {
        Item {
            id: e.id,
            despawn: e.despawn,
            position: e.position,
            view_index: e.view_index,
            level: e.level,
        }
    }

    proof fn lemma_from_entity(self) {
    }

    proof fn lemma_entity_of(e: Entity) {
    }
}

impl Item {
    /// An item fresh from the catalog: at middle distance, not yet seen.
    pub open spec fn spec_new(id: u64, level: u8) -> Item {
        Item { id, despawn: false, position: Position::MEDIUM, view_index: 0, level }
    }

    /// An item fresh from the catalog.
    pub fn new(id: u64, level: u8) -> (i: Item)
        ensures
            i == Item::spec_new(id, level),
    {
        Item { id, despawn: false, position: Position::MEDIUM, view_index: 0, level }
    }

    /// The ids of the items that come without a catalog at the given tier:
    /// none at any tier.
    pub fn possible_ids(tier: u8) -> (r: Vec<u64>)
        ensures
            r@.len() == 0,
    {
        Vec::new()
    }

    /// An item picked at random from those that come without a catalog at
    /// the tier of the player, or the item with id 0 if there is none.
    pub fn spawn(player: &RotfPlayer) -> (i: Item)
        ensures
            i == Item::spec_new(0, 0),
    {
        let possible_ids = Item::possible_ids(player.tier());
        match random_choice(&possible_ids) {
            Some(id) => Item::new(id, 0),
            None => Item::new(0, 0),
        }
    }

    /// Whether the item is to leave the environment.
    pub fn despawn(&self) -> (r: bool)
        ensures
            r == self.despawn,
    {
        self.despawn
    }

    /// The item after a move. The coin decides between the two ways open
    /// from a position: from far away to the middle or out of the world,
    /// from the middle outwards or inwards, from nearby back to the middle
    /// or nowhere.
    pub open spec fn spec_step(self, coin: bool) -> Item {
        match self.position {
            Position::FAR => if coin {
                Item { position: Position::MEDIUM, ..self }
            } else {
                Item { despawn: true, ..self }
            },
            Position::MEDIUM => if coin {
                Item { position: Position::FAR, ..self }
            } else {
                Item { position: Position::NEAR, ..self }
            },
            Position::NEAR => if coin {
                Item { position: Position::MEDIUM, ..self }
            } else {
                self
            },
        }
    }

    /// Moves the item as the coin decides.
    pub fn step(&mut self, coin: bool)
        ensures
            *final(self) == old(self).spec_step(coin),
    {
        match self.position {
            Position::FAR => {
                if coin {
                    self.position = Position::MEDIUM;
                } else {
                    self.despawn = true;
                }
            },
            Position::MEDIUM => {
                if coin {
                    self.position = Position::FAR;
                } else {
                    self.position = Position::NEAR;
                }
            },
            Position::NEAR => {
                if coin {
                    self.position = Position::MEDIUM;
                }
            },
        }
    }

    /// Whether `after` is what may become of the item in one update: it
    /// stayed as it was, or it made one step.
    pub open spec fn may_become(self, after: Item) -> bool {
        after == self || after == self.spec_step(true) || after == self.spec_step(false)
    }

    /// Whether `after` is the item after one step, wherever the coin sent it.
    pub open spec fn steps_to(self, after: Item) -> bool {
        after == self.spec_step(true) || after == self.spec_step(false)
    }

    /// Lets the item move, with a chance that grows with the time that has
    /// passed: none at all when no time has passed, and for sure when the
    /// chance to stay has shrunk to nothing.
    pub fn possible_move(&mut self, time: u8)
        ensures
            old(self).may_become(*final(self)),
            time == 0 ==> *final(self) == *old(self),
            crate::unit::stay_chance(time, ITEM_MOVE_CHANCE) == 0 ==> old(self).steps_to(
                *final(self),
            ),
    {
        if random_chance(chance_to_stay(time, ITEM_MOVE_CHANCE)) {
            return ;
        }
        let coin: bool = random_chance(50);
        self.step(coin);
    }

    /// The text that names the item: `ID: ` and its catalog id.
    pub open spec fn spec_to_string(self) -> Seq<char> {
        "ID: "@ + decimal(self.id as nat)
    }

    /// The text that names the item.
    pub fn to_string(&self) -> (s: String)
        ensures
            s@ == self.spec_to_string(),
    {
        let mut out = String::from_str("ID: ");
        push_decimal(&mut out, self.id);
        out
    }

    /// How the item is shown in a list: the name, and the level in brackets.
    pub open spec fn spec_view_short(self, name: Seq<char>) -> Seq<char> {
        name + " ("@ + decimal(self.level as nat) + ")"@
    }

    /// How the item is shown in a list, under its name in the catalog.
    pub fn view_short(&self, loader: &ItemLoader) -> (s: String)
        ensures
            s@ == self.spec_view_short(loader.data(self.id).name),
    {
        let data = loader.get_data(self.id);
        let mut out = data.name.clone();
        out.append(" (");
        push_decimal(&mut out, self.level as u64);
        out.append(")");
        out
    }

    /// The lines that describe the item in a save.
    pub open spec fn spec_file_lines(self) -> Seq<Seq<char>> {
        self.spec_entity().spec_lines()
    }

    /// The text that describes the item in a save: one line for each field,
    /// each with a line feed before it.
    pub fn file_content(&self) -> (s: String)
        ensures
            s@ == unlines(self.spec_file_lines()),
    {
        let mut out = String::new();
        self.entity().write(&mut out);
        assert(Seq::<char>::empty() + unlines(self.spec_file_lines()) == unlines(
            self.spec_file_lines(),
        ));
        out
    }

    /// The item after one line of a save has been read into it.
    pub open spec fn spec_read_line(self, line: Seq<char>) -> Item {
        Item::spec_from_entity(self.spec_entity().spec_read(line))
    }

    /// Reads one line of a save into the item.
    pub fn read_chars(&mut self, line: &Vec<char>)
        ensures
            *final(self) == old(self).spec_read_line(line@),
    {
        *self = Item::from_entity(self.entity().read(line));
    }

    /// Reads one line of a save into the item. A line without a colon or
    /// with an unknown key changes nothing.
    pub fn read_line(&mut self, line: String)
        ensures
            *final(self) == old(self).spec_read_line(line@),
    {
        let v = chars_of(line.as_str());
        self.read_chars(&v);
    }
}

} // verus!
