//! The player.

use crate::commands::Command;
use crate::entity::{entities_of, Instance};
use crate::entity_map::EntityMap;
use crate::environment::Position;
use crate::inventory::Inventory;
use crate::item::Item;
use crate::save::{
    after_field, blocks_lines, read_lines, write_blocks, BlockReader, Reader, SaveFile, SaveReader,
    SaveState,
};
use crate::text::{
    chars_of, decimal, field_line, lemma_unlines_add, lemma_unlines_push, lines, push_decimal,
    push_field, unlines,
};
use crate::traits::Positionable;
use crate::unit::Unit;
use vstd::prelude::*;
use vstd::string::StringExecFns;

verus! {

/// The player: a level, how far the player sees, and an inventory.
pub struct RotfPlayer {
    pub level: u8,
    pub view_distance: Position,
    pub inventory: Inventory,
}

impl RotfPlayer {
    /// A player at level zero who sees what is near and carries nothing.
    pub fn new() -> (r: RotfPlayer)
        ensures
            r.level == 0,
            r.view_distance == Position::NEAR,
            r.inventory.items@.len() == 0,
            r.inventory.items.spec_next_key() == 1,
            r.inventory.capacity == 1,
    {
        RotfPlayer { level: 0, view_distance: Position::NEAR, inventory: Inventory::new() }
    }

    /// The commands of a player in the environment.
    pub open spec fn spec_environment_commands() -> Seq<Command> {
        seq![
            Command::VIEW,
            Command::WAIT,
            Command::FIGHT,
            Command::PICKUP,
            Command::INVENTORY,
            Command::DROP,
        ]
    }

    /// The commands of a player in the environment.
    pub fn environment_commands(&self) -> (r: Vec<Command>)
        ensures
            r@ == RotfPlayer::spec_environment_commands(),
    {
        let r = vec![
            Command::VIEW,
            Command::WAIT,
            Command::FIGHT,
            Command::PICKUP,
            Command::INVENTORY,
            Command::DROP,
        ];
        assert(r@ =~= RotfPlayer::spec_environment_commands());
        r
    }

    /// The commands of a player in combat.
    pub open spec fn spec_combat_commands() -> Seq<Command> {
        seq![Command::FLEE]
    }

    /// The commands of a player in combat.
    pub fn combat_commands(&self) -> (r: Vec<Command>)
        ensures
            r@ == RotfPlayer::spec_combat_commands(),
    {
        let r = vec![Command::FLEE];
        assert(r@ =~= RotfPlayer::spec_combat_commands());
        r
    }

    /// Whether the player sees something at `position`: it is no farther
    /// away than the player's view reaches.
    pub open spec fn sees(&self, position: Position) -> bool {
        self.view_distance.spec_distance() >= position.spec_distance()
    }

    /// Whether the player sees `thing`.
    pub fn can_view<T: Positionable>(&self, thing: &T) -> (r: bool)
        ensures
            r == self.sees(thing.spec_position()),
    {
        self.view_distance.distance() >= thing.position().distance()
    }

    /// The tier of the player: one, and one more for every ten levels.
    pub open spec fn spec_tier(&self) -> u8 {
        (1 + self.level / 10) as u8
    }

    /// The tier of the player.
    pub fn tier(&self) -> (t: u8)
        ensures
            t == self.spec_tier(),
    {
        1 + self.level / 10
    }

    /// What the player is told about the player.
    pub open spec fn spec_me(&self, name: Seq<char>) -> Seq<char> {
        "Player Info"@ + "\n   Name: "@ + name + "\n  Level: "@ + decimal(self.level as nat)
            + "\n   Tier: "@ + decimal(self.spec_tier() as nat)
    }

    /// What the player is told about the player.
    pub fn me(&self, name: String) -> (s: String)
        ensures
            s@ == self.spec_me(name@),
    {
        let mut out = String::from_str("Player Info");
        out.append("\n   Name: ");
        out.append(name.as_str());
        out.append("\n  Level: ");
        push_decimal(&mut out, self.level as u64);
        out.append("\n   Tier: ");
        push_decimal(&mut out, self.tier() as u64);
        out
    }

    /// The lines of the player's file in a save.
    pub open spec fn spec_file_lines(&self) -> Seq<Seq<char>> {
        seq![
            field_line(""@, "level"@, decimal(self.level as nat)),
            field_line(""@, "view_distance"@, self.view_distance.spec_name()),
            ""@,
            field_line(""@, "capacity"@, decimal(self.inventory.capacity as nat)),
        ] + blocks_lines(
            "next_item_key"@,
            "%%% BEGIN ITEM"@,
            "%%% END ITEM"@,
            entities_of(self.inventory.items@),
        ) + seq![
            field_line(""@, "next_item_key"@, decimal(self.inventory.items.spec_next_key() as nat)),
        ]
    }

    /// The player's file in a save: each line with a line feed before it.
    pub fn file_content(&self) -> (s: String)
        ensures
            s@ == unlines(self.spec_file_lines()),
    {
        let mut out = String::new();
        let ghost mut ls: Seq<Seq<char>> = Seq::empty();
        assert(out@ == unlines(ls));
        push_field(&mut out, "", "level");
        push_decimal(&mut out, self.level as u64);
        proof {
            let l = field_line(""@, "level"@, decimal(self.level as nat));
            lemma_unlines_push(ls, l);
            ls = ls.push(l);
            assert(out@ == unlines(ls));
        }
        push_field(&mut out, "", "view_distance");
        out.append(self.view_distance.name());
        proof {
            let l = field_line(""@, "view_distance"@, self.view_distance.spec_name());
            lemma_unlines_push(ls, l);
            ls = ls.push(l);
            assert(out@ == unlines(ls));
        }
        out.push('\n');
        proof {
            reveal_strlit("");
            lemma_unlines_push(ls, ""@);
            ls = ls.push(""@);
            assert(out@ == unlines(ls));
        }
        push_field(&mut out, "", "capacity");
        push_decimal(&mut out, self.inventory.capacity as u64);
        proof {
            let l = field_line(""@, "capacity"@, decimal(self.inventory.capacity as nat));
            lemma_unlines_push(ls, l);
            ls = ls.push(l);
            assert(out@ == unlines(ls));
        }
        write_blocks(
            &mut out,
            &self.inventory.items,
            "next_item_key",
            "%%% BEGIN ITEM",
            "%%% END ITEM",
        );
        proof {
            let bs = blocks_lines(
                "next_item_key"@,
                "%%% BEGIN ITEM"@,
                "%%% END ITEM"@,
                entities_of(self.inventory.items@),
            );
            lemma_unlines_add(ls, bs);
            ls = ls + bs;
            assert(out@ == unlines(ls));
        }
        push_field(&mut out, "", "next_item_key");
        push_decimal(&mut out, self.inventory.items.next_key());
        proof {
            let l = field_line(
                ""@,
                "next_item_key"@,
                decimal(self.inventory.items.spec_next_key() as nat),
            );
            lemma_unlines_push(ls, l);
            ls = ls.push(l);
            assert(out@ == unlines(ls));
            assert(ls =~= self.spec_file_lines());
        }
        out
    }

    /// The state from which the player's file is read: nothing of a block
    /// read yet, and the player as it stands.
    pub open spec fn load_state(&self) -> SaveState {
        SaveState {
            units: Reader {
                entries: Seq::empty(),
                next_key: 1,
                open: false,
                current: Unit::spec_new(0, 0).spec_entity(),
                blank: Unit::spec_new(0, 0).spec_entity(),
            },
            items: Reader {
                entries: entities_of(self.inventory.items@),
                next_key: self.inventory.items.spec_next_key(),
                open: false,
                current: Item::spec_new(0, 0).spec_entity(),
                blank: Item::spec_new(0, 0).spec_entity(),
            },
            level: self.level,
            view_distance: self.view_distance,
            capacity: self.inventory.capacity,
            time_passed: 0,
        }
    }

    /// Whether the player holds what `s` holds of a player.
    pub open spec fn holds(&self, s: SaveState) -> bool {
        &&& self.level == s.level
        &&& self.view_distance == s.view_distance
        &&& self.inventory.capacity == s.capacity
        &&& entities_of(self.inventory.items@) == s.items.entries
        &&& self.inventory.items.spec_next_key() == s.items.next_key
    }

    /// A reader that goes on from the player; the items move into it.
    fn reader(&mut self) -> (r: SaveReader)
        ensures
            r@ == old(self).load_state(),
    {
        let mut items: EntityMap<Item> = EntityMap::new();
        std::mem::swap(&mut items, &mut self.inventory.items);
        let units: EntityMap<Unit> = EntityMap::new();
        let r = SaveReader {
            units: BlockReader::new(units, Unit::new(0, 0).entity()),
            items: BlockReader::new(items, Item::new(0, 0).entity()),
            level: self.level,
            view_distance: self.view_distance,
            capacity: self.inventory.capacity,
            time_passed: 0,
        };
        assert(r@.units.entries =~= Seq::empty());
        r
    }

    /// Takes over what the reader has read.
    fn take(&mut self, r: SaveReader)
        ensures
            final(self).holds(r@),
    {
        self.level = r.level;
        self.view_distance = r.view_distance;
        self.inventory.capacity = r.capacity;
        self.inventory.items = r.items.map;
    }

    /// Reads the player's file of a save into the player.
    pub fn load(&mut self, content: &str)
        ensures
            final(self).holds(read_lines(SaveFile::PLAYER, old(self).load_state(), lines(content@))),
    {
        let mut r = self.reader();
        r.read(SaveFile::PLAYER, content);
        self.take(r);
    }

    /// Gives a field of the player the value that a line outside any block
    /// gives it. An unknown key changes nothing.
    pub fn read_line(&mut self, key: &str, value: &str)
        ensures
            final(self).holds(after_field(SaveFile::PLAYER, old(self).load_state(), key@, value@)),
    {
        let mut r = self.reader();
        let k = chars_of(key);
        let v = chars_of(value);
        r.read_field(SaveFile::PLAYER, &k, &v);
        self.take(r);
    }
}

} // verus!
