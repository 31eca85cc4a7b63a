//! The surroundings of the player: where things stand, what is alive in
//! them, and how they change as time passes.

use crate::entity::{entities_of, Instance};
use crate::entity_map::{has_key, EntityMap};
use crate::item::Item;
use crate::item_loader::ItemLoader;
use crate::player::RotfPlayer;
use crate::save::{
    blocks_lines, read_lines, write_blocks, BlockReader, Reader, SaveFile, SaveReader, SaveState,
};
use crate::text::{
    chars_of, decimal, eq_str, field_line, lemma_unlines_add, lemma_unlines_push, lines,
    push_decimal, push_field, unlines,
};
use crate::traits::Positionable;
use crate::unit::Unit;
use crate::unit_loader::UnitLoader;
use vstd::prelude::*;

verus! {

/// Where a thing stands, relative to the player.
#[derive(Clone, Copy, Debug, PartialEq, Eq, Structural)]
pub enum Position {
    NEAR,
    MEDIUM,
    FAR,
}

impl Position {
    /// How far away the position is: one for the nearest, three for the
    /// farthest.
    pub open spec fn spec_distance(self) -> u64 {
        match self {
            Position::NEAR => 1,
            Position::MEDIUM => 2,
            Position::FAR => 3,
        }
    }

    /// How far away the position is.
    pub fn distance(&self) -> (d: u64)
        ensures
            d == self.spec_distance(),
    {
        match self {
            Position::NEAR => 1,
            Position::MEDIUM => 2,
            Position::FAR => 3,
        }
    }

    /// The position that the roll of a die with three sides picks: near
    /// for one, the middle for two, far away for anything else.
    pub open spec fn spec_from_roll(roll: u8) -> Position {
        if roll == 1 {
            Position::NEAR
        } else if roll == 2 {
            Position::MEDIUM
        } else {
            Position::FAR
        }
    }

    /// The position that the roll of a die with three sides picks.
    pub fn from_roll(roll: u8) -> (p: Position)
        ensures
            p == Position::spec_from_roll(roll),
    {
        if roll == 1 {
            Position::NEAR
        } else if roll == 2 {
            Position::MEDIUM
        } else {
            Position::FAR
        }
    }

    /// The name under which the position is written down.
    pub open spec fn spec_name(self) -> Seq<char> {
        match self {
            Position::NEAR => "NEAR"@,
            Position::MEDIUM => "MEDIUM"@,
            Position::FAR => "FAR"@,
        }
    }

    /// The name under which the position is written down.
    pub fn name(&self) -> (s: &'static str)
        ensures
            s@ == self.spec_name(),
    {
        match self {
            Position::NEAR => "NEAR",
            Position::MEDIUM => "MEDIUM",
            Position::FAR => "FAR",
        }
    }

    /// The position that a name stands for.
    pub open spec fn spec_from_name(s: Seq<char>) -> Option<Position> {
        if s == "NEAR"@ {
            Some(Position::NEAR)
        } else if s == "MEDIUM"@ {
            Some(Position::MEDIUM)
        } else if s == "FAR"@ {
            Some(Position::FAR)
        } else {
            None
        }
    }

    /// Reads a position from its name.
    pub fn from_chars(s: &Vec<char>) -> (r: Result<Position, ()>)
        ensures
            match r {
                Ok(p) => Position::spec_from_name(s@) == Some(p),
                Err(_) => Position::spec_from_name(s@) is None,
            },
    {
        if eq_str(s, "NEAR") {
            Ok(Position::NEAR)
        } else if eq_str(s, "MEDIUM") {
            Ok(Position::MEDIUM)
        } else if eq_str(s, "FAR") {
            Ok(Position::FAR)
        } else {
            Err(())
        }
    }

    /// Reads a position from its name.
    pub fn from_str(s: &str) -> (r: Result<Position, ()>)
        ensures
            match r {
                Ok(p) => Position::spec_from_name(s@) == Some(p),
                Err(_) => Position::spec_from_name(s@) is None,
            },
    {
        let v = chars_of(s);
        Position::from_chars(&v)
    }

    /// The name of a position holds nothing but letters.
    pub proof fn lemma_name_plain(self)
        ensures
            crate::text::trim(self.spec_name()) == self.spec_name(),
            !self.spec_name().contains(':'),
            !self.spec_name().contains('\n'),
            self.spec_name().len() > 0,
            self.spec_name().last() != '\r',
    {
        reveal_strlit("NEAR");
        reveal_strlit("MEDIUM");
        reveal_strlit("FAR");
        crate::text::lemma_trim_clean(self.spec_name());
    }

    /// Every position is read back from its own name.
    pub proof fn lemma_name_round_trip(self)
        ensures
            Position::spec_from_name(self.spec_name()) == Some(self),
    {
        reveal_strlit("NEAR");
        reveal_strlit("MEDIUM");
        reveal_strlit("FAR");
        assert("NEAR"@.len() == 4);
        assert("MEDIUM"@.len() == 6);
        assert("FAR"@.len() == 3);
    }
}

/// What is alive around the player: the units and the items, each under a
/// key that is never used again, and the time that has passed since they
/// last moved.
pub struct RotfEnvironment {
    pub units: EntityMap<Unit>,
    pub items: EntityMap<Item>,
    pub time_passed: u8,
}

/// How many units live around a player of the given tier.
pub open spec fn spec_num_units(tier: u8) -> usize {
    if tier == 1 {
        10
    } else {
        0
    }
}

/// How many items lie around a player of the given tier.
pub open spec fn spec_num_items(tier: u8) -> usize {
    if tier == 1 {
        3
    } else {
        0
    }
}

/// Whether `unit` is one that the catalog may have spawned: one of the ids
/// that may spawn, no unit zero, at a level between the lowest and the
/// highest for its id, not yet seen and not to be removed.
pub open spec fn spawned_unit(unit: Unit, loader: &UnitLoader) -> bool {
    let low = crate::unit_loader::unit_min_level(loader.level(), loader.data(unit.id).level_range);
    let high = crate::unit_loader::unit_max_level(loader.level(), loader.data(unit.id).level_range);
    &&& unit.id >= 1
    &&& loader.current().contains(unit.id)
    &&& (low <= unit.level <= high || high <= unit.level <= low)
    &&& !unit.despawn
    &&& unit.view_index == 0
}

/// Whether `item` is one that the catalog may have spawned.
pub open spec fn spawned_item(item: Item, loader: &ItemLoader) -> bool {
    let low = crate::item_loader::item_min_level(loader.level(), loader.data(item.id).level_range);
    let high = crate::item_loader::item_max_level(loader.level(), loader.data(item.id).level_range);
    &&& item.id >= 1
    &&& loader.current().contains(item.id)
    &&& (low <= item.level <= high || high <= item.level <= low)
    &&& !item.despawn
    &&& item.view_index == 0
}

/// Whether `after` is `before` with up to `count` new units at its end,
/// each under the next key in turn, each one that the catalog may have
/// spawned, and, unless `anywhere`, each far away. All `count` of them are
/// there if the catalog has an id that may spawn and the keys do not run out.
pub open spec fn units_spawned(
    before: Seq<(u64, Unit)>,
    next_key: u64,
    after: Seq<(u64, Unit)>,
    count: usize,
    loader: &UnitLoader,
    anywhere: bool,
) -> bool {
    &&& before.len() <= after.len() <= before.len() + count
    &&& after.take(before.len() as int) == before
    &&& forall|i: int|
        before.len() <= i < after.len() ==> {
            &&& (#[trigger] after[i]).0 == next_key + (i - before.len())
            &&& spawned_unit(after[i].1, loader)
            &&& (anywhere || after[i].1.position == Position::FAR)
        }
    &&& loader.current().len() == 0 ==> after.len() == before.len()
    &&& loader.current().len() > 0 && next_key + count <= u64::MAX ==> after.len() == before.len()
        + count
}

/// Whether `after` is `before` with up to `count` new items at its end,
/// each under the next key in turn, each one that the catalog may have
/// spawned, and, unless `anywhere`, each at middle distance. All `count` of
/// them are there if the catalog has an id that may spawn and the keys do
/// not run out.
pub open spec fn items_spawned(
    before: Seq<(u64, Item)>,
    next_key: u64,
    after: Seq<(u64, Item)>,
    count: usize,
    loader: &ItemLoader,
    anywhere: bool,
) -> bool {
    &&& before.len() <= after.len() <= before.len() + count
    &&& after.take(before.len() as int) == before
    &&& forall|i: int|
        before.len() <= i < after.len() ==> {
            &&& (#[trigger] after[i]).0 == next_key + (i - before.len())
            &&& spawned_item(after[i].1, loader)
            &&& (anywhere || after[i].1.position == Position::MEDIUM)
        }
    &&& loader.current().len() == 0 ==> after.len() == before.len()
    &&& loader.current().len() > 0 && next_key + count <= u64::MAX ==> after.len() == before.len()
        + count
}

/// The entries that are not marked for removal, in their order.
pub open spec fn alive<T: Instance>(s: Seq<(u64, T)>) -> Seq<(u64, T)>
    decreases s.len(),
{
    if s.len() == 0 {
        s
    } else if s.last().1.spec_entity().despawn {
        alive(s.drop_last())
    } else {
        alive(s.drop_last()).push(s.last())
    }
}

/// Takes the entries that are marked for removal out of `map`.
pub fn remove_despawned<T: Instance>(map: &mut EntityMap<T>)
    ensures
        final(map)@ == alive(old(map)@),
        final(map).spec_next_key() == old(map).spec_next_key(),
{
    let ghost all = map@;
    let mut i: usize = 0;
    let ghost mut j: int = 0;
    assert(map@.take(0) =~= alive(all.take(0)));
    assert(map@.skip(0) == all.skip(0));
    while i < map.len()
        invariant
            all == old(map)@,
            map.spec_next_key() == old(map).spec_next_key(),
            0 <= i <= j <= all.len(),
            i <= map@.len(),
            map@.len() - i == all.len() - j,
            map@.take(i as int) == alive(all.take(j)),
            map@.skip(i as int) == all.skip(j),
        decreases map@.len() - i,
    {
        proof {
            assert(map@[i as int] == map@.skip(i as int)[0]);
            assert(all[j] == all.skip(j)[0]);
            assert(all.take(j + 1).drop_last() == all.take(j));
            assert(all.take(j + 1).last() == all[j]);
        }
        let ghost cur = map@;
        if map.value_at(i).entity().despawn {
            map.remove_at(i);
            proof {
                assert(map@.take(i as int) == cur.take(i as int));
                assert(map@.skip(i as int) == cur.skip(i as int).skip(1));
                assert(all.skip(j).skip(1) == all.skip(j + 1));
                j = j + 1;
            }
        } else {
            proof {
                assert(cur.take(i + 1) == cur.take(i as int).push(cur[i as int]));
                assert(cur.skip(i as int).skip(1) == cur.skip(i + 1));
                assert(all.skip(j).skip(1) == all.skip(j + 1));
                j = j + 1;
            }
            i += 1;
        }
    }
    proof {
        assert(map@.take(i as int) == map@);
        assert(all.take(j) == all);
    }
}

/// Whether `after` is what may have become of the units `before` while
/// `time` passed: each is under its key still, and stayed as it was or made
/// one step; none of them moved if no time has passed, and each of them if
/// so much time has passed that the chance to stay has shrunk to nothing.
pub open spec fn units_moved(before: Seq<(u64, Unit)>, after: Seq<(u64, Unit)>, time: u8) -> bool {
    &&& after.len() == before.len()
    &&& forall|i: int|
        0 <= i < before.len() ==> (#[trigger] after[i]).0 == before[i].0
            && before[i].1.stays_or_steps(after[i].1)
    &&& time == 0 ==> after == before
    &&& crate::unit::stay_chance(time, crate::constants::UNIT_MOVE_CHANCE) == 0 ==> forall|i: int|
        0 <= i < before.len() ==> before[i].1.steps_to((#[trigger] after[i]).1)
}

/// Whether `after` is what may have become of the items `before` while
/// `time` passed.
pub open spec fn items_moved(before: Seq<(u64, Item)>, after: Seq<(u64, Item)>, time: u8) -> bool {
    &&& after.len() == before.len()
    &&& forall|i: int|
        0 <= i < before.len() ==> (#[trigger] after[i]).0 == before[i].0
            && before[i].1.may_become(after[i].1)
    &&& time == 0 ==> after == before
    &&& crate::unit::stay_chance(time, crate::constants::ITEM_MOVE_CHANCE) == 0 ==> forall|i: int|
        0 <= i < before.len() ==> before[i].1.steps_to((#[trigger] after[i]).1)
}

/// How many are missing of `wanted` where `there` are there.
pub open spec fn missing(wanted: usize, there: nat) -> usize {
    if wanted > there {
        (wanted - there) as usize
    } else {
        0
    }
}

impl RotfEnvironment {
    /// An empty environment in which no time has passed.
    pub fn new() -> (r: RotfEnvironment)
        ensures
            r.units@.len() == 0,
            r.units.spec_next_key() == 1,
            r.items@.len() == 0,
            r.items.spec_next_key() == 1,
            r.time_passed == 0,
    {
        RotfEnvironment { units: EntityMap::new(), items: EntityMap::new(), time_passed: 0 }
    }

    /// Lets `unit` into the environment, under the next key for units.
    pub fn add_unit(&mut self, unit: Unit)
        requires
            old(self).units.spec_next_key() < u64::MAX,
        ensures
            final(self).units@ == old(self).units@.push((old(self).units.spec_next_key(), unit)),
            final(self).units.spec_next_key() == old(self).units.spec_next_key() + 1,
            final(self).items == old(self).items,
            final(self).time_passed == old(self).time_passed,
    {
        self.units.add(unit);
    }

    /// Lets `item` into the environment, under the next key for items.
    pub fn add_item(&mut self, item: Item)
        requires
            old(self).items.spec_next_key() < u64::MAX,
        ensures
            final(self).items@ == old(self).items@.push((old(self).items.spec_next_key(), item)),
            final(self).items.spec_next_key() == old(self).items.spec_next_key() + 1,
            final(self).units == old(self).units,
            final(self).time_passed == old(self).time_passed,
    {
        self.items.add(item);
    }

    /// Takes the item under `key` out of the environment, if there is one.
    pub fn remove_item(&mut self, key: u64) -> (r: Option<Item>)
        ensures
            final(self).units == old(self).units,
            final(self).time_passed == old(self).time_passed,
            final(self).items.spec_next_key() == old(self).items.spec_next_key(),
            match r {
                Some(item) => exists|i: int|
                    0 <= i < old(self).items@.len() && #[trigger] old(self).items@[i] == (key, item)
                        && final(self).items@ == old(self).items@.remove(i),
                None => !has_key(old(self).items@, key) && final(self).items@ == old(self).items@,
            },
    {
        self.items.remove(key)
    }

    /// Lets one unit of time pass.
    pub fn pass_time(&mut self)
        requires
            old(self).time_passed < u8::MAX,
        ensures
            final(self).time_passed == old(self).time_passed + 1,
            final(self).units == old(self).units,
            final(self).items == old(self).items,
    {
        self.time_passed += 1;
    }

    /// How many units live around a player of the given tier.
    pub fn num_units(&self, tier: u8) -> (n: usize)
        ensures
            n == spec_num_units(tier),
    {
        if tier == 1 {
            10
        } else {
            0
        }
    }

    /// How many items lie around a player of the given tier.
    pub fn num_items(&self, tier: u8) -> (n: usize)
        ensures
            n == spec_num_items(tier),
    {
        if tier == 1 {
            3
        } else {
            0
        }
    }

    /// Spawns up to `count` units from the catalog, each at a random
    /// position if `anywhere`, else far away.
    pub fn spawn_units(&mut self, count: usize, loader: &UnitLoader, anywhere: bool)
        ensures
            units_spawned(
                old(self).units@,
                old(self).units.spec_next_key(),
                final(self).units@,
                count,
                loader,
                anywhere,
            ),
            final(self).units.spec_next_key() == old(self).units.spec_next_key() + (
            final(self).units@.len() - old(self).units@.len()),
            final(self).items == old(self).items,
            final(self).time_passed == old(self).time_passed,
    {
        let ghost before = self.units@;
        let ghost next_key = self.units.spec_next_key();
        let mut n: usize = 0;
        assert(self.units@.take(before.len() as int) == before);
        while n < count
            invariant
                n <= count,
                self.items == old(self).items,
                self.time_passed == old(self).time_passed,
                before == old(self).units@,
                next_key == old(self).units.spec_next_key(),
                self.units.spec_next_key() == next_key + (self.units@.len() - before.len()),
                before.len() <= self.units@.len() <= before.len() + n,
                self.units@.take(before.len() as int) == before,
                forall|i: int|
                    before.len() <= i < self.units@.len() ==> {
                        &&& (#[trigger] self.units@[i]).0 == next_key + (i - before.len())
                        &&& spawned_unit(self.units@[i].1, loader)
                        &&& (anywhere || self.units@[i].1.position == Position::FAR)
                    },
                loader.current().len() == 0 ==> self.units@.len() == before.len(),
                loader.current().len() > 0 && next_key + n <= u64::MAX ==> self.units@.len()
                    == before.len() + n,
            decreases count - n,
        {
            n += 1;
            let (id, level) = loader.spawn();
            if id < 1 || self.units.next_key() >= u64::MAX {
                proof {
                    if loader.current().len() > 0 && next_key + n <= u64::MAX {
                        assert(id >= 1);
                    }
                }
                continue ;
            }
            let mut unit = Unit::new(id, level);
            if anywhere {
                unit.randomize_position();
            }
            assert(spawned_unit(unit, loader));
            let ghost cur = self.units@;
            self.add_unit(unit);
            assert(self.units@.take(before.len() as int) == cur.take(before.len() as int));
        }
    }

    /// Spawns up to `count` items from the catalog, each at a random
    /// position if `anywhere`, else at middle distance.
    pub fn spawn_items(&mut self, count: usize, loader: &ItemLoader, anywhere: bool)
        ensures
            items_spawned(
                old(self).items@,
                old(self).items.spec_next_key(),
                final(self).items@,
                count,
                loader,
                anywhere,
            ),
            final(self).items.spec_next_key() == old(self).items.spec_next_key() + (
            final(self).items@.len() - old(self).items@.len()),
            final(self).units == old(self).units,
            final(self).time_passed == old(self).time_passed,
    {
        let ghost before = self.items@;
        let ghost next_key = self.items.spec_next_key();
        let mut n: usize = 0;
        assert(self.items@.take(before.len() as int) == before);
        while n < count
            invariant
                n <= count,
                self.units == old(self).units,
                self.time_passed == old(self).time_passed,
                before == old(self).items@,
                next_key == old(self).items.spec_next_key(),
                self.items.spec_next_key() == next_key + (self.items@.len() - before.len()),
                before.len() <= self.items@.len() <= before.len() + n,
                self.items@.take(before.len() as int) == before,
                forall|i: int|
                    before.len() <= i < self.items@.len() ==> {
                        &&& (#[trigger] self.items@[i]).0 == next_key + (i - before.len())
                        &&& spawned_item(self.items@[i].1, loader)
                        &&& (anywhere || self.items@[i].1.position == Position::MEDIUM)
                    },
                loader.current().len() == 0 ==> self.items@.len() == before.len(),
                loader.current().len() > 0 && next_key + n <= u64::MAX ==> self.items@.len()
                    == before.len() + n,
            decreases count - n,
        {
            n += 1;
            let (id, level) = loader.spawn();
            if id < 1 || self.items.next_key() >= u64::MAX {
                proof {
                    if loader.current().len() > 0 && next_key + n <= u64::MAX {
                        assert(id >= 1);
                    }
                }
                continue ;
            }
            let mut item = Item::new(id, level);
            if anywhere {
                item.randomize_position();
            }
            assert(spawned_item(item, loader));
            let ghost cur = self.items@;
            self.add_item(item);
            assert(self.items@.take(before.len() as int) == cur.take(before.len() as int));
        }
    }

    /// Fills the environment at the start of a game: as many units and
    /// items as the player's tier calls for, each from the catalog and at a
    /// random position.
    pub fn initial_spawns(
        &mut self,
        player: &RotfPlayer,
        unit_loader: &UnitLoader,
        item_loader: &ItemLoader,
    )
        ensures
            units_spawned(
                old(self).units@,
                old(self).units.spec_next_key(),
                final(self).units@,
                spec_num_units(player.spec_tier()),
                unit_loader,
                true,
            ),
            items_spawned(
                old(self).items@,
                old(self).items.spec_next_key(),
                final(self).items@,
                spec_num_items(player.spec_tier()),
                item_loader,
                true,
            ),
            final(self).time_passed == old(self).time_passed,
    {
        let num_units: usize = self.num_units(player.tier());
        self.spawn_units(num_units, unit_loader, true);
        let num_items: usize = self.num_items(player.tier());
        self.spawn_items(num_items, item_loader, true);
    }

    /// Lets every unit move. Returns the key of the unit that attacks the
    /// player; of several, the one with the highest key.
    pub fn move_units(&mut self) -> (attacker: Option<u64>)
        ensures
            units_moved(old(self).units@, final(self).units@, old(self).time_passed),
            final(self).units.spec_next_key() == old(self).units.spec_next_key(),
            final(self).items == old(self).items,
            final(self).time_passed == old(self).time_passed,
            old(self).time_passed == 0 ==> attacker is None,
            attacker matches Some(key) ==> exists|i: int|
                0 <= i < old(self).units@.len() && #[trigger] old(self).units@[i].0 == key && old(self).units@[i].1.position == Position::NEAR && final(self).units@[i] == old(self).units@[i],
    {
        let time: u8 = self.time_passed;
        let n: usize = self.units.len();
        let mut attacker: Option<u64> = None;
        let mut i: usize = 0;
        while i < n
            invariant
                i <= n == old(self).units@.len(),
                self.units@.len() == n,
                time == old(self).time_passed,
                self.time_passed == old(self).time_passed,
                self.items == old(self).items,
                self.units.spec_next_key() == old(self).units.spec_next_key(),
                forall|j: int|
                    0 <= j < i ==> (#[trigger] self.units@[j]).0 == old(self).units@[j].0 && old(self).units@[j].1.stays_or_steps(self.units@[j].1),
                forall|j: int| i <= j < n ==> #[trigger] self.units@[j] == old(self).units@[j],
                time == 0 ==> self.units@ == old(self).units@,
                crate::unit::stay_chance(time, crate::constants::UNIT_MOVE_CHANCE) == 0
                    ==> forall|j: int|
                    0 <= j < i ==> old(self).units@[j].1.steps_to((#[trigger] self.units@[j]).1),
                time == 0 ==> attacker is None,
                attacker matches Some(key) ==> exists|j: int|
                    0 <= j < i && #[trigger] old(self).units@[j].0 == key && old(self).units@[j].1.position == Position::NEAR && self.units@[j] == old(self).units@[j],
            decreases n - i,
        {
            let key: u64 = self.units.key_at(i);
            let mut unit: Unit = *self.units.value_at(i);
            let ghost before = unit;
            let ghost cur = self.units@;
            let attack: bool = unit.possible_move(time);
            self.units.set_at(i, unit);
            if attack {
                attacker = Some(key);
                assert(old(self).units@[i as int].0 == key);
            }
            proof {
                if time == 0 {
                    assert(self.units@ =~= cur);
                }
            }
            i += 1;
        }
        attacker
    }

    /// Lets every item move.
    pub fn move_items(&mut self)
        ensures
            items_moved(old(self).items@, final(self).items@, old(self).time_passed),
            final(self).items.spec_next_key() == old(self).items.spec_next_key(),
            final(self).units == old(self).units,
            final(self).time_passed == old(self).time_passed,
    {
        let time: u8 = self.time_passed;
        let n: usize = self.items.len();
        let mut i: usize = 0;
        while i < n
            invariant
                i <= n == old(self).items@.len(),
                self.items@.len() == n,
                time == old(self).time_passed,
                self.time_passed == old(self).time_passed,
                self.units == old(self).units,
                self.items.spec_next_key() == old(self).items.spec_next_key(),
                forall|j: int|
                    0 <= j < i ==> (#[trigger] self.items@[j]).0 == old(self).items@[j].0 && old(self).items@[j].1.may_become(self.items@[j].1),
                forall|j: int| i <= j < n ==> #[trigger] self.items@[j] == old(self).items@[j],
                time == 0 ==> self.items@ == old(self).items@,
                crate::unit::stay_chance(time, crate::constants::ITEM_MOVE_CHANCE) == 0
                    ==> forall|j: int|
                    0 <= j < i ==> old(self).items@[j].1.steps_to((#[trigger] self.items@[j]).1),
            decreases n - i,
        {
            let mut item: Item = *self.items.value_at(i);
            let ghost cur = self.items@;
            item.possible_move(time);
            self.items.set_at(i, item);
            proof {
                if time == 0 {
                    assert(self.items@ =~= cur);
                }
            }
            i += 1;
        }
    }

    /// Whether `after` and `attacker` are what an update may make of the
    /// environment: the units and the items moved as the time that has
    /// passed allows, those that left the world are gone, new ones stand at
    /// the end until there are as many as the player's tier calls for, and
    /// no time has passed any more. The attacker, if there is one, is a
    /// unit that stood nearby and has not moved.
    pub open spec fn updated(
        &self,
        after: &RotfEnvironment,
        attacker: Option<u64>,
        player: &RotfPlayer,
        unit_loader: &UnitLoader,
        item_loader: &ItemLoader,
    ) -> bool {
        &&& after.time_passed == 0
        &&& exists|moved: Seq<(u64, Unit)>|
            {
                &&& #[trigger] units_moved(self.units@, moved, self.time_passed)
                &&& units_spawned(
                    alive(moved),
                    self.units.spec_next_key(),
                    after.units@,
                    missing(spec_num_units(player.spec_tier()), alive(moved).len()),
                    unit_loader,
                    false,
                )
                &&& attacker matches Some(key) ==> exists|i: int|
                    0 <= i < moved.len() && #[trigger] moved[i].0 == key && moved[i].1.position
                        == Position::NEAR && moved[i] == self.units@[i]
            }
        &&& exists|moved: Seq<(u64, Item)>|
            {
                &&& #[trigger] items_moved(self.items@, moved, self.time_passed)
                &&& items_spawned(
                    alive(moved),
                    self.items.spec_next_key(),
                    after.items@,
                    missing(spec_num_items(player.spec_tier()), alive(moved).len()),
                    item_loader,
                    false,
                )
            }
        &&& self.time_passed == 0 ==> attacker is None
    }

    /// Lets the time that has passed take effect: every unit and every item
    /// may move; those that left the world are removed; and new ones
    /// spawn far away, in the units' case, or at middle distance, in the
    /// items', until there are as many as the player's tier calls for.
    /// Then no time has passed any more. Returns the key of the unit that
    /// attacks the player; of several, the one with the highest key.
    pub fn update(
        &mut self,
        player: &RotfPlayer,
        unit_loader: &UnitLoader,
        item_loader: &ItemLoader,
    ) -> (attacker: Option<u64>)
        ensures
            old(self).updated(final(self), attacker, player, unit_loader, item_loader),
    {
        let attacker = self.move_units();
        let ghost moved_units = self.units@;
        remove_despawned(&mut self.units);
        let num_units: usize = self.num_units(player.tier());
        if num_units > self.units.len() {
            let unit_spawns: usize = num_units - self.units.len();
            self.spawn_units(unit_spawns, unit_loader, false);
        } else {
            assert(self.units@.take(self.units@.len() as int) == self.units@);
        }
        self.move_items();
        let ghost moved_items = self.items@;
        remove_despawned(&mut self.items);
        let num_items: usize = self.num_items(player.tier());
        if num_items > self.items.len() {
            let item_spawns: usize = num_items - self.items.len();
            self.spawn_items(item_spawns, item_loader, false);
        } else {
            assert(self.items@.take(self.items@.len() as int) == self.items@);
        }
        self.time_passed = 0;
        proof {
            assert(units_moved(old(self).units@, moved_units, old(self).time_passed));
            assert(items_moved(old(self).items@, moved_items, old(self).time_passed));
        }
        attacker
    }

    /// The lines of the environment's file in a save.
    pub open spec fn spec_file_lines(&self) -> Seq<Seq<char>> {
        seq![field_line(""@, "time_passed"@, decimal(self.time_passed as nat)), ""@] + blocks_lines(
            "next_unit_key"@,
            "%%% BEGIN UNIT"@,
            "%%% END UNIT"@,
            entities_of(self.units@),
        ) + seq![
            field_line(""@, "next_unit_key"@, decimal(self.units.spec_next_key() as nat)),
            ""@,
        ] + blocks_lines(
            "next_item_key"@,
            "%%% BEGIN ITEM"@,
            "%%% END ITEM"@,
            entities_of(self.items@),
        ) + seq![field_line(""@, "next_item_key"@, decimal(self.items.spec_next_key() as nat))]
    }

    /// The environment's file in a save: each line with a line feed before it.
    pub fn file_content(&self) -> (s: String)
        ensures
            s@ == unlines(self.spec_file_lines()),
    {
        let mut out = String::new();
        let ghost mut ls: Seq<Seq<char>> = Seq::empty();
        assert(out@ == unlines(ls));
        push_field(&mut out, "", "time_passed");
        push_decimal(&mut out, self.time_passed as u64);
        proof {
            let l = field_line(""@, "time_passed"@, decimal(self.time_passed as nat));
            lemma_unlines_push(ls, l);
            ls = ls.push(l);
            assert(out@ == unlines(ls));
        }
        out.push('\n');
        proof {
            reveal_strlit("");
            lemma_unlines_push(ls, ""@);
            ls = ls.push(""@);
            assert(out@ == unlines(ls));
        }
        write_blocks(&mut out, &self.units, "next_unit_key", "%%% BEGIN UNIT", "%%% END UNIT");
        proof {
            let bs = blocks_lines(
                "next_unit_key"@,
                "%%% BEGIN UNIT"@,
                "%%% END UNIT"@,
                entities_of(self.units@),
            );
            lemma_unlines_add(ls, bs);
            ls = ls + bs;
            assert(out@ == unlines(ls));
        }
        push_field(&mut out, "", "next_unit_key");
        push_decimal(&mut out, self.units.next_key());
        proof {
            let l = field_line(""@, "next_unit_key"@, decimal(self.units.spec_next_key() as nat));
            lemma_unlines_push(ls, l);
            ls = ls.push(l);
            assert(out@ == unlines(ls));
        }
        out.push('\n');
        proof {
            lemma_unlines_push(ls, ""@);
            ls = ls.push(""@);
            assert(out@ == unlines(ls));
        }
        write_blocks(&mut out, &self.items, "next_item_key", "%%% BEGIN ITEM", "%%% END ITEM");
        proof {
            let bs = blocks_lines(
                "next_item_key"@,
                "%%% BEGIN ITEM"@,
                "%%% END ITEM"@,
                entities_of(self.items@),
            );
            lemma_unlines_add(ls, bs);
            ls = ls + bs;
            assert(out@ == unlines(ls));
        }
        push_field(&mut out, "", "next_item_key");
        push_decimal(&mut out, self.items.next_key());
        proof {
            let l = field_line(""@, "next_item_key"@, decimal(self.items.spec_next_key() as nat));
            lemma_unlines_push(ls, l);
            ls = ls.push(l);
            assert(out@ == unlines(ls));
            assert(ls =~= self.spec_file_lines());
        }
        out
    }

    /// The state from which the environment's file is read: no block open,
    /// and the environment as it stands.
    pub open spec fn load_state(&self) -> SaveState {
        SaveState {
            units: Reader {
                entries: entities_of(self.units@),
                next_key: self.units.spec_next_key(),
                open: false,
                current: Unit::spec_new(0, 0).spec_entity(),
                blank: Unit::spec_new(0, 0).spec_entity(),
            },
            items: Reader {
                entries: entities_of(self.items@),
                next_key: self.items.spec_next_key(),
                open: false,
                current: Item::spec_new(0, 0).spec_entity(),
                blank: Item::spec_new(0, 0).spec_entity(),
            },
            level: 0,
            view_distance: Position::NEAR,
            capacity: 0,
            time_passed: self.time_passed,
        }
    }

    /// Whether the environment holds what `s` holds of an environment.
    pub open spec fn holds(&self, s: SaveState) -> bool {
        &&& self.time_passed == s.time_passed
        &&& entities_of(self.units@) == s.units.entries
        &&& self.units.spec_next_key() == s.units.next_key
        &&& entities_of(self.items@) == s.items.entries
        &&& self.items.spec_next_key() == s.items.next_key
    }

    /// Reads the environment's file of a save into the environment.
    pub fn load(&mut self, content: &str)
        ensures
            final(self).holds(
                read_lines(SaveFile::ENVIRONMENT, old(self).load_state(), lines(content@)),
            ),
    {
        let mut units: EntityMap<Unit> = EntityMap::new();
        std::mem::swap(&mut units, &mut self.units);
        let mut items: EntityMap<Item> = EntityMap::new();
        std::mem::swap(&mut items, &mut self.items);
        let mut r = SaveReader {
            units: BlockReader::new(units, Unit::new(0, 0).entity()),
            items: BlockReader::new(items, Item::new(0, 0).entity()),
            level: 0,
            view_distance: Position::NEAR,
            capacity: 0,
            time_passed: self.time_passed,
        };
        assert(r@ == old(self).load_state());
        r.read(SaveFile::ENVIRONMENT, content);
        self.time_passed = r.time_passed;
        self.units = r.units.map;
        self.items = r.items.map;
    }
}

} // verus!
