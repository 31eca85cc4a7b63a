//! The catalog of units: what each id stands for, and which ids may spawn
//! at the player's level.

use crate::constants::UNIT_SPAWN_RANGE;
use crate::catalog::{
    bound_level, error_row, level_of, load_rows, parse_row, DuplicateId, Row,
};
use crate::numeric::{random_choice, random_int, IntegerRange};
use crate::player::RotfPlayer;
use crate::text::{chars_of, lines, parse_u64, split, split_lines, string_of, trimmed, views};
use std::collections::HashMap;
use vstd::prelude::*;
use vstd::std_specs::iter::IteratorSpec;

verus! {

broadcast use vstd::std_specs::hash::group_hash_axioms;

/// One entry of the catalog of units.
pub struct UnitData {
    pub id: u64,
    pub name: String,
    pub level_range: IntegerRange,
}

impl View for UnitData {
    type V = Row;

    open spec fn view(&self) -> Row {
        Row { id: self.id, name: self.name@, level_range: self.level_range }
    }
}

impl UnitData {
    /// The entry that stands for an id without one.
    pub fn new() -> (r: UnitData)
        ensures
            r@ == error_row(),
    {
        UnitData { id: 0, name: String::new(), level_range: IntegerRange::new() }
    }
}

/// The rows of the entries of a catalog.
pub open spec fn rows_of(m: Map<u64, UnitData>) -> Map<u64, Row> {
    m.map_values(|d: UnitData| d@)
}

/// The lowest level at which a unit spawns for a player at `level`: the
/// spawn range below the player's level, but not below zero, and not above
/// the lower end of the unit's own range.
pub open spec fn unit_min_level(level: u8, range: IntegerRange) -> u8 {
    let floor: u8 = if level > UNIT_SPAWN_RANGE {
        (level - UNIT_SPAWN_RANGE) as u8
    } else {
        0
    };
    if floor <= level_of(range.start) {
        floor
    } else {
        level_of(range.start)
    }
}

/// The highest level at which a unit spawns for a player at `level`: the
/// spawn range above the player's level, but not above the upper end of the
/// unit's own range.
pub open spec fn unit_max_level(level: u8, range: IntegerRange) -> u8 {
    if level + UNIT_SPAWN_RANGE <= level_of(range.end) {
        (level + UNIT_SPAWN_RANGE) as u8
    } else {
        level_of(range.end)
    }
}

/// The catalog of units.
pub struct UnitLoader {
    unit_data: HashMap<u64, UnitData>,
    error_unit_data: UnitData,
    current_units: Vec<u64>,
    current_level: u8,
}

impl UnitLoader {
    /// The rows of the catalog under their ids.
    pub closed spec fn catalog(&self) -> Map<u64, Row> {
        rows_of(self.unit_data@)
    }

    /// The ids that may spawn.
    pub closed spec fn current(&self) -> Seq<u64> {
        self.current_units@
    }

    /// The level for which the ids that may spawn were picked.
    pub closed spec fn level(&self) -> u8 {
        self.current_level
    }

    /// The entry for an unknown id is the error row, and zero is no id
    /// that may spawn.
    #[verifier::type_invariant]
    closed spec fn wf(&self) -> bool {
        &&& self.error_unit_data@ == error_row()
        &&& forall|i: int| 0 <= i < self.current_units@.len() ==> #[trigger] self.current_units@[i] >= 1
        &&& forall|id: u64| #[trigger] self.unit_data@.contains_key(id) ==> id >= 1
    }

    /// The row for `id`: that of the catalog, or the error row.
    pub open spec fn data(&self, id: u64) -> Row {
        if self.catalog().contains_key(id) {
            self.catalog()[id]
        } else {
            error_row()
        }
    }

    /// Whether `id` may spawn for a player at `level`.
    pub open spec fn eligible(&self, id: u64, level: u8) -> bool {
        self.catalog().contains_key(id) && self.catalog()[id].level_range.start <= level
            <= self.catalog()[id].level_range.end
    }

    /// An empty catalog.
    pub fn new() -> (r: UnitLoader)
        ensures
            r.catalog() == Map::<u64, Row>::empty(),
            r.current().len() == 0,
            r.level() == 0,
    {
        let r = UnitLoader {
            unit_data: HashMap::new(),
            error_unit_data: UnitData::new(),
            current_units: Vec::new(),
            current_level: 0,
        };
        assert(r.catalog() =~= Map::<u64, Row>::empty());
        r
    }

    /// Reads one line of a catalog.
    fn read_row(line: &Vec<char>) -> (r: Option<UnitData>)
        ensures
            match r {
                Some(d) => parse_row(line@) == Some(d@),
                None => parse_row(line@) is None,
            },
    {
        let t = trimmed(line);
        let fields = split(&t, ',');
        assert(views(fields@).len() == fields@.len());
        if fields.len() < 4 {
            return None;
        }
        assert(views(fields@)[1] == fields@[1]@);
        assert(views(fields@)[2] == fields@[2]@);
        assert(views(fields@)[3] == fields@[3]@);
        match parse_u64(&fields[1]) {
            None => None,
            Some(id) => {
                if id < 1 {
                    return None;
                }
                let name = trimmed(&fields[2]);
                if name.len() == 0 {
                    return None;
                }
                Some(
                    UnitData {
                        id,
                        name: string_of(&name),
                        level_range: IntegerRange::from_chars(&fields[3]),
                    },
                )
            },
        }
    }

    /// Reads a catalog, line by line, into this one. Reading stops at the
    /// first id that the catalog has already; what was read before it stays.
    pub fn load_data(&mut self, content: &str) -> (r: Result<(), DuplicateId>)
        ensures
            final(self).current() == old(self).current(),
            final(self).level() == old(self).level(),
            final(self).catalog() == load_rows(old(self).catalog(), lines(content@)).0,
            match r {
                Ok(_) => load_rows(old(self).catalog(), lines(content@)).1 is None,
                Err(e) => load_rows(old(self).catalog(), lines(content@)).1 == Some(e.id),
            },
    {
        let chars = chars_of(content);
        let ls = split_lines(&chars);
        let ghost all = views(ls@);
        proof {
            use_type_invariant(&*self);
        }
        let mut data: HashMap<u64, UnitData> = HashMap::new();
        std::mem::swap(&mut data, &mut self.unit_data);
        let mut i: usize = 0;
        assert(all.skip(0) == all);
        while i < ls.len()
            invariant
                i <= ls.len(),
                all == views(ls@),
                all == lines(content@),
                self.current() == old(self).current(),
                self.level() == old(self).level(),
                self.error_unit_data == old(self).error_unit_data,
                self.wf(),
                forall|id: u64| #[trigger] data@.contains_key(id) ==> id >= 1,
                load_rows(old(self).catalog(), all) == load_rows(
                    rows_of(data@),
                    all.skip(i as int),
                ),
            decreases ls.len() - i,
        {
            proof {
                assert(all.skip(i as int)[0] == ls@[i as int]@);
                assert(all.skip(i as int).skip(1) == all.skip(i + 1));
            }
            match UnitLoader::read_row(&ls[i]) {
                None => {},
                Some(row) => {
                    let id: u64 = row.id;
                    assert(rows_of(data@).contains_key(id) == data@.contains_key(id));
                    if data.contains_key(&id) {
                        proof {
                            let rest = all.skip(i as int);
                            assert(parse_row(rest[0]) == Some(row@));
                            assert(load_rows(rows_of(data@), rest) == (rows_of(data@), Some(id)));
                        }
                        self.unit_data = data;
                        return Err(DuplicateId { id });
                    }
                    let ghost before = rows_of(data@);
                    data.insert(id, row);
                    assert(rows_of(data@) =~= before.insert(id, row@));
                },
            }
            i += 1;
        }
        self.unit_data = data;
        Ok(())
    }

    /// Picks the ids that may spawn for the player: those whose level range
    /// holds the player's level.
    pub fn update_current_units(&mut self, player: &RotfPlayer)
        ensures
            final(self).catalog() == old(self).catalog(),
            final(self).level() == player.level,
            final(self).current().no_duplicates(),
            forall|id: u64|
                final(self).current().contains(id) <==> final(self).eligible(id, player.level),
    {
        proof {
            use_type_invariant(&*self);
        }
        self.current_level = player.level;
        let mut current: Vec<u64> = Vec::new();
        let level: i64 = player.level as i64;
        let ghost catalog = self.catalog();
        for pair in it: self.unit_data.iter()
            invariant
                catalog == old(self).catalog(),
                catalog == rows_of(self.unit_data@),
                self.unit_data == old(self).unit_data,
                self.error_unit_data == old(self).error_unit_data,
                self.wf(),
                forall|i: int| 0 <= i < current@.len() ==> #[trigger] current@[i] >= 1,
                self.current_level == player.level,
                level == player.level,
                it.seq() == vstd::std_specs::hash::spec_hash_map_iter(&self.unit_data).remaining(),
                it.seq().no_duplicates(),
                current@.no_duplicates(),
                forall|id: u64|
                    current@.contains(id) <==> exists|j: int|
                        0 <= j < it.index() && *(#[trigger] it.seq()[j]).0 == id
                            && it.seq()[j].1.level_range.start <= level
                            <= it.seq()[j].1.level_range.end,
        {
            let (id, unit) = pair;
            let ghost k = it.index();
            let ghost before = current@;
            if unit.level_range.contains(level) {
                proof {
                    if before.contains(*id) {
                        let j = choose|j: int|
                            0 <= j < k && *(#[trigger] it.seq()[j]).0 == *id;
                        assert(self.unit_data@.contains_key(*it.seq()[j].0));
                        assert(self.unit_data@[*it.seq()[j].0] == *it.seq()[j].1);
                        assert(self.unit_data@[*it.seq()[k].0] == *it.seq()[k].1);
                        assert(it.seq()[j] == it.seq()[k]);
                    }
                }
                proof {
                    assert(self.unit_data@.contains_key(*it.seq()[k].0));
                }
                current.push(*id);
                proof {
                    assert(current@ == before.push(*id));
                    assert forall|x: u64| current@.contains(x) implies exists|j: int|
                        0 <= j < k + 1 && *(#[trigger] it.seq()[j]).0 == x
                            && it.seq()[j].1.level_range.start <= level
                            <= it.seq()[j].1.level_range.end by {
                        if x == *id {
                            assert(*it.seq()[k].0 == x);
                        } else {
                            let m = choose|m: int|
                                0 <= m < current@.len() && current@[m] == x;
                            assert(before[m] == x);
                            assert(before.contains(x));
                        }
                    }
                    assert forall|x: u64|
                        (exists|j: int|
                            0 <= j < k + 1 && *(#[trigger] it.seq()[j]).0 == x
                                && it.seq()[j].1.level_range.start <= level
                                <= it.seq()[j].1.level_range.end)
                            implies current@.contains(x) by {
                        let j = choose|j: int|
                            0 <= j < k + 1 && *(#[trigger] it.seq()[j]).0 == x
                                && it.seq()[j].1.level_range.start <= level
                                <= it.seq()[j].1.level_range.end;
                        if j == k {
                            assert(current@[before.len() as int] == x);
                        } else {
                            assert(before.contains(x));
                            let m = choose|m: int| 0 <= m < before.len() && before[m] == x;
                            assert(current@[m] == x);
                        }
                    }
                }
            } else {
                proof {
                    assert forall|x: u64|
                        (exists|j: int|
                            0 <= j < k + 1 && *(#[trigger] it.seq()[j]).0 == x
                                && it.seq()[j].1.level_range.start <= level
                                <= it.seq()[j].1.level_range.end)
                            implies current@.contains(x) by {
                        let j = choose|j: int|
                            0 <= j < k + 1 && *(#[trigger] it.seq()[j]).0 == x
                                && it.seq()[j].1.level_range.start <= level
                                <= it.seq()[j].1.level_range.end;
                        assert(j < k);
                    }
                }
            }
        }
        self.current_units = current;
        proof {
            let s = vstd::std_specs::hash::spec_hash_map_iter(&self.unit_data).remaining();
            assert forall|id: u64| self.current().contains(id) implies self.eligible(
                id,
                player.level,
            ) by {
                let j = choose|j: int|
                    0 <= j < s.len() && *(#[trigger] s[j]).0 == id && s[j].1.level_range.start
                        <= level <= s[j].1.level_range.end;
                assert(self.unit_data@.contains_key(*s[j].0));
                assert(self.unit_data@[*s[j].0] == *s[j].1);
            }
            assert forall|id: u64| self.eligible(id, player.level) implies self.current().contains(
                id,
            ) by {
                assert(self.unit_data@.contains_key(id));
                assert(s.contains((&id, &self.unit_data@[id])));
                let j = choose|j: int| 0 <= j < s.len() && s[j] == (&id, &self.unit_data@[id]);
                assert(*s[j].0 == id);
            }
        }
    }

    /// The lowest and the highest level at which the unit with the given
    /// id spawns for the player for whom the ids were last picked.
    pub fn level_bounds(&self, id: u64) -> (r: (u8, u8))
        ensures
            r.0 == unit_min_level(self.level(), self.data(id).level_range),
            r.1 == unit_max_level(self.level(), self.data(id).level_range),
    {
        let range: IntegerRange = self.get_data(id).level_range;
        let floor: u8 = if self.current_level > UNIT_SPAWN_RANGE {
            self.current_level - UNIT_SPAWN_RANGE
        } else {
            0
        };
        let low: u8 = bound_level(range.min());
        let min_level: u8 = if floor <= low {
            floor
        } else {
            low
        };
        let high: u8 = bound_level(range.max());
        let max_level: u8 = if self.current_level as u16 + UNIT_SPAWN_RANGE as u16 <= high as u16 {
            self.current_level + UNIT_SPAWN_RANGE
        } else {
            high
        };
        (min_level, max_level)
    }

    /// Picks at random one of the ids that may spawn, and a level for it
    /// between its lowest and its highest, whichever of the two is the
    /// larger. If no id may spawn, the id is zero, which is no unit, and so
    /// is the level.
    pub fn spawn(&self) -> (r: (u64, u8))
        ensures
            self.current().len() == 0 ==> r == (0u64, 0u8),
            self.current().len() > 0 ==> {
                let low = unit_min_level(self.level(), self.data(r.0).level_range);
                let high = unit_max_level(self.level(), self.data(r.0).level_range);
                &&& r.0 >= 1
                &&& self.current().contains(r.0)
                &&& (low <= r.1 <= high || high <= r.1 <= low)
            },
    {
        proof {
            use_type_invariant(self);
        }
        match random_choice(&self.current_units) {
            Some(id) => {
                let (min_level, max_level) = self.level_bounds(id);
                (id, random_int(min_level, max_level))
            },
            None => (0, 0),
        }
    }

    /// The entry for `id`, or the error entry if the catalog has none.
    pub fn get_data(&self, id: u64) -> (r: &UnitData)
        ensures
            r@ == self.data(id),
    {
        proof {
            use_type_invariant(self);
        }
        match self.unit_data.get(&id) {
            Some(d) => d,
            None => &self.error_unit_data,
        }
    }
}

} // verus!
