//! The line protocol of the save files: `key: value` lines, and blocks of
//! such lines between a begin and an end marker, one block for each unit or
//! item, each with the line before it that says under which key it stands.
//!
//! A line without a colon says nothing, and neither does a line with a key
//! that is not known where it stands.

use crate::entity::{entities_of, Entity, Instance};
use crate::entity_map::EntityMap;
use crate::environment::Position;
use crate::item::Item;
use crate::text::{
    decimal, eq_str, field_line, lemma_unlines_add, lemma_unlines_push, lines, parse_field,
    parse_u64, parse_u8, parse_usize, push_decimal, push_field, push_line, spec_parse_field,
    spec_parse_u64, spec_parse_u8, spec_parse_usize, split_lines, trim, trimmed, unlines, views,
    chars_of,
};
use crate::unit::Unit;
use vstd::prelude::*;

verus! {

/// The two files of a save that hold blocks.
#[derive(Clone, Copy, Debug, PartialEq, Eq, Structural)]
pub enum SaveFile {
    PLAYER,
    ENVIRONMENT,
}

/// What has been read of the blocks of one kind: the entries read so far
/// under their keys, the key of the next entry, whether a block is open,
/// and what has been read of the open block.
pub struct Reader {
    pub entries: Seq<(u64, Entity)>,
    pub next_key: u64,
    pub open: bool,
    pub current: Entity,
    pub blank: Entity,
}

impl Reader {
    /// After a begin marker.
    pub open spec fn begin(self) -> Reader {
        Reader { open: true, ..self }
    }

    /// Whether the block that ends can be taken in: the entries stay below
    /// the limit, if there is one, and a key is left.
    pub open spec fn has_room(self, limit: Option<usize>) -> bool {
        (limit is None || self.entries.len() < limit->0) && self.next_key < u64::MAX
    }

    /// After an end marker: what was read of the block becomes an entry
    /// under the next key, if there is room for it, and a new block starts
    /// from the blank.
    pub open spec fn end(self, limit: Option<usize>) -> Reader {
        if self.has_room(limit) {
            Reader {
                entries: self.entries.push((self.next_key, self.current)),
                next_key: (self.next_key + 1) as u64,
                open: false,
                current: self.blank,
                ..self
            }
        } else {
            Reader { open: false, current: self.blank, ..self }
        }
    }

    /// After a line inside a block.
    pub open spec fn read(self, line: Seq<char>) -> Reader {
        Reader { current: self.current.spec_read(line), ..self }
    }

    /// After a line that gives the next key: the counter moves up to it,
    /// never down. A value that cannot be read counts as one.
    pub open spec fn raise(self, value: Seq<char>) -> Reader {
        let key = match spec_parse_u64(value) {
            Some(k) => k,
            None => 1,
        };
        Reader {
            next_key: if key > self.next_key {
                key
            } else {
                self.next_key
            },
            ..self
        }
    }
}

/// Reads the blocks of one kind into a collection.
pub struct BlockReader<T: Instance> {
    pub map: EntityMap<T>,
    pub open: bool,
    pub current: Entity,
    pub blank: Entity,
}

impl<T: Instance> View for BlockReader<T> {
    type V = Reader;

    open spec fn view(&self) -> Reader {
        Reader {
            entries: entities_of(self.map@),
            next_key: self.map.spec_next_key(),
            open: self.open,
            current: self.current,
            blank: self.blank,
        }
    }
}

impl<T: Instance> BlockReader<T> {
    /// A reader that goes on from `map`, with no block open.
    pub fn new(map: EntityMap<T>, blank: Entity) -> (r: BlockReader<T>)
        ensures
            r.map == map,
            !r.open,
            r.current == blank,
            r.blank == blank,
    {
        BlockReader { map, open: false, current: blank, blank }
    }

    /// Takes a begin marker.
    pub fn begin(&mut self)
        ensures
            final(self)@ == old(self)@.begin(),
    {
        self.open = true;
    }

    /// Takes an end marker.
    pub fn end(&mut self, limit: Option<usize>)
        ensures
            final(self)@ == old(self)@.end(limit),
    {
        let below: bool = match limit {
            Some(l) => self.map.len() < l,
            None => true,
        };
        assert(entities_of(self.map@).len() == self.map@.len());
        if below && self.map.next_key() < u64::MAX {
            let ghost before = self.map@;
            let ghost key = self.map.spec_next_key();
            self.map.add(T::from_entity(self.current));
            proof {
                T::lemma_entity_of(self.current);
                assert(entities_of(self.map@) =~= entities_of(before).push((key, self.current)));
            }
        }
        self.open = false;
        self.current = self.blank;
    }

    /// Takes a line inside a block.
    pub fn read(&mut self, line: &Vec<char>)
        ensures
            final(self)@ == old(self)@.read(line@),
    {
        self.current = self.current.read(line);
    }

    /// Takes the value of a line that gives the next key.
    pub fn raise(&mut self, value: &Vec<char>)
        ensures
            final(self)@ == old(self)@.raise(value@),
    {
        let key: u64 = match parse_u64(value) {
            Some(k) => k,
            None => 1,
        };
        self.map.raise_next_key(key);
    }
}

/// What has been read of a save file.
pub struct SaveState {
    pub units: Reader,
    pub items: Reader,
    pub level: u8,
    pub view_distance: Position,
    pub capacity: usize,
    pub time_passed: u8,
}

/// The state after the markers of a line have been taken. The player's
/// file knows the item markers only, and takes in an item while the
/// inventory has room.
pub open spec fn after_marker(file: SaveFile, s: SaveState, line: Seq<char>) -> SaveState {
    let t = trim(line);
    if file == SaveFile::ENVIRONMENT && t == "%%% BEGIN UNIT"@ {
        SaveState { units: s.units.begin(), ..s }
    } else if file == SaveFile::ENVIRONMENT && t == "%%% END UNIT"@ {
        SaveState { units: s.units.end(None), ..s }
    } else if t == "%%% BEGIN ITEM"@ {
        SaveState { items: s.items.begin(), ..s }
    } else if t == "%%% END ITEM"@ {
        SaveState {
            items: s.items.end(
                if file == SaveFile::PLAYER {
                    Some(s.capacity)
                } else {
                    None
                },
            ),
            ..s
        }
    } else {
        s
    }
}

/// The state after a line outside any block has given `key` the `value`.
pub open spec fn after_field(file: SaveFile, s: SaveState, key: Seq<char>, value: Seq<char>)
    -> SaveState {
    match file {
        SaveFile::PLAYER => if key == "level"@ {
            SaveState {
                level: match spec_parse_u8(value) {
                    Some(v) => v,
                    None => 0,
                },
                ..s
            }
        } else if key == "view_distance"@ {
            SaveState {
                view_distance: match Position::spec_from_name(value) {
                    Some(p) => p,
                    None => Position::FAR,
                },
                ..s
            }
        } else if key == "capacity"@ {
            SaveState {
                capacity: match spec_parse_usize(value) {
                    Some(v) => v,
                    None => 0,
                },
                ..s
            }
        } else if key == "next_item_key"@ {
            SaveState { items: s.items.raise(value), ..s }
        } else {
            s
        },
        SaveFile::ENVIRONMENT => if key == "time_passed"@ {
            SaveState {
                time_passed: match spec_parse_u8(value) {
                    Some(v) => v,
                    None => 0,
                },
                ..s
            }
        } else if key == "next_unit_key"@ {
            SaveState { units: s.units.raise(value), ..s }
        } else if key == "next_item_key"@ {
            SaveState { items: s.items.raise(value), ..s }
        } else {
            s
        },
    }
}

/// The state after one line: its markers are taken first; then, if it has
/// a colon, it goes to the open unit, else to the open item, else to the
/// file itself.
pub open spec fn step(file: SaveFile, s: SaveState, line: Seq<char>) -> SaveState {
    let s1 = after_marker(file, s, line);
    match spec_parse_field(line) {
        None => s1,
        Some((key, value)) => if s1.units.open {
            SaveState { units: s1.units.read(line), ..s1 }
        } else if s1.items.open {
            SaveState { items: s1.items.read(line), ..s1 }
        } else {
            after_field(file, s1, key, value)
        },
    }
}

/// The state after the given lines, one after the other.
pub open spec fn read_lines(file: SaveFile, s: SaveState, ls: Seq<Seq<char>>) -> SaveState
    decreases ls.len(),
{
    if ls.len() == 0 {
        s
    } else {
        step(file, read_lines(file, s, ls.drop_last()), ls.last())
    }
}

/// Reads a save file line by line.
pub struct SaveReader {
    pub units: BlockReader<Unit>,
    pub items: BlockReader<Item>,
    pub level: u8,
    pub view_distance: Position,
    pub capacity: usize,
    pub time_passed: u8,
}

impl View for SaveReader {
    type V = SaveState;

    open spec fn view(&self) -> SaveState {
        SaveState {
            units: self.units@,
            items: self.items@,
            level: self.level,
            view_distance: self.view_distance,
            capacity: self.capacity,
            time_passed: self.time_passed,
        }
    }
}

impl SaveReader {
    /// Takes one line of the file.
    pub fn read_line(&mut self, file: SaveFile, line: &Vec<char>)
        ensures
            final(self)@ == step(file, old(self)@, line@),
    {
        let t = trimmed(line);
        let environment: bool = file == SaveFile::ENVIRONMENT;
        if environment && eq_str(&t, "%%% BEGIN UNIT") {
            self.units.begin();
        } else if environment && eq_str(&t, "%%% END UNIT") {
            self.units.end(None);
        } else if eq_str(&t, "%%% BEGIN ITEM") {
            self.items.begin();
        } else if eq_str(&t, "%%% END ITEM") {
            let limit: Option<usize> = if environment {
                None
            } else {
                Some(self.capacity)
            };
            self.items.end(limit);
        }
        assert(self@ == after_marker(file, old(self)@, line@));
        match parse_field(line) {
            None => {},
            Some((key, value)) => {
                if self.units.open {
                    self.units.read(line);
                } else if self.items.open {
                    self.items.read(line);
                } else {
                    self.read_field(file, &key, &value);
                }
            },
        }
    }

    /// Takes a key and its value from a line outside any block.
    pub fn read_field(&mut self, file: SaveFile, key: &Vec<char>, value: &Vec<char>)
        ensures
            final(self)@ == after_field(file, old(self)@, key@, value@),
    {
        match file {
            SaveFile::PLAYER => {
                if eq_str(key, "level") {
                    self.level = match parse_u8(value) {
                        Some(v) => v,
                        None => 0,
                    };
                } else if eq_str(key, "view_distance") {
                    self.view_distance = match Position::from_chars(value) {
                        Ok(p) => p,
                        Err(_) => Position::FAR,
                    };
                } else if eq_str(key, "capacity") {
                    self.capacity = match parse_usize(value) {
                        Some(v) => v,
                        None => 0,
                    };
                } else if eq_str(key, "next_item_key") {
                    self.items.raise(value);
                }
            },
            SaveFile::ENVIRONMENT => {
                if eq_str(key, "time_passed") {
                    self.time_passed = match parse_u8(value) {
                        Some(v) => v,
                        None => 0,
                    };
                } else if eq_str(key, "next_unit_key") {
                    self.units.raise(value);
                } else if eq_str(key, "next_item_key") {
                    self.items.raise(value);
                }
            },
        }
    }

    /// Takes a whole file.
    pub fn read(&mut self, file: SaveFile, content: &str)
        ensures
            final(self)@ == read_lines(file, old(self)@, lines(content@)),
    {
        let chars = chars_of(content);
        let ls = split_lines(&chars);
        let mut i: usize = 0;
        assert(views(ls@).take(0) =~= Seq::<Seq<char>>::empty());
        while i < ls.len()
            invariant
                i <= ls.len(),
                self@ == read_lines(file, old(self)@, views(ls@).take(i as int)),
            decreases ls.len() - i,
        {
            proof {
                assert(views(ls@).take(i + 1).drop_last() == views(ls@).take(i as int));
                assert(views(ls@).take(i + 1).last() == ls@[i as int]@);
            }
            self.read_line(file, &ls[i]);
            i += 1;
        }
        assert(views(ls@).take(ls.len() as int) == views(ls@));
    }
}

/// The lines of one block: the key, the begin marker, the lines of the
/// instance, the end marker, and an empty line.
pub open spec fn block_lines(
    counter: Seq<char>,
    begin: Seq<char>,
    end: Seq<char>,
    key: u64,
    e: Entity,
) -> Seq<Seq<char>> {
    seq![field_line(""@, counter, decimal(key as nat)), begin] + e.spec_lines() + seq![end, ""@]
}

/// The lines of the blocks of the given entries, in their order.
pub open spec fn blocks_lines(
    counter: Seq<char>,
    begin: Seq<char>,
    end: Seq<char>,
    s: Seq<(u64, Entity)>,
) -> Seq<Seq<char>>
    decreases s.len(),
{
    if s.len() == 0 {
        Seq::empty()
    } else {
        blocks_lines(counter, begin, end, s.drop_last()) + block_lines(
            counter,
            begin,
            end,
            s.last().0,
            s.last().1,
        )
    }
}

/// The text of one block, piece by piece.
pub proof fn lemma_block_text(
    counter: Seq<char>,
    begin: Seq<char>,
    end: Seq<char>,
    key: u64,
    e: Entity,
)
    ensures
        unlines(block_lines(counter, begin, end, key, e)) == seq!['\n'] + field_line(
            ""@,
            counter,
            decimal(key as nat),
        ) + seq!['\n'] + begin + unlines(e.spec_lines()) + seq!['\n'] + end + seq!['\n'] + ""@,
{
    let head = seq![field_line(""@, counter, decimal(key as nat)), begin];
    let tail = seq![end, ""@];
    lemma_unlines_add(head, e.spec_lines());
    lemma_unlines_add(head + e.spec_lines(), tail);
    assert(head == Seq::<Seq<char>>::empty().push(head[0]).push(begin));
    lemma_unlines_push(Seq::<Seq<char>>::empty(), head[0]);
    lemma_unlines_push(Seq::<Seq<char>>::empty().push(head[0]), begin);
    assert(tail == Seq::<Seq<char>>::empty().push(end).push(""@));
    lemma_unlines_push(Seq::<Seq<char>>::empty(), end);
    lemma_unlines_push(Seq::<Seq<char>>::empty().push(end), ""@);
    assert(unlines(Seq::<Seq<char>>::empty()) == Seq::<char>::empty());
    assert(unlines(head) == seq!['\n'] + head[0] + seq!['\n'] + begin);
    assert(unlines(tail) == seq!['\n'] + end + seq!['\n'] + ""@);
    assert(unlines(head) + unlines(e.spec_lines()) + unlines(tail) == seq!['\n'] + head[0]
        + seq!['\n'] + begin + unlines(e.spec_lines()) + seq!['\n'] + end + seq!['\n'] + ""@);
}

/// Appends the blocks of the entries of `map` to `out`.
pub fn write_blocks<T: Instance>(
    out: &mut String,
    map: &EntityMap<T>,
    counter: &str,
    begin: &str,
    end: &str,
)
    ensures
        final(out)@ == old(out)@ + unlines(
            blocks_lines(counter@, begin@, end@, entities_of(map@)),
        ),
{
    let n: usize = map.len();
    let mut i: usize = 0;
    let ghost all = entities_of(map@);
    assert(all.take(0) =~= Seq::<(u64, Entity)>::empty());
    assert(old(out)@ + unlines(Seq::<Seq<char>>::empty()) == old(out)@);
    while i < n
        invariant
            i <= n == map@.len(),
            all == entities_of(map@),
            out@ == old(out)@ + unlines(blocks_lines(counter@, begin@, end@, all.take(i as int))),
        decreases n - i,
    {
        let key: u64 = map.key_at(i);
        let e: Entity = map.value_at(i).entity();
        let ghost before = out@;
        push_field(out, "", counter);
        push_decimal(out, key);
        push_line(out, begin);
        e.write(out);
        push_line(out, end);
        out.push('\n');
        proof {
            let done = blocks_lines(counter@, begin@, end@, all.take(i as int));
            assert(all.take(i + 1).drop_last() == all.take(i as int));
            assert(all.take(i + 1).last() == (key, e));
            lemma_block_text(counter@, begin@, end@, key, e);
            lemma_unlines_add(done, block_lines(counter@, begin@, end@, key, e));
            reveal_strlit("");
            assert(""@ == Seq::<char>::empty());
            assert(out@ == before + (seq!['\n'] + field_line(""@, counter@, decimal(key as nat))
                + seq!['\n'] + begin@ + unlines(e.spec_lines()) + seq!['\n'] + end@ + seq!['\n']
                + ""@));
        }
        i += 1;
    }
    assert(all.take(n as int) == all);
}

/// The state from which the file of a new player is read.
pub open spec fn new_player_state() -> SaveState {
    SaveState {
        units: Reader {
            entries: Seq::empty(),
            next_key: 1,
            open: false,
            current: Unit::spec_new(0, 0).spec_entity(),
            blank: Unit::spec_new(0, 0).spec_entity(),
        },
        items: Reader {
            entries: Seq::empty(),
            next_key: 1,
            open: false,
            current: Item::spec_new(0, 0).spec_entity(),
            blank: Item::spec_new(0, 0).spec_entity(),
        },
        level: 0,
        view_distance: Position::NEAR,
        capacity: 1,
        time_passed: 0,
    }
}

/// The state from which the file of a new environment is read.
pub open spec fn new_environment_state() -> SaveState {
    SaveState { capacity: 0, ..new_player_state() }
}

} // verus!
