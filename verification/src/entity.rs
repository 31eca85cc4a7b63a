//! What a unit and an item are both made of, and how it is written to a
//! save and read back.

use crate::environment::Position;
use crate::text::{
    bool_text, decimal, eq_str, field_line, is_key, is_plain, is_whitespace, lemma_field_line,
    lemma_field_line_plain, lemma_parse_bool, lemma_parse_decimal, lemma_parse_signed,
    lemma_unlines_push, parse_bool, parse_field, parse_i64, parse_u64, parse_u8, push_bool,
    push_decimal, push_field, push_signed, signed_decimal, spec_parse_bool, spec_parse_field,
    spec_parse_i64, spec_parse_u64, spec_parse_u8, trim, unlines,
};
use vstd::prelude::*;
use vstd::string::StringExecFns;

verus! {

/// An instance in the world: which entry of the catalog it is, its level,
/// where it stands, whether it is to be removed, and the index under which
/// the player last saw it.
#[derive(Clone, Copy, Debug, PartialEq, Eq, Structural)]
pub struct Entity {
    pub id: u64,
    pub despawn: bool,
    pub position: Position,
    pub view_index: i64,
    pub level: u8,
}

impl Entity {
    /// The lines that describe the instance in a save.
    pub open spec fn spec_lines(self) -> Seq<Seq<char>> {
        seq![
            field_line("   "@, "id"@, decimal(self.id as nat)),
            field_line("   "@, "position"@, self.position.spec_name()),
            field_line("   "@, "view_index"@, signed_decimal(self.view_index as int)),
            field_line("   "@, "despawn"@, bool_text(self.despawn)),
            field_line("   "@, "level"@, decimal(self.level as nat)),
        ]
    }

    /// The instance after one line of a save has been read into it. A line
    /// without a colon or with an unknown key changes nothing; a value that
    /// cannot be read gives the field its fallback.
    pub open spec fn spec_read(self, line: Seq<char>) -> Entity {
        match spec_parse_field(line) {
            None => self,
            Some((key, value)) => if key == "id"@ {
                Entity {
                    id: match spec_parse_u64(value) {
                        Some(v) => v,
                        None => 0,
                    },
                    ..self
                }
            } else if key == "position"@ {
                Entity {
                    position: match Position::spec_from_name(value) {
                        Some(p) => p,
                        None => Position::FAR,
                    },
                    ..self
                }
            } else if key == "view_index"@ {
                Entity {
                    view_index: match spec_parse_i64(value) {
                        Some(v) => v,
                        None => -1i64,
                    },
                    ..self
                }
            } else if key == "despawn"@ {
                Entity {
                    despawn: match spec_parse_bool(value) {
                        Some(v) => v,
                        None => true,
                    },
                    ..self
                }
            } else if key == "level"@ {
                Entity {
                    level: match spec_parse_u8(value) {
                        Some(v) => v,
                        None => 0,
                    },
                    ..self
                }
            } else {
                self
            },
        }
    }

    /// Appends the lines that describe the instance to `out`.
    pub fn write(&self, out: &mut String)
        ensures
            final(out)@ == old(out)@ + unlines(self.spec_lines()),
    {
        let ghost ls = self.spec_lines();
        let ghost l0 = Seq::<Seq<char>>::empty().push(ls[0]);
        let ghost l1 = l0.push(ls[1]);
        let ghost l2 = l1.push(ls[2]);
        let ghost l3 = l2.push(ls[3]);
        let ghost l4 = l3.push(ls[4]);
        proof {
            lemma_unlines_push(Seq::<Seq<char>>::empty(), ls[0]);
            lemma_unlines_push(l0, ls[1]);
            lemma_unlines_push(l1, ls[2]);
            lemma_unlines_push(l2, ls[3]);
            lemma_unlines_push(l3, ls[4]);
            assert(l4 == ls);
            assert(old(out)@ + unlines(Seq::<Seq<char>>::empty()) == old(out)@);
        }
        push_field(out, "   ", "id");
        push_decimal(out, self.id);
        assert(out@ == old(out)@ + unlines(l0));
        push_field(out, "   ", "position");
        out.append(self.position.name());
        assert(out@ == old(out)@ + unlines(l1));
        push_field(out, "   ", "view_index");
        push_signed(out, self.view_index);
        assert(out@ == old(out)@ + unlines(l2));
        push_field(out, "   ", "despawn");
        push_bool(out, self.despawn);
        assert(out@ == old(out)@ + unlines(l3));
        push_field(out, "   ", "level");
        push_decimal(out, self.level as u64);
        assert(out@ == old(out)@ + unlines(l4));
    }

    /// Reads one line of a save into the instance.
    pub fn read(&self, line: &Vec<char>) -> (r: Entity)
        ensures
            r == self.spec_read(line@),
    {
        let mut e: Entity = *self;
        match parse_field(line) {
            None => {},
            Some((key, value)) => {
                if eq_str(&key, "id") {
                    e.id = match parse_u64(&value) {
                        Some(v) => v,
                        None => 0,
                    };
                } else if eq_str(&key, "position") {
                    e.position = match Position::from_chars(&value) {
                        Ok(p) => p,
                        Err(_) => Position::FAR,
                    };
                } else if eq_str(&key, "view_index") {
                    e.view_index = match parse_i64(&value) {
                        Some(v) => v,
                        None => -1,
                    };
                } else if eq_str(&key, "despawn") {
                    e.despawn = match parse_bool(&value) {
                        Some(v) => v,
                        None => true,
                    };
                } else if eq_str(&key, "level") {
                    e.level = match parse_u8(&value) {
                        Some(v) => v,
                        None => 0,
                    };
                }
            },
        }
        e
    }
}

/// A kind of instance: a type that holds what an `Entity` holds, no more
/// and no less.
pub trait Instance: Sized {
    /// What the instance is made of.
    spec fn spec_entity(&self) -> Entity;

    /// The instance made of `e`.
    spec fn spec_from_entity(e: Entity) -> Self;

    /// What the instance is made of.
    fn entity(&self) -> (e: Entity)
        ensures
            e == self.spec_entity(),
    ;

    /// The instance made of `e`.
    fn from_entity(e: Entity) -> (r: Self)
        ensures
            r == Self::spec_from_entity(e),
    ;

    /// An instance is made of what it is made of.
    proof fn lemma_from_entity(self)
        ensures
            Self::spec_from_entity(self.spec_entity()) == self,
    ;

    /// What an instance is made of is what it was made of.
    proof fn lemma_entity_of(e: Entity)
        ensures
            Self::spec_from_entity(e).spec_entity() == e,
    ;
}

/// What the instances under their keys are made of.
pub open spec fn entities_of<T: Instance>(s: Seq<(u64, T)>) -> Seq<(u64, Entity)> {
    s.map_values(|p: (u64, T)| (p.0, p.1.spec_entity()))
}

/// The instance after the given lines have been read into it, one after
/// the other.
pub open spec fn read_all(e: Entity, ls: Seq<Seq<char>>) -> Entity
    decreases ls.len(),
{
    if ls.len() == 0 {
        e
    } else {
        read_all(e, ls.drop_last()).spec_read(ls.last())
    }
}

/// Whether a line can stand inside a block: it gives a key a value,
/// stands on its own, and does not start as a marker does.
pub open spec fn is_block_line(l: Seq<char>) -> bool {
    &&& spec_parse_field(l) is Some
    &&& is_plain(l)
    &&& trim(l).len() > 0
    &&& trim(l)[0] != '%'
}

/// What holds of the keys of an instance and of its indentation: each
/// key can be told from what stands around it, and from the other keys.
pub proof fn lemma_entity_keys()
    ensures
        is_key("id"@),
        is_key("position"@),
        is_key("view_index"@),
        is_key("despawn"@),
        is_key("level"@),
        "id"@.len() == 2,
        "position"@.len() == 8,
        "view_index"@.len() == 10,
        "despawn"@.len() == 7,
        "level"@.len() == 5,
        !"id"@.contains('\n'),
        !"position"@.contains('\n'),
        !"view_index"@.contains('\n'),
        !"despawn"@.contains('\n'),
        !"level"@.contains('\n'),
        "id"@[0] != '%',
        "position"@[0] != '%',
        "view_index"@[0] != '%',
        "despawn"@[0] != '%',
        "level"@[0] != '%',
        "   "@.len() == 3,
        forall|i: int| 0 <= i < 3 ==> is_whitespace(#[trigger] "   "@[i]),
        !"   "@.contains('\n'),
{
    reveal_strlit("id");
    reveal_strlit("position");
    reveal_strlit("view_index");
    reveal_strlit("despawn");
    reveal_strlit("level");
    reveal_strlit("   ");
}

/// The lines that describe an instance can stand inside a block.
pub proof fn lemma_entity_lines(e: Entity)
    ensures
        e.spec_lines().len() == 5,
        forall|i: int| 0 <= i < 5 ==> is_block_line(#[trigger] e.spec_lines()[i]),
{
    lemma_entity_keys();
    lemma_parse_decimal(e.id as nat);
    lemma_parse_decimal(e.level as nat);
    lemma_parse_signed(e.view_index as int);
    lemma_parse_bool(e.despawn);
    e.position.lemma_name_plain();
    lemma_field_line("   "@, "id"@, decimal(e.id as nat));
    lemma_field_line_plain("   "@, "id"@, decimal(e.id as nat));
    lemma_field_line("   "@, "position"@, e.position.spec_name());
    lemma_field_line_plain("   "@, "position"@, e.position.spec_name());
    lemma_field_line("   "@, "view_index"@, signed_decimal(e.view_index as int));
    lemma_field_line_plain("   "@, "view_index"@, signed_decimal(e.view_index as int));
    lemma_field_line("   "@, "despawn"@, bool_text(e.despawn));
    lemma_field_line_plain("   "@, "despawn"@, bool_text(e.despawn));
    lemma_field_line("   "@, "level"@, decimal(e.level as nat));
    lemma_field_line_plain("   "@, "level"@, decimal(e.level as nat));
}

/// The lines that describe an instance, read into any instance, give the
/// instance that they describe.
pub proof fn lemma_entity_round_trip(start: Entity, e: Entity)
    ensures
        read_all(start, e.spec_lines()) == e,
{
    lemma_entity_keys();
    lemma_parse_decimal(e.id as nat);
    lemma_parse_decimal(e.level as nat);
    lemma_parse_signed(e.view_index as int);
    lemma_parse_bool(e.despawn);
    e.position.lemma_name_plain();
    e.position.lemma_name_round_trip();
    lemma_field_line("   "@, "id"@, decimal(e.id as nat));
    lemma_field_line("   "@, "position"@, e.position.spec_name());
    lemma_field_line("   "@, "view_index"@, signed_decimal(e.view_index as int));
    lemma_field_line("   "@, "despawn"@, bool_text(e.despawn));
    lemma_field_line("   "@, "level"@, decimal(e.level as nat));
    let ls = e.spec_lines();
    let l0 = seq![ls[0]];
    let l1 = l0.push(ls[1]);
    let l2 = l1.push(ls[2]);
    let l3 = l2.push(ls[3]);
    let l4 = l3.push(ls[4]);
    assert(l0.drop_last() == Seq::<Seq<char>>::empty());
    assert(l1.drop_last() == l0);
    assert(l2.drop_last() == l1);
    assert(l3.drop_last() == l2);
    assert(l4.drop_last() == l3);
    assert(l4 == ls);
    assert(l0.last() == ls[0]);
    assert(l1.last() == ls[1]);
    assert(l2.last() == ls[2]);
    assert(l3.last() == ls[3]);
    assert(l4.last() == ls[4]);
    assert(read_all(start, Seq::<Seq<char>>::empty()) == start);
    let e0 = read_all(start, l0);
    assert(e0 == start.spec_read(ls[0]));
    assert(e0 == (Entity { id: e.id, ..start }));
    let e1 = read_all(start, l1);
    assert(e1 == e0.spec_read(ls[1]));
    assert(e1 == (Entity { position: e.position, ..e0 }));
    let e2 = read_all(start, l2);
    assert(e2 == e1.spec_read(ls[2]));
    assert(e2 == (Entity { view_index: e.view_index, ..e1 }));
    let e3 = read_all(start, l3);
    assert(e3 == e2.spec_read(ls[3]));
    assert(e3 == (Entity { despawn: e.despawn, ..e2 }));
    let e4 = read_all(start, l4);
    assert(e4 == e3.spec_read(ls[4]));
    assert(e4 == (Entity { level: e.level, ..e3 }));
}

} // verus!
