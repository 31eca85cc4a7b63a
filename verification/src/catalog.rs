//! What the catalogs of units and of items have in common: the rows of a
//! catalog file and how they are read.

use crate::numeric::{range_of, IntegerRange};
use crate::text::{spec_parse_u64, spec_split, trim};
use vstd::prelude::*;

verus! {

/// One row of a catalog: an id, a name, and the levels at which it spawns.
pub struct Row {
    pub id: u64,
    pub name: Seq<char>,
    pub level_range: IntegerRange,
}

/// The row that stands for an id that the catalog does not have.
pub open spec fn error_row() -> Row {
    Row { id: 0, name: Seq::empty(), level_range: IntegerRange { start: -1i64, end: -1i64 } }
}

/// The row that a line of a catalog stands for. The line is trimmed and
/// split at its commas; the second field is the id, the third the name, the
/// fourth the level range. A line with fewer than four fields, with an id
/// that is no positive number, or with an empty name stands for nothing.
pub open spec fn parse_row(line: Seq<char>) -> Option<Row> {
    let fields = spec_split(trim(line), ',');
    if fields.len() < 4 {
        None
    } else {
        match spec_parse_u64(fields[1]) {
            None => None,
            Some(id) => if id < 1 || trim(fields[2]).len() == 0 {
                None
            } else {
                Some(Row { id, name: trim(fields[2]), level_range: range_of(fields[3]) })
            },
        }
    }
}

/// The catalog after the given lines have been read into it, and the id
/// at which reading stopped because the catalog had it already.
pub open spec fn load_rows(catalog: Map<u64, Row>, ls: Seq<Seq<char>>) -> (
    Map<u64, Row>,
    Option<u64>,
)
    decreases ls.len(),
{
    if ls.len() == 0 {
        (catalog, None)
    } else {
        match parse_row(ls[0]) {
            None => load_rows(catalog, ls.skip(1)),
            Some(row) => if catalog.contains_key(row.id) {
                (catalog, Some(row.id))
            } else {
                load_rows(catalog.insert(row.id, row), ls.skip(1))
            },
        }
    }
}

/// A bound of a level range as a level: zero if it is none.
pub open spec fn level_of(bound: i64) -> u8 {
    if 0 <= bound <= 255 {
        bound as u8
    } else {
        0
    }
}

/// The level of `bound`, or zero.
pub fn bound_level(bound: i64) -> (r: u8)
    ensures
        r == level_of(bound),
{
    if 0 <= bound && bound <= 255 {
        bound as u8
    } else {
        0
    }
}

/// The error of a load: the catalog has the id already.
#[derive(Clone, Copy, Debug, PartialEq, Eq, Structural)]
pub struct DuplicateId {
    pub id: u64,
}

} // verus!
