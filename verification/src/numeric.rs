//! Random draws and integer ranges.

use crate::text::{parse_i64, spec_parse_i64, spec_split_once, split_once, chars_of};
use rand::seq::SliceRandom;
use rand::Rng;
use vstd::prelude::*;

verus! {

/// `rand::Rng::gen_range` on the thread's generator, for an inclusive range
/// of `u8`: the value drawn lies within the range. The range must not be
/// empty, or the call panics.
#[verifier::external_body]
fn gen_range_inclusive(min: u8, max: u8) -> (r: u8)
    requires
        min <= max,
    ensures
        min <= r <= max,
{
    rand::thread_rng().gen_range(min..=max)
}

/// `rand::seq::SliceRandom::choose` on the thread's generator: nothing for
/// an empty slice, else one of its elements.
#[verifier::external_body]
fn choose_from(ids: &Vec<u64>) -> (r: Option<u64>)
    ensures
        match r {
            Some(id) => ids@.contains(id),
            None => ids@.len() == 0,
        },
{
    ids.choose(&mut rand::thread_rng()).copied()
}

/// A random integer between the two bounds, both included, whichever of
/// them is the larger.
pub fn random_int(min: u8, max: u8) -> (r: u8)
    ensures
        min <= r <= max || max <= r <= min,
{
    if max < min {
        gen_range_inclusive(max, min)
    } else {
        gen_range_inclusive(min, max)
    }
}

/// True with a chance of `percent` hundredths: never for zero, always for a
/// hundred or more.
pub fn random_chance(percent: u8) -> (r: bool)
    ensures
        percent == 0 ==> !r,
        percent >= 100 ==> r,
{
    let roll: u8 = random_int(0, 99);
    roll < percent
}

/// One of `ids`, picked at random, or nothing if there is none.
pub fn random_choice(ids: &Vec<u64>) -> (r: Option<u64>)
    ensures
        match r {
            Some(id) => ids@.contains(id),
            None => ids@.len() == 0,
        },
{
    choose_from(ids)
}

/// A range of integers with both ends included.
#[derive(Clone, Copy, Debug, PartialEq, Eq, Structural)]
pub struct IntegerRange {
    pub start: i64,
    pub end: i64,
}

/// The number that `s` denotes, or -1 if it denotes none.
pub open spec fn bound_of(s: Seq<char>) -> i64 {
    match spec_parse_i64(s) {
        Some(v) => v,
        None => -1i64,
    }
}

/// The range that a text denotes: `min-max`, or a single number for a range
/// of one. A bound that cannot be read is -1.
pub open spec fn range_of(s: Seq<char>) -> IntegerRange {
    match spec_split_once(s, '-') {
        Some((a, b)) => IntegerRange { start: bound_of(a), end: bound_of(b) },
        None => IntegerRange { start: bound_of(s), end: bound_of(s) },
    }
}

impl IntegerRange {
    /// The range that holds nothing.
    pub fn new() -> (r: IntegerRange)
        ensures
            r == (IntegerRange { start: -1i64, end: -1i64 }),
    {
        IntegerRange { start: -1, end: -1 }
    }

    /// Reads a range from `min-max` or from a single number.
    pub fn from_str(s: &str) -> (r: IntegerRange)
        ensures
            r == range_of(s@),
    {
        let v = chars_of(s);
        IntegerRange::from_chars(&v)
    }

    /// Reads a range from `min-max` or from a single number.
    pub fn from_chars(v: &Vec<char>) -> (r: IntegerRange)
        ensures
            r == range_of(v@),
    {
        match split_once(v, '-') {
            Some((a, b)) => {
                let start: i64 = match parse_i64(&a) {
                    Some(x) => x,
                    None => -1,
                };
                let end: i64 = match parse_i64(&b) {
                    Some(x) => x,
                    None => -1,
                };
                IntegerRange { start, end }
            },
            None => {
                let num: i64 = match parse_i64(v) {
                    Some(x) => x,
                    None => -1,
                };
                IntegerRange { start: num, end: num }
            },
        }
    }

    /// Whether `x` lies in the range.
    pub fn contains(&self, x: i64) -> (r: bool)
        ensures
            r == (self.start <= x <= self.end),
    {
        x >= self.start && x <= self.end
    }

    /// The lower end.
    pub fn min(&self) -> (r: i64)
        ensures
            r == self.start,
    {
        self.start
    }

    /// The upper end.
    pub fn max(&self) -> (r: i64)
        ensures
            r == self.end,
    {
        self.end
    }
}

} // verus!
