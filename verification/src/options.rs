//! The options that the player can set; they are kept across games.

use crate::text::{
    chars_of, eq_str, lines, parse_field, spec_parse_field, split_lines, string_of, views,
};
use vstd::prelude::*;
use vstd::string::StringExecFns;

verus! {

/// The options, as they are shown to the player. The sleep factor scales
/// the pauses of the cutscenes; it is kept here as the text that shows it,
/// and what it is worth is for the program around the session to know.
pub struct RotfOptions {
    pub sleep_factor: String,
}

/// The sleep factor after the given lines have been read, one after the
/// other: each line that gives it a value replaces it.
pub open spec fn read_sleep_factor(factor: Seq<char>, ls: Seq<Seq<char>>) -> Seq<char>
    decreases ls.len(),
{
    if ls.len() == 0 {
        factor
    } else {
        let before = read_sleep_factor(factor, ls.drop_last());
        match spec_parse_field(ls.last()) {
            Some((key, value)) => if key == "sleep_factor"@ {
                value
            } else {
                before
            },
            None => before,
        }
    }
}

impl RotfOptions {
    /// The options before the player has set any: a sleep factor of one.
    pub fn default() -> (r: RotfOptions)
        ensures
            r.sleep_factor@ == "1"@,
    {
        RotfOptions { sleep_factor: String::from_str("1") }
    }

    /// Reads the options from the file in which they are kept: the sleep
    /// factor is what the last line that gives it says, or one if none does.
    pub fn load(content: &str) -> (r: RotfOptions)
        ensures
            r.sleep_factor@ == read_sleep_factor("1"@, lines(content@)),
    {
        let mut options = RotfOptions::default();
        let ls = split_lines(&chars_of(content));
        let mut i: usize = 0;
        assert(views(ls@).take(0) =~= Seq::<Seq<char>>::empty());
        while i < ls.len()
            invariant
                i <= ls.len(),
                options.sleep_factor@ == read_sleep_factor("1"@, views(ls@).take(i as int)),
            decreases ls.len() - i,
        {
            proof {
                assert(views(ls@).take(i + 1).drop_last() == views(ls@).take(i as int));
                assert(views(ls@).take(i + 1).last() == ls@[i as int]@);
            }
            match parse_field(&ls[i]) {
                Some((key, value)) => {
                    if eq_str(&key, "sleep_factor") {
                        options.sleep_factor = string_of(&value);
                    }
                },
                None => {},
            }
            i += 1;
        }
        assert(views(ls@).take(ls.len() as int) == views(ls@));
        options
    }

    /// The file in which the options are kept.
    pub open spec fn spec_file_content(&self) -> Seq<char> {
        "\nsleep_factor: "@ + self.sleep_factor@
    }

    /// The file in which the options are kept.
    pub fn file_content(&self) -> (s: String)
        ensures
            s@ == self.spec_file_content(),
    {
        let mut contents = String::from_str("\nsleep_factor: ");
        contents.append(self.sleep_factor.as_str());
        contents
    }
}

} // verus!
