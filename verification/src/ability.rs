//! What a unit can do in combat.

use crate::text::{chars_of, eq_str};
use vstd::prelude::*;

verus! {

/// The abilities that exist.
#[derive(Clone, Copy, Debug, PartialEq, Eq, Hash, Structural)]
pub enum Ability {
    NOTHING,
}

impl Ability {
    /// The name under which the ability is written down.
    pub open spec fn spec_name(self) -> Seq<char> {
        "NOTHING"@
    }

    /// The name under which the ability is written down.
    pub fn name(&self) -> (s: &'static str)
        ensures
            s@ == self.spec_name(),
    {
        "NOTHING"
    }

    /// Reads an ability from its name.
    pub fn from_str(s: &str) -> (r: Result<Ability, ()>)
        ensures
            r is Ok <==> s@ == "NOTHING"@,
            r is Ok ==> r->Ok_0 == Ability::NOTHING,
    {
        let v = chars_of(s);
        if eq_str(&v, "NOTHING") {
            Ok(Ability::NOTHING)
        } else {
            Err(())
        }
    }
}

} // verus!
