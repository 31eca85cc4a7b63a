//! A fight between teams.

use vstd::prelude::*;

verus! {

/// What tells a fighter apart: the player, or the unit under a key of the
/// environment.
#[derive(Clone, Copy, Debug, PartialEq, Eq, Structural)]
pub struct UnitIdentifier {
    pub is_player: bool,
    pub unit_index: u64,
}

impl UnitIdentifier {
    /// The unit under key zero, which is no unit.
    pub fn new() -> (r: UnitIdentifier)
        ensures
            r == (UnitIdentifier { is_player: false, unit_index: 0 }),
    {
        UnitIdentifier { is_player: false, unit_index: 0 }
    }
}

/// A team in a fight.
pub struct CombatTeam {
    pub name: String,
    pub members: Vec<UnitIdentifier>,
}

impl View for CombatTeam {
    type V = (Seq<char>, Seq<UnitIdentifier>);

    open spec fn view(&self) -> (Seq<char>, Seq<UnitIdentifier>) {
        (self.name@, self.members@)
    }
}

/// A fight: the teams, whose turn it is, and how many turns were taken.
pub struct RotfCombat {
    pub teams: Vec<CombatTeam>,
    pub turn: usize,
    pub turn_number: usize,
}

impl RotfCombat {
    /// The teams with their members.
    pub open spec fn spec_teams(&self) -> Seq<(Seq<char>, Seq<UnitIdentifier>)> {
        self.teams@.map_values(|t: CombatTeam| t@)
    }

    /// A fight without teams, before its first turn.
    pub fn new() -> (r: RotfCombat)
        ensures
            r.spec_teams() == Seq::<(Seq<char>, Seq<UnitIdentifier>)>::empty(),
            r.turn == 0,
            r.turn_number == 0,
    {
        let r = RotfCombat { teams: Vec::new(), turn: 0, turn_number: 0 };
        assert(r.spec_teams() =~= Seq::empty());
        r
    }

    /// Lets a team with the given members join the fight.
    pub fn add_team(&mut self, name: &str, members: Vec<UnitIdentifier>)
        ensures
            final(self).spec_teams() == old(self).spec_teams().push((name@, members@)),
            final(self).turn == old(self).turn,
            final(self).turn_number == old(self).turn_number,
    {
        self.teams.push(CombatTeam { name: name.to_owned(), members });
        assert(self.spec_teams() =~= old(self).spec_teams().push((name@, members@)));
    }
}

} // verus!
