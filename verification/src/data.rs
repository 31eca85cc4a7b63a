//! The data directory as the game sees it: the saved games, the catalogs
//! and the cutscenes, each file as its text.

use vstd::prelude::*;

verus! {

/// The text of a file, if the file is there.
pub open spec fn text_of(file: Option<String>) -> Option<Seq<char>> {
    match file {
        Some(s) => Some(s@),
        None => None,
    }
}

/// The files of one saved game, under the name of its folder.
pub struct SavedGame {
    pub name: String,
    pub metadata: Option<String>,
    pub player: Option<String>,
    pub environment: Option<String>,
}

/// The texts of the files of one saved game.
pub struct SavedGameView {
    pub name: Seq<char>,
    pub metadata: Option<Seq<char>>,
    pub player: Option<Seq<char>>,
    pub environment: Option<Seq<char>>,
}

impl View for SavedGame {
    type V = SavedGameView;

    open spec fn view(&self) -> SavedGameView {
        SavedGameView {
            name: self.name@,
            metadata: text_of(self.metadata),
            player: text_of(self.player),
            environment: text_of(self.environment),
        }
    }
}

impl Clone for SavedGame {
    fn clone(&self) -> (r: SavedGame)
        ensures
            r@ == self@,
    {
        SavedGame {
            name: self.name.clone(),
            metadata: match &self.metadata {
                Some(s) => Some(s.clone()),
                None => None,
            },
            player: match &self.player {
                Some(s) => Some(s.clone()),
                None => None,
            },
            environment: match &self.environment {
                Some(s) => Some(s.clone()),
                None => None,
            },
        }
    }
}

/// The texts of the saved games, in their order.
pub open spec fn saves_view(s: Seq<SavedGame>) -> Seq<SavedGameView> {
    s.map_values(|g: SavedGame| g@)
}

/// The position of the first saved game with the given name, or the number
/// of saved games if there is none.
pub open spec fn position_of_save(s: Seq<SavedGameView>, name: Seq<char>) -> int
    decreases s.len(),
{
    if s.len() == 0 || s[0].name == name {
        0
    } else {
        1 + position_of_save(s.skip(1), name)
    }
}

/// `position_of_save` is the one position before which no saved game has
/// the name and at which one has it, if any has.
pub proof fn lemma_position_of_save(s: Seq<SavedGameView>, name: Seq<char>, i: int)
    requires
        0 <= i <= s.len(),
        forall|j: int| 0 <= j < i ==> (#[trigger] s[j]).name != name,
        i == s.len() || s[i].name == name,
    ensures
        position_of_save(s, name) == i,
    decreases i,
{
    if i > 0 {
        let t = s.skip(1);
        assert forall|j: int| 0 <= j < i - 1 implies (#[trigger] t[j]).name != name by {
            assert(t[j] == s[j + 1]);
        }
        lemma_position_of_save(t, name, i - 1);
    }
}

/// The saved games after `saved` has been written: in place of the first
/// one of its name, or after the last one.
pub open spec fn with_save(s: Seq<SavedGameView>, saved: SavedGameView) -> Seq<SavedGameView> {
    let i = position_of_save(s, saved.name);
    if 0 <= i < s.len() {
        s.update(i, saved)
    } else {
        s.push(saved)
    }
}

/// The saved games after the first one of the given name has been deleted.
pub open spec fn without_save(s: Seq<SavedGameView>, name: Seq<char>) -> Seq<SavedGameView> {
    let i = position_of_save(s, name);
    if 0 <= i < s.len() {
        s.remove(i)
    } else {
        s
    }
}

/// The data directory: the saved games, the two catalogs, and the text of
/// the cutscene that opens a game. A file that is not there is `None`.
pub struct RotfData {
    pub saves: Vec<SavedGame>,
    pub units: Option<String>,
    pub items: Option<String>,
    pub launch_game: Option<String>,
}

impl RotfData {
    /// The saved games, as texts.
    pub open spec fn spec_saves(&self) -> Seq<SavedGameView> {
        saves_view(self.saves@)
    }

    /// A data directory without a file.
    pub fn new() -> (r: RotfData)
        ensures
            r.spec_saves().len() == 0,
            r.units is None,
            r.items is None,
            r.launch_game is None,
    {
        RotfData { saves: Vec::new(), units: None, items: None, launch_game: None }
    }

    /// The position of the first saved game with the given name.
    pub fn find(&self, name: &String) -> (r: Option<usize>)
        ensures
            match r {
                Some(i) => i == position_of_save(self.spec_saves(), name@) && i < self.saves@.len(),
                None => position_of_save(self.spec_saves(), name@) == self.saves@.len(),
            },
    {
        let mut i: usize = 0;
        while i < self.saves.len()
            invariant
                i <= self.saves@.len(),
                forall|j: int| 0 <= j < i ==> (#[trigger] self.spec_saves()[j]).name != name@,
            decreases self.saves@.len() - i,
        {
            if self.saves[i].name == *name {
                proof {
                    lemma_position_of_save(self.spec_saves(), name@, i as int);
                }
                return Some(i);
            }
            i += 1;
        }
        proof {
            lemma_position_of_save(self.spec_saves(), name@, i as int);
        }
        None
    }

    /// Whether there is a saved game with the given name.
    pub fn has(&self, name: &String) -> (r: bool)
        ensures
            r == (position_of_save(self.spec_saves(), name@) < self.spec_saves().len()),
    {
        self.find(name).is_some()
    }

    /// The names of the saved games, in their order.
    pub fn names(&self) -> (r: Vec<String>)
        ensures
            r@.len() == self.saves@.len(),
            forall|i: int| 0 <= i < r@.len() ==> r@[i]@ == #[trigger] self.spec_saves()[i].name,
    {
        let mut out: Vec<String> = Vec::new();
        let mut i: usize = 0;
        while i < self.saves.len()
            invariant
                i <= self.saves@.len(),
                out@.len() == i,
                forall|j: int| 0 <= j < i ==> out@[j]@ == #[trigger] self.spec_saves()[j].name,
            decreases self.saves@.len() - i,
        {
            out.push(self.saves[i].name.clone());
            i += 1;
        }
        out
    }

    /// Writes a saved game: in place of the first one of its name, or
    /// after the last one.
    pub fn store(&mut self, saved: SavedGame)
        ensures
            final(self).spec_saves() == with_save(old(self).spec_saves(), saved@),
            final(self).units == old(self).units,
            final(self).items == old(self).items,
            final(self).launch_game == old(self).launch_game,
    {
        let ghost before = self.spec_saves();
        match self.find(&saved.name) {
            Some(i) => {
                self.saves.set(i, saved);
                assert(self.spec_saves() =~= before.update(i as int, saved@));
            },
            None => {
                self.saves.push(saved);
                assert(self.spec_saves() =~= before.push(saved@));
            },
        }
    }

    /// Deletes the first saved game of the given name. Returns whether
    /// there was one.
    pub fn delete(&mut self, name: &String) -> (r: bool)
        ensures
            r == (position_of_save(old(self).spec_saves(), name@) < old(self).spec_saves().len()),
            final(self).spec_saves() == without_save(old(self).spec_saves(), name@),
            final(self).units == old(self).units,
            final(self).items == old(self).items,
            final(self).launch_game == old(self).launch_game,
    {
        let ghost before = self.spec_saves();
        match self.find(name) {
            Some(i) => {
                self.saves.remove(i);
                assert(self.spec_saves() =~= before.remove(i as int));
                true
            },
            None => false,
        }
    }
}

} // verus!
