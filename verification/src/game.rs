//! One game: the player, the environment, and the state that decides
//! which commands there are.

use crate::combat::{RotfCombat, UnitIdentifier};
use crate::commands::Command;
use crate::cutscene::RotfCutscene;
use crate::data::{SavedGame, SavedGameView};
use crate::environment::{Position, RotfEnvironment};
use crate::item_loader::ItemLoader;
use crate::player::RotfPlayer;
use crate::save::{new_environment_state, new_player_state, read_lines, SaveFile};
use crate::text::{
    chars_of, decimal, eq_str, field_line, lemma_unlines_push, lines, parse_field, push_field,
    replace_char, replaced, spec_parse_field, split_lines, string_of, unlines, views,
};
use crate::unit_loader::UnitLoader;
use vstd::prelude::*;
use vstd::string::StringExecFns;

verus! {

/// The state of a game; it decides which commands there are.
#[derive(Clone, Copy, Debug, PartialEq, Eq, Structural)]
pub enum GameState {
    CUTSCENE,
    ENVIRONMENT,
    COMBAT,
}

impl GameState {
    /// The name under which the state is written down.
    pub open spec fn spec_name(self) -> Seq<char> {
        match self {
            GameState::CUTSCENE => "CUTSCENE"@,
            GameState::ENVIRONMENT => "ENVIRONMENT"@,
            GameState::COMBAT => "COMBAT"@,
        }
    }

    /// The name under which the state is written down.
    pub fn name(&self) -> (s: &'static str)
        ensures
            s@ == self.spec_name(),
    {
        match self {
            GameState::CUTSCENE => "CUTSCENE",
            GameState::ENVIRONMENT => "ENVIRONMENT",
            GameState::COMBAT => "COMBAT",
        }
    }

    /// The state that a name stands for.
    pub open spec fn spec_from_name(s: Seq<char>) -> Option<GameState> {
        if s == "CUTSCENE"@ {
            Some(GameState::CUTSCENE)
        } else if s == "ENVIRONMENT"@ {
            Some(GameState::ENVIRONMENT)
        } else if s == "COMBAT"@ {
            Some(GameState::COMBAT)
        } else {
            None
        }
    }

    /// Reads a state from its name.
    pub fn from_chars(s: &Vec<char>) -> (r: Result<GameState, ()>)
        ensures
            match r {
                Ok(p) => GameState::spec_from_name(s@) == Some(p),
                Err(_) => GameState::spec_from_name(s@) is None,
            },
    {
        if eq_str(s, "CUTSCENE") {
            Ok(GameState::CUTSCENE)
        } else if eq_str(s, "ENVIRONMENT") {
            Ok(GameState::ENVIRONMENT)
        } else if eq_str(s, "COMBAT") {
            Ok(GameState::COMBAT)
        } else {
            Err(())
        }
    }

    /// Reads a state from its name.
    pub fn from_str(s: &str) -> (r: Result<GameState, ()>)
        ensures
            match r {
                Ok(p) => GameState::spec_from_name(s@) == Some(p),
                Err(_) => GameState::spec_from_name(s@) is None,
            },
    {
        let v = chars_of(s);
        GameState::from_chars(&v)
    }

    /// The name of a state holds nothing but letters.
    pub proof fn lemma_name_plain(self)
        ensures
            crate::text::trim(self.spec_name()) == self.spec_name(),
            !self.spec_name().contains('\n'),
            self.spec_name().len() > 0,
            self.spec_name().last() != '\r',
    {
        reveal_strlit("CUTSCENE");
        reveal_strlit("ENVIRONMENT");
        reveal_strlit("COMBAT");
        crate::text::lemma_trim_clean(self.spec_name());
    }

    /// Every state is read back from its own name.
    pub proof fn lemma_name_round_trip(self)
        ensures
            GameState::spec_from_name(self.spec_name()) == Some(self),
    {
        reveal_strlit("CUTSCENE");
        reveal_strlit("ENVIRONMENT");
        reveal_strlit("COMBAT");
        assert("CUTSCENE"@.len() == 8);
        assert("ENVIRONMENT"@.len() == 11);
        assert("COMBAT"@.len() == 6);
    }
}

/// How strong the opponents are; fixed when a game is made.
#[derive(Clone, Copy, Debug, PartialEq, Eq, Structural)]
pub enum RotfDifficulty {
    PEACEFUL,
    EASY,
    NORMAL,
    HARD,
}

impl RotfDifficulty {
    /// The difficulty of a game for which none was chosen.
    pub fn default() -> (r: RotfDifficulty)
        ensures
            r == RotfDifficulty::NORMAL,
    {
        RotfDifficulty::NORMAL
    }

    /// The name under which the difficulty is written down.
    pub open spec fn spec_name(self) -> Seq<char> {
        match self {
            RotfDifficulty::PEACEFUL => "PEACEFUL"@,
            RotfDifficulty::EASY => "EASY"@,
            RotfDifficulty::NORMAL => "NORMAL"@,
            RotfDifficulty::HARD => "HARD"@,
        }
    }

    /// The name under which the difficulty is written down.
    pub fn name(&self) -> (s: &'static str)
        ensures
            s@ == self.spec_name(),
    {
        match self {
            RotfDifficulty::PEACEFUL => "PEACEFUL",
            RotfDifficulty::EASY => "EASY",
            RotfDifficulty::NORMAL => "NORMAL",
            RotfDifficulty::HARD => "HARD",
        }
    }

    /// The difficulty that a name stands for.
    pub open spec fn spec_from_name(s: Seq<char>) -> Option<RotfDifficulty> {
        if s == "PEACEFUL"@ {
            Some(RotfDifficulty::PEACEFUL)
        } else if s == "EASY"@ {
            Some(RotfDifficulty::EASY)
        } else if s == "NORMAL"@ {
            Some(RotfDifficulty::NORMAL)
        } else if s == "HARD"@ {
            Some(RotfDifficulty::HARD)
        } else {
            None
        }
    }

    /// Reads a difficulty from its name.
    pub fn from_chars(s: &Vec<char>) -> (r: Result<RotfDifficulty, ()>)
        ensures
            match r {
                Ok(p) => RotfDifficulty::spec_from_name(s@) == Some(p),
                Err(_) => RotfDifficulty::spec_from_name(s@) is None,
            },
    {
        if eq_str(s, "PEACEFUL") {
            Ok(RotfDifficulty::PEACEFUL)
        } else if eq_str(s, "EASY") {
            Ok(RotfDifficulty::EASY)
        } else if eq_str(s, "NORMAL") {
            Ok(RotfDifficulty::NORMAL)
        } else if eq_str(s, "HARD") {
            Ok(RotfDifficulty::HARD)
        } else {
            Err(())
        }
    }

    /// Reads a difficulty from its name.
    pub fn from_str(s: &str) -> (r: Result<RotfDifficulty, ()>)
        ensures
            match r {
                Ok(p) => RotfDifficulty::spec_from_name(s@) == Some(p),
                Err(_) => RotfDifficulty::spec_from_name(s@) is None,
            },
    {
        let v = chars_of(s);
        RotfDifficulty::from_chars(&v)
    }

    /// The name of a difficulty holds nothing but letters.
    pub proof fn lemma_name_plain(self)
        ensures
            crate::text::trim(self.spec_name()) == self.spec_name(),
            !self.spec_name().contains('\n'),
            self.spec_name().len() > 0,
            self.spec_name().last() != '\r',
    {
        reveal_strlit("PEACEFUL");
        reveal_strlit("EASY");
        reveal_strlit("NORMAL");
        reveal_strlit("HARD");
        crate::text::lemma_trim_clean(self.spec_name());
    }

    /// Every difficulty is read back from its own name.
    pub proof fn lemma_name_round_trip(self)
        ensures
            RotfDifficulty::spec_from_name(self.spec_name()) == Some(self),
    {
        reveal_strlit("PEACEFUL");
        reveal_strlit("EASY");
        reveal_strlit("NORMAL");
        reveal_strlit("HARD");
        assert("PEACEFUL"@.len() == 8);
        assert("EASY"@.len() == 4);
        assert("NORMAL"@.len() == 6);
        assert("HARD"@[0] == 'H');
        assert("EASY"@[0] == 'E');
    }
}

/// What the metadata file of a save says of a game.
pub struct Metadata {
    pub name: Seq<char>,
    pub state: GameState,
    pub difficulty: RotfDifficulty,
}

/// The metadata after one line has been read. A state that cannot be read
/// is the cutscene, a difficulty that cannot be read the normal one.
pub open spec fn metadata_step(m: Metadata, line: Seq<char>) -> Metadata {
    match spec_parse_field(line) {
        None => m,
        Some((key, value)) => if key == "name"@ {
            Metadata { name: value, ..m }
        } else if key == "state"@ {
            Metadata {
                state: match GameState::spec_from_name(value) {
                    Some(s) => s,
                    None => GameState::CUTSCENE,
                },
                ..m
            }
        } else if key == "difficulty"@ {
            Metadata {
                difficulty: match RotfDifficulty::spec_from_name(value) {
                    Some(d) => d,
                    None => RotfDifficulty::NORMAL,
                },
                ..m
            }
        } else {
            m
        },
    }
}

/// The metadata after the given lines, one after the other.
pub open spec fn read_metadata(m: Metadata, ls: Seq<Seq<char>>) -> Metadata
    decreases ls.len(),
{
    if ls.len() == 0 {
        m
    } else {
        metadata_step(read_metadata(m, ls.drop_last()), ls.last())
    }
}

/// The name of the folder of a save: the name of the game with an
/// underscore for every space.
pub open spec fn slug(name: Seq<char>) -> Seq<char> {
    replace_char(name, ' ', '_')
}

/// The state in which a loaded game is: a fight is not kept in a save, so
/// a game that was saved in combat is back in the environment.
pub open spec fn settled(state: GameState) -> GameState {
    if state == GameState::COMBAT {
        GameState::ENVIRONMENT
    } else {
        state
    }
}

/// The file of a save that is not there.
#[derive(Clone, Copy, Debug, PartialEq, Eq, Structural)]
pub enum LoadError {
    METADATA,
    PLAYER,
    ENVIRONMENT,
}

impl LoadError {
    /// What the player is told of the error.
    pub open spec fn spec_message(self) -> Seq<char> {
        match self {
            LoadError::METADATA => "metadata.rotf not found"@,
            LoadError::PLAYER => "player.rotf not found"@,
            LoadError::ENVIRONMENT => "environment.rotf not found"@,
        }
    }

    /// What the player is told of the error.
    pub fn message(&self) -> (s: &'static str)
        ensures
            s@ == self.spec_message(),
    {
        match self {
            LoadError::METADATA => "metadata.rotf not found",
            LoadError::PLAYER => "player.rotf not found",
            LoadError::ENVIRONMENT => "environment.rotf not found",
        }
    }
}

/// The file that a load misses first, if it misses one.
pub open spec fn missing_file(saved: SavedGameView) -> Option<LoadError> {
    if saved.metadata is None {
        Some(LoadError::METADATA)
    } else if saved.player is None {
        Some(LoadError::PLAYER)
    } else if saved.environment is None {
        Some(LoadError::ENVIRONMENT)
    } else {
        None
    }
}

/// The lines of the file of a new player.
pub open spec fn new_player_lines() -> Seq<Seq<char>> {
    seq![
        field_line(""@, "level"@, decimal(0)),
        field_line(""@, "view_distance"@, Position::NEAR.spec_name()),
        ""@,
        field_line(""@, "capacity"@, decimal(1)),
        field_line(""@, "next_item_key"@, decimal(1)),
    ]
}

/// The lines of the file of a new environment.
pub open spec fn new_environment_lines() -> Seq<Seq<char>> {
    seq![
        field_line(""@, "time_passed"@, decimal(0)),
        ""@,
        field_line(""@, "next_unit_key"@, decimal(1)),
        ""@,
        field_line(""@, "next_item_key"@, decimal(1)),
    ]
}

/// The files of a new game of the given name and difficulty.
pub open spec fn new_save(name: Seq<char>, difficulty: RotfDifficulty) -> SavedGameView {
    SavedGameView {
        name: slug(name),
        metadata: Some(
            unlines(
                seq![
                    field_line(""@, "name"@, name),
                    field_line(""@, "state"@, GameState::CUTSCENE.spec_name()),
                    field_line(""@, "difficulty"@, difficulty.spec_name()),
                ],
            ),
        ),
        player: Some(unlines(new_player_lines())),
        environment: Some(unlines(new_environment_lines())),
    }
}

/// One game, as it is kept in one save.
pub struct RotfGame {
    pub name: String,
    pub state: GameState,
    pub difficulty: RotfDifficulty,
    pub last_cutscene: RotfCutscene,
    pub player: RotfPlayer,
    pub environment: RotfEnvironment,
    pub combat: Option<RotfCombat>,
}

impl RotfGame {
    /// Whether the game is in one piece: a game in combat has a fight.
    pub open spec fn wf(&self) -> bool {
        self.state == GameState::COMBAT ==> self.combat is Some
    }

    /// Whether the game differs from `before` in its environment only.
    pub open spec fn same_but_environment(&self, before: &RotfGame) -> bool {
        *self == (RotfGame { environment: self.environment, ..*before })
    }

    /// A new game: in its opening cutscene, with a new player in an empty
    /// environment, and no fight.
    pub fn new(name: String, difficulty: RotfDifficulty) -> (r: RotfGame)
        ensures
            r.wf(),
            r.name == name,
            r.state == GameState::CUTSCENE,
            r.difficulty == difficulty,
            r.last_cutscene == RotfCutscene::LAUNCH_GAME,
            r.player.load_state() == new_player_state(),
            r.environment.load_state() == new_environment_state(),
            r.environment.units@.len() == 0,
            r.environment.items@.len() == 0,
            r.player.inventory.items@.len() == 0,
            r.player.level == 0,
            r.combat is None,
            r.spec_save() == new_save(name@, difficulty),
    {
        let r = RotfGame {
            name,
            state: GameState::CUTSCENE,
            difficulty,
            last_cutscene: RotfCutscene::LAUNCH_GAME,
            player: RotfPlayer::new(),
            environment: RotfEnvironment::new(),
            combat: None,
        };
        assert(r.player.load_state().items.entries =~= Seq::empty());
        assert(r.environment.load_state().items.entries =~= Seq::empty());
        assert(r.environment.load_state().units.entries =~= Seq::empty());
        assert(r.player.spec_file_lines() =~= new_player_lines());
        assert(r.environment.spec_file_lines() =~= new_environment_lines());
        r
    }

    /// The teams of a fight between the player and the unit under `key`.
    pub open spec fn fight_teams(key: u64) -> Seq<(Seq<char>, Seq<UnitIdentifier>)> {
        seq![
            ("player"@, seq![UnitIdentifier { is_player: true, unit_index: 0 }]),
            ("enemy"@, seq![UnitIdentifier { is_player: false, unit_index: key }]),
        ]
    }

    /// Whether the game is in a fight with the unit under `key` that
    /// `player_start` says who opened: the first turn is the player's team's
    /// if the player opened the fight, else the enemy's.
    pub open spec fn fights(&self, key: u64, player_start: bool) -> bool {
        &&& self.state == GameState::COMBAT
        &&& self.combat matches Some(combat) && combat.spec_teams() == RotfGame::fight_teams(key)
            && combat.turn_number == 0 && combat.turn == if player_start {
            0usize
        } else {
            1usize
        }
    }

    /// Starts a fight between the player and the unit under `unit_index`.
    pub fn enter_combat(&mut self, unit_index: u64, player_start: bool)
        ensures
            final(self).fights(unit_index, player_start),
            final(self).wf(),
            final(self).name == old(self).name,
            final(self).difficulty == old(self).difficulty,
            final(self).last_cutscene == old(self).last_cutscene,
            final(self).player == old(self).player,
            final(self).environment == old(self).environment,
    {
        let mut combat = RotfCombat::new();
        let players = vec![UnitIdentifier { is_player: true, unit_index: 0 }];
        assert(players@ =~= seq![UnitIdentifier { is_player: true, unit_index: 0 }]);
        combat.add_team("player", players);
        let enemies = vec![UnitIdentifier { is_player: false, unit_index }];
        assert(enemies@ =~= seq![UnitIdentifier { is_player: false, unit_index }]);
        combat.add_team("enemy", enemies);
        if player_start {
            combat.turn = 0;
        } else {
            combat.turn = 1;
        }
        assert(combat.spec_teams() =~= RotfGame::fight_teams(unit_index));
        self.combat = Some(combat);
        self.state = GameState::COMBAT;
    }

    /// Ends the fight, if there is one: the game is back in the environment.
    pub fn leave_combat(&mut self)
        ensures
            final(self).wf(),
            final(self).combat is None,
            final(self).state == if old(self).state == GameState::COMBAT {
                GameState::ENVIRONMENT
            } else {
                old(self).state
            },
            final(self).name == old(self).name,
            final(self).difficulty == old(self).difficulty,
            final(self).last_cutscene == old(self).last_cutscene,
            final(self).player == old(self).player,
            final(self).environment == old(self).environment,
    {
        self.combat = None;
        if self.state == GameState::COMBAT {
            self.state = GameState::ENVIRONMENT;
        }
    }

    /// Fills the environment at the start of the game.
    pub fn initial_spawns(&mut self, unit_loader: &UnitLoader, item_loader: &ItemLoader)
        ensures
            crate::environment::units_spawned(
                old(self).environment.units@,
                old(self).environment.units.spec_next_key(),
                final(self).environment.units@,
                crate::environment::spec_num_units(old(self).player.spec_tier()),
                unit_loader,
                true,
            ),
            crate::environment::items_spawned(
                old(self).environment.items@,
                old(self).environment.items.spec_next_key(),
                final(self).environment.items@,
                crate::environment::spec_num_items(old(self).player.spec_tier()),
                item_loader,
                true,
            ),
            final(self).environment.time_passed == old(self).environment.time_passed,
            final(self).name == old(self).name,
            final(self).state == old(self).state,
            final(self).difficulty == old(self).difficulty,
            final(self).last_cutscene == old(self).last_cutscene,
            final(self).player == old(self).player,
            final(self).combat == old(self).combat,
    {
        self.environment.initial_spawns(&self.player, unit_loader, item_loader);
    }

    /// The commands of a game in the given state: none in a cutscene, the
    /// player's commands for the environment or for combat else.
    pub open spec fn spec_commands(state: GameState) -> Seq<Command> {
        match state {
            GameState::CUTSCENE => Seq::empty(),
            GameState::ENVIRONMENT => RotfPlayer::spec_environment_commands(),
            GameState::COMBAT => RotfPlayer::spec_combat_commands(),
        }
    }

    /// The commands that the state of the game allows.
    pub fn commands(&self) -> (r: Vec<Command>)
        ensures
            r@ == RotfGame::spec_commands(self.state),
    {
        match self.state {
            GameState::CUTSCENE => Vec::new(),
            GameState::ENVIRONMENT => self.player.environment_commands(),
            GameState::COMBAT => self.player.combat_commands(),
        }
    }

    /// Whether `after` is what an update may make of the game. A game
    /// that is not in the environment stays as it is. Else the environment
    /// is updated, and the unit that attacks the player, if one does,
    /// starts a fight in which it has the first turn.
    pub open spec fn advanced(
        &self,
        after: &RotfGame,
        unit_loader: &UnitLoader,
        item_loader: &ItemLoader,
    ) -> bool {
        &&& after.name == self.name
        &&& after.difficulty == self.difficulty
        &&& after.last_cutscene == self.last_cutscene
        &&& after.player == self.player
        &&& self.wf() ==> after.wf()
        &&& self.state != GameState::ENVIRONMENT ==> *after == *self
        &&& self.state == GameState::ENVIRONMENT ==> exists|attacker: Option<u64>|
            {
                &&& #[trigger] self.environment.updated(
                    &after.environment,
                    attacker,
                    &self.player,
                    unit_loader,
                    item_loader,
                )
                &&& match attacker {
                    Some(key) => after.fights(key, false),
                    None => after.state == GameState::ENVIRONMENT && after.combat == self.combat,
                }
            }
    }

    /// Lets the time that has passed take effect on the environment, if the
    /// game is in the environment; a unit that attacks the player starts a
    /// fight in which it has the first turn.
    pub fn update(&mut self, unit_loader: &UnitLoader, item_loader: &ItemLoader)
        ensures
            old(self).advanced(final(self), unit_loader, item_loader),
    {
        match self.state {
            GameState::ENVIRONMENT => {
                let attacker = self.environment.update(&self.player, unit_loader, item_loader);
                let ghost env = self.environment;
                match attacker {
                    Some(i) => {
                        self.enter_combat(i, false);
                    },
                    None => {},
                }
                assert(old(self).environment.updated(
                    &self.environment,
                    attacker,
                    &old(self).player,
                    unit_loader,
                    item_loader,
                ));
            },
            _ => {},
        }
    }

    /// The lines of the metadata file of the game.
    pub open spec fn spec_metadata_lines(&self) -> Seq<Seq<char>> {
        seq![
            field_line(""@, "name"@, self.name@),
            field_line(""@, "state"@, self.state.spec_name()),
            field_line(""@, "difficulty"@, self.difficulty.spec_name()),
        ]
    }

    /// The metadata file of the game: each line with a line feed before it.
    pub fn metadata_content(&self) -> (s: String)
        ensures
            s@ == unlines(self.spec_metadata_lines()),
    {
        let mut out = String::new();
        let ghost mut ls: Seq<Seq<char>> = Seq::empty();
        assert(out@ == unlines(ls));
        push_field(&mut out, "", "name");
        out.append(self.name.as_str());
        proof {
            let l = field_line(""@, "name"@, self.name@);
            lemma_unlines_push(ls, l);
            ls = ls.push(l);
            assert(out@ == unlines(ls));
        }
        push_field(&mut out, "", "state");
        out.append(self.state.name());
        proof {
            let l = field_line(""@, "state"@, self.state.spec_name());
            lemma_unlines_push(ls, l);
            ls = ls.push(l);
            assert(out@ == unlines(ls));
        }
        push_field(&mut out, "", "difficulty");
        out.append(self.difficulty.name());
        proof {
            let l = field_line(""@, "difficulty"@, self.difficulty.spec_name());
            lemma_unlines_push(ls, l);
            ls = ls.push(l);
            assert(out@ == unlines(ls));
            assert(ls =~= self.spec_metadata_lines());
        }
        out
    }

    /// The files of the game, under the name of its folder.
    pub open spec fn spec_save(&self) -> SavedGameView {
        SavedGameView {
            name: slug(self.name@),
            metadata: Some(unlines(self.spec_metadata_lines())),
            player: Some(unlines(self.player.spec_file_lines())),
            environment: Some(unlines(self.environment.spec_file_lines())),
        }
    }

    /// Writes the game down: its three files, under the name of its folder.
    pub fn save(&self) -> (r: SavedGame)
        ensures
            r@ == self.spec_save(),
    {
        SavedGame {
            name: replaced(self.name.as_str(), ' ', '_'),
            metadata: Some(self.metadata_content()),
            player: Some(self.player.file_content()),
            environment: Some(self.environment.file_content()),
        }
    }

    /// Whether the game is what a load under `name` makes of the files
    /// `metadata`, `player` and `environment`.
    pub open spec fn loaded_from(
        &self,
        name: Seq<char>,
        metadata: Seq<char>,
        player: Seq<char>,
        environment: Seq<char>,
    ) -> bool {
        let m = read_metadata(
            Metadata {
                name: slug(name),
                state: GameState::CUTSCENE,
                difficulty: RotfDifficulty::NORMAL,
            },
            lines(metadata),
        );
        &&& self.name@ == m.name
        &&& self.state == settled(m.state)
        &&& self.difficulty == m.difficulty
        &&& self.last_cutscene == RotfCutscene::LAUNCH_GAME
        &&& self.combat is None
        &&& self.player.holds(read_lines(SaveFile::PLAYER, new_player_state(), lines(player)))
        &&& self.environment.holds(
            read_lines(SaveFile::ENVIRONMENT, new_environment_state(), lines(environment)),
        )
    }

    /// Reads the metadata file into the game.
    fn load_metadata(&mut self, content: &str)
        ensures
            final(self).player == old(self).player,
            final(self).environment == old(self).environment,
            final(self).combat == old(self).combat,
            final(self).last_cutscene == old(self).last_cutscene,
            ({
                let m = read_metadata(
                    Metadata {
                        name: old(self).name@,
                        state: old(self).state,
                        difficulty: old(self).difficulty,
                    },
                    lines(content@),
                );
                &&& final(self).name@ == m.name
                &&& final(self).state == m.state
                &&& final(self).difficulty == m.difficulty
            }),
    {
        let chars = chars_of(content);
        let ls = split_lines(&chars);
        let ghost start = Metadata {
            name: self.name@,
            state: self.state,
            difficulty: self.difficulty,
        };
        let mut i: usize = 0;
        assert(views(ls@).take(0) =~= Seq::<Seq<char>>::empty());
        while i < ls.len()
            invariant
                i <= ls.len(),
                self.player == old(self).player,
                self.environment == old(self).environment,
                self.combat == old(self).combat,
                self.last_cutscene == old(self).last_cutscene,
                (Metadata { name: self.name@, state: self.state, difficulty: self.difficulty })
                    == read_metadata(start, views(ls@).take(i as int)),
            decreases ls.len() - i,
        {
            proof {
                assert(views(ls@).take(i + 1).drop_last() == views(ls@).take(i as int));
                assert(views(ls@).take(i + 1).last() == ls@[i as int]@);
            }
            match parse_field(&ls[i]) {
                None => {},
                Some((key, value)) => {
                    if eq_str(&key, "name") {
                        self.name = string_of(&value);
                    } else if eq_str(&key, "state") {
                        self.state = match GameState::from_chars(&value) {
                            Ok(s) => s,
                            Err(_) => GameState::CUTSCENE,
                        };
                    } else if eq_str(&key, "difficulty") {
                        self.difficulty = match RotfDifficulty::from_chars(&value) {
                            Ok(d) => d,
                            Err(_) => RotfDifficulty::default(),
                        };
                    }
                },
            }
            i += 1;
        }
        assert(views(ls@).take(ls.len() as int) == views(ls@));
    }

    /// Reads a game from the files of a save. The game is called after the
    /// folder, `name` with an underscore for every space, unless the
    /// metadata file names it. The load fails on the first file that is
    /// not there: the metadata, the player's, the environment's.
    pub fn load(name: String, saved: &SavedGame) -> (r: Result<RotfGame, LoadError>)
        ensures
            match r {
                Ok(game) => missing_file(saved@) is None && game.wf() && game.loaded_from(
                    name@,
                    saved@.metadata->0,
                    saved@.player->0,
                    saved@.environment->0,
                ),
                Err(e) => missing_file(saved@) == Some(e),
            },
    {
        let save_name = replaced(name.as_str(), ' ', '_');
        let mut game = RotfGame::new(save_name, RotfDifficulty::default());
        match &saved.metadata {
            None => {
                return Err(LoadError::METADATA);
            },
            Some(content) => {
                game.load_metadata(content.as_str());
            },
        }
        match &saved.player {
            None => {
                return Err(LoadError::PLAYER);
            },
            Some(content) => {
                game.player.load(content.as_str());
            },
        }
        match &saved.environment {
            None => {
                return Err(LoadError::ENVIRONMENT);
            },
            Some(content) => {
                game.environment.load(content.as_str());
            },
        }
        if game.state == GameState::COMBAT {
            game.state = GameState::ENVIRONMENT;
        }
        Ok(game)
    }
}

} // verus!
