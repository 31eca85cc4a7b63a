//! The session: where the player is, which commands there are, what has
//! been said to the player, and the game that is being played.
//!
//! The session does not write or wait itself. What it has to say, the
//! pauses between, and what is to be written to the data directory, it
//! keeps in order as effects, for the program around it to carry out.

use crate::commands::{get_all_commands, get_current_commands, CommandMap};
use crate::data::{RotfData, SavedGame, SavedGameView};
use crate::game::{GameState, RotfGame};
use crate::item_loader::ItemLoader;
use crate::options::RotfOptions;
use crate::catalog::Row;
use crate::text::{decimal, push_decimal};
use crate::unit_loader::UnitLoader;
use vstd::prelude::*;
use vstd::string::StringExecFns;

verus! {

/// Where the player is: at the home menu or in a game.
#[derive(Clone, Copy, Debug, PartialEq, Eq, Structural)]
pub enum ContextState {
    HOME,
    INGAME,
}

/// What the next line of input answers.
#[allow(non_camel_case_types)]
pub enum Prompt {
    /// The prompt for a command.
    COMMAND,
    /// The question for the name of a new game.
    NAME,
    /// The question for the difficulty of the new game of the given name.
    DIFFICULTY(String),
    /// The options menu.
    OPTIONS,
    /// The question for a new sleep factor.
    SLEEP_FACTOR,
}

/// What the next line of input answers, with names as texts.
#[allow(non_camel_case_types)]
pub enum PromptView {
    COMMAND,
    NAME,
    DIFFICULTY(Seq<char>),
    OPTIONS,
    SLEEP_FACTOR,
}

impl View for Prompt {
    type V = PromptView;

    open spec fn view(&self) -> PromptView {
        match self {
            Prompt::COMMAND => PromptView::COMMAND,
            Prompt::NAME => PromptView::NAME,
            Prompt::DIFFICULTY(name) => PromptView::DIFFICULTY(name@),
            Prompt::OPTIONS => PromptView::OPTIONS,
            Prompt::SLEEP_FACTOR => PromptView::SLEEP_FACTOR,
        }
    }
}

/// Something for the program around the session to carry out.
#[allow(non_camel_case_types)]
pub enum Effect {
    /// Text for the player.
    PRINT(String),
    /// Text for the error channel.
    ERROR(String),
    /// The pause after a line of a cutscene.
    SLEEP_LINE,
    /// The pause after a letter of a cutscene.
    SLEEP_CHAR,
    /// The files of a game, to be written.
    SAVE(SavedGame),
    /// The name of the folder of a saved game, to be deleted.
    DELETE(String),
    /// A new sleep factor, as the player typed it, to be checked and, if
    /// it is one, to be taken over.
    SLEEP_FACTOR(String),
}

/// An effect, with texts in place of strings.
#[allow(non_camel_case_types)]
pub enum EffectView {
    PRINT(Seq<char>),
    ERROR(Seq<char>),
    SLEEP_LINE,
    SLEEP_CHAR,
    SAVE(SavedGameView),
    DELETE(Seq<char>),
    SLEEP_FACTOR(Seq<char>),
}

impl View for Effect {
    type V = EffectView;

    open spec fn view(&self) -> EffectView {
        match self {
            Effect::PRINT(s) => EffectView::PRINT(s@),
            Effect::ERROR(s) => EffectView::ERROR(s@),
            Effect::SLEEP_LINE => EffectView::SLEEP_LINE,
            Effect::SLEEP_CHAR => EffectView::SLEEP_CHAR,
            Effect::SAVE(g) => EffectView::SAVE(g@),
            Effect::DELETE(s) => EffectView::DELETE(s@),
            Effect::SLEEP_FACTOR(s) => EffectView::SLEEP_FACTOR(s@),
        }
    }
}

/// The effects, with texts in place of strings.
pub open spec fn effects_view(s: Seq<Effect>) -> Seq<EffectView> {
    s.map_values(|e: Effect| e@)
}

/// The text for the player that the effects hold, in order.
pub open spec fn printed(log: Seq<EffectView>) -> Seq<char>
    decreases log.len(),
{
    if log.len() == 0 {
        Seq::empty()
    } else {
        match log.last() {
            EffectView::PRINT(s) => printed(log.drop_last()) + s,
            _ => printed(log.drop_last()),
        }
    }
}

/// The text for the error channel that the effects hold, in order.
pub open spec fn reported(log: Seq<EffectView>) -> Seq<char>
    decreases log.len(),
{
    if log.len() == 0 {
        Seq::empty()
    } else {
        match log.last() {
            EffectView::ERROR(s) => reported(log.drop_last()) + s,
            _ => reported(log.drop_last()),
        }
    }
}

/// The pause after a line, unless pauses are switched off.
pub open spec fn line_pause(testing: bool) -> Seq<EffectView> {
    if testing {
        Seq::empty()
    } else {
        seq![EffectView::SLEEP_LINE]
    }
}

/// The pause after a letter, unless pauses are switched off.
pub open spec fn char_pause(testing: bool) -> Seq<EffectView> {
    if testing {
        Seq::empty()
    } else {
        seq![EffectView::SLEEP_CHAR]
    }
}

/// The effects of a text played letter by letter: each letter on its own,
/// a pause after each, and the pause of a line at the end.
pub open spec fn letters(text: Seq<char>, testing: bool) -> Seq<EffectView> {
    spelled(text, testing) + line_pause(testing)
}

/// Each letter of the text on its own, and a pause after each.
pub open spec fn spelled(text: Seq<char>, testing: bool) -> Seq<EffectView>
    decreases text.len(),
{
    if text.len() == 0 {
        Seq::empty()
    } else {
        spelled(text.drop_last(), testing) + seq![EffectView::PRINT(seq![text.last()])]
            + char_pause(testing)
    }
}

/// Whether `after` is the session `before` with the given prompt and with
/// `more` said; nothing else differs.
pub open spec fn asks(
    before: &RotfContext,
    after: &RotfContext,
    prompt: PromptView,
    more: Seq<EffectView>,
) -> bool {
    &&& *after == (RotfContext { effects: after.effects, prompt: after.prompt, ..*before })
    &&& after.prompt@ == prompt
    &&& after.log() == before.log() + more
}

/// The session.
pub struct RotfContext {
    pub effects: Vec<Effect>,
    pub testing: bool,
    pub exit: bool,
    pub options: RotfOptions,
    pub context_state: ContextState,
    pub all_commands: CommandMap,
    pub commands: CommandMap,
    pub last_cmd: String,
    pub last_params: String,
    pub prompt: Prompt,
    pub curr_game: Option<RotfGame>,
    pub unit_loader: UnitLoader,
    pub item_loader: ItemLoader,
    pub data: RotfData,
}

impl RotfContext {
    /// The effects so far, in order.
    pub open spec fn log(&self) -> Seq<EffectView> {
        effects_view(self.effects@)
    }

    /// Whether the session differs from `before` in its effects only, and
    /// has those of `before` and then `more`.
    pub open spec fn says(&self, before: &RotfContext, more: Seq<EffectView>) -> bool {
        &&& *self == (RotfContext { effects: self.effects, ..*before })
        &&& self.log() == before.log() + more
    }

    /// Whether the session differs from `before` in its effects and in the
    /// game that is played only.
    pub open spec fn same_session(&self, before: &RotfContext) -> bool {
        *self == (RotfContext { effects: self.effects, curr_game: self.curr_game, ..*before })
    }

    /// Whether the session is in one piece: the game that is played, if
    /// there is one, is.
    pub open spec fn wf(&self) -> bool {
        self.curr_game matches Some(game) ==> game.wf()
    }

    /// The state of the game that is played, if one is.
    pub open spec fn game_state(&self) -> Option<GameState> {
        match self.curr_game {
            Some(game) => Some(game.state),
            None => None,
        }
    }

    /// Adds an effect.
    pub fn push(&mut self, effect: Effect)
        ensures
            final(self).says(old(self), seq![effect@]),
    {
        self.effects.push(effect);
        assert(self.log() =~= old(self).log() + seq![effect@]);
    }

    /// Says `text` to the player.
    pub fn print(&mut self, text: &str)
        ensures
            final(self).says(old(self), seq![EffectView::PRINT(text@)]),
    {
        self.push(Effect::PRINT(text.to_owned()));
    }

    /// Says `text` and a line feed to the player.
    pub fn println(&mut self, text: &str)
        ensures
            final(self).says(old(self), seq![EffectView::PRINT(text@ + seq!['\n'])]),
    {
        let mut line = text.to_owned();
        line.push('\n');
        assert(line@ =~= text@ + seq!['\n']);
        self.push(Effect::PRINT(line));
    }

    /// Says a line feed and `text` to the player.
    pub fn lnprint(&mut self, text: &str)
        ensures
            final(self).says(old(self), seq![EffectView::PRINT(seq!['\n'] + text@)]),
    {
        let mut line = String::new();
        line.push('\n');
        line.append(text);
        assert(line@ == seq!['\n'] + text@);
        self.push(Effect::PRINT(line));
    }

    /// Pauses as after a line of a cutscene, unless pauses are switched off.
    pub fn sleep_line(&mut self)
        ensures
            final(self).says(old(self), line_pause(old(self).testing)),
    {
        if self.testing {
            assert(self.log() =~= old(self).log() + line_pause(true));
            return ;
        }
        self.push(Effect::SLEEP_LINE);
    }

    /// Pauses as after a letter of a cutscene, unless pauses are switched off.
    pub fn sleep_char(&mut self)
        ensures
            final(self).says(old(self), char_pause(old(self).testing)),
    {
        if self.testing {
            assert(self.log() =~= old(self).log() + char_pause(true));
            return ;
        }
        self.push(Effect::SLEEP_CHAR);
    }

    /// Says `text`, then pauses.
    pub fn print_sleep(&mut self, text: &str)
        ensures
            final(self).says(
                old(self),
                seq![EffectView::PRINT(text@)] + line_pause(old(self).testing),
            ),
    {
        self.print(text);
        self.sleep_line();
        assert(self.log() =~= old(self).log() + (seq![EffectView::PRINT(text@)] + line_pause(
            old(self).testing,
        )));
    }

    /// Says `text` and a line feed, then pauses.
    pub fn println_sleep(&mut self, text: &str)
        ensures
            final(self).says(
                old(self),
                seq![EffectView::PRINT(text@ + seq!['\n'])] + line_pause(old(self).testing),
            ),
    {
        self.println(text);
        self.sleep_line();
        assert(self.log() =~= old(self).log() + (seq![EffectView::PRINT(text@ + seq!['\n'])]
            + line_pause(old(self).testing)));
    }

    /// Says a line feed and `text`, then pauses.
    pub fn lnprint_sleep(&mut self, text: &str)
        ensures
            final(self).says(
                old(self),
                seq![EffectView::PRINT(seq!['\n'] + text@)] + line_pause(old(self).testing),
            ),
    {
        self.lnprint(text);
        self.sleep_line();
        assert(self.log() =~= old(self).log() + (seq![EffectView::PRINT(seq!['\n'] + text@)]
            + line_pause(old(self).testing)));
    }

    /// Says `text` letter by letter, with a pause after each letter and
    /// the pause of a line at the end.
    pub fn print_letter_by_letter(&mut self, text: &str)
        ensures
            final(self).says(old(self), letters(text@, old(self).testing)),
    {
        let chars = crate::text::chars_of(text);
        let mut i: usize = 0;
        assert(self.log() =~= old(self).log() + spelled(chars@.take(0), self.testing));
        while i < chars.len()
            invariant
                i <= chars.len(),
                chars@ == text@,
                *self == (RotfContext { effects: self.effects, ..*old(self) }),
                self.log() == old(self).log() + spelled(chars@.take(i as int), self.testing),
            decreases chars.len() - i,
        {
            let ghost before = self.log();
            let mut letter = String::new();
            letter.push(chars[i]);
            assert(letter@ == seq![chars@[i as int]]);
            self.push(Effect::PRINT(letter));
            self.sleep_char();
            proof {
                assert(chars@.take(i + 1).drop_last() == chars@.take(i as int));
                assert(self.log() =~= before + (seq![EffectView::PRINT(seq![chars@[i as int]])]
                    + char_pause(self.testing)));
            }
            i += 1;
        }
        assert(chars@.take(chars.len() as int) == chars@);
        self.sleep_line();
        assert(self.log() =~= old(self).log() + letters(text@, self.testing));
    }

    /// Says `text` letter by letter, and a line feed after the last pause.
    pub fn println_letter_by_letter(&mut self, text: &str)
        ensures
            final(self).says(
                old(self),
                letters(text@, old(self).testing) + seq![EffectView::PRINT(""@ + seq!['\n'])],
            ),
    {
        self.print_letter_by_letter(text);
        self.println("");
        assert(self.log() =~= old(self).log() + (letters(text@, old(self).testing)
            + seq![EffectView::PRINT(""@ + seq!['\n'])]));
    }

    /// Says `text`, a colon, a space and `data` to the player.
    pub fn print_data(&mut self, text: &str, data: &str)
        ensures
            final(self).says(old(self), seq![EffectView::PRINT(text@ + ": "@ + data@)]),
    {
        let mut line = text.to_owned();
        line.append(": ");
        line.append(data);
        self.push(Effect::PRINT(line));
    }

    /// Tells the player of a mistake: `text` and a line feed.
    pub fn eprintln(&mut self, text: &str)
        ensures
            final(self).says(old(self), seq![EffectView::PRINT(text@ + seq!['\n'])]),
    {
        self.println(text);
    }

    /// The line that reports an error to the error channel.
    pub open spec fn error_line(attempt: Seq<char>, message: Seq<char>) -> Seq<char> {
        "Error "@ + attempt + ": "@ + message + seq!['\n']
    }

    /// Reports to the error channel what went wrong and at what.
    pub fn print_error(&mut self, attempt: &str, message: &str)
        ensures
            final(self).says(
                old(self),
                seq![EffectView::ERROR(RotfContext::error_line(attempt@, message@))],
            ),
    {
        let mut line = String::from_str("Error ");
        line.append(attempt);
        line.append(": ");
        line.append(message);
        line.push('\n');
        assert(line@ =~= RotfContext::error_line(attempt@, message@));
        self.push(Effect::ERROR(line));
    }

    /// The text for the player that the effects hold, in order.
    pub fn output_text(&self) -> (s: String)
        ensures
            s@ == printed(self.log()),
    {
        let mut out = String::new();
        let mut i: usize = 0;
        assert(self.log().take(0) =~= Seq::<EffectView>::empty());
        while i < self.effects.len()
            invariant
                i <= self.effects@.len(),
                out@ == printed(self.log().take(i as int)),
            decreases self.effects@.len() - i,
        {
            proof {
                assert(self.log().take(i + 1).drop_last() == self.log().take(i as int));
                assert(self.log().take(i + 1).last() == self.effects@[i as int]@);
            }
            match &self.effects[i] {
                Effect::PRINT(s) => {
                    out.append(s.as_str());
                },
                _ => {},
            }
            i += 1;
        }
        assert(self.log().take(self.effects@.len() as int) == self.log());
        out
    }

    /// The text for the error channel that the effects hold, in order.
    pub fn error_text(&self) -> (s: String)
        ensures
            s@ == reported(self.log()),
    {
        let mut out = String::new();
        let mut i: usize = 0;
        assert(self.log().take(0) =~= Seq::<EffectView>::empty());
        while i < self.effects.len()
            invariant
                i <= self.effects@.len(),
                out@ == reported(self.log().take(i as int)),
            decreases self.effects@.len() - i,
        {
            proof {
                assert(self.log().take(i + 1).drop_last() == self.log().take(i as int));
                assert(self.log().take(i + 1).last() == self.effects@[i as int]@);
            }
            match &self.effects[i] {
                Effect::ERROR(s) => {
                    out.append(s.as_str());
                },
                _ => {},
            }
            i += 1;
        }
        assert(self.log().take(self.effects@.len() as int) == self.log());
        out
    }

    /// Hands over the effects so far, and forgets them.
    pub fn take_effects(&mut self) -> (r: Vec<Effect>)
        ensures
            effects_view(r@) == old(self).log(),
            final(self).log().len() == 0,
            *final(self) == (RotfContext { effects: final(self).effects, ..*old(self) }),
    {
        let mut taken: Vec<Effect> = Vec::new();
        std::mem::swap(&mut taken, &mut self.effects);
        taken
    }

    /// A session at the home menu, over the given data directory, with
    /// pauses switched off.
    pub fn default(data: RotfData) -> (r: RotfContext)
        ensures
            r.wf(),
            r.log().len() == 0,
            r.testing,
            !r.exit,
            r.context_state == ContextState::HOME,
            r.prompt@ == PromptView::COMMAND,
            r.options.sleep_factor@ == "1"@,
            r.curr_game is None,
            r.data == data,
            r.last_cmd@.len() == 0,
            r.last_params@.len() == 0,
            r.all_commands@ == crate::commands::names_map(crate::commands::Command::spec_all()),
            r.commands@ == crate::commands::registry(
                crate::commands::current_commands(ContextState::HOME, None),
            ),
    {
        let mut context = RotfContext {
            effects: Vec::new(),
            testing: true,
            exit: false,
            options: RotfOptions::default(),
            context_state: ContextState::HOME,
            all_commands: get_all_commands(),
            commands: CommandMap::new(),
            last_cmd: String::new(),
            last_params: String::new(),
            prompt: Prompt::COMMAND,
            curr_game: None,
            unit_loader: UnitLoader::new(),
            item_loader: ItemLoader::new(),
            data,
        };
        context.commands = get_current_commands(&context);
        assert(context.log() =~= Seq::empty());
        context
    }

    /// A session at the home menu, over the given data directory, with
    /// pauses switched off if `testing`.
    pub fn default_context(data: RotfData, testing: bool) -> (r: RotfContext)
        ensures
            r.wf(),
            r.log().len() == 0,
            r.testing == testing,
            !r.exit,
            r.context_state == ContextState::HOME,
            r.prompt@ == PromptView::COMMAND,
            r.options.sleep_factor@ == "1"@,
            r.curr_game is None,
            r.data == data,
            r.last_cmd@.len() == 0,
            r.last_params@.len() == 0,
            r.all_commands@ == crate::commands::names_map(crate::commands::Command::spec_all()),
            r.commands@ == crate::commands::registry(
                crate::commands::current_commands(ContextState::HOME, None),
            ),
    {
        let mut context = RotfContext::default(data);
        context.testing = testing;
        context.commands = get_current_commands(&context);
        context
    }

    /// Whether the session differs from `before` in its effects and in
    /// the saved games only.
    pub open spec fn same_but_saves(&self, before: &RotfContext) -> bool {
        &&& *self == (RotfContext { effects: self.effects, data: self.data, ..*before })
        &&& self.data.units == before.data.units
        &&& self.data.items == before.data.items
        &&& self.data.launch_game == before.data.launch_game
    }

    /// Writes the files of a game to the data directory, and leaves them
    /// as an effect.
    pub fn write_save(&mut self, saved: SavedGame)
        ensures
            final(self).same_but_saves(old(self)),
            final(self).log() == old(self).log().push(EffectView::SAVE(saved@)),
            final(self).data.spec_saves() == crate::data::with_save(
                old(self).data.spec_saves(),
                saved@,
            ),
    {
        let copy = saved.clone();
        self.data.store(saved);
        self.effects.push(Effect::SAVE(copy));
        assert(self.log() =~= old(self).log().push(EffectView::SAVE(copy@)));
    }

    /// Deletes the saved game in the folder of the given name from the
    /// data directory, and leaves that as an effect. Returns whether there
    /// was such a folder; if not, nothing happens.
    pub fn delete_save(&mut self, name: &String) -> (r: bool)
        ensures
            r == (crate::data::position_of_save(old(self).data.spec_saves(), name@) < old(self).data.spec_saves().len()),
            r ==> {
                &&& final(self).same_but_saves(old(self))
                &&& final(self).log() == old(self).log().push(EffectView::DELETE(name@))
                &&& final(self).data.spec_saves() == crate::data::without_save(
                    old(self).data.spec_saves(),
                    name@,
                )
            },
            !r ==> *final(self) == *old(self),
    {
        if !self.data.has(name) {
            return false;
        }
        self.data.delete(name);
        self.effects.push(Effect::DELETE(name.clone()));
        assert(self.log() =~= old(self).log().push(EffectView::DELETE(name@)));
        true
    }

    /// Writes the game that is played to the data directory, and leaves
    /// its files as an effect. Without a game, nothing happens.
    pub fn store_game(&mut self)
        ensures
            match old(self).curr_game {
                Some(game) => {
                    &&& final(self).same_but_saves(old(self))
                    &&& final(self).log() == old(self).log().push(
                        EffectView::SAVE(game.spec_save()),
                    )
                    &&& final(self).data.spec_saves() == crate::data::with_save(
                        old(self).data.spec_saves(),
                        game.spec_save(),
                    )
                },
                None => *final(self) == *old(self),
            },
    {
        let saved = match &self.curr_game {
            Some(game) => game.save(),
            None => {
                return ;
            },
        };
        self.write_save(saved);
    }

    /// The line that a duplicate id of a catalog is reported with.
    pub open spec fn duplicate_message(kind: Seq<char>, id: u64) -> Seq<char> {
        "Duplicate "@ + kind + " id "@ + decimal(id as nat)
    }

    /// What is said when a game is launched: that it is, and what went
    /// wrong with the catalogs, if anything did.
    pub open spec fn launch_log(&self, new: bool) -> Seq<EffectView> {
        let start = seq![
            EffectView::PRINT(
                if new {
                    "Launching new game ...\n"@
                } else {
                    "Launching game ...\n"@
                } + seq!['\n'],
            ),
        ];
        match self.catalog_error() {
            Some(line) => start + seq![EffectView::ERROR(line)],
            None => start,
        }
    }

    /// The report on what is wrong with the catalogs of the data
    /// directory: with the units' first, if it is not there or holds an id
    /// twice, else with the items'.
    pub open spec fn catalog_error(&self) -> Option<Seq<char>> {
        match self.data.units {
            None => Some(
                RotfContext::error_line("loading unit data"@, "data/units/data.csv not found"@),
            ),
            Some(units) => match crate::catalog::load_rows(
                Map::<u64, Row>::empty(),
                crate::text::lines(units@),
            ).1 {
                Some(id) => Some(
                    RotfContext::error_line(
                        "loading unit data"@,
                        RotfContext::duplicate_message("unit"@, id),
                    ),
                ),
                None => match self.data.items {
                    None => Some(
                        RotfContext::error_line(
                            "loading item data"@,
                            "data/items/data.csv not found"@,
                        ),
                    ),
                    Some(items) => match crate::catalog::load_rows(
                        Map::<u64, Row>::empty(),
                        crate::text::lines(items@),
                    ).1 {
                        Some(id) => Some(
                            RotfContext::error_line(
                                "loading item data"@,
                                RotfContext::duplicate_message("item"@, id),
                            ),
                        ),
                        None => None,
                    },
                },
            },
        }
    }

    /// Reads the catalog of units of the data directory, and picks the ids
    /// that may spawn for the player of `game`. If the catalog is not there
    /// or holds an id twice, that is reported and there is no catalog.
    fn read_units(&mut self, game: &RotfGame) -> (r: Option<UnitLoader>)
        ensures
            match old(self).data.units {
                None => r is None && final(self).says(
                    old(self),
                    seq![
                        EffectView::ERROR(
                            RotfContext::error_line(
                                "loading unit data"@,
                                "data/units/data.csv not found"@,
                            ),
                        ),
                    ],
                ),
                Some(content) => {
                    let loaded = crate::catalog::load_rows(
                        Map::<u64, Row>::empty(),
                        crate::text::lines(content@),
                    );
                    match loaded.1 {
                        Some(id) => r is None && final(self).says(
                            old(self),
                            seq![
                                EffectView::ERROR(
                                    RotfContext::error_line(
                                        "loading unit data"@,
                                        RotfContext::duplicate_message("unit"@, id),
                                    ),
                                ),
                            ],
                        ),
                        None => {
                            &&& *final(self) == *old(self)
                            &&& r matches Some(loader) && {
                                &&& loader.catalog() == loaded.0
                                &&& loader.level() == game.player.level
                                &&& forall|id: u64|
                                    loader.current().contains(id) <==> loader.eligible(
                                        id,
                                        game.player.level,
                                    )
                            }
                        },
                    }
                },
            },
    {
        let mut loader = UnitLoader::new();
        let loaded = match &self.data.units {
            None => None,
            Some(content) => Some(loader.load_data(content.as_str())),
        };
        match loaded {
            None => {
                self.print_error("loading unit data", "data/units/data.csv not found");
                None
            },
            Some(Err(e)) => {
                let mut message = String::from_str("Duplicate ");
                message.append("unit");
                message.append(" id ");
                push_decimal(&mut message, e.id);
                self.print_error("loading unit data", message.as_str());
                None
            },
            Some(Ok(_)) => {
                loader.update_current_units(&game.player);
                Some(loader)
            },
        }
    }

    /// Reads the catalog of items of the data directory, and picks the ids
    /// that may spawn for the player of `game`. If the catalog is not there
    /// or holds an id twice, that is reported and there is no catalog.
    fn read_items(&mut self, game: &RotfGame) -> (r: Option<ItemLoader>)
        ensures
            match old(self).data.items {
                None => r is None && final(self).says(
                    old(self),
                    seq![
                        EffectView::ERROR(
                            RotfContext::error_line(
                                "loading item data"@,
                                "data/items/data.csv not found"@,
                            ),
                        ),
                    ],
                ),
                Some(content) => {
                    let loaded = crate::catalog::load_rows(
                        Map::<u64, Row>::empty(),
                        crate::text::lines(content@),
                    );
                    match loaded.1 {
                        Some(id) => r is None && final(self).says(
                            old(self),
                            seq![
                                EffectView::ERROR(
                                    RotfContext::error_line(
                                        "loading item data"@,
                                        RotfContext::duplicate_message("item"@, id),
                                    ),
                                ),
                            ],
                        ),
                        None => {
                            &&& *final(self) == *old(self)
                            &&& r matches Some(loader) && {
                                &&& loader.catalog() == loaded.0
                                &&& loader.level() == game.player.level
                                &&& forall|id: u64|
                                    loader.current().contains(id) <==> loader.eligible(
                                        id,
                                        game.player.level,
                                    )
                            }
                        },
                    }
                },
            },
    {
        let mut loader = ItemLoader::new();
        let loaded = match &self.data.items {
            None => None,
            Some(content) => Some(loader.load_data(content.as_str())),
        };
        match loaded {
            None => {
                self.print_error("loading item data", "data/items/data.csv not found");
                None
            },
            Some(Err(e)) => {
                let mut message = String::from_str("Duplicate ");
                message.append("item");
                message.append(" id ");
                push_decimal(&mut message, e.id);
                self.print_error("loading item data", message.as_str());
                None
            },
            Some(Ok(_)) => {
                loader.update_current_items(&game.player);
                Some(loader)
            },
        }
    }

    /// Launches `game`: reads the catalogs of the data directory, fills
    /// the environment of a new game, and makes the game the one that is
    /// played. If a catalog is not there or holds an id twice, that is
    /// reported, the game is not launched, and nothing else changes.
    /// Returns whether the game is launched.
    pub fn launch_game(&mut self, game: RotfGame, new: bool) -> (launched: bool)
        ensures
            launched == (old(self).catalog_error() is None),
            !launched ==> final(self).says(old(self), old(self).launch_log(new)),
            launched ==> {
                &&& *final(self) == (RotfContext {
                    effects: final(self).effects,
                    curr_game: final(self).curr_game,
                    context_state: ContextState::INGAME,
                    unit_loader: final(self).unit_loader,
                    item_loader: final(self).item_loader,
                    ..*old(self)
                })
                &&& final(self).log() == old(self).log() + old(self).launch_log(new)
                &&& final(self).curr_game matches Some(launched_game) && {
                    &&& launched_game.same_but_environment(&game)
                    &&& launched_game.environment.time_passed == game.environment.time_passed
                    &&& !new ==> launched_game.environment == game.environment
                    &&& new ==> crate::environment::units_spawned(
                        game.environment.units@,
                        game.environment.units.spec_next_key(),
                        launched_game.environment.units@,
                        crate::environment::spec_num_units(game.player.spec_tier()),
                        &final(self).unit_loader,
                        true,
                    ) && crate::environment::items_spawned(
                        game.environment.items@,
                        game.environment.items.spec_next_key(),
                        launched_game.environment.items@,
                        crate::environment::spec_num_items(game.player.spec_tier()),
                        &final(self).item_loader,
                        true,
                    )
                }
            },
            old(self).wf() && game.wf() ==> final(self).wf(),
    {
        if new {
            self.println("Launching new game ...\n");
        } else {
            self.println("Launching game ...\n");
        }
        let units = match self.read_units(&game) {
            Some(loader) => loader,
            None => {
                assert(self.log() =~= old(self).log() + old(self).launch_log(new));
                return false;
            },
        };
        let items = match self.read_items(&game) {
            Some(loader) => loader,
            None => {
                assert(self.log() =~= old(self).log() + old(self).launch_log(new));
                return false;
            },
        };
        self.unit_loader = units;
        self.item_loader = items;
        let mut game = game;
        if new {
            game.initial_spawns(&self.unit_loader, &self.item_loader);
        }
        self.curr_game = Some(game);
        self.context_state = ContextState::INGAME;
        assert(self.log() =~= old(self).log() + old(self).launch_log(new));
        true
    }
}

} // verus!
