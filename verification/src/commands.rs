//! The commands that the player can type, and the registry that resolves a
//! typed word to one of them.

use crate::combat_commands::{fled, flee};
use crate::context::{asks, ContextState, EffectView, Prompt, PromptView, RotfContext};
use crate::context_state_commands::{
    answer_difficulty, answer_name, delete, deleted, difficulty_given, launch, launched, me,
    me_log, name_given, save, saved,
};
use crate::credits::{credits, credits_log, line};
use crate::cutscene::RotfCutscene;
use crate::environment_commands::{command, commanded};
use crate::game::{GameState, RotfGame};
use crate::system_commands::{
    answer_option, answer_sleep_factor, help, help_log, ls, ls_log, option_given, options,
    options_log, options_menu, replay, replay_log, show_options,
};
use crate::text::{
    after_first_word, chars_of, first_word, lowercase, split_first_word, string_of, to_lowercase,
    trim, trimmed,
};
use vstd::prelude::*;
use vstd::string::StringExecFns;

verus! {

/// Every command of the game.
#[derive(Clone, Copy, Debug, PartialEq, Eq, Structural)]
pub enum Command {
    // always there
    LS,
    HELP,
    EXIT,
    CREDITS,
    REPLAY,
    OPTIONS,
    // at the home menu
    LAUNCH,
    DELETE,
    // in a game
    ME,
    SAVE,
    // in the environment
    VIEW,
    WAIT,
    FIGHT,
    PICKUP,
    INVENTORY,
    DROP,
    // in combat
    FLEE,
}

/// The views of a list of texts.
pub open spec fn str_views(v: Seq<&'static str>) -> Seq<Seq<char>> {
    v.map_values(|s: &'static str| s@)
}

/// The words with `sep` between each two of them.
pub open spec fn joined(words: Seq<Seq<char>>, sep: Seq<char>) -> Seq<char>
    decreases words.len(),
{
    if words.len() == 0 {
        Seq::empty()
    } else if words.len() == 1 {
        words[0]
    } else {
        joined(words.drop_last(), sep) + sep + words.last()
    }
}

/// The words with `sep` between each two of them.
pub fn join(words: &Vec<&'static str>, sep: &str) -> (r: String)
    ensures
        r@ == joined(str_views(words@), sep@),
{
    let mut out = String::new();
    let mut i: usize = 0;
    let ghost all = str_views(words@);
    assert(all.take(0) =~= Seq::<Seq<char>>::empty());
    while i < words.len()
        invariant
            i <= words.len(),
            all == str_views(words@),
            out@ == joined(all.take(i as int), sep@),
        decreases words.len() - i,
    {
        proof {
            assert(all.take(i + 1).drop_last() == all.take(i as int));
            assert(all.take(i + 1).last() == words@[i as int]@);
            if i == 0 {
                assert(all.take(1)[0] == words@[0]@);
                assert(out@ + words@[0]@ == words@[0]@);
            }
        }
        if i > 0 {
            out.append(sep);
        }
        out.append(words[i]);
        i += 1;
    }
    assert(all.take(words.len() as int) == all);
    out
}

/// The lines said to the player, one for each text.
pub open spec fn lines_log(ls: Seq<Seq<char>>) -> Seq<EffectView> {
    ls.map_values(|l: Seq<char>| line(l))
}

/// Says each of the texts to the player, on a line of its own.
pub fn print_lines(context: &mut RotfContext, ls: &Vec<&'static str>)
    ensures
        final(context).says(old(context), lines_log(str_views(ls@))),
{
    let mut i: usize = 0;
    let ghost all = lines_log(str_views(ls@));
    assert(context.log() =~= old(context).log() + all.take(0));
    while i < ls.len()
        invariant
            i <= ls.len(),
            all == lines_log(str_views(ls@)),
            *context == (RotfContext { effects: context.effects, ..*old(context) }),
            context.log() == old(context).log() + all.take(i as int),
        decreases ls.len() - i,
    {
        let ghost before = context.log();
        context.println(ls[i]);
        proof {
            assert(all[i as int] == line(ls@[i as int]@));
            assert(context.log() =~= old(context).log() + all.take(i + 1));
        }
        i += 1;
    }
    assert(all.take(ls.len() as int) == all);
}

impl Command {
    /// What the command does and how it is used, line by line.
    pub open spec fn spec_help_lines(self) -> Seq<Seq<char>> {
        match self {
            Command::LS => seq![
                "Lists all available commands and a short description of how they work"@,
            ],
            Command::HELP => seq![
                "Usage: 'help {{arg}}'"@,
                "Prints helptext related to the specified arg"@,
                "If no arg is specified will print general helptext"@,
            ],
            Command::EXIT => seq!["Exit the program"@],
            Command::CREDITS => seq!["Display credits for the game"@],
            Command::REPLAY => seq![
                "Usage: 'replay {{arg}}'"@,
                "Replay last cutscene with 'replay cutscene'"@,
            ],
            Command::OPTIONS => seq![
                "Opens the options menu, where options can be saved"@,
                "Options will be persistent across saves"@,
            ],
            Command::LAUNCH => seq![
                "Usage: 'launch {{arg}}'"@,
                "Launch a new game with 'launch new'"@,
                "Launch a saved game with 'launch {{saved_game_name}}"@,
                "View the list of saved games with 'launch ls'"@,
            ],
            Command::DELETE => seq![
                "Usage: 'delete {{arg}}'"@,
                "Delete an existing saved game permanently"@,
            ],
            Command::ME => seq!["Displays info about the player"@],
            Command::SAVE => seq![
                "Saves your progress and returns to the main menu"@,
                "Since the game saves itself as you play, this command is more so you can switch save games"@,
            ],
            Command::VIEW => seq![
                "View your current surroundings"@,
                "You will see things based on how far you can view"@,
            ],
            Command::WAIT => seq![
                "View your current surroundings and let time pass"@,
                "Units and items may move, leave or arrive while you wait"@,
            ],
            Command::FIGHT => seq![
                "Usage: 'fight {{arg}}'"@,
                "Arg is the index of the viewable unit to fight"@,
                "To see the viewable index of units you can fight, use 'view'"@,
            ],
            Command::PICKUP => seq![
                "Usage: 'pickup {{arg}}'"@,
                "Arg is the index of the viewable item to pickup"@,
                "To see the viewable index of items you can pickup, use 'view'"@,
            ],
            Command::INVENTORY => seq!["View the contents of your inventory"@],
            Command::DROP => seq![
                "Usage: 'drop {{arg}}'"@,
                "Arg is the index under which the item was last in your view"@,
                "The item lies near you afterwards"@,
            ],
            Command::FLEE => seq!["Leave the fight and return to your surroundings"@],
        }
    }

    /// What the command does and how it is used, line by line.
    pub fn help_lines(&self) -> (r: Vec<&'static str>)
        ensures
            str_views(r@) == self.spec_help_lines(),
    {
        let r: Vec<&'static str> = match self {
            Command::LS => vec![
                "Lists all available commands and a short description of how they work",
            ],
            Command::HELP => vec![
                "Usage: 'help {{arg}}'",
                "Prints helptext related to the specified arg",
                "If no arg is specified will print general helptext",
            ],
            Command::EXIT => vec!["Exit the program"],
            Command::CREDITS => vec!["Display credits for the game"],
            Command::REPLAY => vec![
                "Usage: 'replay {{arg}}'",
                "Replay last cutscene with 'replay cutscene'",
            ],
            Command::OPTIONS => vec![
                "Opens the options menu, where options can be saved",
                "Options will be persistent across saves",
            ],
            Command::LAUNCH => vec![
                "Usage: 'launch {{arg}}'",
                "Launch a new game with 'launch new'",
                "Launch a saved game with 'launch {{saved_game_name}}",
                "View the list of saved games with 'launch ls'",
            ],
            Command::DELETE => vec![
                "Usage: 'delete {{arg}}'",
                "Delete an existing saved game permanently",
            ],
            Command::ME => vec!["Displays info about the player"],
            Command::SAVE => vec![
                "Saves your progress and returns to the main menu",
                "Since the game saves itself as you play, this command is more so you can switch save games",
            ],
            Command::VIEW => vec![
                "View your current surroundings",
                "You will see things based on how far you can view",
            ],
            Command::WAIT => vec![
                "View your current surroundings and let time pass",
                "Units and items may move, leave or arrive while you wait",
            ],
            Command::FIGHT => vec![
                "Usage: 'fight {{arg}}'",
                "Arg is the index of the viewable unit to fight",
                "To see the viewable index of units you can fight, use 'view'",
            ],
            Command::PICKUP => vec![
                "Usage: 'pickup {{arg}}'",
                "Arg is the index of the viewable item to pickup",
                "To see the viewable index of items you can pickup, use 'view'",
            ],
            Command::INVENTORY => vec!["View the contents of your inventory"],
            Command::DROP => vec![
                "Usage: 'drop {{arg}}'",
                "Arg is the index under which the item was last in your view",
                "The item lies near you afterwards",
            ],
            Command::FLEE => vec!["Leave the fight and return to your surroundings"],
        };
        assert(str_views(r@) =~= self.spec_help_lines());
        r
    }

    /// What the help on the command says: its name, its aliases if it has
    /// any, and its help lines.
    pub open spec fn helptext_log(self) -> Seq<EffectView> {
        seq![EffectView::PRINT("Command: {}"@ + ": "@ + self.spec_name())] + if self.spec_aliases().len()
            > 0 {
            seq![EffectView::PRINT("Aliases: {}"@ + ": "@ + joined(self.spec_aliases(), ", "@))]
        } else {
            Seq::empty()
        } + lines_log(self.spec_help_lines())
    }

    /// Says what the command does and how it is used.
    pub fn helptext(&self, context: &mut RotfContext)
        ensures
            final(context).says(old(context), self.helptext_log()),
    {
        context.print_data("Command: {}", self.name());
        let aliases = self.aliases();
        assert(str_views(aliases@).len() == aliases@.len());
        if aliases.len() > 0 {
            let text = join(&aliases, ", ");
            context.print_data("Aliases: {}", text.as_str());
        }
        let help = self.help_lines();
        print_lines(context, &help);
        assert(context.log() =~= old(context).log() + self.helptext_log());
    }

    /// The word that calls the command.
    pub open spec fn spec_name(self) -> Seq<char> {
        match self {
            Command::LS => "ls"@,
            Command::HELP => "help"@,
            Command::EXIT => "exit"@,
            Command::CREDITS => "credits"@,
            Command::REPLAY => "replay"@,
            Command::OPTIONS => "options"@,
            Command::LAUNCH => "launch"@,
            Command::DELETE => "delete"@,
            Command::ME => "me"@,
            Command::SAVE => "save"@,
            Command::VIEW => "view"@,
            Command::WAIT => "wait"@,
            Command::FIGHT => "fight"@,
            Command::PICKUP => "pickup"@,
            Command::INVENTORY => "inventory"@,
            Command::DROP => "drop"@,
            Command::FLEE => "flee"@,
        }
    }

    /// The word that calls the command.
    pub fn name(&self) -> (s: &'static str)
        ensures
            s@ == self.spec_name(),
    {
        match self {
            Command::LS => "ls",
            Command::HELP => "help",
            Command::EXIT => "exit",
            Command::CREDITS => "credits",
            Command::REPLAY => "replay",
            Command::OPTIONS => "options",
            Command::LAUNCH => "launch",
            Command::DELETE => "delete",
            Command::ME => "me",
            Command::SAVE => "save",
            Command::VIEW => "view",
            Command::WAIT => "wait",
            Command::FIGHT => "fight",
            Command::PICKUP => "pickup",
            Command::INVENTORY => "inventory",
            Command::DROP => "drop",
            Command::FLEE => "flee",
        }
    }

    /// The other words that call the command.
    pub open spec fn spec_aliases(self) -> Seq<Seq<char>> {
        match self {
            Command::LS => seq!["list"@],
            Command::HELP => seq!["?"@],
            Command::EXIT => seq!["quit"@],
            Command::VIEW => seq!["vw"@],
            Command::FIGHT => seq!["fi"@],
            Command::PICKUP => seq!["pi"@],
            Command::INVENTORY => seq!["inv"@],
            _ => seq![],
        }
    }

    /// The other words that call the command.
    pub fn aliases(&self) -> (r: Vec<&'static str>)
        ensures
            str_views(r@) == self.spec_aliases(),
    {
        let r: Vec<&'static str> = match self {
            Command::LS => vec!["list"],
            Command::HELP => vec!["?"],
            Command::EXIT => vec!["quit"],
            Command::VIEW => vec!["vw"],
            Command::FIGHT => vec!["fi"],
            Command::PICKUP => vec!["pi"],
            Command::INVENTORY => vec!["inv"],
            _ => vec![],
        };
        assert(str_views(r@) =~= self.spec_aliases());
        r
    }

    /// What the command does, in one line.
    pub open spec fn spec_description(self) -> Seq<char> {
        match self {
            Command::LS => "List available commands"@,
            Command::HELP => "Display helptext about the specified"@,
            Command::EXIT => "Exit the program"@,
            Command::CREDITS => "Display the credits"@,
            Command::REPLAY => "Replay last cutscene"@,
            Command::OPTIONS => "Opens the options menu"@,
            Command::LAUNCH => "Launches a new or saved game"@,
            Command::DELETE => "Delete the specified saved game"@,
            Command::ME => "Display info about the current player"@,
            Command::SAVE => "Save your progress and return to the main menu"@,
            Command::VIEW => "View your surroundings"@,
            Command::WAIT => "Wait and let time pass"@,
            Command::FIGHT => "Fight the specified unit in your view"@,
            Command::PICKUP => "Pickup the specified item in your view"@,
            Command::INVENTORY => "View your inventory"@,
            Command::DROP => "Drop the specified item of your inventory"@,
            Command::FLEE => "Flee from the fight"@,
        }
    }

    /// What the command does, in one line.
    pub fn description(&self) -> (s: &'static str)
        ensures
            s@ == self.spec_description(),
    {
        match self {
            Command::LS => "List available commands",
            Command::HELP => "Display helptext about the specified",
            Command::EXIT => "Exit the program",
            Command::CREDITS => "Display the credits",
            Command::REPLAY => "Replay last cutscene",
            Command::OPTIONS => "Opens the options menu",
            Command::LAUNCH => "Launches a new or saved game",
            Command::DELETE => "Delete the specified saved game",
            Command::ME => "Display info about the current player",
            Command::SAVE => "Save your progress and return to the main menu",
            Command::VIEW => "View your surroundings",
            Command::WAIT => "Wait and let time pass",
            Command::FIGHT => "Fight the specified unit in your view",
            Command::PICKUP => "Pickup the specified item in your view",
            Command::INVENTORY => "View your inventory",
            Command::DROP => "Drop the specified item of your inventory",
            Command::FLEE => "Flee from the fight",
        }
    }

    /// The commands that are there whatever the player does.
    pub open spec fn spec_system_commands() -> Seq<Command> {
        seq![
            Command::LS,
            Command::HELP,
            Command::EXIT,
            Command::CREDITS,
            Command::REPLAY,
            Command::OPTIONS,
        ]
    }

    /// The commands that are there whatever the player does.
    pub fn system_commands() -> (r: Vec<Command>)
        ensures
            r@ == Command::spec_system_commands(),
    {
        let r = vec![
            Command::LS,
            Command::HELP,
            Command::EXIT,
            Command::CREDITS,
            Command::REPLAY,
            Command::OPTIONS,
        ];
        assert(r@ =~= Command::spec_system_commands());
        r
    }

    /// The commands that depend on where the player is: at the home menu
    /// those that launch and delete a game; in a game those that show the
    /// player and save, and then those of the state of the game.
    pub open spec fn spec_context_state_commands(
        state: ContextState,
        game: Option<GameState>,
    ) -> Seq<Command> {
        match state {
            ContextState::HOME => seq![Command::LAUNCH, Command::DELETE],
            ContextState::INGAME => seq![Command::ME, Command::SAVE] + match game {
                Some(s) => RotfGame::spec_commands(s),
                None => Seq::empty(),
            },
        }
    }

    /// The commands that depend on where the player is.
    pub fn context_state_commands(context: &RotfContext) -> (r: Vec<Command>)
        ensures
            r@ == Command::spec_context_state_commands(
                context.context_state,
                context.game_state(),
            ),
    {
        match context.context_state {
            ContextState::HOME => {
                let r = vec![Command::LAUNCH, Command::DELETE];
                assert(r@ =~= seq![Command::LAUNCH, Command::DELETE]);
                r
            },
            ContextState::INGAME => {
                let mut context_cmds = vec![Command::ME, Command::SAVE];
                assert(context_cmds@ =~= seq![Command::ME, Command::SAVE]);
                let mut game_cmds = match &context.curr_game {
                    Some(game) => game.commands(),
                    None => Vec::new(),
                };
                context_cmds.append(&mut game_cmds);
                context_cmds
            },
        }
    }

    /// Every command, in the order of their declaration.
    pub open spec fn spec_all() -> Seq<Command> {
        seq![
            Command::LS,
            Command::HELP,
            Command::EXIT,
            Command::CREDITS,
            Command::REPLAY,
            Command::OPTIONS,
            Command::LAUNCH,
            Command::DELETE,
            Command::ME,
            Command::SAVE,
            Command::VIEW,
            Command::WAIT,
            Command::FIGHT,
            Command::PICKUP,
            Command::INVENTORY,
            Command::DROP,
            Command::FLEE,
        ]
    }

    /// Every command, in the order of their declaration.
    pub fn all() -> (r: Vec<Command>)
        ensures
            r@ == Command::spec_all(),
    {
        let r = vec![
            Command::LS,
            Command::HELP,
            Command::EXIT,
            Command::CREDITS,
            Command::REPLAY,
            Command::OPTIONS,
            Command::LAUNCH,
            Command::DELETE,
            Command::ME,
            Command::SAVE,
            Command::VIEW,
            Command::WAIT,
            Command::FIGHT,
            Command::PICKUP,
            Command::INVENTORY,
            Command::DROP,
            Command::FLEE,
        ];
        assert(r@ =~= Command::spec_all());
        r
    }
}

/// The map that a list of words with their commands stands for: a later
/// entry replaces an earlier one for the same word.
pub open spec fn map_of(s: Seq<(Seq<char>, Command)>) -> Map<Seq<char>, Command>
    decreases s.len(),
{
    if s.len() == 0 {
        Map::empty()
    } else {
        map_of(s.drop_last()).insert(s.last().0, s.last().1)
    }
}

/// The words of a registry with their commands, as texts.
pub open spec fn entry_views(s: Seq<(String, Command)>) -> Seq<(Seq<char>, Command)> {
    s.map_values(|e: (String, Command)| (e.0@, e.1))
}

/// The words that call a command: a map from each word to its command.
pub struct CommandMap {
    entries: Vec<(String, Command)>,
}

impl View for CommandMap {
    type V = Map<Seq<char>, Command>;

    closed spec fn view(&self) -> Map<Seq<char>, Command> {
        map_of(entry_views(self.entries@))
    }
}

impl CommandMap {
    /// The map without a word.
    pub fn new() -> (r: CommandMap)
        ensures
            r@ == Map::<Seq<char>, Command>::empty(),
    {
        let r = CommandMap { entries: Vec::new() };
        assert(entry_views(r.entries@) =~= Seq::empty());
        r
    }

    /// Lets `word` call `command`, whatever it called before.
    pub fn insert(&mut self, word: String, command: Command)
        ensures
            final(self)@ == old(self)@.insert(word@, command),
    {
        self.entries.push((word, command));
        proof {
            let s = entry_views(self.entries@);
            assert(s.drop_last() =~= entry_views(old(self).entries@));
        }
    }

    /// The command that `word` calls, if it calls one.
    pub fn get(&self, word: &String) -> (r: Option<Command>)
        ensures
            match r {
                Some(c) => self@.contains_key(word@) && self@[word@] == c,
                None => !self@.contains_key(word@),
            },
    {
        let ghost s = entry_views(self.entries@);
        let mut i: usize = self.entries.len();
        assert(s.take(i as int) == s);
        while i > 0
            invariant
                i <= self.entries@.len(),
                s == entry_views(self.entries@),
                map_of(s).contains_key(word@) == map_of(s.take(i as int)).contains_key(word@),
                map_of(s).contains_key(word@) ==> map_of(s)[word@] == map_of(s.take(i as int))[word@],
            decreases i,
        {
            i -= 1;
            proof {
                assert(s.take(i + 1).drop_last() == s.take(i as int));
                assert(s.take(i + 1).last() == s[i as int]);
            }
            if self.entries[i].0 == *word {
                return Some(self.entries[i].1);
            }
        }
        None
    }

    /// Whether `word` calls a command.
    pub fn contains(&self, word: &String) -> (r: bool)
        ensures
            r == self@.contains_key(word@),
    {
        self.get(word).is_some()
    }
}

/// The map in which each command of `commands` is called by its name only.
pub open spec fn names_map(commands: Seq<Command>) -> Map<Seq<char>, Command>
    decreases commands.len(),
{
    if commands.len() == 0 {
        Map::empty()
    } else {
        names_map(commands.drop_last()).insert(commands.last().spec_name(), commands.last())
    }
}

/// The map in which each word of `words` calls `command`, on top of `base`.
pub open spec fn with_words(
    base: Map<Seq<char>, Command>,
    words: Seq<Seq<char>>,
    command: Command,
) -> Map<Seq<char>, Command>
    decreases words.len(),
{
    if words.len() == 0 {
        base
    } else {
        with_words(base, words.drop_last(), command).insert(words.last(), command)
    }
}

/// The map in which each command of `commands` is called by its name and
/// by its aliases. Where two commands share a word, the later one has it.
pub open spec fn registry(commands: Seq<Command>) -> Map<Seq<char>, Command>
    decreases commands.len(),
{
    if commands.len() == 0 {
        Map::empty()
    } else {
        let c = commands.last();
        with_words(registry(commands.drop_last()).insert(c.spec_name(), c), c.spec_aliases(), c)
    }
}

/// The commands that there are where the player is: those that are always
/// there, then those that depend on where the player is.
pub open spec fn current_commands(state: ContextState, game: Option<GameState>) -> Seq<Command> {
    Command::spec_system_commands() + Command::spec_context_state_commands(state, game)
}

/// The registry of the commands that there are where the player is.
pub fn get_current_commands(context: &RotfContext) -> (r: CommandMap)
    ensures
        r@ == registry(current_commands(context.context_state, context.game_state())),
{
    let mut all_cmds: Vec<Command> = Vec::new();
    let mut system = Command::system_commands();
    all_cmds.append(&mut system);
    let mut others = Command::context_state_commands(context);
    all_cmds.append(&mut others);
    registry_of(&all_cmds)
}

/// Every command under its name.
pub fn get_all_commands() -> (r: CommandMap)
    ensures
        r@ == names_map(Command::spec_all()),
{
    let all = Command::all();
    let mut cmds = CommandMap::new();
    let mut i: usize = 0;
    assert(all@.take(0) =~= Seq::<Command>::empty());
    while i < all.len()
        invariant
            i <= all.len(),
            cmds@ == names_map(all@.take(i as int)),
        decreases all.len() - i,
    {
        let cmd = all[i];
        proof {
            assert(all@.take(i + 1).drop_last() == all@.take(i as int));
        }
        cmds.insert(cmd.name().to_owned(), cmd);
        i += 1;
    }
    assert(all@.take(all.len() as int) == all@);
    cmds
}

/// The registry of the given commands: each under its name and its aliases.
pub fn registry_of(commands: &Vec<Command>) -> (r: CommandMap)
    ensures
        r@ == registry(commands@),
{
    let mut cmds = CommandMap::new();
    let mut i: usize = 0;
    assert(commands@.take(0) =~= Seq::<Command>::empty());
    while i < commands.len()
        invariant
            i <= commands.len(),
            cmds@ == registry(commands@.take(i as int)),
        decreases commands.len() - i,
    {
        let cmd = commands[i];
        proof {
            assert(commands@.take(i + 1).drop_last() == commands@.take(i as int));
        }
        cmds.insert(cmd.name().to_owned(), cmd);
        let aliases = cmd.aliases();
        let ghost base = cmds@;
        let mut j: usize = 0;
        assert(cmd.spec_aliases().take(0) =~= Seq::<Seq<char>>::empty());
        while j < aliases.len()
            invariant
                j <= aliases.len(),
                str_views(aliases@) == cmd.spec_aliases(),
                cmds@ == with_words(base, cmd.spec_aliases().take(j as int), cmd),
            decreases aliases.len() - j,
        {
            proof {
                assert(cmd.spec_aliases().take(j + 1).drop_last() == cmd.spec_aliases().take(
                    j as int,
                ));
                assert(cmd.spec_aliases()[j as int] == aliases@[j as int]@);
            }
            cmds.insert(aliases[j].to_owned(), cmd);
            j += 1;
        }
        assert(cmd.spec_aliases().take(aliases.len() as int) == cmd.spec_aliases());
        i += 1;
    }
    assert(commands@.take(commands.len() as int) == commands@);
    cmds
}

/// Whether `after` is the session `before` after the command has been
/// carried out.
pub open spec fn called(cmd: Command, before: &RotfContext, after: &RotfContext) -> bool {
    match cmd {
        Command::LS => after.says(before, ls_log(before)),
        Command::HELP => after.says(before, help_log(before)),
        Command::EXIT => *after == (RotfContext { exit: true, ..*before }),
        Command::CREDITS => after.says(before, credits_log()),
        Command::REPLAY => after.says(before, replay_log(before)),
        Command::OPTIONS => asks(before, after, PromptView::OPTIONS, options_log()),
        Command::LAUNCH => launched(before, after),
        Command::DELETE => deleted(before, after),
        Command::ME => after.says(before, me_log(before)),
        Command::SAVE => saved(before, after),
        Command::FLEE => fled(before, after),
        _ => commanded(before, after, cmd.spec_name()),
    }
}

impl Command {
    /// Carries the command out.
    pub fn call(&self, context: &mut RotfContext)
        ensures
            called(*self, old(context), final(context)),
            old(context).wf() ==> final(context).wf(),
    {
        match self {
            Command::LS => ls(context),
            Command::HELP => help(context),
            Command::EXIT => {
                context.exit = true;
            },
            Command::CREDITS => credits(context),
            Command::REPLAY => replay(context),
            Command::OPTIONS => options(context),
            Command::LAUNCH => launch(context),
            Command::DELETE => delete(context),
            Command::ME => me(context),
            Command::SAVE => save(context),
            Command::FLEE => flee(context),
            Command::VIEW
            | Command::WAIT
            | Command::FIGHT
            | Command::PICKUP
            | Command::INVENTORY
            | Command::DROP => {
                command(context, self.name());
            },
        }
    }
}

/// The word of a line that names the command: its first word, in lower
/// case.
pub open spec fn command_token(l: Seq<char>) -> Seq<char> {
    lowercase(first_word(l))
}

/// The parameter of the command of a line: what follows its first word,
/// trimmed and in lower case.
pub open spec fn command_params(l: Seq<char>) -> Seq<char> {
    lowercase(after_first_word(l))
}

/// Whether `asked` is the session `before` with the command and the
/// parameter of the line noted down.
pub open spec fn noted(before: &RotfContext, asked: &RotfContext, l: Seq<char>) -> bool {
    &&& *asked == (RotfContext {
        last_cmd: asked.last_cmd,
        last_params: asked.last_params,
        ..*before
    })
    &&& asked.last_cmd@ == command_token(l)
    &&& asked.last_params@ == command_params(l)
}

/// Whether `after` is the session `before` after a line of input has been
/// taken. At a question, the line is the answer. At the prompt for a
/// command, an empty line changes nothing; else its command and its
/// parameter are noted down, and the command is carried out if there is
/// one of that name or alias where the player is; if not, the player is
/// told, and nothing else changes.
pub open spec fn dispatched(before: &RotfContext, after: &RotfContext, l: Seq<char>) -> bool {
    match before.prompt@ {
        PromptView::NAME => name_given(before, after, l),
        PromptView::DIFFICULTY(name) => difficulty_given(before, after, name, l),
        PromptView::OPTIONS => option_given(before, after, l),
        PromptView::SLEEP_FACTOR => asks(
            before,
            after,
            PromptView::OPTIONS,
            seq![EffectView::SLEEP_FACTOR(trim(l))],
        ),
        PromptView::COMMAND => if trim(l).len() == 0 {
            *after == *before
        } else {
            exists|asked: RotfContext| #[trigger]
                noted(before, &asked, l) && if asked.commands@.contains_key(asked.last_cmd@) {
                    called(asked.commands@[asked.last_cmd@], &asked, after)
                } else {
                    after.says(&asked, seq![line("Invalid command"@)])
                }
        },
    }
}

/// Takes a line of input: as the answer to the question that is open, or
/// as a command.
pub fn dispatch(cmd: &str, context: &mut RotfContext)
    ensures
        dispatched(old(context), final(context), cmd@),
        old(context).wf() ==> final(context).wf(),
{
    let pending = match &context.prompt {
        Prompt::COMMAND => None,
        Prompt::NAME => Some(Prompt::NAME),
        Prompt::DIFFICULTY(name) => Some(Prompt::DIFFICULTY(name.clone())),
        Prompt::OPTIONS => Some(Prompt::OPTIONS),
        Prompt::SLEEP_FACTOR => Some(Prompt::SLEEP_FACTOR),
    };
    match pending {
        Some(Prompt::NAME) => {
            answer_name(context, cmd);
        },
        Some(Prompt::DIFFICULTY(name)) => {
            answer_difficulty(context, name, cmd);
        },
        Some(Prompt::OPTIONS) => {
            answer_option(context, cmd);
        },
        Some(Prompt::SLEEP_FACTOR) => {
            answer_sleep_factor(context, cmd);
        },
        Some(Prompt::COMMAND) => {},
        None => {
            let chars = chars_of(cmd);
            if trimmed(&chars).len() == 0 {
                return ;
            }
            let (token, params) = split_first_word(&chars);
            let last_cmd = to_lowercase(string_of(&token).as_str());
            context.last_cmd = last_cmd.clone();
            context.last_params = to_lowercase(string_of(&params).as_str());
            let ghost asked = *context;
            assert(noted(old(context), &asked, cmd@));
            match context.commands.get(&last_cmd) {
                Some(found) => found.call(context),
                None => context.eprintln("Invalid command"),
            }
        },
    }
}

/// Whether `after` is the session `before` after the time that has passed
/// in the game has taken effect: a game in which time has passed is
/// updated; else nothing changes.
pub open spec fn time_taken(before: &RotfContext, after: &RotfContext) -> bool {
    match before.curr_game {
        Some(game) => if game.environment.time_passed > 0 {
            &&& after.same_session(before)
            &&& after.log() == before.log()
            &&& after.curr_game matches Some(next) && game.advanced(
                &next,
                &before.unit_loader,
                &before.item_loader,
            )
        } else {
            *after == *before
        },
        None => *after == *before,
    }
}

/// Lets the time that has passed in the game take effect.
pub fn take_time(context: &mut RotfContext)
    ensures
        time_taken(old(context), final(context)),
        old(context).wf() ==> final(context).wf(),
{
    let due = match &context.curr_game {
        Some(game) => game.environment.time_passed > 0,
        None => false,
    };
    if !due {
        return ;
    }
    match context.curr_game.take() {
        Some(game) => {
            let mut game = game;
            game.update(&context.unit_loader, &context.item_loader);
            context.curr_game = Some(game);
        },
        None => {},
    }
}

/// Whether `after` is the session `before` after the game that is played
/// has been written to the data directory and the registry of commands has
/// been made anew for where the player is.
pub open spec fn kept(before: &RotfContext, after: &RotfContext) -> bool {
    &&& *after == (RotfContext {
        effects: after.effects,
        data: after.data,
        commands: after.commands,
        ..*before
    })
    &&& after.commands@ == registry(current_commands(before.context_state, before.game_state()))
    &&& after.data.units == before.data.units
    &&& after.data.items == before.data.items
    &&& after.data.launch_game == before.data.launch_game
    &&& match before.curr_game {
        Some(game) => {
            &&& after.log() == before.log().push(EffectView::SAVE(game.spec_save()))
            &&& after.data.spec_saves() == crate::data::with_save(
                before.data.spec_saves(),
                game.spec_save(),
            )
        },
        None => after.log() == before.log() && after.data == before.data,
    }
}

/// Whether `after` is the session `before` after a command has been seen
/// through: the time that has passed has taken effect, the cutscene that
/// was due has been played, the game has been written to the data
/// directory, and the registry holds the commands that there are now.
pub open spec fn settled(before: &RotfContext, after: &RotfContext) -> bool {
    exists|timed: RotfContext, played: RotfContext|
        {
            &&& #[trigger] time_taken(before, &timed)
            &&& #[trigger] RotfCutscene::resolved(&timed, &played)
            &&& kept(&played, after)
        }
}

/// Sees a command through: lets time take effect, plays the cutscene that
/// is due, writes the game to the data directory, and makes the registry
/// of commands anew.
pub fn settle(context: &mut RotfContext)
    ensures
        settled(old(context), final(context)),
        old(context).wf() ==> final(context).wf(),
{
    take_time(context);
    let ghost timed = *context;
    RotfCutscene::resolve_context(context);
    let ghost played = *context;
    context.store_game();
    context.commands = get_current_commands(context);
    assert(kept(&played, context));
}

/// Whether a line of input at the given prompt is seen through once it
/// has been taken: not while a question is open, and not an empty line.
pub open spec fn sees_through(before: &RotfContext, mid: &RotfContext, l: Seq<char>) -> bool {
    mid.prompt@ == PromptView::COMMAND && !(before.prompt@ == PromptView::COMMAND && trim(l).len()
        == 0)
}

/// Whether `after` is the session `before` after a line of input: the
/// line has been taken, and the command has been seen through unless the
/// line was empty or a question is open now.
pub open spec fn parsed(before: &RotfContext, after: &RotfContext, l: Seq<char>) -> bool {
    exists|mid: RotfContext| #[trigger]
        dispatched(before, &mid, l) && if sees_through(before, &mid, l) {
            settled(&mid, after)
        } else {
            *after == mid
        }
}

/// Takes a line of input and sees it through.
pub fn parse_command(cmd: &str, context: &mut RotfContext)
    ensures
        parsed(old(context), final(context), cmd@),
        old(context).wf() ==> final(context).wf(),
{
    let at_command = match &context.prompt {
        Prompt::COMMAND => true,
        _ => false,
    };
    let empty = trimmed(&chars_of(cmd)).len() == 0;
    dispatch(cmd, context);
    let ghost mid = *context;
    let done = match &context.prompt {
        Prompt::COMMAND => true,
        _ => false,
    };
    if done && !(at_command && empty) {
        settle(context);
    }
    assert(dispatched(old(context), &mid, cmd@));
}

/// What the player is shown before a line is read: the prompt for a
/// command, or the options menu while it is open; nothing while a question
/// is open, which was asked when it was opened.
pub open spec fn prompt_log(context: &RotfContext) -> Seq<EffectView> {
    match context.prompt@ {
        PromptView::COMMAND => seq![
            line("-------------------"@),
            line(""@),
            EffectView::PRINT(" > "@),
        ],
        PromptView::OPTIONS => options_menu(context),
        _ => Seq::empty(),
    }
}

/// Asks for a command, or for an option while the options menu is open.
pub fn main_prompt(context: &mut RotfContext)
    ensures
        final(context).says(old(context), prompt_log(old(context))),
{
    match &context.prompt {
        Prompt::COMMAND => {
            context.println("-------------------");
            context.println("");
            context.print(" > ");
        },
        Prompt::OPTIONS => {
            show_options(context);
        },
        _ => {},
    }
    assert(context.log() =~= old(context).log() + prompt_log(old(context)));
}

/// What the player is shown after a line of input has been read.
pub open spec fn answer_log(context: &RotfContext) -> Seq<EffectView> {
    if context.prompt@ == PromptView::COMMAND {
        seq![line(""@)]
    } else {
        Seq::empty()
    }
}

/// Whether `after` is the session `before` after a line that was read
/// at the prompt has been taken: an empty line has been shown after a
/// command, and then the line has been taken and seen through.
pub open spec fn stepped(before: &RotfContext, after: &RotfContext, l: Seq<char>) -> bool {
    exists|shown: RotfContext| #[trigger]
        shown.says(before, answer_log(before)) && parsed(&shown, after, l)
}

/// Takes a line that was read at the prompt: an empty line is shown after
/// a command, and then the line is taken and seen through.
pub fn main_step(line: &str, context: &mut RotfContext)
    ensures
        stepped(old(context), final(context), line@),
        old(context).wf() ==> final(context).wf(),
{
    match &context.prompt {
        Prompt::COMMAND => {
            context.println("");
        },
        _ => {
            assert(context.log() =~= old(context).log() + answer_log(old(context)));
        },
    }
    let ghost shown = *context;
    assert(shown.says(old(context), answer_log(old(context))));
    parse_command(line, context);
}

/// Whether `after` is the session `before` after one turn: the player has
/// been asked, and the line that was read has been taken.
pub open spec fn turned(before: &RotfContext, after: &RotfContext, l: Seq<char>) -> bool {
    exists|asked: RotfContext| #[trigger]
        asked.says(before, prompt_log(before)) && stepped(&asked, after, l)
}

/// Whether `after` is the session `before` after a turn for each of the
/// lines, up to the turn in which the player exits.
pub open spec fn looped(before: &RotfContext, after: &RotfContext, ls: Seq<Seq<char>>) -> bool
    decreases ls.len(),
{
    if ls.len() == 0 {
        *after == *before
    } else {
        exists|next: RotfContext| #[trigger]
            turned(before, &next, ls[0]) && if next.exit {
                *after == next
            } else {
                looped(&next, after, ls.skip(1))
            }
    }
}

/// The lines as texts.
pub open spec fn string_views(v: Seq<String>) -> Seq<Seq<char>> {
    v.map_values(|l: String| l@)
}

/// Runs the program on lines of input that are all there: greets the
/// player, then asks for and takes line after line, until the player exits
/// or the lines run out.
pub fn main_loop(input: &Vec<String>, context: &mut RotfContext)
    ensures
        exists|greeted: RotfContext| #[trigger]
            greeted.says(old(context), crate::credits::welcome_log()) && looped(
                &greeted,
                final(context),
                string_views(input@),
            ),
        old(context).wf() ==> final(context).wf(),
{
    crate::credits::welcome(context);
    let ghost greeted = *context;
    let ghost all = string_views(input@);
    let mut i: usize = 0;
    assert(all.skip(0) == all);
    while i < input.len()
        invariant
            i <= input.len(),
            all == string_views(input@),
            old(context).wf() ==> context.wf(),
            greeted.says(old(context), crate::credits::welcome_log()),
            forall|end: RotfContext| #[trigger]
                looped(context, &end, all.skip(i as int)) ==> looped(&greeted, &end, all),
        decreases input.len() - i,
    {
        let ghost before = *context;
        main_prompt(context);
        let ghost asked = *context;
        main_step(input[i].as_str(), context);
        proof {
            let next = *context;
            assert(all.skip(i as int)[0] == input@[i as int]@);
            assert(all.skip(i as int).skip(1) == all.skip(i + 1));
            assert(asked.says(&before, prompt_log(&before)));
            assert(turned(&before, &next, all.skip(i as int)[0]));
            assert forall|end: RotfContext| #[trigger]
                looped(&next, &end, all.skip(i + 1)) && !next.exit implies looped(
                &greeted,
                &end,
                all,
            ) by {
                assert(looped(&before, &end, all.skip(i as int)));
            }
            if next.exit {
                assert(looped(&before, &next, all.skip(i as int)));
            }
        }
        if context.exit {
            return ;
        }
        i += 1;
    }
    assert(looped(context, context, all.skip(i as int)));
}

/// The command that a word calls: the one whose name or alias it is.
pub open spec fn command_of(word: Seq<char>) -> Option<Command> {
    if word == "ls"@ || word == "list"@ {
        Some(Command::LS)
    } else if word == "help"@ || word == "?"@ {
        Some(Command::HELP)
    } else if word == "exit"@ || word == "quit"@ {
        Some(Command::EXIT)
    } else if word == "credits"@ {
        Some(Command::CREDITS)
    } else if word == "replay"@ {
        Some(Command::REPLAY)
    } else if word == "options"@ {
        Some(Command::OPTIONS)
    } else if word == "launch"@ {
        Some(Command::LAUNCH)
    } else if word == "delete"@ {
        Some(Command::DELETE)
    } else if word == "me"@ {
        Some(Command::ME)
    } else if word == "save"@ {
        Some(Command::SAVE)
    } else if word == "view"@ || word == "vw"@ {
        Some(Command::VIEW)
    } else if word == "wait"@ {
        Some(Command::WAIT)
    } else if word == "fight"@ || word == "fi"@ {
        Some(Command::FIGHT)
    } else if word == "pickup"@ || word == "pi"@ {
        Some(Command::PICKUP)
    } else if word == "inventory"@ || word == "inv"@ {
        Some(Command::INVENTORY)
    } else if word == "drop"@ {
        Some(Command::DROP)
    } else if word == "flee"@ {
        Some(Command::FLEE)
    } else {
        None
    }
}

/// Whether the word is the name or an alias of the command.
pub open spec fn calls(word: Seq<char>, c: Command) -> bool {
    word == c.spec_name() || c.spec_aliases().contains(word)
}

/// No two commands share a word: a word is the name or an alias of the
/// one command that it calls, and of no other.
pub proof fn lemma_command_of(word: Seq<char>, c: Command)
    ensures
        calls(word, c) <==> command_of(word) == Some(c),
{
    reveal_strlit("ls");
    reveal_strlit("list");
    reveal_strlit("help");
    reveal_strlit("?");
    reveal_strlit("exit");
    reveal_strlit("quit");
    reveal_strlit("credits");
    reveal_strlit("replay");
    reveal_strlit("options");
    reveal_strlit("launch");
    reveal_strlit("delete");
    reveal_strlit("me");
    reveal_strlit("save");
    reveal_strlit("view");
    reveal_strlit("vw");
    reveal_strlit("wait");
    reveal_strlit("fight");
    reveal_strlit("fi");
    reveal_strlit("pickup");
    reveal_strlit("pi");
    reveal_strlit("inventory");
    reveal_strlit("inv");
    reveal_strlit("drop");
    reveal_strlit("flee");
    assert("ls"@.len() == 2 && "ls"@[0] == 'l');
    assert("list"@.len() == 4 && "list"@[0] == 'l');
    assert("help"@.len() == 4 && "help"@[0] == 'h');
    assert("?"@.len() == 1 && "?"@[0] == '?');
    assert("exit"@.len() == 4 && "exit"@[0] == 'e');
    assert("quit"@.len() == 4 && "quit"@[0] == 'q');
    assert("credits"@.len() == 7 && "credits"@[0] == 'c');
    assert("replay"@.len() == 6 && "replay"@[0] == 'r');
    assert("options"@.len() == 7 && "options"@[0] == 'o');
    assert("launch"@.len() == 6 && "launch"@[0] == 'l');
    assert("delete"@.len() == 6 && "delete"@[0] == 'd');
    assert("me"@.len() == 2 && "me"@[0] == 'm');
    assert("save"@.len() == 4 && "save"@[0] == 's');
    assert("view"@.len() == 4 && "view"@[0] == 'v');
    assert("vw"@.len() == 2 && "vw"@[0] == 'v');
    assert("wait"@.len() == 4 && "wait"@[0] == 'w');
    assert("fight"@.len() == 5 && "fight"@[0] == 'f');
    assert("fi"@.len() == 2 && "fi"@[0] == 'f');
    assert("pickup"@.len() == 6 && "pickup"@[0] == 'p');
    assert("pi"@.len() == 2 && "pi"@[0] == 'p');
    assert("inventory"@.len() == 9 && "inventory"@[0] == 'i');
    assert("inv"@.len() == 3 && "inv"@[0] == 'i');
    assert("drop"@.len() == 4 && "drop"@[0] == 'd');
    assert("flee"@.len() == 4 && "flee"@[0] == 'f');
    let aliases = c.spec_aliases();
    if aliases.len() > 0 {
        assert(aliases.contains(word) <==> word == aliases[0]);
    } else {
        assert(!aliases.contains(word));
    }
}

/// The words of a map with more words for a command are those of the map
/// and the new ones, and the new ones call the command.
pub proof fn lemma_with_words(
    base: Map<Seq<char>, Command>,
    words: Seq<Seq<char>>,
    command: Command,
    word: Seq<char>,
)
    ensures
        with_words(base, words, command).contains_key(word) <==> base.contains_key(word)
            || words.contains(word),
        words.contains(word) ==> with_words(base, words, command)[word] == command,
        !words.contains(word) && base.contains_key(word) ==> with_words(base, words, command)[word]
            == base[word],
    decreases words.len(),
{
    if words.len() > 0 {
        lemma_with_words(base, words.drop_last(), command, word);
        if words.contains(word) {
            let i = choose|i: int| 0 <= i < words.len() && words[i] == word;
            if i < words.len() - 1 {
                assert(words.drop_last()[i] == word);
            }
        }
        if words.drop_last().contains(word) {
            let i = choose|i: int| 0 <= i < words.len() - 1 && words.drop_last()[i] == word;
            assert(words[i] == word);
        }
        assert(words[words.len() - 1] == words.last());
    }
}

/// The registry resolves a word to the command whose name or alias it is,
/// if that command is among those of the registry, and to nothing else.
pub proof fn law_registry(commands: Seq<Command>, word: Seq<char>)
    ensures
        registry(commands).contains_key(word) <==> (command_of(word) matches Some(c)
            && commands.contains(c)),
        registry(commands).contains_key(word) ==> Some(registry(commands)[word]) == command_of(
            word,
        ),
    decreases commands.len(),
{
    if commands.len() > 0 {
        let c = commands.last();
        let head = commands.drop_last();
        law_registry(head, word);
        lemma_command_of(word, c);
        let named = registry(head).insert(c.spec_name(), c);
        lemma_with_words(named, c.spec_aliases(), c, word);
        assert(commands[commands.len() - 1] == c);
        if command_of(word) is Some {
            let d = command_of(word)->0;
            if head.contains(d) {
                let i = choose|i: int| 0 <= i < head.len() && head[i] == d;
                assert(commands[i] == d);
            }
            if commands.contains(d) && d != c {
                let i = choose|i: int| 0 <= i < commands.len() && commands[i] == d;
                assert(head[i] == d);
            }
        }
    }
}

} // verus!
