//! The commands that depend on where the player is: those of the home
//! menu, which launch and delete games, and those of a game, which show
//! the player and save.

use crate::context::{asks, ContextState, EffectView, Prompt, PromptView, RotfContext};
use crate::credits::line;
use crate::commands::{lines_log, print_lines, str_views};
use crate::data::{position_of_save, without_save, with_save, SavedGameView};
use crate::game::{missing_file, new_save, slug, GameState, RotfDifficulty, RotfGame};
use crate::text::{
    chars_of, contains_char, eq_str, lowercase, replaced, string_of, to_lowercase, trim, trimmed,
};
use vstd::prelude::*;
use vstd::string::StringExecFns;

verus! {

/// The word under which a folder or an answer is compared: trimmed, and in
/// lower case.
pub open spec fn word_of(name: Seq<char>) -> Seq<char> {
    lowercase(trim(name))
}

/// The word under which a folder or an answer is compared.
pub fn word(name: &str) -> (r: String)
    ensures
        r@ == word_of(name@),
{
    let t = trimmed(&chars_of(name));
    to_lowercase(string_of(&t).as_str())
}

/// The position of the first saved game whose folder has the given word,
/// or the number of saved games if there is none.
pub open spec fn position_of_word(s: Seq<SavedGameView>, w: Seq<char>) -> int
    decreases s.len(),
{
    if s.len() == 0 || word_of(s[0].name) == w {
        0
    } else {
        1 + position_of_word(s.skip(1), w)
    }
}

/// `position_of_word` is the one position before which no folder has the
/// word and at which one has it, if any has.
pub proof fn lemma_position_of_word(s: Seq<SavedGameView>, w: Seq<char>, i: int)
    requires
        0 <= i <= s.len(),
        forall|j: int| 0 <= j < i ==> word_of((#[trigger] s[j]).name) != w,
        i == s.len() || word_of(s[i].name) == w,
    ensures
        position_of_word(s, w) == i,
    decreases i,
{
    if i > 0 {
        let t = s.skip(1);
        assert forall|j: int| 0 <= j < i - 1 implies word_of((#[trigger] t[j]).name) != w by {
            assert(t[j] == s[j + 1]);
        }
        lemma_position_of_word(t, w, i - 1);
    }
}

/// Finds the first saved game whose folder has the given word.
pub fn find_word(context: &RotfContext, w: &String) -> (r: Option<usize>)
    ensures
        match r {
            Some(i) => i == position_of_word(context.data.spec_saves(), w@) && i
                < context.data.saves@.len(),
            None => position_of_word(context.data.spec_saves(), w@) == context.data.saves@.len(),
        },
{
    let mut i: usize = 0;
    while i < context.data.saves.len()
        invariant
            i <= context.data.saves@.len(),
            forall|j: int|
                0 <= j < i ==> word_of((#[trigger] context.data.spec_saves()[j]).name) != w@,
        decreases context.data.saves@.len() - i,
    {
        let folder = word(context.data.saves[i].name.as_str());
        assert(context.data.spec_saves()[i as int].name == context.data.saves@[i as int].name@);
        if folder == *w {
            proof {
                lemma_position_of_word(context.data.spec_saves(), w@, i as int);
            }
            return Some(i);
        }
        i += 1;
    }
    proof {
        lemma_position_of_word(context.data.spec_saves(), w@, i as int);
    }
    None
}

/// The names of the folders of the saved games, in their order.
pub fn get_saved_games(context: &RotfContext) -> (r: Vec<String>)
    ensures
        r@.len() == context.data.saves@.len(),
        forall|i: int| 0 <= i < r@.len() ==> r@[i]@ == #[trigger] context.data.spec_saves()[i].name,
{
    context.data.names()
}

/// What the player is told about launching without a parameter.
pub open spec fn launch_usage() -> Seq<Seq<char>> {
    seq![
        "Must specify an arg when using launch"@,
        "Use 'launch {{new}}' to launch a new game"@,
        "Use 'launch {{saved_game_name}}' to launch a saved game"@,
        "Use 'launch ls' to list the current saved games"@,
    ]
}

/// The characters that a name of a game must not hold.
pub open spec fn invalid_characters() -> Seq<char> {
    "-<>:\"\\/|?*^"@
}

/// Whether the name holds one of the given characters.
pub open spec fn has_any(name: Seq<char>, chars: Seq<char>) -> bool {
    exists|i: int| 0 <= i < chars.len() && name.contains(#[trigger] chars[i])
}

/// The names that a game must not have.
pub open spec fn invalid_names() -> Seq<Seq<char>> {
    seq![
        "com1"@,
        "com2"@,
        "com3"@,
        "com4"@,
        "com5"@,
        "com6"@,
        "com7"@,
        "com8"@,
        "com9"@,
        "lpt1"@,
        "lpt2"@,
        "lpt3"@,
        "lpt4"@,
        "lpt5"@,
        "lpt6"@,
        "lpt7"@,
        "lpt8"@,
        "lpt9"@,
        "con"@,
        "nul"@,
        "prn"@,
    ]
}

/// How many bytes the text takes.
pub open spec fn byte_length(text: Seq<char>) -> usize {
    vstd::utf8::encode_utf8(text).len() as usize
}

/// What the player is told if the name cannot be that of a new game;
/// nothing if it can. A name must not be empty, hold an invalid character,
/// be an invalid name, take more than thirty bytes, start or end with a
/// dot, or be the word of the folder of a saved game.
pub open spec fn name_rejection(name: Seq<char>, saves: Seq<SavedGameView>) -> Seq<Seq<char>> {
    if name.len() == 0 {
        seq!["Can't enter empty name"@]
    } else if has_any(name, invalid_characters()) {
        seq!["Cannot use the following characters: "@ + invalid_characters()]
    } else if invalid_names().contains(name) {
        seq!["Cannot use the following name: "@ + name]
    } else if byte_length(name) > 30 {
        seq!["Cannot enter a name of more than 30 characters"@]
    } else if name[0] == '.' || name.last() == '.' {
        seq!["Cannot start or end name with a '.'"@]
    } else if position_of_word(saves, name) < saves.len() {
        seq![
            "That saved game already exists"@,
            "To delete it use 'delete "@ + name + "'."@,
            "To launch it use 'launch "@ + name + "'."@,
        ]
    } else {
        Seq::empty()
    }
}

/// Whether the name holds one of the given characters.
fn holds_any(name: &Vec<char>, chars: &str) -> (r: bool)
    ensures
        r == has_any(name@, chars@),
{
    let cs = chars_of(chars);
    let mut i: usize = 0;
    while i < cs.len()
        invariant
            i <= cs.len(),
            cs@ == chars@,
            forall|j: int| 0 <= j < i ==> !name@.contains(#[trigger] cs@[j]),
        decreases cs.len() - i,
    {
        if contains_char(name, cs[i]) {
            return true;
        }
        i += 1;
    }
    false
}

/// Whether the name is one that a game must not have.
fn is_invalid_name(name: &Vec<char>) -> (r: bool)
    ensures
        r == invalid_names().contains(name@),
{
    let names: Vec<&'static str> = vec![
        "com1",
        "com2",
        "com3",
        "com4",
        "com5",
        "com6",
        "com7",
        "com8",
        "com9",
        "lpt1",
        "lpt2",
        "lpt3",
        "lpt4",
        "lpt5",
        "lpt6",
        "lpt7",
        "lpt8",
        "lpt9",
        "con",
        "nul",
        "prn",
    ];
    assert(str_views(names@) =~= invalid_names());
    let mut i: usize = 0;
    while i < names.len()
        invariant
            i <= names.len(),
            str_views(names@) == invalid_names(),
            forall|j: int| 0 <= j < i ==> #[trigger] invalid_names()[j] != name@,
        decreases names.len() - i,
    {
        assert(invalid_names()[i as int] == names@[i as int]@);
        if eq_str(name, names[i]) {
            return true;
        }
        i += 1;
    }
    assert(str_views(names@).len() == names@.len());
    false
}

/// The question for the difficulty.
pub open spec fn difficulty_menu() -> Seq<EffectView> {
    seq![
        line("\nChoose a difficulty where:"@),
        line("  1: Easy"@),
        line("  2: Normal"@),
        line("  3: Hard"@),
        EffectView::PRINT(" > "@),
    ]
}

/// The difficulty that an answer chooses, if it chooses one.
pub open spec fn difficulty_of(answer: Seq<char>) -> Option<RotfDifficulty> {
    if trim(answer) == "1"@ {
        Some(RotfDifficulty::EASY)
    } else if trim(answer) == "2"@ {
        Some(RotfDifficulty::NORMAL)
    } else if trim(answer) == "3"@ {
        Some(RotfDifficulty::HARD)
    } else {
        None
    }
}

/// Asks for the name of a new game. The next line of input is the answer.
pub fn launch_new(context: &mut RotfContext)
    ensures
        asks(
            old(context),
            final(context),
            PromptView::NAME,
            seq![EffectView::PRINT("Enter a name: "@)],
        ),
{
    context.print("Enter a name: ");
    context.prompt = Prompt::NAME;
}

/// Asks for the difficulty of the new game of the given name. The next
/// line of input is the answer.
pub fn choose_difficulty(context: &mut RotfContext, name: String)
    ensures
        asks(old(context), final(context), PromptView::DIFFICULTY(name@), difficulty_menu()),
{
    context.println("\nChoose a difficulty where:");
    context.println("  1: Easy");
    context.println("  2: Normal");
    context.println("  3: Hard");
    context.print(" > ");
    context.prompt = Prompt::DIFFICULTY(name);
    assert(context.log() =~= old(context).log() + difficulty_menu());
}

/// Whether `after` is the session `before` after the answer to the
/// question for a name: the name is the answer, trimmed and in lower case;
/// if it cannot be that of a new game, the player is told why and is back
/// at the prompt for a command; else the player is asked for the
/// difficulty.
pub open spec fn name_given(before: &RotfContext, after: &RotfContext, answer: Seq<char>) -> bool {
    let name = word_of(answer);
    let rejection = name_rejection(name, before.data.spec_saves());
    if rejection.len() > 0 {
        asks(before, after, PromptView::COMMAND, lines_log(rejection))
    } else {
        asks(before, after, PromptView::DIFFICULTY(name), difficulty_menu())
    }
}

/// Takes the answer to the question for the name of a new game.
pub fn answer_name(context: &mut RotfContext, answer: &str)
    ensures
        name_given(old(context), final(context), answer@),
{
    context.prompt = Prompt::COMMAND;
    let name = word(answer);
    let chars = chars_of(name.as_str());
    if chars.len() == 0 {
        context.println("Can't enter empty name");
        assert(context.log() =~= old(context).log() + lines_log(
            seq!["Can't enter empty name"@],
        ));
        return ;
    }
    if holds_any(&chars, "-<>:\"\\/|?*^") {
        let mut text = String::from_str("Cannot use the following characters: ");
        text.append("-<>:\"\\/|?*^");
        context.println(text.as_str());
        assert(context.log() =~= old(context).log() + lines_log(
            seq!["Cannot use the following characters: "@ + invalid_characters()],
        ));
        return ;
    }
    if is_invalid_name(&chars) {
        let mut text = String::from_str("Cannot use the following name: ");
        text.append(name.as_str());
        context.println(text.as_str());
        assert(context.log() =~= old(context).log() + lines_log(
            seq!["Cannot use the following name: "@ + name@],
        ));
        return ;
    }
    if name.as_str().len() > 30 {
        context.println("Cannot enter a name of more than 30 characters");
        assert(context.log() =~= old(context).log() + lines_log(
            seq!["Cannot enter a name of more than 30 characters"@],
        ));
        return ;
    }
    if chars[0] == '.' || chars[chars.len() - 1] == '.' {
        context.println("Cannot start or end name with a '.'");
        assert(context.log() =~= old(context).log() + lines_log(
            seq!["Cannot start or end name with a '.'"@],
        ));
        return ;
    }
    if find_word(context, &name).is_some() {
        context.println("That saved game already exists");
        let mut delete = String::from_str("To delete it use 'delete ");
        delete.append(name.as_str());
        delete.append("'.");
        context.println(delete.as_str());
        let mut launch = String::from_str("To launch it use 'launch ");
        launch.append(name.as_str());
        launch.append("'.");
        context.println(launch.as_str());
        assert(context.log() =~= old(context).log() + lines_log(
            seq![
                "That saved game already exists"@,
                "To delete it use 'delete "@ + name@ + "'."@,
                "To launch it use 'launch "@ + name@ + "'."@,
            ],
        ));
        return ;
    }
    choose_difficulty(context, name);
}

/// Whether `after` is the session `before` after the answer to the
/// question for the difficulty of the new game called `name`. An answer
/// that chooses none is asked for again. Else the new game is written to
/// the data directory and launched: the player is in the game, which is in
/// its opening cutscene with its environment filled, unless a catalog is
/// not there or holds an id twice, which is reported.
pub open spec fn difficulty_given(
    before: &RotfContext,
    after: &RotfContext,
    name: Seq<char>,
    answer: Seq<char>,
) -> bool {
    match difficulty_of(answer) {
        None => after.says(
            before,
            seq![line("Please enter a number from 1 to 3"@), EffectView::PRINT(" > "@)],
        ),
        Some(difficulty) => {
            let saved = new_save(name, difficulty);
            &&& after.prompt@ == PromptView::COMMAND
            &&& after.testing == before.testing
            &&& after.exit == before.exit
            &&& after.all_commands == before.all_commands
            &&& after.commands == before.commands
            &&& after.last_cmd == before.last_cmd
            &&& after.last_params == before.last_params
            &&& after.data.spec_saves() == with_save(before.data.spec_saves(), saved)
            &&& after.data.units == before.data.units
            &&& after.data.items == before.data.items
            &&& after.data.launch_game == before.data.launch_game
            &&& after.log() == before.log() + seq![EffectView::SAVE(saved)] + before.launch_log(
                true,
            )
            &&& before.catalog_error() is Some ==> {
                &&& after.curr_game == before.curr_game
                &&& after.context_state == before.context_state
            }
            &&& before.catalog_error() is None ==> {
                &&& after.context_state == ContextState::INGAME
                &&& after.curr_game matches Some(game) && {
                    &&& game.wf()
                    &&& game.name@ == name
                    &&& game.state == GameState::CUTSCENE
                    &&& game.difficulty == difficulty
                    &&& game.combat is None
                    &&& game.player.level == 0
                    &&& game.player.inventory.items@.len() == 0
                    &&& game.environment.time_passed == 0
                    &&& crate::environment::units_spawned(
                        Seq::empty(),
                        1,
                        game.environment.units@,
                        crate::environment::spec_num_units(1),
                        &after.unit_loader,
                        true,
                    )
                    &&& crate::environment::items_spawned(
                        Seq::empty(),
                        1,
                        game.environment.items@,
                        crate::environment::spec_num_items(1),
                        &after.item_loader,
                        true,
                    )
                }
            }
        },
    }
}

/// Takes the answer to the question for the difficulty of the new game
/// of the given name.
pub fn answer_difficulty(context: &mut RotfContext, name: String, answer: &str)
    ensures
        difficulty_given(old(context), final(context), name@, answer@),
        old(context).wf() ==> final(context).wf(),
{
    let t = trimmed(&chars_of(answer));
    let difficulty = if eq_str(&t, "1") {
        RotfDifficulty::EASY
    } else if eq_str(&t, "2") {
        RotfDifficulty::NORMAL
    } else if eq_str(&t, "3") {
        RotfDifficulty::HARD
    } else {
        context.println("Please enter a number from 1 to 3");
        context.print(" > ");
        assert(context.log() =~= old(context).log() + seq![
            line("Please enter a number from 1 to 3"@),
            EffectView::PRINT(" > "@),
        ]);
        return ;
    };
    context.prompt = Prompt::COMMAND;
    let new_game = RotfGame::new(name, difficulty);
    context.write_save(new_game.save());
    let ghost written = *context;
    assert(written.launch_log(true) == old(context).launch_log(true));
    assert(written.catalog_error() == old(context).catalog_error());
    context.launch_game(new_game, true);
    proof {
        assert(context.log() =~= old(context).log() + seq![
            EffectView::SAVE(new_save(name@, difficulty)),
        ] + old(context).launch_log(true));
        assert(new_game.environment.units@ =~= Seq::empty());
        assert(new_game.environment.items@ =~= Seq::empty());
    }
}

/// What the list of saved games says: the word of each folder, on a line
/// of its own.
pub open spec fn saves_log(s: Seq<SavedGameView>) -> Seq<EffectView> {
    s.map_values(|g: SavedGameView| line(lowercase(g.name)))
}

/// Lists the saved games.
pub fn launch_ls(context: &mut RotfContext)
    ensures
        final(context).says(old(context), saves_log(old(context).data.spec_saves())),
{
    let names = get_saved_games(context);
    let ghost all = saves_log(context.data.spec_saves());
    let mut i: usize = 0;
    assert(context.log() =~= old(context).log() + all.take(0));
    while i < names.len()
        invariant
            i <= names.len(),
            names@.len() == all.len(),
            all == saves_log(old(context).data.spec_saves()),
            forall|j: int|
                0 <= j < names@.len() ==> names@[j]@ == #[trigger] old(context).data.spec_saves()[j].name,
            *context == (RotfContext { effects: context.effects, ..*old(context) }),
            context.log() == old(context).log() + all.take(i as int),
        decreases names.len() - i,
    {
        let shown = to_lowercase(names[i].as_str());
        context.println(shown.as_str());
        proof {
            assert(all[i as int] == line(lowercase(old(context).data.spec_saves()[i as int].name)));
            assert(context.log() =~= old(context).log() + all.take(i + 1));
        }
        i += 1;
    }
    assert(all.take(names.len() as int) == all);
}

/// Whether `after` is the session `before` after the command to launch
/// the saved game that the parameter names. The game is that of the first
/// folder whose word is the parameter. If there is none, or one of its
/// files is not there, the player is told and nothing else changes. Else
/// the game is read from its files and launched, and the player is shown
/// the player, unless a catalog is not there or holds an id twice, which is
/// reported.
pub open spec fn loaded(before: &RotfContext, after: &RotfContext) -> bool {
    let saves = before.data.spec_saves();
    let at = position_of_word(saves, before.last_params@);
    if !(0 <= at < saves.len()) {
        after.says(before, seq![line("Saved game doesn't exist"@)])
    } else {
        match missing_file(saves[at]) {
            Some(e) => after.says(
                before,
                seq![
                    EffectView::ERROR(RotfContext::error_line("loading game"@, e.spec_message())),
                ],
            ),
            None => if before.catalog_error() is Some {
                after.says(before, before.launch_log(false))
            } else {
                &&& *after == (RotfContext {
                    effects: after.effects,
                    curr_game: after.curr_game,
                    context_state: after.context_state,
                    unit_loader: after.unit_loader,
                    item_loader: after.item_loader,
                    ..*before
                })
                &&& after.context_state == ContextState::INGAME
                &&& after.curr_game matches Some(game) && {
                    &&& game.wf()
                    &&& game.loaded_from(
                        word_of(saves[at].name),
                        saves[at].metadata->0,
                        saves[at].player->0,
                        saves[at].environment->0,
                    )
                    &&& after.log() == before.log() + before.launch_log(false) + seq![
                        line(game.player.spec_me(game.name@)),
                    ]
                }
            },
        }
    }
}

/// Launches the saved game that the parameter names.
pub fn launch_load(context: &mut RotfContext)
    ensures
        loaded(old(context), final(context)),
        old(context).wf() ==> final(context).wf(),
{
    let found = find_word(context, &context.last_params);
    match found {
        Some(i) => {
            assert(context.data.spec_saves()[i as int] == context.data.saves@[i as int]@);
            let save_name = word(context.data.saves[i].name.as_str());
            match RotfGame::load(save_name, &context.data.saves[i]) {
                Ok(game) => {
                    let ghost shown = game.player.spec_me(game.name@);
                    if context.launch_game(game, false) {
                        me(context);
                        assert(context.log() =~= old(context).log() + old(context).launch_log(
                            false,
                        ) + seq![line(shown)]);
                    }
                },
                Err(e) => {
                    context.print_error("loading game", e.message());
                },
            }
        },
        None => {
            context.println("Saved game doesn't exist");
        },
    }
}

/// Whether `after` is the session `before` after the command to launch:
/// without a parameter the player is told how to launch; `new` asks for
/// the name of a new game; `ls` lists the saved games; anything else
/// launches the saved game of that name.
pub open spec fn launched(before: &RotfContext, after: &RotfContext) -> bool {
    if before.last_params@.len() == 0 {
        after.says(before, lines_log(launch_usage()))
    } else if before.last_params@ == "new"@ {
        asks(before, after, PromptView::NAME, seq![EffectView::PRINT("Enter a name: "@)])
    } else if before.last_params@ == "ls"@ {
        after.says(before, saves_log(before.data.spec_saves()))
    } else {
        loaded(before, after)
    }
}

/// Launches a game: a new one, the saved one that the parameter names,
/// or lists the saved games.
pub fn launch(context: &mut RotfContext)
    ensures
        launched(old(context), final(context)),
        old(context).wf() ==> final(context).wf(),
{
    proof {
        reveal_strlit("new");
        reveal_strlit("ls");
    }
    let params = chars_of(context.last_params.as_str());
    if params.len() == 0 {
        let usage: Vec<&'static str> = vec![
            "Must specify an arg when using launch",
            "Use 'launch {{new}}' to launch a new game",
            "Use 'launch {{saved_game_name}}' to launch a saved game",
            "Use 'launch ls' to list the current saved games",
        ];
        assert(str_views(usage@) =~= launch_usage());
        print_lines(context, &usage);
        return ;
    }
    if eq_str(&params, "new") {
        launch_new(context);
        return ;
    }
    if eq_str(&params, "ls") {
        launch_ls(context);
        return ;
    }
    launch_load(context);
}

/// Whether `after` is the session `before` after the command to delete
/// the saved game that the parameter names. The folder is the parameter
/// with an underscore for every space. If no saved game has it as the
/// word of its folder, the player is told. Else the folder of that very
/// name is deleted; if there is none, that is reported.
pub open spec fn deleted(before: &RotfContext, after: &RotfContext) -> bool {
    let saves = before.data.spec_saves();
    let target = slug(before.last_params@);
    if before.last_params@.len() == 0 {
        after.says(
            before,
            seq![
                line("Must specify a saved game to delete"@),
                line("You can view the current saved games with 'launch ls'"@),
            ],
        )
    } else if position_of_word(saves, target) >= saves.len() {
        after.says(before, seq![line("Saved game doesn't exist"@)])
    } else if position_of_save(saves, target) >= saves.len() {
        after.says(
            before,
            seq![
                EffectView::ERROR(
                    RotfContext::error_line("deleting saved game"@, "folder not found"@),
                ),
            ],
        )
    } else {
        &&& after.same_but_saves(before)
        &&& after.data.spec_saves() == without_save(saves, target)
        &&& after.log() == before.log().push(EffectView::DELETE(target))
    }
}

/// Deletes the saved game that the parameter names.
pub fn delete(context: &mut RotfContext)
    ensures
        deleted(old(context), final(context)),
{
    if context.last_params.as_str().is_empty() {
        context.println("Must specify a saved game to delete");
        context.println("You can view the current saved games with 'launch ls'");
        assert(context.log() =~= old(context).log() + seq![
            line("Must specify a saved game to delete"@),
            line("You can view the current saved games with 'launch ls'"@),
        ]);
        return ;
    }
    let delete_name = replaced(context.last_params.as_str(), ' ', '_');
    match find_word(context, &delete_name) {
        Some(_) => {
            if !context.delete_save(&delete_name) {
                context.print_error("deleting saved game", "folder not found");
            }
        },
        None => {
            context.println("Saved game doesn't exist");
        },
    }
}

/// What the player is shown of the player: the player of the game that
/// is played, or that there is no game.
pub open spec fn me_log(context: &RotfContext) -> Seq<EffectView> {
    match context.curr_game {
        Some(game) => seq![line(game.player.spec_me(game.name@))],
        None => seq![line("Can't use ME when there's no game"@)],
    }
}

/// Shows the player the player.
pub fn me(context: &mut RotfContext)
    ensures
        final(context).says(old(context), me_log(old(context))),
{
    let text = match &context.curr_game {
        Some(game) => game.player.me(game.name.clone()),
        None => {
            context.eprintln("Can't use ME when there's no game");
            return ;
        },
    };
    context.println(text.as_str());
}

/// Whether `after` is the session `before` after the command to save: the
/// game that is played is written to the data directory, and the player is
/// back at the home menu, without a game. Without a game the player is
/// told so.
pub open spec fn saved(before: &RotfContext, after: &RotfContext) -> bool {
    match before.curr_game {
        None => after.says(before, seq![line("Can't use SAVE when there's no game"@)]),
        Some(game) => {
            &&& after.curr_game is None
            &&& after.context_state == ContextState::HOME
            &&& after.data.spec_saves() == with_save(before.data.spec_saves(), game.spec_save())
            &&& after.data.units == before.data.units
            &&& after.data.items == before.data.items
            &&& after.data.launch_game == before.data.launch_game
            &&& after.log() == before.log() + seq![
                EffectView::SAVE(game.spec_save()),
                line("Saved game"@),
            ]
            &&& *after == (RotfContext {
                effects: after.effects,
                data: after.data,
                curr_game: None,
                context_state: ContextState::HOME,
                ..*before
            })
        },
    }
}

/// Saves the game and returns to the home menu.
pub fn save(context: &mut RotfContext)
    ensures
        saved(old(context), final(context)),
{
    if context.curr_game.is_none() {
        context.eprintln("Can't use SAVE when there's no game");
        return ;
    }
    context.store_game();
    context.curr_game = None;
    context.context_state = ContextState::HOME;
    context.println("Saved game");
    assert(context.log() =~= old(context).log() + seq![
        EffectView::SAVE(old(context).curr_game->0.spec_save()),
        line("Saved game"@),
    ]);
}

} // verus!
