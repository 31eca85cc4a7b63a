use rise_of_the_frogs::commands::{get_current_commands, main_loop, main_prompt, parse_command};
use rise_of_the_frogs::context::{ContextState, Effect, Prompt, RotfContext};
use rise_of_the_frogs::options::RotfOptions;
use rise_of_the_frogs::context_state_commands::get_saved_games;
use rise_of_the_frogs::data::RotfData;
use rise_of_the_frogs::game::{GameState, RotfDifficulty, RotfGame};

const UNITS: &str = "unit,1,Frog,0-20\nunit,2,Toad,5-30\n";
const ITEMS: &str = "item,1,Lily Pad,0-20\n";
const CUTSCENE: &str = "%%% mode = INSTANT\n+++++ Chapter 1: A Legend is Laid +++++\n";

// The data directory that the commands find: the catalogs, the opening
// cutscene, and one saved game called `test`.
fn test_data() -> RotfData {
    let mut data = RotfData::new();
    data.units = Some(UNITS.to_string());
    data.items = Some(ITEMS.to_string());
    data.launch_game = Some(CUTSCENE.to_string());
    data.store(RotfGame::new("test".to_string(), RotfDifficulty::default()).save());
    data
}

fn at_command(context: &RotfContext) -> bool {
    matches!(context.prompt, Prompt::COMMAND)
}

// Gives the command, and then the lines of the extra input as long as a
// question is open; a question that is still open when the lines have run
// out gets the empty answer that the end of the input gives.
fn run_on(data: RotfData, cmd: &str, extra_input: &str) -> RotfContext {
    let mut context = RotfContext::default(data);
    parse_command(cmd, &mut context);
    for answer in extra_input.lines() {
        if at_command(&context) {
            break;
        }
        parse_command(answer, &mut context);
    }
    if matches!(context.prompt, Prompt::NAME) {
        parse_command("", &mut context);
    }
    context
}

fn texts(context: &RotfContext) -> (String, String) {
    (context.output_text(), context.error_text())
}

fn run_cmd_output(cmd: &str) -> (String, String) {
    texts(&run_on(test_data(), cmd, ""))
}

fn run_cmd_input(cmd: &str, extra_input: &str) -> (String, String) {
    texts(&run_on(test_data(), cmd, extra_input))
}

fn run_cmd_context(cmd: &str) -> RotfContext {
    run_on(test_data(), cmd, "")
}

fn run_cmd_context_input(cmd: &str, extra_input: &str) -> RotfContext {
    run_on(test_data(), cmd, extra_input)
}

fn run_main_loop(mut input: Vec<&str>) -> (String, String) {
    input.push("exit");
    let lines: Vec<String> = input.iter().map(|l| l.to_string()).collect();
    let mut context = RotfContext::default_context(test_data(), false);
    main_loop(&lines, &mut context);
    texts(&context)
}

fn has_save(context: &RotfContext, folder: &str) -> bool {
    get_saved_games(context).iter().any(|name| name == folder)
}

#[test]
fn test_launch() {
    let (output, error) = run_cmd_output("launch");
    assert!(output.contains("Must specify an arg when using launch"));
    assert_eq!(error, "");
}

#[test]
fn test_launch_ls() {
    let (output, error) = run_cmd_output("launch ls");
    assert!(output.contains("test"));
    assert_eq!(error, "");
}

#[test]
fn test_launch_unknown() {
    let (output, error) = run_cmd_output("launch unknown");
    assert!(output.contains("Saved game doesn't exist"));
    assert_eq!(error, "");
}

#[test]
fn test_launch_new() {
    let context = run_cmd_context_input("launch new", "test_new\n1\n");
    let (output, error) = texts(&context);
    assert!(output.contains("Enter a name:"));
    assert!(context.data.has(&"test_new".to_string()));
    assert!(has_save(&context, "test_new"));
    assert_eq!(error, "");
    let after = run_on(context.data, "delete test_new", "");
    assert!(!has_save(&after, "test_new"));
}

#[test]
fn test_launch_new_context() {
    let context = run_cmd_context_input("launch new", "test new context\n3\n");
    assert!(context.data.has(&"test_new_context".to_string()));
    assert!(has_save(&context, "test_new_context"));
    let game = context.curr_game.as_ref().unwrap();
    assert_eq!(game.name, "test new context");
    assert_eq!(game.difficulty, RotfDifficulty::HARD);
    let at = context.data.find(&"test_new_context".to_string()).unwrap();
    let saved_game = RotfGame::load("test new_context".to_owned(), &context.data.saves[at]).unwrap();
    assert_eq!(saved_game.name, "test new context");
    assert_eq!(saved_game.difficulty, RotfDifficulty::HARD);
}

#[test]
fn test_launch_new_exists() {
    assert!(test_data().has(&"test".to_string()));
    let (output, error) = run_cmd_input("launch new", "test\n");
    assert!(output.contains("Enter a name:"));
    assert!(output.contains("That saved game already exists"));
    assert_eq!(error, "");
}

#[test]
fn test_launch_game() {
    let context = run_cmd_context("launch test");
    assert_eq!(context.curr_game.unwrap().name, "test");
    assert_eq!(context.context_state, ContextState::INGAME);
}

#[test]
fn test_delete() {
    let (output, error) = run_cmd_output("delete");
    assert!(output.contains("Must specify a saved game to delete"));
    assert_eq!(error, "");
}

#[test]
fn test_delete_unknown() {
    let (output, error) = run_cmd_output("delete unknown");
    assert!(output.contains("Saved game doesn't exist"));
    assert_eq!(error, "");
}

#[test]
fn test_delete_game() {
    let launched = run_cmd_context_input("launch new", "deletable with spaces\n2\n");
    assert!(has_save(&launched, "deletable_with_spaces"));
    let context = run_on(launched.data, "delete deletable with_spaces", "");
    let (output, error) = texts(&context);
    assert!(!has_save(&context, "deletable_with_spaces"));
    assert_eq!(output, "");
    assert_eq!(error, "");
}

#[test]
fn test_me_when_home() {
    let (output, error) = run_cmd_output("me");
    assert!(output.contains("Invalid command"));
    assert_eq!(error, "");
}

#[test]
fn test_me() {
    let mut context = RotfContext::default(test_data());
    context.context_state = ContextState::INGAME;
    context.commands = get_current_commands(&context);
    context.curr_game = Some(RotfGame::new("test me".to_owned(), RotfDifficulty::default()));

    parse_command("me", &mut context);

    let (output, error) = texts(&context);
    assert!(output.contains("Player Info"));
    assert!(output.contains("Name: test me"));
    assert_eq!(error, "");
}

#[test]
fn test_save_when_home() {
    let (output, error) = run_cmd_output("save");
    assert!(output.contains("Invalid command"));
    assert_eq!(error, "");
}

#[test]
fn test_save() {
    let mut context = RotfContext::default(test_data());
    context.context_state = ContextState::INGAME;
    context.commands = get_current_commands(&context);
    context.curr_game = Some(RotfGame::new("test save".to_owned(), RotfDifficulty::default()));

    parse_command("save", &mut context);

    assert_eq!(context.context_state, ContextState::HOME);
    assert!(context.curr_game.is_none());
    let (output, error) = texts(&context);
    assert!(output.contains("Saved game"));
    assert_eq!(error, "");
}

#[test]
fn test_ls() {
    let (output, error) = run_cmd_output("ls");
    assert!(output.contains("Context Commands:"));
    assert!(output.contains("System Commands:"));
    assert!(output.contains("ls (aliases: list): List available commands"));
    assert_eq!(error, "");
}

#[test]
fn test_ls_alias() {
    let (output1, error1) = run_cmd_output("ls");
    let (output2, error2) = run_cmd_output("list");
    assert_eq!(output1, output2);
    assert_eq!(error1, error2);
}

#[test]
fn test_help() {
    let (output, error) = run_cmd_output("help");
    assert!(output.contains("Below is general information; if you want information about a specific command use 'help {{cmd}}'"));
    assert_eq!(error, "");
}

#[test]
fn test_help_param() {
    let (output, error) = run_cmd_output("help ls");
    assert!(output.contains("Lists all available commands"));
    assert_eq!(error, "");
}

#[test]
fn test_help_unknown_param() {
    let (output, error) = run_cmd_output("help unknown");
    assert!(output.contains("unknown is not a recognized command"));
    assert_eq!(error, "");
}

#[test]
fn test_exit() {
    let context = run_cmd_context("exit");
    assert_eq!(context.exit, true);
}

#[test]
fn test_credits() {
    let (output, error) = run_cmd_output("credits");
    assert!(output.contains("Created by Daniel Gray"));
    assert_eq!(error, "");
}

#[test]
fn test_replay_without_parameter() {
    let mut context = RotfContext::default(test_data());
    context.curr_game = Some(RotfGame::new("test replay".to_owned(), RotfDifficulty::default()));
    parse_command("replay", &mut context);
    let (output, error) = texts(&context);
    assert!(output.contains("Unrecognized replay parameter"));
    assert_eq!(error, "");
}

#[test]
fn test_replay_unknown() {
    let mut context = RotfContext::default(test_data());
    context.curr_game = Some(RotfGame::new("test replay".to_owned(), RotfDifficulty::default()));
    parse_command("replay unknown", &mut context);
    let (output, error) = texts(&context);
    assert!(output.contains("Unrecognized replay parameter"));
    assert_eq!(error, "");
}

#[test]
fn test_replay_cutscene() {
    let mut context = RotfContext::default(test_data());
    context.curr_game = Some(RotfGame::new("test replay".to_owned(), RotfDifficulty::default()));
    parse_command("replay cutscene", &mut context);
    let (output, error) = texts(&context);
    assert!(output.contains("+++++ Chapter 1: A Legend is Laid +++++"));
    assert_eq!(error, "");
}

#[test]
fn it_should_run_main_loop() {
    let (output, error) = run_main_loop(vec![""]);
    assert!(output.contains("Welcome to 'Rise of the Frogs'"));
    assert_eq!(error, "");
}

#[test]
fn it_should_set_last_cmd() {
    let context = run_cmd_context("a cmd with params");
    assert_eq!(context.last_cmd, "a");
    assert_eq!(context.last_params, "cmd with params");
}

#[test]
fn launch_new_normalizes_the_name_and_starts_in_the_cutscene() {
    let mut context = RotfContext::default(test_data());
    context.last_params = "new".to_string();
    rise_of_the_frogs::context_state_commands::launch(&mut context);
    rise_of_the_frogs::context_state_commands::answer_name(&mut context, "Test Game\n");
    match &context.prompt {
        Prompt::DIFFICULTY(name) => assert_eq!(name, "test game"),
        _ => panic!("the difficulty should be asked for"),
    }
    rise_of_the_frogs::context_state_commands::answer_difficulty(
        &mut context,
        "test game".to_string(),
        "2\n",
    );
    assert!(context.data.has(&"test_game".to_string()));
    let at = context.data.find(&"test_game".to_string()).unwrap();
    assert!(context.data.saves[at].metadata.is_some());
    assert!(context.data.saves[at].player.is_some());
    assert!(context.data.saves[at].environment.is_some());
    assert_eq!(context.context_state, ContextState::INGAME);
    assert_eq!(context.curr_game.as_ref().unwrap().state, GameState::CUTSCENE);
    assert_eq!(context.curr_game.as_ref().unwrap().environment.units.len(), 10);
    assert_eq!(context.curr_game.as_ref().unwrap().environment.items.len(), 3);
}

#[test]
fn a_command_after_launch_plays_the_cutscene_and_enters_the_environment() {
    let context = run_cmd_context_input("launch new", "fresh\n1\n");
    assert!(at_command(&context));
    let game = context.curr_game.as_ref().unwrap();
    assert_eq!(game.state, GameState::ENVIRONMENT);
    assert_eq!(game.difficulty, RotfDifficulty::EASY);
    assert!(context.output_text().contains("+++++ Chapter 1: A Legend is Laid +++++"));
    let mut next = context;
    parse_command("VIEW", &mut next);
    assert_eq!(next.last_cmd, "view");
    assert_eq!(next.error_text(), "");
}

#[test]
fn an_empty_line_is_no_command() {
    let mut context = RotfContext::default(test_data());
    parse_command("   \n", &mut context);
    assert_eq!(context.output_text(), "");
    assert_eq!(context.last_cmd, "");
}

#[test]
fn a_wrong_difficulty_is_asked_for_again() {
    let mut context = RotfContext::default(test_data());
    parse_command("launch new", &mut context);
    parse_command("again", &mut context);
    parse_command("7", &mut context);
    assert!(matches!(context.prompt, Prompt::DIFFICULTY(_)));
    assert!(context.output_text().contains("Please enter a number from 1 to 3"));
    parse_command("3", &mut context);
    assert!(at_command(&context));
    assert_eq!(context.curr_game.as_ref().unwrap().difficulty, RotfDifficulty::HARD);
}

#[test]
fn names_that_cannot_be_used_are_rejected() {
    let cases = [
        ("", "Can't enter empty name"),
        ("a:b", "Cannot use the following characters: -<>:\"\\/|?*^"),
        ("COM1", "Cannot use the following name: com1"),
        ("a name that is much longer than thirty characters", "Cannot enter a name of more than 30 characters"),
        ("ääääääääääääääää", "Cannot enter a name of more than 30 characters"),
        (".hidden", "Cannot start or end name with a '.'"),
        ("hidden.", "Cannot start or end name with a '.'"),
        ("Test", "That saved game already exists"),
    ];
    for (name, message) in cases {
        let mut context = RotfContext::default(test_data());
        parse_command("launch new", &mut context);
        parse_command(name, &mut context);
        assert!(at_command(&context), "{}", name);
        assert!(context.output_text().contains(message), "{}", name);
        assert!(context.curr_game.is_none());
    }
}

#[test]
fn a_name_of_thirty_bytes_is_short_enough() {
    let mut context = RotfContext::default(test_data());
    parse_command("launch new", &mut context);
    parse_command("äääääääääääääää", &mut context);
    assert!(matches!(context.prompt, Prompt::DIFFICULTY(_)));
}

#[test]
fn a_missing_catalog_is_reported_and_nothing_is_launched() {
    let mut data = test_data();
    data.units = None;
    let context = run_on(data, "launch test", "");
    assert!(context.curr_game.is_none());
    assert_eq!(context.context_state, ContextState::HOME);
    assert_eq!(context.error_text(), "Error loading unit data: data/units/data.csv not found\n");
}

#[test]
fn a_catalog_with_an_id_twice_is_reported() {
    let mut data = test_data();
    data.items = Some("item,4,Reed,0-3\nitem,4,Rush,0-3\n".to_string());
    let context = run_on(data, "launch test", "");
    assert!(context.curr_game.is_none());
    assert_eq!(context.error_text(), "Error loading item data: Duplicate item id 4\n");
}

#[test]
fn a_save_without_a_file_is_reported() {
    let mut data = test_data();
    data.saves[0].player = None;
    let context = run_on(data, "launch test", "");
    assert!(context.curr_game.is_none());
    assert_eq!(context.error_text(), "Error loading game: player.rotf not found\n");
}

#[test]
fn the_options_menu_stays_open_until_it_is_left() {
    let mut context = RotfContext::default(test_data());
    parse_command("options", &mut context);
    assert!(matches!(context.prompt, Prompt::OPTIONS));
    assert_eq!(
        context.output_text(),
        "  -- Options Menu --\nTo modify an option, enter its associated number; to leave, enter '0'\n"
    );
    context.take_effects();
    main_prompt(&mut context);
    assert_eq!(context.output_text(), "\n1: sleep_factor, value: 1\n\n choose an option > ");
    context.take_effects();
    parse_command("2", &mut context);
    assert!(matches!(context.prompt, Prompt::OPTIONS));
    assert_eq!(
        context.output_text(),
        "Invalid input. If you wish to leave the option menu, enter '0'\n"
    );
    context.take_effects();
    parse_command(" 1 \n", &mut context);
    assert!(matches!(context.prompt, Prompt::SLEEP_FACTOR));
    assert_eq!(
        context.output_text(),
        "sleep factor\n  current value: 1\n  accepted values: 0-2\n\n enter new value > "
    );
    context.take_effects();
    main_prompt(&mut context);
    assert!(context.effects.is_empty());
    parse_command("  1.5\n", &mut context);
    assert!(matches!(context.prompt, Prompt::OPTIONS));
    assert_eq!(context.effects.len(), 1);
    assert!(matches!(&context.effects[0], Effect::SLEEP_FACTOR(text) if text == "1.5"));
    context.take_effects();
    context.options.sleep_factor = "1.5".to_string();
    main_prompt(&mut context);
    assert!(context.output_text().contains("1: sleep_factor, value: 1.5\n"));
    parse_command("0", &mut context);
    assert!(at_command(&context));
    assert_eq!(context.last_cmd, "options");
}

#[test]
fn the_options_are_kept_as_they_are_shown() {
    let mut options = RotfOptions::default();
    assert_eq!(options.sleep_factor, "1");
    assert_eq!(options.file_content(), "\nsleep_factor: 1");
    options.sleep_factor = "0.25".to_string();
    assert_eq!(options.file_content(), "\nsleep_factor: 0.25");
    assert_eq!(RotfOptions::load(&options.file_content()).sleep_factor, "0.25");
    assert_eq!(RotfOptions::load("").sleep_factor, "1");
    assert_eq!(RotfOptions::load("speed: 3\n sleep_factor :  2 \nsleep_factor: fast\n").sleep_factor, "fast");
}

#[test]
fn a_command_is_asked_for_at_the_prompt() {
    let mut context = RotfContext::default(test_data());
    main_prompt(&mut context);
    assert_eq!(context.output_text(), "-------------------\n\n > ");
    context.take_effects();
    parse_command("launch new", &mut context);
    context.take_effects();
    main_prompt(&mut context);
    assert_eq!(context.output_text(), "");
}
