use rise_of_the_frogs::catalog::DuplicateId;
use rise_of_the_frogs::cutscene::{CutsceneMode, RotfCutscene};
use rise_of_the_frogs::context::{Effect, RotfContext};
use rise_of_the_frogs::data::RotfData;
use rise_of_the_frogs::item::Item;
use rise_of_the_frogs::item_loader::ItemLoader;
use rise_of_the_frogs::numeric::IntegerRange;
use rise_of_the_frogs::player::RotfPlayer;
use rise_of_the_frogs::unit::Unit;
use rise_of_the_frogs::unit_loader::UnitLoader;
use rise_of_the_frogs::ability::Ability;
use rise_of_the_frogs::game::{GameState, RotfDifficulty};

fn player_at(level: u8) -> RotfPlayer {
    let mut player = RotfPlayer::new();
    player.level = level;
    player
}

#[test]
fn rows_are_read_and_bad_rows_are_left_out() {
    let mut loader = UnitLoader::new();
    let rows = "unit,1, Frog ,0-20\n\
                too,few,fields\n\
                unit,x,No Number,1-2\n\
                unit,0,Zero,1-2\n\
                unit,3,   ,1-2\n\
                unit, 4,Spaced Id,1-2\n\
                  unit,5,Toad,7,more,fields  \n";
    assert_eq!(loader.load_data(rows), Ok(()));
    assert_eq!(loader.get_data(1).name, "Frog");
    assert_eq!(loader.get_data(1).id, 1);
    assert_eq!(loader.get_data(1).level_range, IntegerRange { start: 0, end: 20 });
    assert_eq!(loader.get_data(5).name, "Toad");
    assert_eq!(loader.get_data(5).level_range, IntegerRange { start: 7, end: 7 });
    for id in [0, 2, 3, 4, 6] {
        assert_eq!(loader.get_data(id).id, 0);
        assert_eq!(loader.get_data(id).name, "");
        assert_eq!(loader.get_data(id).level_range, IntegerRange { start: -1, end: -1 });
    }
}

#[test]
fn an_id_twice_stops_the_load() {
    let mut loader = ItemLoader::new();
    let rows = "i,1,Reed,0-5\ni,2,Rush,0-5\ni,1,Reed Again,9-9\ni,3,Sedge,0-5\n";
    assert_eq!(loader.load_data(rows), Err(DuplicateId { id: 1 }));
    assert_eq!(loader.get_data(1).name, "Reed");
    assert_eq!(loader.get_data(2).name, "Rush");
    assert_eq!(loader.get_data(3).name, "");
    assert_eq!(loader.load_data("i,3,Sedge,0-5\n"), Ok(()));
    assert_eq!(loader.get_data(3).name, "Sedge");
}

#[test]
fn only_what_fits_the_level_may_spawn() {
    let mut loader = UnitLoader::new();
    loader.load_data("u,1,Frog,0-9\nu,2,Toad,10-19\nu,3,Newt,10\n").unwrap();
    loader.update_current_units(&player_at(9));
    for _ in 0..50 {
        assert_eq!(loader.spawn().0, 1);
    }
    loader.update_current_units(&player_at(10));
    let mut seen = [false; 4];
    for _ in 0..200 {
        seen[loader.spawn().0 as usize] = true;
    }
    assert_eq!(seen, [false, false, true, true]);
    loader.update_current_units(&player_at(20));
    assert_eq!(loader.spawn(), (0, 0));
}

#[test]
fn units_spawn_around_the_level_of_the_player() {
    let mut loader = UnitLoader::new();
    loader.load_data("u,1,Frog,0-40\nu,2,Toad,30-33\nu,3,Newt,100-300\nu,4,Eft,2-25\n").unwrap();
    loader.update_current_units(&player_at(3));
    assert_eq!(loader.level_bounds(1), (0, 8));
    loader.update_current_units(&player_at(30));
    assert_eq!(loader.level_bounds(1), (0, 35));
    assert_eq!(loader.level_bounds(2), (25, 33));
    assert_eq!(loader.level_bounds(3), (25, 0));
    assert_eq!(loader.level_bounds(4), (2, 25));
    assert_eq!(loader.level_bounds(9), (0, 0));
    loader.update_current_units(&player_at(255));
    assert_eq!(loader.level_bounds(3), (100, 0));
    assert_eq!(loader.level_bounds(1), (0, 40));
    loader.update_current_units(&player_at(31));
    let mut low = false;
    let mut high = false;
    for _ in 0..2000 {
        let (id, level) = loader.spawn();
        match id {
            1 => assert!(level <= 36),
            2 => {
                assert!((26..=33).contains(&level));
                low = low || level == 26;
                high = high || level == 33;
            }
            _ => panic!("no other unit may spawn at this level"),
        }
    }
    assert!(low && high);
}

#[test]
fn items_spawn_below_the_level_of_the_player() {
    let mut loader = ItemLoader::new();
    loader.load_data("i,1,Reed,0-40\ni,2,Rush,30-33\ni,3,Sedge,5-6\n").unwrap();
    loader.update_current_items(&player_at(2));
    assert_eq!(loader.level_bounds(1), (0, 0));
    loader.update_current_items(&player_at(10));
    assert_eq!(loader.level_bounds(1), (0, 7));
    loader.update_current_items(&player_at(32));
    assert_eq!(loader.level_bounds(1), (0, 29));
    assert_eq!(loader.level_bounds(2), (22, 29));
    assert_eq!(loader.level_bounds(3), (5, 6));
    for _ in 0..500 {
        let (id, level) = loader.spawn();
        match id {
            1 => assert!(level <= 29),
            2 => assert!((22..=29).contains(&level)),
            _ => panic!("no other item may spawn at this level"),
        }
    }
}

#[test]
fn things_are_shown_under_their_names() {
    let mut units = UnitLoader::new();
    units.load_data("u,4,Pond Skater,0-9\n").unwrap();
    let mut items = ItemLoader::new();
    items.load_data("i,4,Lily Pad,0-9\n").unwrap();
    assert_eq!(Unit::new(4, 12).view_short(&units), "Pond Skater (12)");
    assert_eq!(Unit::new(5, 0).view_short(&units), " (0)");
    assert_eq!(Item::new(4, 255).view_short(&items), "Lily Pad (255)");
    assert_eq!(Item::new(4, 3).to_string(), "ID: 4");
    assert_eq!(Unit::new(4, 3).abilities(), vec![Ability::NOTHING]);
    assert_eq!(Item::spawn(&RotfPlayer::new()), Item::new(0, 0));
    assert!(Item::possible_ids(1).is_empty());
}

#[test]
fn names_are_read_as_they_are_written() {
    assert_eq!(Ability::from_str("NOTHING"), Ok(Ability::NOTHING));
    assert_eq!(Ability::from_str("nothing"), Err(()));
    assert_eq!(Ability::NOTHING.name(), "NOTHING");
    for state in [GameState::CUTSCENE, GameState::ENVIRONMENT, GameState::COMBAT] {
        assert_eq!(GameState::from_str(state.name()), Ok(state));
    }
    assert_eq!(GameState::from_str("Combat"), Err(()));
    let difficulties = [
        RotfDifficulty::PEACEFUL,
        RotfDifficulty::EASY,
        RotfDifficulty::NORMAL,
        RotfDifficulty::HARD,
    ];
    for difficulty in difficulties {
        assert_eq!(RotfDifficulty::from_str(difficulty.name()), Ok(difficulty));
    }
    assert_eq!(RotfDifficulty::from_str(""), Err(()));
    assert_eq!(RotfDifficulty::default(), RotfDifficulty::NORMAL);
    assert_eq!(CutsceneMode::from_str("LINE_AFTER"), Ok(CutsceneMode::LINE_AFTER));
    assert_eq!(CutsceneMode::from_str("INSTANT"), Ok(CutsceneMode::INSTANT));
    assert_eq!(CutsceneMode::from_str("LINE_BEFORE"), Ok(CutsceneMode::LINE_BEFORE));
    assert_eq!(CutsceneMode::from_str("LETTER_BY_LETTER"), Ok(CutsceneMode::LETTER_BY_LETTER));
    assert_eq!(CutsceneMode::from_str("SLOW"), Err(()));
    assert_eq!(CutsceneMode::default(), CutsceneMode::LETTER_BY_LETTER);
    assert_eq!(RotfCutscene::LAUNCH_GAME.name(), "LAUNCH_GAME");
}

fn shown(effects: &[Effect]) -> Vec<String> {
    effects
        .iter()
        .map(|e| match e {
            Effect::PRINT(text) => format!("P{:?}", text),
            Effect::ERROR(text) => format!("E{:?}", text),
            Effect::SLEEP_LINE => "line".to_string(),
            Effect::SLEEP_CHAR => "char".to_string(),
            _ => "other".to_string(),
        })
        .collect()
}

#[test]
fn a_cutscene_is_played_in_its_modes() {
    let mut data = RotfData::new();
    data.launch_game = Some(
        "ab\n %%% mode = LINE_AFTER \nc%%d\n%%% mode = LINE_BEFORE\ne%%f\n%%% mode = FAST\n%%% mode = INSTANT\ng%%h\n"
            .to_string(),
    );
    let mut context = RotfContext::default_context(data, false);
    assert!(RotfCutscene::LAUNCH_GAME.play(&mut context).is_ok());
    assert_eq!(
        shown(&context.effects),
        vec![
            "P\"\\n\"", "line",
            "P\"a\"", "char", "P\"b\"", "char", "line", "P\"\\n\"",
            "P\"c\"", "line", "P\"d\\n\"", "line",
            "P\"e\"", "line", "P\"f\"", "line", "P\"\\n\"",
            "P\"g%%h\\n\"",
            "P\"\\n\"", "line",
        ]
    );
    context.take_effects();
    context.testing = true;
    assert!(RotfCutscene::LAUNCH_GAME.play(&mut context).is_ok());
    assert_eq!(context.output_text(), "\nab\ncd\nef\ng%%h\n\n");
    assert!(context.effects.iter().all(|e| matches!(e, Effect::PRINT(_))));
}

#[test]
fn a_cutscene_without_a_file_is_reported() {
    let mut context = RotfContext::default(RotfData::new());
    assert!(RotfCutscene::LAUNCH_GAME.play(&mut context).is_err());
    assert!(context.effects.is_empty());
    RotfCutscene::LAUNCH_GAME.play_or_report(&mut context);
    assert_eq!(
        context.error_text(),
        "Error playing cutscene: data/cutscenes/LAUNCH_GAME.rotf not found\n"
    );
    assert_eq!(context.output_text(), "");
}

#[test]
fn what_is_said_is_kept_in_order() {
    let mut context = RotfContext::default_context(RotfData::new(), false);
    context.print("a");
    context.println("b");
    context.lnprint("c");
    context.print_sleep("d");
    context.println_sleep("e");
    context.lnprint_sleep("f");
    context.print_letter_by_letter("gh");
    context.println_letter_by_letter("i");
    context.print_data("k", "v");
    context.eprintln("oops");
    context.print_error("trying", "failed");
    assert_eq!(context.output_text(), "ab\n\ncde\n\nfghi\nk: voops\n");
    assert_eq!(context.error_text(), "Error trying: failed\n");
    assert_eq!(
        shown(&context.effects),
        vec![
            "P\"a\"", "P\"b\\n\"", "P\"\\nc\"", "P\"d\"", "line", "P\"e\\n\"", "line",
            "P\"\\nf\"", "line", "P\"g\"", "char", "P\"h\"", "char", "line", "P\"i\"", "char",
            "line", "P\"\\n\"", "P\"k: v\"", "P\"oops\\n\"", "E\"Error trying: failed\\n\"",
        ]
    );
    let taken = context.take_effects();
    assert_eq!(taken.len(), 21);
    assert!(context.effects.is_empty());
}
