use rise_of_the_frogs::data::{RotfData, SavedGame};
use rise_of_the_frogs::environment::{Position, RotfEnvironment};
use rise_of_the_frogs::game::{GameState, LoadError, RotfDifficulty, RotfGame};
use rise_of_the_frogs::item::Item;
use rise_of_the_frogs::player::RotfPlayer;
use rise_of_the_frogs::traits::Positionable;
use rise_of_the_frogs::unit::Unit;

fn units_of(env: &RotfEnvironment) -> Vec<(u64, Unit)> {
    (0..env.units.len()).map(|i| (env.units.key_at(i), *env.units.value_at(i))).collect()
}

fn items_of(env: &RotfEnvironment) -> Vec<(u64, Item)> {
    (0..env.items.len()).map(|i| (env.items.key_at(i), *env.items.value_at(i))).collect()
}

fn carried(player: &RotfPlayer) -> Vec<(u64, Item)> {
    let items = &player.inventory.items;
    (0..items.len()).map(|i| (items.key_at(i), *items.value_at(i))).collect()
}

fn busy_game() -> RotfGame {
    let mut game = RotfGame::new("the big pond".to_string(), RotfDifficulty::HARD);
    game.state = GameState::ENVIRONMENT;
    game.player.level = 17;
    game.player.view_distance = Position::MEDIUM;
    game.player.inventory.capacity = 4;
    let mut near = Unit::new(3, 12);
    near.set_position(Position::NEAR);
    near.view_index = 1;
    let mut leaving = Unit::new(18446744073709551615, 255);
    leaving.despawn = true;
    leaving.view_index = -1;
    game.environment.add_unit(near);
    game.environment.add_unit(Unit::new(4, 0));
    game.environment.remove_item(1);
    game.environment.add_unit(leaving);
    game.environment.units.remove_at(1);
    let mut far = Item::new(7, 2);
    far.set_position(Position::FAR);
    far.view_index = -9223372036854775808;
    game.environment.add_item(Item::new(5, 1));
    game.environment.add_item(far);
    game.environment.pass_time();
    game.environment.pass_time();
    let mut kept = Item::new(9, 9);
    kept.view_index = 2;
    game.player.inventory.add(Item::new(8, 8));
    game.player.inventory.add(kept);
    game.player.inventory.drop(0);
    game.player.inventory.add(Item::new(10, 10));
    game
}

#[test]
fn a_unit_is_written_line_by_line() {
    let mut unit = Unit::new(42, 7);
    unit.view_index = -1;
    assert_eq!(
        unit.file_content(),
        "\n   id: 42\n   position: FAR\n   view_index: -1\n   despawn: false\n   level: 7"
    );
    assert_eq!(unit.to_string(), "ID: 42");
    assert_eq!(Item::new(1, 0).file_content(), "\n   id: 1\n   position: MEDIUM\n   view_index: 0\n   despawn: false\n   level: 0");
}

#[test]
fn a_line_is_read_into_a_unit() {
    let mut unit = Unit::new(1, 1);
    unit.read_line("  id :  77 ".to_string());
    assert_eq!(unit.id, 77);
    unit.read_line("position: NEAR".to_string());
    assert_eq!(unit.position(), Position::NEAR);
    unit.read_line("view_index: -3".to_string());
    assert_eq!(unit.view_index, -3);
    unit.read_line("despawn: true".to_string());
    assert!(unit.despawn());
    unit.read_line("level: 200".to_string());
    assert_eq!(unit.level, 200);
    let before = unit;
    unit.read_line("no colon here".to_string());
    unit.read_line("colour: green".to_string());
    assert_eq!(unit, before);
}

#[test]
fn what_cannot_be_read_falls_back() {
    let mut item = Item::new(5, 5);
    item.read_line("id: five".to_string());
    assert_eq!(item.id, 0);
    item.read_line("position: HERE".to_string());
    assert_eq!(item.position(), Position::FAR);
    item.read_line("view_index: 1.5".to_string());
    assert_eq!(item.view_index, -1);
    item.despawn = false;
    item.read_line("despawn: yes".to_string());
    assert!(item.despawn());
    item.read_line("level: 256".to_string());
    assert_eq!(item.level, 0);
}

#[test]
fn the_environment_is_written_with_its_keys() {
    let mut env = RotfEnvironment::new();
    env.add_unit(Unit::new(2, 3));
    env.add_item(Item::new(4, 5));
    env.remove_item(1);
    env.pass_time();
    assert_eq!(
        env.file_content(),
        "\ntime_passed: 1\n\
         \nnext_unit_key: 1\n%%% BEGIN UNIT\n   id: 2\n   position: FAR\n   view_index: 0\n   despawn: false\n   level: 3\n%%% END UNIT\n\
         \nnext_unit_key: 2\n\
         \nnext_item_key: 2"
    );
}

#[test]
fn the_player_is_written_with_the_inventory() {
    let mut player = RotfPlayer::new();
    player.level = 3;
    player.inventory.add(Item::new(6, 1));
    assert_eq!(
        player.file_content(),
        "\nlevel: 3\nview_distance: NEAR\n\ncapacity: 1\
         \nnext_item_key: 1\n%%% BEGIN ITEM\n   id: 6\n   position: MEDIUM\n   view_index: 0\n   despawn: false\n   level: 1\n%%% END ITEM\n\
         \nnext_item_key: 2"
    );
    assert_eq!(player.me("pond".to_string()), "Player Info\n   Name: pond\n  Level: 3\n   Tier: 1");
}

#[test]
fn the_metadata_is_written_and_the_folder_has_no_spaces() {
    let game = RotfGame::new("my big pond".to_string(), RotfDifficulty::EASY);
    assert_eq!(game.metadata_content(), "\nname: my big pond\nstate: CUTSCENE\ndifficulty: EASY");
    let saved = game.save();
    assert_eq!(saved.name, "my_big_pond");
    assert_eq!(saved.metadata, Some(game.metadata_content()));
    assert_eq!(saved.player, Some(game.player.file_content()));
    assert_eq!(saved.environment, Some(game.environment.file_content()));
}

#[test]
fn a_game_that_is_saved_and_loaded_is_the_same() {
    let game = busy_game();
    let loaded = RotfGame::load("whatever".to_string(), &game.save()).unwrap();
    assert_eq!(loaded.name, "the big pond");
    assert_eq!(loaded.state, GameState::ENVIRONMENT);
    assert_eq!(loaded.difficulty, RotfDifficulty::HARD);
    assert_eq!(loaded.player.level, 17);
    assert_eq!(loaded.player.view_distance, Position::MEDIUM);
    assert_eq!(loaded.player.inventory.capacity, 4);
    assert_eq!(loaded.environment.time_passed, 2);
    assert_eq!(units_of(&loaded.environment), units_of(&game.environment));
    assert_eq!(items_of(&loaded.environment), items_of(&game.environment));
    assert_eq!(carried(&loaded.player), carried(&game.player));
    assert_eq!(units_of(&loaded.environment).len(), 2);
    assert_eq!(units_of(&loaded.environment)[1].0, 3);
    assert_eq!(carried(&loaded.player).iter().map(|e| e.0).collect::<Vec<u64>>(), vec![2, 3]);
    assert_eq!(loaded.environment.units.next_key(), game.environment.units.next_key());
    assert_eq!(loaded.environment.items.next_key(), game.environment.items.next_key());
    assert_eq!(loaded.player.inventory.items.next_key(), 4);
    // and once more, from what was loaded
    let again = RotfGame::load("whatever".to_string(), &loaded.save()).unwrap();
    assert_eq!(again.save().environment, game.save().environment);
    assert_eq!(again.save().player, game.save().player);
    assert_eq!(again.save().metadata, game.save().metadata);
}

#[test]
fn a_fight_is_not_kept_in_a_save() {
    let mut game = busy_game();
    game.enter_combat(1, true);
    assert_eq!(game.metadata_content(), "\nname: the big pond\nstate: COMBAT\ndifficulty: HARD");
    let loaded = RotfGame::load("pond".to_string(), &game.save()).unwrap();
    assert_eq!(loaded.state, GameState::ENVIRONMENT);
    assert!(loaded.combat.is_none());
}

#[test]
fn a_game_without_a_name_in_its_metadata_is_called_after_its_folder() {
    let saved = SavedGame {
        name: "old_pond".to_string(),
        metadata: Some("difficulty: PEACEFUL\nstate: nowhere\nmood: good\n".to_string()),
        player: Some("".to_string()),
        environment: Some("".to_string()),
    };
    let loaded = RotfGame::load("old pond".to_string(), &saved).unwrap();
    assert_eq!(loaded.name, "old_pond");
    assert_eq!(loaded.difficulty, RotfDifficulty::PEACEFUL);
    assert_eq!(loaded.state, GameState::CUTSCENE);
    assert_eq!(loaded.player.inventory.capacity, 1);
}

#[test]
fn each_missing_file_is_an_error_of_its_own() {
    let whole = RotfGame::new("pond".to_string(), RotfDifficulty::NORMAL).save();
    let mut saved = whole.clone();
    saved.environment = None;
    assert_eq!(RotfGame::load("pond".to_string(), &saved).err(), Some(LoadError::ENVIRONMENT));
    saved.player = None;
    assert_eq!(RotfGame::load("pond".to_string(), &saved).err(), Some(LoadError::PLAYER));
    saved.metadata = None;
    assert_eq!(RotfGame::load("pond".to_string(), &saved).err(), Some(LoadError::METADATA));
    assert_eq!(LoadError::METADATA.message(), "metadata.rotf not found");
    assert!(RotfGame::load("pond".to_string(), &whole).is_ok());
}

#[test]
fn the_loader_is_lenient() {
    let mut env = RotfEnvironment::new();
    env.load(
        "time_passed: 3\r\nwhat is this\nnext_unit_key: 5\n  %%% BEGIN UNIT  \nid: 9\nlevel: 2\n%%% END UNIT\n\
         next_unit_key: 2\n%%% BEGIN UNIT\nid: 10\n%%% END UNIT\n\
         %%% BEGIN ITEM\nid: 1\ntime_passed: 9\n%%% END ITEM\nnext_item_key: x\n",
    );
    assert_eq!(env.time_passed, 3);
    let mut first = Unit::new(9, 2);
    first.set_position(Position::FAR);
    assert_eq!(units_of(&env), vec![(5, first), (6, Unit::new(10, 0))]);
    assert_eq!(env.units.next_key(), 7);
    assert_eq!(items_of(&env), vec![(1, Item::new(1, 0))]);
    assert_eq!(env.items.next_key(), 2);
}

#[test]
fn the_inventory_takes_no_more_than_it_has_room_for() {
    let mut player = RotfPlayer::new();
    player.load(
        "level: 4\nview_distance: FAR\ncapacity: 1\n\
         %%% BEGIN ITEM\nid: 1\n%%% END ITEM\n%%% BEGIN ITEM\nid: 2\n%%% END ITEM\n\
         %%% BEGIN UNIT\nlevel: 9\n%%% END UNIT\n",
    );
    assert_eq!(player.view_distance, Position::FAR);
    assert_eq!(carried(&player), vec![(1, Item::new(1, 0))]);
    // the player's file knows no units: the line is the player's own
    assert_eq!(player.level, 9);
    player.read_line("capacity", "12");
    assert_eq!(player.inventory.capacity, 12);
    player.read_line("next_item_key", "40");
    assert_eq!(player.inventory.items.next_key(), 40);
    player.read_line("next_item_key", "4");
    assert_eq!(player.inventory.items.next_key(), 40);
    player.read_line("level", "high");
    assert_eq!(player.level, 0);
}

#[test]
fn saves_are_kept_by_the_name_of_their_folder() {
    let mut data = RotfData::new();
    let first = RotfGame::new("a pond".to_string(), RotfDifficulty::EASY).save();
    let second = RotfGame::new("b pond".to_string(), RotfDifficulty::EASY).save();
    data.store(first.clone());
    data.store(second);
    let mut changed = first.clone();
    changed.metadata = None;
    data.store(changed);
    assert_eq!(data.names(), vec!["a_pond".to_string(), "b_pond".to_string()]);
    assert_eq!(data.find(&"b_pond".to_string()), Some(1));
    assert!(data.saves[0].metadata.is_none());
    assert!(data.delete(&"a_pond".to_string()));
    assert!(!data.delete(&"a_pond".to_string()));
    assert!(!data.has(&"a_pond".to_string()));
    assert_eq!(data.names(), vec!["b_pond".to_string()]);
}
