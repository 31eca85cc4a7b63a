use rise_of_the_frogs::commands::{get_current_commands, parse_command};
use rise_of_the_frogs::context::{ContextState, RotfContext};
use rise_of_the_frogs::data::RotfData;
use rise_of_the_frogs::environment::{Position, RotfEnvironment};
use rise_of_the_frogs::environment_commands::{command, drop, fight, inventory, pickup, view, wait};
use rise_of_the_frogs::game::{GameState, RotfDifficulty, RotfGame};
use rise_of_the_frogs::inventory::Inventory;
use rise_of_the_frogs::item::Item;
use rise_of_the_frogs::item_loader::ItemLoader;
use rise_of_the_frogs::player::RotfPlayer;
use rise_of_the_frogs::traits::Positionable;
use rise_of_the_frogs::unit::Unit;
use rise_of_the_frogs::unit_loader::UnitLoader;

fn unit_at(id: u64, position: Position) -> Unit {
    let mut unit = Unit::new(id, 1);
    unit.set_position(position);
    unit
}

fn item_at(id: u64, position: Position) -> Item {
    let mut item = Item::new(id, 1);
    item.set_position(position);
    item
}

// A session in a game in the environment, with catalogs for the names.
fn in_environment(view_distance: Position) -> RotfContext {
    let mut data = RotfData::new();
    data.units = Some("u,1,Frog,0-20\nu,2,Toad,0-20\n".to_string());
    data.items = Some("i,1,Lily Pad,0-20\ni,2,Reed,0-20\n".to_string());
    let mut context = RotfContext::default(data);
    let mut game = RotfGame::new("pond".to_string(), RotfDifficulty::default());
    game.player.view_distance = view_distance;
    assert!(context.launch_game(game, false));
    context.curr_game.as_mut().unwrap().state = GameState::ENVIRONMENT;
    context.take_effects();
    context
}

fn environment(context: &mut RotfContext) -> &mut RotfEnvironment {
    &mut context.curr_game.as_mut().unwrap().environment
}

fn unit_indices(context: &RotfContext) -> Vec<i64> {
    let units = &context.curr_game.as_ref().unwrap().environment.units;
    (0..units.len()).map(|i| units.value_at(i).view_index).collect()
}

fn item_indices(context: &RotfContext) -> Vec<i64> {
    let items = &context.curr_game.as_ref().unwrap().environment.items;
    (0..items.len()).map(|i| items.value_at(i).view_index).collect()
}

#[test]
fn distances_are_one_two_three() {
    assert_eq!(Position::NEAR.distance(), 1);
    assert_eq!(Position::MEDIUM.distance(), 2);
    assert_eq!(Position::FAR.distance(), 3);
}

#[test]
fn positions_are_read_from_their_names() {
    assert_eq!(Position::from_str("NEAR"), Ok(Position::NEAR));
    assert_eq!(Position::from_str("MEDIUM"), Ok(Position::MEDIUM));
    assert_eq!(Position::from_str("FAR"), Ok(Position::FAR));
    assert_eq!(Position::from_str("near"), Err(()));
    assert_eq!(Position::FAR.name(), "FAR");
}

#[test]
fn what_is_in_view_depends_on_the_view_distance() {
    let positions = [Position::NEAR, Position::MEDIUM, Position::FAR];
    for view_distance in positions {
        let mut player = RotfPlayer::new();
        player.view_distance = view_distance;
        assert!(player.can_view(&unit_at(1, Position::NEAR)));
        assert_eq!(
            player.can_view(&unit_at(1, Position::MEDIUM)),
            view_distance == Position::MEDIUM || view_distance == Position::FAR
        );
        assert_eq!(player.can_view(&item_at(1, Position::FAR)), view_distance == Position::FAR);
    }
}

#[test]
fn the_tier_is_one_more_for_every_ten_levels() {
    let mut player = RotfPlayer::new();
    assert_eq!(player.tier(), 1);
    player.level = 9;
    assert_eq!(player.tier(), 1);
    player.level = 10;
    assert_eq!(player.tier(), 2);
    player.level = 255;
    assert_eq!(player.tier(), 26);
}

#[test]
fn only_the_first_tier_has_units_and_items() {
    assert_eq!(RotfEnvironment::new().num_units(1), 10);
    assert_eq!(RotfEnvironment::new().num_items(1), 3);
    assert_eq!(RotfEnvironment::new().num_units(2), 0);
    assert_eq!(RotfEnvironment::new().num_items(0), 0);
}

#[test]
fn keys_are_never_used_again() {
    let mut env = RotfEnvironment::new();
    env.add_item(Item::new(1, 0));
    env.add_item(Item::new(2, 0));
    assert_eq!(env.items.key_at(0), 1);
    assert_eq!(env.items.key_at(1), 2);
    assert_eq!(env.remove_item(2), Some(Item::new(2, 0)));
    assert_eq!(env.remove_item(2), None);
    env.add_item(Item::new(3, 0));
    assert_eq!(env.items.key_at(1), 3);
    assert_eq!(env.items.next_key(), 4);
    env.add_unit(Unit::new(9, 0));
    assert_eq!(env.units.key_at(0), 1);
    assert_eq!(env.units.next_key(), 2);
}

#[test]
fn initial_spawns_fill_the_environment_and_no_time_moves_nothing() {
    let player = RotfPlayer::new();
    let mut units = UnitLoader::new();
    assert_eq!(units.load_data("x,5,Frog,0-20"), Ok(()));
    units.update_current_units(&player);
    let items = ItemLoader::new();
    let mut env = RotfEnvironment::new();
    env.initial_spawns(&player, &units, &items);
    assert_eq!(env.units.len(), 10);
    assert_eq!(env.items.len(), 0);
    for i in 0..env.units.len() {
        assert_eq!(env.units.value_at(i).id, 5);
        assert_eq!(env.units.key_at(i), i as u64 + 1);
        assert!(env.units.value_at(i).level <= 5);
    }
    let before: Vec<(u64, Unit)> =
        (0..env.units.len()).map(|i| (env.units.key_at(i), *env.units.value_at(i))).collect();
    assert_eq!(env.time_passed, 0);
    let attacker = env.update(&player, &units, &items);
    assert_eq!(attacker, None);
    let after: Vec<(u64, Unit)> =
        (0..env.units.len()).map(|i| (env.units.key_at(i), *env.units.value_at(i))).collect();
    assert_eq!(before, after);
    assert_eq!(env.time_passed, 0);
}

#[test]
fn an_empty_catalog_spawns_nothing() {
    let player = RotfPlayer::new();
    let units = UnitLoader::new();
    let items = ItemLoader::new();
    assert_eq!(units.spawn(), (0, 0));
    assert_eq!(items.spawn(), (0, 0));
    let mut env = RotfEnvironment::new();
    env.initial_spawns(&player, &units, &items);
    assert_eq!(env.units.len(), 0);
    assert_eq!(env.items.len(), 0);
    assert_eq!(env.units.next_key(), 1);
}

#[test]
fn an_update_removes_what_left_and_fills_up_again() {
    let player = RotfPlayer::new();
    let mut units = UnitLoader::new();
    units.load_data("x,5,Frog,0-20").unwrap();
    units.update_current_units(&player);
    let mut items = ItemLoader::new();
    items.load_data("x,7,Reed,0-20").unwrap();
    items.update_current_items(&player);
    let mut env = RotfEnvironment::new();
    let mut leaving = Unit::new(3, 0);
    leaving.despawn = true;
    env.add_unit(leaving);
    let mut gone = Item::new(4, 0);
    gone.despawn = true;
    env.add_item(gone);
    env.update(&player, &units, &items);
    assert_eq!(env.units.len(), 10);
    assert_eq!(env.items.len(), 3);
    for i in 0..env.units.len() {
        assert_eq!(*env.units.value_at(i), Unit::new(5, env.units.value_at(i).level));
        assert_eq!(env.units.key_at(i), i as u64 + 2);
    }
    for i in 0..env.items.len() {
        assert_eq!(*env.items.value_at(i), Item::new(7, 0));
    }
}

#[test]
fn time_that_passed_is_gone_after_an_update() {
    let player = RotfPlayer::new();
    let units = UnitLoader::new();
    let items = ItemLoader::new();
    let mut env = RotfEnvironment::new();
    env.add_unit(unit_at(1, Position::MEDIUM));
    for _ in 0..4 {
        env.pass_time();
    }
    assert_eq!(env.time_passed, 4);
    let attacker = env.update(&player, &units, &items);
    assert_eq!(env.time_passed, 0);
    assert_eq!(attacker, None);
    // after four units of time a unit moves for sure: from the middle
    // outwards or inwards
    assert_eq!(env.units.len(), 1);
    assert_ne!(env.units.value_at(0).position(), Position::MEDIUM);
}

#[test]
fn a_step_goes_where_the_coin_says() {
    let mut unit = unit_at(1, Position::FAR);
    assert!(!unit.step(true));
    assert_eq!(unit, unit_at(1, Position::MEDIUM));
    assert!(!unit.step(false));
    assert_eq!(unit, unit_at(1, Position::NEAR));
    assert!(unit.step(false));
    assert_eq!(unit, unit_at(1, Position::NEAR));
    assert!(!unit.step(true));
    assert!(!unit.step(true));
    assert_eq!(unit, unit_at(1, Position::FAR));
    assert!(!unit.step(false));
    assert!(unit.despawn());
    assert_eq!(unit.position(), Position::FAR);

    let mut item = item_at(2, Position::NEAR);
    item.step(false);
    assert_eq!(item, item_at(2, Position::NEAR));
    item.step(true);
    assert_eq!(item, item_at(2, Position::MEDIUM));
    item.step(true);
    item.step(false);
    assert!(item.despawn());
}

#[test]
fn nothing_moves_when_no_time_has_passed() {
    for _ in 0..50 {
        let mut unit = unit_at(1, Position::NEAR);
        assert!(!unit.possible_move(0));
        assert_eq!(unit, unit_at(1, Position::NEAR));
        let mut item = item_at(1, Position::FAR);
        item.possible_move(0);
        assert_eq!(item, item_at(1, Position::FAR));
    }
}

#[test]
fn a_full_inventory_hands_the_item_back() {
    let mut inventory = Inventory::new();
    assert!(inventory.can_pickup());
    assert_eq!(inventory.add(Item::new(1, 2)), None);
    assert!(!inventory.can_pickup());
    assert_eq!(inventory.items.next_key(), 2);
    assert_eq!(inventory.add(Item::new(3, 4)), Some(Item::new(3, 4)));
    assert_eq!(inventory.items.next_key(), 2);
    assert_eq!(inventory.list(), vec![&Item::new(1, 2)]);
}

#[test]
fn an_item_is_dropped_by_its_view_index() {
    let mut inventory = Inventory::new();
    inventory.capacity = 3;
    let mut first = Item::new(1, 0);
    first.view_index = 2;
    let mut second = Item::new(2, 0);
    second.view_index = 1;
    let mut third = Item::new(3, 0);
    third.view_index = 2;
    inventory.add(first);
    inventory.add(second);
    inventory.add(third);
    assert_eq!(inventory.drop(5), None);
    assert_eq!(inventory.drop(2), Some(first));
    assert_eq!(inventory.list(), vec![&second, &third]);
    assert_eq!(inventory.drop(2), Some(third));
    assert_eq!(inventory.items.next_key(), 4);
}

#[test]
fn view_numbers_what_is_in_view() {
    let mut context = in_environment(Position::MEDIUM);
    environment(&mut context).add_unit(unit_at(1, Position::FAR));
    environment(&mut context).add_unit(unit_at(2, Position::NEAR));
    let mut leaving = unit_at(1, Position::NEAR);
    leaving.despawn = true;
    environment(&mut context).add_unit(leaving);
    environment(&mut context).add_unit(unit_at(1, Position::MEDIUM));
    environment(&mut context).add_item(item_at(2, Position::MEDIUM));
    environment(&mut context).add_item(item_at(1, Position::FAR));
    view(&mut context);
    assert_eq!(unit_indices(&context), vec![-1, 1, -1, 2]);
    assert_eq!(item_indices(&context), vec![1, -1]);
    assert_eq!(
        context.output_text(),
        "Units\n  1: Toad (1)\n  2: Frog (1)\n\nItems\n  1: Reed (1)\n\n"
    );
}

#[test]
fn view_twice_shows_the_same() {
    let mut context = in_environment(Position::FAR);
    environment(&mut context).add_unit(unit_at(1, Position::FAR));
    environment(&mut context).add_unit(unit_at(2, Position::NEAR));
    environment(&mut context).add_item(item_at(2, Position::MEDIUM));
    view(&mut context);
    let units = unit_indices(&context);
    let items = item_indices(&context);
    let shown = context.output_text();
    context.take_effects();
    view(&mut context);
    assert_eq!(unit_indices(&context), units);
    assert_eq!(item_indices(&context), items);
    assert_eq!(context.output_text(), shown);
    assert_eq!(units, vec![1, 2]);
}

#[test]
fn wait_lets_time_pass() {
    let mut context = in_environment(Position::NEAR);
    wait(&mut context);
    assert_eq!(environment(&mut context).time_passed, 1);
    inventory(&mut context);
    view(&mut context);
    assert_eq!(environment(&mut context).time_passed, 1);
}

#[test]
fn fight_without_a_unit_at_the_index_changes_nothing() {
    let mut context = in_environment(Position::FAR);
    environment(&mut context).add_unit(unit_at(1, Position::NEAR));
    context.last_params = "1".to_string();
    fight(&mut context);
    assert_eq!(context.output_text(), "Unit not found\n");
    let game = context.curr_game.as_ref().unwrap();
    assert_eq!(game.state, GameState::ENVIRONMENT);
    assert!(game.combat.is_none());
    assert_eq!(game.environment.time_passed, 0);
}

#[test]
fn fight_needs_an_index() {
    let mut context = in_environment(Position::FAR);
    context.last_params = "frog".to_string();
    fight(&mut context);
    assert_eq!(context.output_text(), "Invalid index. Must be a positive integer.\n");
    context.take_effects();
    context.last_params = "0".to_string();
    fight(&mut context);
    assert_eq!(context.output_text(), "Invalid index. Must be a positive integer.\n");
}

#[test]
fn fight_starts_a_fight_with_the_unit_in_view() {
    let mut context = in_environment(Position::FAR);
    environment(&mut context).add_unit(unit_at(1, Position::FAR));
    environment(&mut context).add_unit(unit_at(2, Position::NEAR));
    view(&mut context);
    context.take_effects();
    context.last_params = "2".to_string();
    fight(&mut context);
    let game = context.curr_game.as_ref().unwrap();
    assert_eq!(game.state, GameState::COMBAT);
    let combat = game.combat.as_ref().unwrap();
    assert_eq!(combat.turn, 0);
    assert_eq!(combat.teams.len(), 2);
    assert_eq!(combat.teams[0].name, "player");
    assert!(combat.teams[0].members[0].is_player);
    assert_eq!(combat.teams[1].name, "enemy");
    assert_eq!(combat.teams[1].members[0].unit_index, 2);
    assert_eq!(game.environment.time_passed, 1);
    assert_eq!(context.output_text(), "");
}

#[test]
fn fight_with_a_unit_out_of_view_is_refused() {
    let mut context = in_environment(Position::FAR);
    environment(&mut context).add_unit(unit_at(1, Position::FAR));
    view(&mut context);
    context.take_effects();
    context.curr_game.as_mut().unwrap().player.view_distance = Position::NEAR;
    context.last_params = "1".to_string();
    fight(&mut context);
    assert_eq!(context.output_text(), "Unit no longer in view. Use 'view' to update view\n");
    assert_eq!(context.curr_game.as_ref().unwrap().state, GameState::ENVIRONMENT);
}

#[test]
fn a_unit_that_attacks_has_the_first_turn() {
    let mut game = RotfGame::new("pond".to_string(), RotfDifficulty::default());
    game.enter_combat(7, false);
    assert_eq!(game.state, GameState::COMBAT);
    assert_eq!(game.combat.as_ref().unwrap().turn, 1);
    assert_eq!(game.commands().len(), 1);
    game.leave_combat();
    assert_eq!(game.state, GameState::ENVIRONMENT);
    assert!(game.combat.is_none());
    assert_eq!(game.commands().len(), 6);
}

#[test]
fn pickup_moves_the_item_into_the_inventory() {
    let mut context = in_environment(Position::FAR);
    environment(&mut context).add_item(item_at(1, Position::NEAR));
    environment(&mut context).add_item(item_at(2, Position::FAR));
    view(&mut context);
    context.take_effects();
    context.last_params = "2".to_string();
    pickup(&mut context);
    assert_eq!(context.output_text(), "Picked up ID: 2\n");
    let game = context.curr_game.as_ref().unwrap();
    assert_eq!(game.environment.items.len(), 1);
    assert_eq!(game.environment.items.value_at(0).id, 1);
    assert_eq!(game.player.inventory.items.len(), 1);
    assert_eq!(game.player.inventory.items.key_at(0), 1);
    assert_eq!(game.player.inventory.items.value_at(0).id, 2);
    assert_eq!(game.environment.time_passed, 1);
    context.take_effects();
    context.last_params = "1".to_string();
    pickup(&mut context);
    assert_eq!(context.output_text(), "Your inventory is out of space\n");
    assert_eq!(context.curr_game.as_ref().unwrap().environment.items.len(), 1);
}

#[test]
fn pickup_without_an_item_at_the_index_changes_nothing() {
    let mut context = in_environment(Position::FAR);
    environment(&mut context).add_item(item_at(1, Position::NEAR));
    context.last_params = "3".to_string();
    pickup(&mut context);
    assert_eq!(context.output_text(), "Item not found\n");
    context.take_effects();
    context.last_params = "x".to_string();
    pickup(&mut context);
    assert_eq!(context.output_text(), "Invalid index. Must be a positive integer\n");
    assert_eq!(context.curr_game.as_ref().unwrap().environment.items.len(), 1);
    assert_eq!(context.curr_game.as_ref().unwrap().environment.time_passed, 0);
}

#[test]
fn drop_without_an_item_at_the_index_changes_nothing() {
    let mut context = in_environment(Position::FAR);
    let mut carried = Item::new(1, 3);
    carried.view_index = 1;
    context.curr_game.as_mut().unwrap().player.inventory.add(carried);
    context.last_params = "2".to_string();
    drop(&mut context);
    assert_eq!(context.output_text(), "Item not found\n");
    let game = context.curr_game.as_ref().unwrap();
    assert_eq!(game.environment.items.len(), 0);
    assert_eq!(game.environment.items.next_key(), 1);
    assert_eq!(game.player.inventory.items.len(), 1);
}

#[test]
fn drop_lays_the_item_near_the_player() {
    let mut context = in_environment(Position::FAR);
    let mut carried = item_at(2, Position::FAR);
    carried.view_index = 1;
    context.curr_game.as_mut().unwrap().player.inventory.add(carried);
    context.last_params = "".to_string();
    drop(&mut context);
    assert!(context.output_text().contains("Need to specify an item to drop"));
    context.take_effects();
    context.last_params = "1".to_string();
    drop(&mut context);
    assert_eq!(context.output_text(), "Dropped Reed (1)\n");
    let game = context.curr_game.as_ref().unwrap();
    assert_eq!(game.player.inventory.items.len(), 0);
    assert_eq!(game.environment.items.key_at(0), 1);
    let mut expected = carried;
    expected.set_position(Position::NEAR);
    assert_eq!(*game.environment.items.value_at(0), expected);
}

#[test]
fn the_inventory_is_listed_from_one() {
    let mut context = in_environment(Position::FAR);
    context.curr_game.as_mut().unwrap().player.inventory.capacity = 2;
    context.curr_game.as_mut().unwrap().player.inventory.add(Item::new(2, 4));
    context.curr_game.as_mut().unwrap().player.inventory.add(Item::new(9, 0));
    inventory(&mut context);
    assert_eq!(
        context.output_text(),
        "  -- Inventory --\nCapacity: 2\nItems:\n  1: Reed (4)\n  2:  (0)\n\n"
    );
}

#[test]
fn environment_commands_need_a_game_in_the_environment() {
    let mut context = RotfContext::default(RotfData::new());
    command(&mut context, "view");
    assert_eq!(context.output_text(), "Cannot use environment command view with no game\n");
    let mut context = in_environment(Position::FAR);
    context.curr_game.as_mut().unwrap().state = GameState::CUTSCENE;
    command(&mut context, "wait");
    assert_eq!(
        context.output_text(),
        "Cannot use environment command wait when not in environment\n"
    );
    let mut context = in_environment(Position::FAR);
    command(&mut context, "dance");
    assert_eq!(context.output_text(), "Environment command dance not implemented\n");
}

#[test]
fn the_commands_follow_the_state() {
    let mut context = in_environment(Position::FAR);
    parse_command("ls", &mut context);
    for name in ["view", "wait", "fight", "pickup", "inventory", "drop", "me", "save"] {
        assert!(context.commands.contains(&name.to_string()), "{}", name);
    }
    assert!(!context.commands.contains(&"launch".to_string()));
    assert!(!context.commands.contains(&"flee".to_string()));
    assert!(context.commands.contains(&"inv".to_string()));
    environment(&mut context).add_unit(unit_at(1, Position::NEAR));
    parse_command("view", &mut context);
    parse_command("fi 1", &mut context);
    assert_eq!(context.curr_game.as_ref().unwrap().state, GameState::COMBAT);
    assert!(context.commands.contains(&"flee".to_string()));
    assert!(!context.commands.contains(&"view".to_string()));
    parse_command("view", &mut context);
    assert!(context.output_text().ends_with("Invalid command\n"));
    // with no time left to take effect, nothing moves once the fight is over
    environment(&mut context).time_passed = 0;
    parse_command("flee", &mut context);
    assert_eq!(context.curr_game.as_ref().unwrap().state, GameState::ENVIRONMENT);
    assert!(context.commands.contains(&"view".to_string()));
    parse_command("save", &mut context);
    assert_eq!(context.context_state, ContextState::HOME);
    assert!(context.commands.contains(&"launch".to_string()));
    assert!(context.commands.contains(&"delete".to_string()));
    assert!(!context.commands.contains(&"me".to_string()));
    assert!(context.commands.contains(&"?".to_string()));
    assert!(context.all_commands.contains(&"flee".to_string()));
    assert!(!context.all_commands.contains(&"list".to_string()));
}

#[test]
fn a_roll_picks_a_position() {
    assert_eq!(Position::from_roll(1), Position::NEAR);
    assert_eq!(Position::from_roll(2), Position::MEDIUM);
    assert_eq!(Position::from_roll(3), Position::FAR);
    assert_eq!(Position::from_roll(0), Position::FAR);
    let mut seen = [false; 3];
    for _ in 0..300 {
        let mut unit = Unit::new(1, 1);
        unit.randomize_position();
        seen[unit.position().distance() as usize - 1] = true;
        assert_eq!(unit, unit_at(1, unit.position()));
    }
    assert_eq!(seen, [true; 3]);
}

#[test]
fn the_time_of_a_fight_takes_effect_when_the_fight_is_over() {
    for _ in 0..40 {
        let mut context = in_environment(Position::FAR);
        context.commands = get_current_commands(&context);
        environment(&mut context).add_unit(unit_at(1, Position::NEAR));
        parse_command("view", &mut context);
        parse_command("fight 1", &mut context);
        assert_eq!(context.curr_game.as_ref().unwrap().state, GameState::COMBAT);
        assert_eq!(context.curr_game.as_ref().unwrap().environment.time_passed, 1);
        parse_command("flee", &mut context);
        let game = context.curr_game.as_ref().unwrap();
        assert_eq!(game.environment.time_passed, 0);
        assert_eq!(game.environment.units.len(), 10);
        assert_eq!(game.environment.units.key_at(0), 1);
        match game.state {
            // the unit nearby may have attacked: then it has the first turn
            GameState::COMBAT => {
                let combat = game.combat.as_ref().unwrap();
                assert_eq!(combat.turn, 1);
                assert_eq!(combat.teams[1].members[0].unit_index, 1);
                assert_eq!(game.environment.units.value_at(0).position(), Position::NEAR);
                assert!(context.commands.contains(&"flee".to_string()));
            }
            GameState::ENVIRONMENT => {
                assert!(game.combat.is_none());
                assert!(context.commands.contains(&"view".to_string()));
            }
            GameState::CUTSCENE => panic!("no cutscene is due"),
        }
    }
}
