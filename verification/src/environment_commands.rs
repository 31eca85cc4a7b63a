//! The commands of a player in the environment: looking around, waiting,
//! fighting, and handling items.

use crate::context::RotfContext;
use crate::credits::line;
use crate::entity_map::EntityMap;
use crate::environment::Position;
use crate::inventory::position_of_view_index;
use crate::game::{GameState, RotfGame};
use crate::item::Item;
use crate::item_loader::ItemLoader;
use crate::player::RotfPlayer;
use crate::text::{
    chars_of, decimal, eq_str, parse_i64, push_decimal, push_signed, signed_decimal,
    spec_parse_i64,
};
use crate::traits::Positionable;
use crate::unit::Unit;
use crate::unit_loader::UnitLoader;
use vstd::prelude::*;
use vstd::string::StringExecFns;

verus! {

/// The index under which the next thing in view is shown, after `count`
/// things in view before it: they are counted from one.
pub open spec fn next_index(count: nat) -> i64 {
    if count + 1 <= i64::MAX {
        (count + 1) as i64
    } else {
        i64::MAX
    }
}

/// Whether the player sees the unit: it is not about to leave the world,
/// and no farther away than the player's view reaches.
pub open spec fn unit_in_view(unit: Unit, player: &RotfPlayer) -> bool {
    !unit.despawn && player.sees(unit.position)
}

/// Whether the player sees the item: it is no farther away than the
/// player's view reaches.
pub open spec fn item_in_view(item: Item, player: &RotfPlayer) -> bool {
    player.sees(item.position)
}

/// How many of the units the player sees.
pub open spec fn units_in_view(s: Seq<(u64, Unit)>, player: &RotfPlayer) -> nat
    decreases s.len(),
{
    if s.len() == 0 {
        0
    } else {
        units_in_view(s.drop_last(), player) + if unit_in_view(s.last().1, player) {
            1nat
        } else {
            0nat
        }
    }
}

/// How many of the items the player sees.
pub open spec fn items_in_view(s: Seq<(u64, Item)>, player: &RotfPlayer) -> nat
    decreases s.len(),
{
    if s.len() == 0 {
        0
    } else {
        items_in_view(s.drop_last(), player) + if item_in_view(s.last().1, player) {
            1nat
        } else {
            0nat
        }
    }
}

/// The unit after the player has looked around, with `before` units in
/// view before it: it has the next index if the player sees it, else -1.
pub open spec fn viewed_unit(unit: Unit, before: nat, player: &RotfPlayer) -> Unit {
    Unit {
        view_index: if unit_in_view(unit, player) {
            next_index(before)
        } else {
            -1i64
        },
        ..unit
    }
}

/// The item after the player has looked around, with `before` items in
/// view before it.
pub open spec fn viewed_item(item: Item, before: nat, player: &RotfPlayer) -> Item {
    Item {
        view_index: if item_in_view(item, player) {
            next_index(before)
        } else {
            -1i64
        },
        ..item
    }
}

/// The units after the player has looked around: those in view are
/// numbered from one, in the order of their keys; the others have -1.
pub open spec fn viewed_units(s: Seq<(u64, Unit)>, player: &RotfPlayer) -> Seq<(u64, Unit)> {
    Seq::new(
        s.len(),
        |i: int| (s[i].0, viewed_unit(s[i].1, units_in_view(s.take(i), player), player)),
    )
}

/// The items after the player has looked around.
pub open spec fn viewed_items(s: Seq<(u64, Item)>, player: &RotfPlayer) -> Seq<(u64, Item)> {
    Seq::new(
        s.len(),
        |i: int| (s[i].0, viewed_item(s[i].1, items_in_view(s.take(i), player), player)),
    )
}

/// The line that shows a thing in view: its index, and how it is shown.
pub open spec fn view_line(index: i64, shown: Seq<char>) -> Seq<char> {
    "  "@ + signed_decimal(index as int) + ": "@ + shown + seq!['\n']
}

/// The list of the units in view, under its heading; nothing if none is.
pub open spec fn units_text(s: Seq<(u64, Unit)>, loader: &UnitLoader) -> Seq<char>
    decreases s.len(),
{
    if s.len() == 0 {
        Seq::empty()
    } else {
        let unit = s.last().1;
        let head = units_text(s.drop_last(), loader);
        if unit.view_index < 1 {
            head
        } else {
            head + if unit.view_index == 1 {
                "Units\n"@
            } else {
                ""@
            } + view_line(unit.view_index, unit.spec_view_short(loader.data(unit.id).name))
        }
    }
}

/// The list of the items in view, under its heading; nothing if none is.
pub open spec fn items_text(s: Seq<(u64, Item)>, loader: &ItemLoader) -> Seq<char>
    decreases s.len(),
{
    if s.len() == 0 {
        Seq::empty()
    } else {
        let item = s.last().1;
        let head = items_text(s.drop_last(), loader);
        if item.view_index < 1 {
            head
        } else {
            head + if item.view_index == 1 {
                "\nItems\n"@
            } else {
                ""@
            } + view_line(item.view_index, item.spec_view_short(loader.data(item.id).name))
        }
    }
}

/// Gives the units their indices in the player's view, and lists those in
/// view.
pub fn view_units(units: &mut EntityMap<Unit>, player: &RotfPlayer, loader: &UnitLoader) -> (text:
    String)
    ensures
        final(units)@ == viewed_units(old(units)@, player),
        final(units).spec_next_key() == old(units).spec_next_key(),
        text@ == units_text(final(units)@, loader),
{
    let n: usize = units.len();
    let mut out = String::new();
    let mut index: i64 = 1;
    let mut i: usize = 0;
    let ghost before = units@;
    assert(before.take(0) =~= Seq::<(u64, Unit)>::empty());
    assert(units@.take(0) =~= Seq::<(u64, Unit)>::empty());
    while i < n
        invariant
            i <= n == before.len(),
            units@.len() == n,
            before == old(units)@,
            units.spec_next_key() == old(units).spec_next_key(),
            index == next_index(units_in_view(before.take(i as int), player)),
            forall|j: int|
                0 <= j < i ==> #[trigger] units@[j] == (
                    before[j].0,
                    viewed_unit(before[j].1, units_in_view(before.take(j), player), player),
                ),
            forall|j: int| i <= j < n ==> #[trigger] units@[j] == before[j],
            out@ == units_text(units@.take(i as int), loader),
        decreases n - i,
    {
        let mut unit: Unit = *units.value_at(i);
        let ghost cur = units@;
        proof {
            assert(before.take(i + 1).drop_last() == before.take(i as int));
            assert(before.take(i + 1).last() == before[i as int]);
        }
        if unit.despawn() || !player.can_view(&unit) {
            unit.view_index = -1;
        } else {
            unit.view_index = index;
            if index == 1 {
                out.append("Units\n");
            } else {
                proof {
                    reveal_strlit("");
                    assert(out@ + ""@ == out@);
                }
            }
            out.append("  ");
            push_signed(&mut out, index);
            out.append(": ");
            let shown = unit.view_short(loader);
            out.append(shown.as_str());
            out.push('\n');
            if index < i64::MAX {
                index += 1;
            }
        }
        units.set_at(i, unit);
        proof {
            assert(units@.take(i + 1).drop_last() == cur.take(i as int));
            assert(units@.take(i + 1).last() == (before[i as int].0, unit));
            if unit.view_index >= 1 {
                assert(out@ == units_text(cur.take(i as int), loader) + if unit.view_index == 1 {
                    "Units\n"@
                } else {
                    ""@
                } + view_line(unit.view_index, unit.spec_view_short(loader.data(unit.id).name)));
            }
        }
        i += 1;
    }
    proof {
        assert(units@.take(n as int) == units@);
        assert(units@ =~= viewed_units(before, player));
    }
    out
}

/// Gives the items their indices in the player's view, and lists those in
/// view.
pub fn view_items(items: &mut EntityMap<Item>, player: &RotfPlayer, loader: &ItemLoader) -> (text:
    String)
    ensures
        final(items)@ == viewed_items(old(items)@, player),
        final(items).spec_next_key() == old(items).spec_next_key(),
        text@ == items_text(final(items)@, loader),
{
    let n: usize = items.len();
    let mut out = String::new();
    let mut index: i64 = 1;
    let mut i: usize = 0;
    let ghost before = items@;
    assert(before.take(0) =~= Seq::<(u64, Item)>::empty());
    assert(items@.take(0) =~= Seq::<(u64, Item)>::empty());
    while i < n
        invariant
            i <= n == before.len(),
            items@.len() == n,
            before == old(items)@,
            items.spec_next_key() == old(items).spec_next_key(),
            index == next_index(items_in_view(before.take(i as int), player)),
            forall|j: int|
                0 <= j < i ==> #[trigger] items@[j] == (
                    before[j].0,
                    viewed_item(before[j].1, items_in_view(before.take(j), player), player),
                ),
            forall|j: int| i <= j < n ==> #[trigger] items@[j] == before[j],
            out@ == items_text(items@.take(i as int), loader),
        decreases n - i,
    {
        let mut item: Item = *items.value_at(i);
        let ghost cur = items@;
        proof {
            assert(before.take(i + 1).drop_last() == before.take(i as int));
            assert(before.take(i + 1).last() == before[i as int]);
        }
        if !player.can_view(&item) {
            item.view_index = -1;
        } else {
            item.view_index = index;
            if index == 1 {
                out.append("\nItems\n");
            } else {
                proof {
                    reveal_strlit("");
                    assert(out@ + ""@ == out@);
                }
            }
            out.append("  ");
            push_signed(&mut out, index);
            out.append(": ");
            let shown = item.view_short(loader);
            out.append(shown.as_str());
            out.push('\n');
            if index < i64::MAX {
                index += 1;
            }
        }
        items.set_at(i, item);
        proof {
            assert(items@.take(i + 1).drop_last() == cur.take(i as int));
            assert(items@.take(i + 1).last() == (before[i as int].0, item));
            if item.view_index >= 1 {
                assert(out@ == items_text(cur.take(i as int), loader) + if item.view_index == 1 {
                    "\nItems\n"@
                } else {
                    ""@
                } + view_line(item.view_index, item.spec_view_short(loader.data(item.id).name)));
            }
        }
        i += 1;
    }
    proof {
        assert(items@.take(n as int) == items@);
        assert(items@ =~= viewed_items(before, player));
    }
    out
}

/// What the player is shown of the surroundings: the units in view, then
/// the items in view.
pub open spec fn view_text(game: &RotfGame, units: &UnitLoader, items: &ItemLoader) -> Seq<char> {
    units_text(game.environment.units@, units) + items_text(game.environment.items@, items)
}

/// Whether `after` is `before` after the player has looked around: the
/// units and the items have their indices in the player's view, and
/// nothing else has changed.
pub open spec fn looked_around(before: &RotfGame, after: &RotfGame) -> bool {
    &&& after.same_but_environment(before)
    &&& after.environment.time_passed == before.environment.time_passed
    &&& after.environment.units@ == viewed_units(before.environment.units@, &before.player)
    &&& after.environment.units.spec_next_key() == before.environment.units.spec_next_key()
    &&& after.environment.items@ == viewed_items(before.environment.items@, &before.player)
    &&& after.environment.items.spec_next_key() == before.environment.items.spec_next_key()
}

/// Whether `after` is the session `before` after the command to look
/// around: the game has been looked around in, and what is in view has
/// been shown to the player. Without a game nothing happens.
pub open spec fn viewed(before: &RotfContext, after: &RotfContext) -> bool {
    &&& after.same_session(before)
    &&& match before.curr_game {
        None => *after == *before,
        Some(game) => after.curr_game matches Some(seen) && looked_around(&game, &seen)
            && after.log() == before.log().push(
            line(view_text(&seen, &before.unit_loader, &before.item_loader)),
        ),
    }
}

/// Shows the player the surroundings, and gives what is in view its indices.
pub fn view(context: &mut RotfContext)
    ensures
        viewed(old(context), final(context)),
{
    let mut game = match context.curr_game.take() {
        Some(game) => game,
        None => {
            return ;
        },
    };
    let mut output_str = view_units(&mut game.environment.units, &game.player, &context.unit_loader);
    let items = view_items(&mut game.environment.items, &game.player, &context.item_loader);
    output_str.append(items.as_str());
    context.curr_game = Some(game);
    context.println(output_str.as_str());
    assert(context.log() =~= old(context).log().push(line(output_str@)));
}

/// The time that has passed after one more unit of it, as far as it can
/// be counted.
pub open spec fn one_more(time: u8) -> u8 {
    if time < u8::MAX {
        (time + 1) as u8
    } else {
        time
    }
}

/// Lets one unit of time pass in the game, as far as it can be counted.
pub fn tick(game: &mut RotfGame)
    ensures
        final(game).same_but_environment(old(game)),
        final(game).environment.units == old(game).environment.units,
        final(game).environment.items == old(game).environment.items,
        final(game).environment.time_passed == one_more(old(game).environment.time_passed),
{
    if game.environment.time_passed < u8::MAX {
        game.environment.pass_time();
    }
}

/// Whether `after` is the session `before` after the command to wait: the
/// player has looked around, and one unit of time has passed.
pub open spec fn waited(before: &RotfContext, after: &RotfContext) -> bool {
    &&& after.same_session(before)
    &&& match before.curr_game {
        None => *after == *before,
        Some(game) => after.curr_game matches Some(seen) && {
            &&& seen.same_but_environment(&game)
            &&& seen.environment.time_passed == one_more(game.environment.time_passed)
            &&& seen.environment.units@ == viewed_units(game.environment.units@, &game.player)
            &&& seen.environment.units.spec_next_key() == game.environment.units.spec_next_key()
            &&& seen.environment.items@ == viewed_items(game.environment.items@, &game.player)
            &&& seen.environment.items.spec_next_key() == game.environment.items.spec_next_key()
            &&& after.log() == before.log().push(
                line(view_text(&seen, &before.unit_loader, &before.item_loader)),
            )
        },
    }
}

/// Shows the player the surroundings and lets time pass.
pub fn wait(context: &mut RotfContext)
    ensures
        waited(old(context), final(context)),
{
    view(context);
    match context.curr_game.as_mut() {
        Some(game) => {
            tick(game);
        },
        None => {},
    }
}

/// The index that the parameter of a command names, or -1 if it names none.
pub open spec fn index_of_params(params: Seq<char>) -> i64 {
    match spec_parse_i64(params) {
        Some(i) => i,
        None => -1i64,
    }
}

/// The index that the parameter of the last command names.
pub fn params_index(context: &RotfContext) -> (r: i64)
    ensures
        r == index_of_params(context.last_params@),
{
    match parse_i64(&chars_of(context.last_params.as_str())) {
        Some(i) => i,
        None => -1,
    }
}

/// The position of the last unit that was last seen under `index`, or -1
/// if there is none.
pub open spec fn last_unit_at_index(s: Seq<(u64, Unit)>, index: i64) -> int
    decreases s.len(),
{
    if s.len() == 0 {
        -1
    } else if s.last().1.view_index == index {
        s.len() - 1
    } else {
        last_unit_at_index(s.drop_last(), index)
    }
}

/// The position of the last item that was last seen under `index`, or -1
/// if there is none.
pub open spec fn last_item_at_index(s: Seq<(u64, Item)>, index: i64) -> int
    decreases s.len(),
{
    if s.len() == 0 {
        -1
    } else if s.last().1.view_index == index {
        s.len() - 1
    } else {
        last_item_at_index(s.drop_last(), index)
    }
}

/// Finds the last unit that was last seen under `index`.
pub fn find_unit(units: &EntityMap<Unit>, index: i64) -> (r: Option<usize>)
    ensures
        match r {
            Some(i) => i == last_unit_at_index(units@, index) && i < units@.len(),
            None => last_unit_at_index(units@, index) == -1,
        },
{
    let mut i: usize = units.len();
    assert(units@.take(i as int) == units@);
    while i > 0
        invariant
            i <= units@.len(),
            last_unit_at_index(units@, index) == last_unit_at_index(units@.take(i as int), index),
        decreases i,
    {
        i -= 1;
        proof {
            assert(units@.take(i + 1).drop_last() == units@.take(i as int));
            assert(units@.take(i + 1).last() == units@[i as int]);
        }
        if units.value_at(i).view_index == index {
            return Some(i);
        }
    }
    None
}

/// Finds the last item that was last seen under `index`.
pub fn find_item(items: &EntityMap<Item>, index: i64) -> (r: Option<usize>)
    ensures
        match r {
            Some(i) => i == last_item_at_index(items@, index) && i < items@.len(),
            None => last_item_at_index(items@, index) == -1,
        },
{
    let mut i: usize = items.len();
    assert(items@.take(i as int) == items@);
    while i > 0
        invariant
            i <= items@.len(),
            last_item_at_index(items@, index) == last_item_at_index(items@.take(i as int), index),
        decreases i,
    {
        i -= 1;
        proof {
            assert(items@.take(i + 1).drop_last() == items@.take(i as int));
            assert(items@.take(i + 1).last() == items@[i as int]);
        }
        if items.value_at(i).view_index == index {
            return Some(i);
        }
    }
    None
}

/// Whether `after` is the session `before` after the command to fight.
/// The parameter has to name an index from one on, a unit has to have been
/// seen last under that index, and the player has to see it still; the
/// player is told if not, and nothing else changes. Else one unit of time
/// passes and the fight with that unit starts, with the first turn the
/// player's.
pub open spec fn fought(before: &RotfContext, after: &RotfContext) -> bool {
    &&& after.same_session(before)
    &&& match before.curr_game {
        None => *after == *before,
        Some(game) => {
            let index = index_of_params(before.last_params@);
            let at = last_unit_at_index(game.environment.units@, index);
            if index < 1 {
                after.says(before, seq![line("Invalid index. Must be a positive integer."@)])
            } else if at < 0 {
                after.says(before, seq![line("Unit not found"@)])
            } else if !game.player.sees(game.environment.units@[at].1.position) {
                after.says(
                    before,
                    seq![line("Unit no longer in view. Use 'view' to update view"@)],
                )
            } else {
                &&& after.log() == before.log()
                &&& after.curr_game matches Some(fight) && {
                    &&& fight.fights(game.environment.units@[at].0, true)
                    &&& fight.name == game.name
                    &&& fight.difficulty == game.difficulty
                    &&& fight.last_cutscene == game.last_cutscene
                    &&& fight.player == game.player
                    &&& fight.environment.units == game.environment.units
                    &&& fight.environment.items == game.environment.items
                    &&& fight.environment.time_passed == one_more(game.environment.time_passed)
                }
            }
        },
    }
}

/// Starts a fight with the unit that the parameter names by its index in
/// the player's view.
pub fn fight(context: &mut RotfContext)
    ensures
        fought(old(context), final(context)),
{
    let index: i64 = params_index(context);
    let mut game = match context.curr_game.take() {
        Some(game) => game,
        None => {
            return ;
        },
    };
    if index < 1 {
        context.curr_game = Some(game);
        context.println("Invalid index. Must be a positive integer.");
        return ;
    }
    match find_unit(&game.environment.units, index) {
        Some(i) => {
            let unit: Unit = *game.environment.units.value_at(i);
            if !game.player.can_view(&unit) {
                context.curr_game = Some(game);
                context.println("Unit no longer in view. Use 'view' to update view");
                return ;
            }
            let unit_index: u64 = game.environment.units.key_at(i);
            tick(&mut game);
            game.enter_combat(unit_index, true);
            context.curr_game = Some(game);
        },
        None => {
            context.curr_game = Some(game);
            context.println("Unit not found");
        },
    }
}

/// Whether the inventory can take one more item: it has room, and a key
/// is left.
pub open spec fn has_room(player: &RotfPlayer) -> bool {
    player.inventory.spec_can_pickup() && player.inventory.items.spec_next_key() < u64::MAX
}

/// Whether `after` is the session `before` after the command to pick up.
/// The inventory has to have room, the parameter has to name an index
/// from one on, an item has to have been seen last under that index, and
/// the player has to see it still; the player is told if not, and nothing
/// else changes. Else the item leaves the environment for the inventory,
/// where it gets the next key, one unit of time passes, and the player is
/// told.
pub open spec fn picked_up(before: &RotfContext, after: &RotfContext) -> bool {
    &&& after.same_session(before)
    &&& match before.curr_game {
        None => *after == *before,
        Some(game) => {
            let index = index_of_params(before.last_params@);
            let at = last_item_at_index(game.environment.items@, index);
            if !has_room(&game.player) {
                after.says(before, seq![line("Your inventory is out of space"@)])
            } else if index < 1 {
                after.says(before, seq![line("Invalid index. Must be a positive integer"@)])
            } else if at < 0 {
                after.says(before, seq![line("Item not found"@)])
            } else if !game.player.sees(game.environment.items@[at].1.position) {
                after.says(
                    before,
                    seq![line("Item no longer in view. Use 'view' to update view"@)],
                )
            } else {
                let item = game.environment.items@[at].1;
                &&& after.log() == before.log().push(line("Picked up "@ + item.spec_to_string()))
                &&& after.curr_game matches Some(g) && {
                    &&& g.name == game.name
                    &&& g.state == game.state
                    &&& g.difficulty == game.difficulty
                    &&& g.last_cutscene == game.last_cutscene
                    &&& g.combat == game.combat
                    &&& g.player.level == game.player.level
                    &&& g.player.view_distance == game.player.view_distance
                    &&& g.player.inventory.capacity == game.player.inventory.capacity
                    &&& g.player.inventory.items@ == game.player.inventory.items@.push(
                        (game.player.inventory.items.spec_next_key(), item),
                    )
                    &&& g.player.inventory.items.spec_next_key()
                        == game.player.inventory.items.spec_next_key() + 1
                    &&& g.environment.units == game.environment.units
                    &&& g.environment.items@ == game.environment.items@.remove(at)
                    &&& g.environment.items.spec_next_key()
                        == game.environment.items.spec_next_key()
                    &&& g.environment.time_passed == one_more(game.environment.time_passed)
                }
            }
        },
    }
}

/// Picks up the item that the parameter names by its index in the
/// player's view.
pub fn pickup(context: &mut RotfContext)
    ensures
        picked_up(old(context), final(context)),
{
    let index: i64 = params_index(context);
    let mut game = match context.curr_game.take() {
        Some(game) => game,
        None => {
            return ;
        },
    };
    if !(game.player.inventory.can_pickup() && game.player.inventory.items.next_key() < u64::MAX) {
        context.curr_game = Some(game);
        context.println("Your inventory is out of space");
        return ;
    }
    if index < 1 {
        context.curr_game = Some(game);
        context.println("Invalid index. Must be a positive integer");
        return ;
    }
    match find_item(&game.environment.items, index) {
        Some(i) => {
            let item: Item = *game.environment.items.value_at(i);
            if !game.player.can_view(&item) {
                context.curr_game = Some(game);
                context.println("Item no longer in view. Use 'view' to update view");
                return ;
            }
            game.environment.items.remove_at(i);
            let mut text = String::from_str("Picked up ");
            text.append(item.to_string().as_str());
            let rejected = game.player.inventory.add(item);
            assert(rejected is None);
            tick(&mut game);
            context.curr_game = Some(game);
            context.println(text.as_str());
            assert(context.log() =~= old(context).log().push(
                line("Picked up "@ + item.spec_to_string()),
            ));
        },
        None => {
            context.curr_game = Some(game);
            context.println("Item not found");
        },
    }
}

/// The list of the items of the inventory, each under its place in the
/// list, counted from one.
pub open spec fn inventory_list(s: Seq<(u64, Item)>, loader: &ItemLoader) -> Seq<char>
    decreases s.len(),
{
    if s.len() == 0 {
        Seq::empty()
    } else {
        inventory_list(s.drop_last(), loader) + "  "@ + decimal(s.len()) + ": "@
            + s.last().1.spec_view_short(loader.data(s.last().1.id).name) + seq!['\n']
    }
}

/// What the player is shown of the inventory: its capacity and its items.
pub open spec fn inventory_text(player: &RotfPlayer, loader: &ItemLoader) -> Seq<char> {
    "  -- Inventory --\n"@ + "Capacity: "@ + decimal(player.inventory.capacity as nat) + seq!['\n']
        + "Items:\n"@ + inventory_list(player.inventory.items@, loader)
}

/// Whether `after` is the session `before` after the command to show the
/// inventory: the player has been shown it, and nothing else has changed.
pub open spec fn inventory_shown(before: &RotfContext, after: &RotfContext) -> bool {
    match before.curr_game {
        None => *after == *before,
        Some(game) => after.says(
            before,
            seq![line(inventory_text(&game.player, &before.item_loader))],
        ),
    }
}

/// Shows the player the inventory.
pub fn inventory(context: &mut RotfContext)
    ensures
        inventory_shown(old(context), final(context)),
{
    let mut display_string = String::from_str("  -- Inventory --\n");
    match &context.curr_game {
        None => {
            return ;
        },
        Some(game) => {
            display_string.append("Capacity: ");
            push_decimal(&mut display_string, game.player.inventory.capacity as u64);
            display_string.push('\n');
            display_string.append("Items:\n");
            let ghost start = display_string@;
            let items = &game.player.inventory.items;
            let n: usize = items.len();
            let mut i: usize = 0;
            assert(items@.take(0) =~= Seq::<(u64, Item)>::empty());
            assert(start + inventory_list(items@.take(0), &context.item_loader) == start);
            while i < n
                invariant
                    i <= n == items@.len(),
                    display_string@ == start + inventory_list(
                        items@.take(i as int),
                        &context.item_loader,
                    ),
                decreases n - i,
            {
                let item: Item = *items.value_at(i);
                proof {
                    assert(items@.take(i + 1).drop_last() == items@.take(i as int));
                    assert(items@.take(i + 1).last() == items@[i as int]);
                }
                let ghost before = display_string@;
                display_string.append("  ");
                push_decimal(&mut display_string, (i + 1) as u64);
                display_string.append(": ");
                display_string.append(item.view_short(&context.item_loader).as_str());
                display_string.push('\n');
                assert(display_string@ =~= start + inventory_list(
                    items@.take(i + 1),
                    &context.item_loader,
                ));
                i += 1;
            }
            assert(items@.take(n as int) == items@);
            assert(display_string@ =~= inventory_text(&game.player, &context.item_loader));
        },
    }
    context.println(display_string.as_str());
}

/// Whether `after` is the session `before` after the command to drop.
/// The parameter has to name the index under which an item of the
/// inventory was last seen, and the environment has to have a key left;
/// the player is told if not, and nothing else changes. Else the first
/// such item leaves the inventory for the environment, where it gets the
/// next key and lies near the player, and the player is told.
pub open spec fn dropped(before: &RotfContext, after: &RotfContext) -> bool {
    &&& after.same_session(before)
    &&& match before.curr_game {
        None => *after == *before,
        Some(game) => {
            let index = index_of_params(before.last_params@);
            let at = position_of_view_index(game.player.inventory.items@, index);
            if before.last_params@.len() == 0 {
                after.says(
                    before,
                    seq![
                        line("Need to specify an item to drop"@),
                        line(
                            "Use 'inventory' to see your items or 'help drop' for more information"@,
                        ),
                    ],
                )
            } else if !(0 <= at < game.player.inventory.items@.len())
                || game.environment.items.spec_next_key() == u64::MAX {
                after.says(before, seq![line("Item not found"@)])
            } else {
                let item = Item {
                    position: Position::NEAR,
                    ..game.player.inventory.items@[at].1
                };
                &&& after.log() == before.log().push(
                    line(
                        "Dropped "@ + item.spec_view_short(before.item_loader.data(item.id).name),
                    ),
                )
                &&& after.curr_game matches Some(g) && {
                    &&& g.name == game.name
                    &&& g.state == game.state
                    &&& g.difficulty == game.difficulty
                    &&& g.last_cutscene == game.last_cutscene
                    &&& g.combat == game.combat
                    &&& g.player.level == game.player.level
                    &&& g.player.view_distance == game.player.view_distance
                    &&& g.player.inventory.capacity == game.player.inventory.capacity
                    &&& g.player.inventory.items@ == game.player.inventory.items@.remove(at)
                    &&& g.player.inventory.items.spec_next_key()
                        == game.player.inventory.items.spec_next_key()
                    &&& g.environment.units == game.environment.units
                    &&& g.environment.items@ == game.environment.items@.push(
                        (game.environment.items.spec_next_key(), item),
                    )
                    &&& g.environment.items.spec_next_key()
                        == game.environment.items.spec_next_key() + 1
                    &&& g.environment.time_passed == game.environment.time_passed
                }
            }
        },
    }
}

/// Drops the item that the parameter names by the index under which it
/// was last seen.
pub fn drop(context: &mut RotfContext)
    ensures
        dropped(old(context), final(context)),
{
    let index: i64 = params_index(context);
    let mut game = match context.curr_game.take() {
        Some(game) => game,
        None => {
            return ;
        },
    };
    if context.last_params.as_str().is_empty() {
        context.curr_game = Some(game);
        context.println("Need to specify an item to drop");
        context.println("Use 'inventory' to see your items or 'help drop' for more information");
        assert(context.log() =~= old(context).log() + seq![
            line("Need to specify an item to drop"@),
            line("Use 'inventory' to see your items or 'help drop' for more information"@),
        ]);
        return ;
    }
    if game.environment.items.next_key() == u64::MAX {
        context.curr_game = Some(game);
        context.println("Item not found");
        return ;
    }
    match game.player.inventory.drop(index) {
        Some(found) => {
            let mut item: Item = found;
            item.set_position(Position::NEAR);
            let mut text = String::from_str("Dropped ");
            text.append(item.view_short(&context.item_loader).as_str());
            game.environment.add_item(item);
            context.curr_game = Some(game);
            context.println(text.as_str());
            assert(context.log() =~= old(context).log().push(
                line("Dropped "@ + item.spec_view_short(context.item_loader.data(item.id).name)),
            ));
        },
        None => {
            context.curr_game = Some(game);
            context.println("Item not found");
        },
    }
}

/// Whether `after` is the session `before` after the environment command
/// of the given name: what the command does, if a game is played and is in
/// the environment; else the player is told why not.
pub open spec fn commanded(before: &RotfContext, after: &RotfContext, cmd: Seq<char>) -> bool {
    if before.curr_game is None {
        after.says(
            before,
            seq![line("Cannot use environment command "@ + cmd + " with no game"@)],
        )
    } else if before.game_state() != Some(GameState::ENVIRONMENT) {
        after.says(
            before,
            seq![line("Cannot use environment command "@ + cmd + " when not in environment"@)],
        )
    } else if cmd == "view"@ {
        viewed(before, after)
    } else if cmd == "wait"@ {
        waited(before, after)
    } else if cmd == "fight"@ {
        fought(before, after)
    } else if cmd == "pickup"@ {
        picked_up(before, after)
    } else if cmd == "inventory"@ {
        inventory_shown(before, after)
    } else if cmd == "drop"@ {
        dropped(before, after)
    } else {
        after.says(before, seq![line("Environment command "@ + cmd + " not implemented"@)])
    }
}

/// Carries out the environment command of the given name, if a game is
/// played and is in the environment.
pub fn command(context: &mut RotfContext, cmd: &str)
    ensures
        commanded(old(context), final(context), cmd@),
{
    let state = match &context.curr_game {
        Some(game) => Some(game.state),
        None => None,
    };
    let word = chars_of(cmd);
    match state {
        Some(GameState::ENVIRONMENT) => {
            if eq_str(&word, "view") {
                view(context);
            } else if eq_str(&word, "wait") {
                wait(context);
            } else if eq_str(&word, "fight") {
                fight(context);
            } else if eq_str(&word, "pickup") {
                pickup(context);
            } else if eq_str(&word, "inventory") {
                inventory(context);
            } else if eq_str(&word, "drop") {
                drop(context);
            } else {
                let mut text = String::from_str("Environment command ");
                text.append(cmd);
                text.append(" not implemented");
                context.eprintln(text.as_str());
            }
        },
        Some(_) => {
            let mut text = String::from_str("Cannot use environment command ");
            text.append(cmd);
            text.append(" when not in environment");
            context.eprintln(text.as_str());
        },
        None => {
            let mut text = String::from_str("Cannot use environment command ");
            text.append(cmd);
            text.append(" with no game");
            context.eprintln(text.as_str());
        },
    }
}

/// Looking around does not change which units are in view.
pub proof fn lemma_units_in_view_kept(s: Seq<(u64, Unit)>, player: &RotfPlayer, n: int)
    requires
        0 <= n <= s.len(),
    ensures
        units_in_view(viewed_units(s, player).take(n), player) == units_in_view(s.take(n), player),
    decreases n,
{
    if n > 0 {
        lemma_units_in_view_kept(s, player, n - 1);
        assert(viewed_units(s, player).take(n).drop_last() == viewed_units(s, player).take(n - 1));
        assert(s.take(n).drop_last() == s.take(n - 1));
    }
}

/// Looking around does not change which items are in view.
pub proof fn lemma_items_in_view_kept(s: Seq<(u64, Item)>, player: &RotfPlayer, n: int)
    requires
        0 <= n <= s.len(),
    ensures
        items_in_view(viewed_items(s, player).take(n), player) == items_in_view(s.take(n), player),
    decreases n,
{
    if n > 0 {
        lemma_items_in_view_kept(s, player, n - 1);
        assert(viewed_items(s, player).take(n).drop_last() == viewed_items(s, player).take(n - 1));
        assert(s.take(n).drop_last() == s.take(n - 1));
    }
}

/// Looking around twice gives the units the indices that looking around
/// once gives them.
pub proof fn lemma_viewed_units_again(s: Seq<(u64, Unit)>, player: &RotfPlayer)
    ensures
        viewed_units(viewed_units(s, player), player) == viewed_units(s, player),
{
    let once = viewed_units(s, player);
    assert forall|i: int| 0 <= i < s.len() implies viewed_units(once, player)[i] == once[i] by {
        lemma_units_in_view_kept(s, player, i);
    }
    assert(viewed_units(once, player) =~= once);
}

/// Looking around twice gives the items the indices that looking around
/// once gives them.
pub proof fn lemma_viewed_items_again(s: Seq<(u64, Item)>, player: &RotfPlayer)
    ensures
        viewed_items(viewed_items(s, player), player) == viewed_items(s, player),
{
    let once = viewed_items(s, player);
    assert forall|i: int| 0 <= i < s.len() implies viewed_items(once, player)[i] == once[i] by {
        lemma_items_in_view_kept(s, player, i);
    }
    assert(viewed_items(once, player) =~= once);
}

/// Looking around is idempotent: the command to look around, given twice
/// with nothing between, shows the player the same both times, and leaves
/// the units and the items with the indices of the first time.
pub proof fn law_view_twice(start: &RotfContext, once: &RotfContext, twice: &RotfContext)
    requires
        start.curr_game is Some,
        viewed(start, once),
        viewed(once, twice),
    ensures
        twice.curr_game->0.environment.units@ == once.curr_game->0.environment.units@,
        twice.curr_game->0.environment.items@ == once.curr_game->0.environment.items@,
        twice.log().last() == once.log().last(),
{
    let game = start.curr_game->0;
    lemma_viewed_units_again(game.environment.units@, &game.player);
    lemma_viewed_items_again(game.environment.items@, &game.player);
}

/// What the player sees depends on how far the view reaches: what is near
/// is always in view, what is at middle distance if the view reaches the
/// middle or far, and what is far away only if the view reaches far.
pub proof fn law_visibility(player: &RotfPlayer)
    ensures
        player.sees(Position::NEAR),
        player.sees(Position::MEDIUM) <==> (player.view_distance == Position::MEDIUM
            || player.view_distance == Position::FAR),
        player.sees(Position::FAR) <==> player.view_distance == Position::FAR,
{
}

} // verus!
