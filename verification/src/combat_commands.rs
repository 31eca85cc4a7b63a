//! The commands of a player in combat.

use crate::context::RotfContext;
use crate::credits::line;
use crate::game::{GameState, RotfGame};
use vstd::prelude::*;

verus! {

/// Whether `after` is the session `before` after the command to flee: the
/// fight of the game that is played is over, the game is back in the
/// environment, and the player is told. Without a game in combat the
/// player is told that there is no fight, and nothing else changes.
pub open spec fn fled(before: &RotfContext, after: &RotfContext) -> bool {
    if before.game_state() == Some(GameState::COMBAT) {
        &&& after.same_session(before)
        &&& after.log() == before.log().push(line("You flee from the fight"@))
        &&& after.curr_game matches Some(game) && game == (RotfGame {
            state: GameState::ENVIRONMENT,
            combat: None,
            ..before.curr_game->0
        })
    } else {
        after.says(before, seq![line("There is no fight to flee from"@)])
    }
}

/// Leaves the fight.
pub fn flee(context: &mut RotfContext)
    ensures
        fled(old(context), final(context)),
        old(context).wf() ==> final(context).wf(),
{
    let in_combat = match &context.curr_game {
        Some(game) => game.state == GameState::COMBAT,
        None => false,
    };
    if !in_combat {
        context.println("There is no fight to flee from");
        return ;
    }
    match context.curr_game.take() {
        Some(game) => {
            let mut game = game;
            game.leave_combat();
            assert(game == (RotfGame {
                state: GameState::ENVIRONMENT,
                combat: None,
                ..old(context).curr_game->0
            }));
            context.curr_game = Some(game);
        },
        None => {},
    }
    context.println("You flee from the fight");
    assert(context.log() =~= old(context).log().push(line("You flee from the fight"@)));
}

} // verus!
