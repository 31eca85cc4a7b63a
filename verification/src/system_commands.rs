//! The commands that are there whatever the player does.

use crate::commands::{join, joined, lines_log, print_lines, str_views, Command};
use crate::context::{asks, Effect, EffectView, Prompt, PromptView, RotfContext};
use crate::credits::line;
use crate::cutscene::RotfCutscene;
use crate::text::{chars_of, eq_str, string_of, trim, trimmed};
use vstd::prelude::*;
use vstd::string::StringExecFns;

verus! {

/// The line that lists a command: its name, its aliases if it has any, and
/// what it does.
pub open spec fn command_line(c: Command) -> Seq<char> {
    if c.spec_aliases().len() == 0 {
        "  "@ + c.spec_name() + ": "@ + c.spec_description()
    } else {
        "  "@ + c.spec_name() + " (aliases: "@ + joined(c.spec_aliases(), ", "@) + "): "@
            + c.spec_description()
    }
}

/// The lines that list the given commands.
pub open spec fn list_log(cmds: Seq<Command>) -> Seq<EffectView> {
    cmds.map_values(|c: Command| line(command_line(c)))
}

/// Lists the given commands to the player, one on each line.
pub fn list_commands(cmds: Vec<Command>, context: &mut RotfContext)
    ensures
        final(context).says(old(context), list_log(cmds@)),
{
    let mut i: usize = 0;
    let ghost all = list_log(cmds@);
    assert(context.log() =~= old(context).log() + all.take(0));
    while i < cmds.len()
        invariant
            i <= cmds.len(),
            all == list_log(cmds@),
            *context == (RotfContext { effects: context.effects, ..*old(context) }),
            context.log() == old(context).log() + all.take(i as int),
        decreases cmds.len() - i,
    {
        let cmd = cmds[i];
        let aliases = cmd.aliases();
        assert(str_views(aliases@).len() == aliases@.len());
        let mut text = String::from_str("  ");
        text.append(cmd.name());
        if aliases.len() == 0 {
            text.append(": ");
        } else {
            text.append(" (aliases: ");
            let list = join(&aliases, ", ");
            text.append(list.as_str());
            text.append("): ");
        }
        text.append(cmd.description());
        assert(text@ == command_line(cmd));
        context.println(text.as_str());
        proof {
            assert(all[i as int] == line(command_line(cmd)));
            assert(context.log() =~= old(context).log() + all.take(i + 1));
        }
        i += 1;
    }
    assert(all.take(cmds.len() as int) == all);
}

/// What the list of commands says where the player is.
pub open spec fn ls_log(context: &RotfContext) -> Seq<EffectView> {
    seq![line("Context Commands:"@)] + list_log(
        Command::spec_context_state_commands(context.context_state, context.game_state()),
    ) + seq![line("\nSystem Commands:"@)] + list_log(Command::spec_system_commands())
}

/// Lists the commands that there are where the player is.
pub fn ls(context: &mut RotfContext)
    ensures
        final(context).says(old(context), ls_log(old(context))),
{
    context.println("Context Commands:");
    let cmds = Command::context_state_commands(context);
    list_commands(cmds, context);
    context.println("\nSystem Commands:");
    list_commands(Command::system_commands(), context);
    assert(context.log() =~= old(context).log() + ls_log(old(context)));
}

/// The help that is given without a command to give it on.
pub open spec fn general_help() -> Seq<Seq<char>> {
    seq![
        "Below is general information; if you want information about a specific command use 'help {{cmd}}'"@,
        ""@,
        "You interact with the program by typing a command"@,
        "Use the 'ls' command to see the current list of commands you can use"@,
        "No command is case-sensitive, so 'LS' is the same as 'ls'"@,
    ]
}

/// What the help says: general help without a parameter; the help on the
/// command that the parameter calls where the player is; or that there is
/// no such command.
pub open spec fn help_log(context: &RotfContext) -> Seq<EffectView> {
    if context.last_params@.len() == 0 {
        lines_log(general_help())
    } else if context.commands@.contains_key(context.last_params@) {
        context.commands@[context.last_params@].helptext_log()
    } else {
        seq![
            line(context.last_params@ + " is not a recognized command"@),
            line(""@),
            line("If you want general help text, use 'help'"@),
        ]
    }
}

/// Gives help: in general, or on the command that the parameter names.
pub fn help(context: &mut RotfContext)
    ensures
        final(context).says(old(context), help_log(old(context))),
{
    if context.last_params.as_str().is_empty() {
        let general: Vec<&'static str> = vec![
            "Below is general information; if you want information about a specific command use 'help {{cmd}}'",
            "",
            "You interact with the program by typing a command",
            "Use the 'ls' command to see the current list of commands you can use",
            "No command is case-sensitive, so 'LS' is the same as 'ls'",
        ];
        assert(str_views(general@) =~= general_help());
        print_lines(context, &general);
        return ;
    }
    match context.commands.get(&context.last_params) {
        Some(cmd) => cmd.helptext(context),
        None => {
            let mut text = context.last_params.clone();
            text.append(" is not a recognized command");
            context.eprintln(text.as_str());
            context.println("");
            context.println("If you want general help text, use 'help'");
            assert(context.log() =~= old(context).log() + help_log(old(context)));
        },
    }
}

/// What a replay says: the last cutscene of the game that is played, if
/// the parameter asks for the cutscene; nothing if no game is played; and
/// how to ask, if the parameter asks for anything else.
pub open spec fn replay_log(context: &RotfContext) -> Seq<EffectView> {
    if trim(context.last_params@) == "cutscene"@ {
        if context.curr_game is Some {
            RotfCutscene::due_log(context)
        } else {
            Seq::empty()
        }
    } else {
        seq![
            line("Unrecognized replay parameter"@),
            line("Use 'replay cutscene' to play the last cutscene"@),
        ]
    }
}

/// Plays the last cutscene again.
pub fn replay(context: &mut RotfContext)
    ensures
        final(context).says(old(context), replay_log(old(context))),
{
    let params = trimmed(&chars_of(context.last_params.as_str()));
    if eq_str(&params, "cutscene") {
        let cutscene = match &context.curr_game {
            Some(game) => Some(game.last_cutscene),
            None => None,
        };
        match cutscene {
            Some(c) => c.play_or_report(context),
            None => {
                assert(context.log() =~= old(context).log() + replay_log(old(context)));
            },
        }
    } else {
        context.println("Unrecognized replay parameter");
        context.println("Use 'replay cutscene' to play the last cutscene");
        assert(context.log() =~= old(context).log() + replay_log(old(context)));
    }
}

/// What the options menu says when it opens.
pub open spec fn options_log() -> Seq<EffectView> {
    seq![
        line("  -- Options Menu --"@),
        line("To modify an option, enter its associated number; to leave, enter '0'"@),
    ]
}

/// Opens the options menu. The next line of input chooses an option.
pub fn options(context: &mut RotfContext)
    ensures
        asks(old(context), final(context), PromptView::OPTIONS, options_log()),
{
    context.println("  -- Options Menu --");
    context.println("To modify an option, enter its associated number; to leave, enter '0'");
    context.prompt = Prompt::OPTIONS;
    assert(context.log() =~= old(context).log() + options_log());
}

/// The options with their numbers, and the question for one of them.
pub open spec fn options_menu(context: &RotfContext) -> Seq<EffectView> {
    seq![
        line(""@),
        line("1: sleep_factor, value: "@ + context.options.sleep_factor@),
        line(""@),
        EffectView::PRINT(" choose an option > "@),
    ]
}

/// Shows the options with their numbers, and asks for one of them.
pub fn show_options(context: &mut RotfContext)
    ensures
        final(context).says(old(context), options_menu(old(context))),
{
    context.println("");
    let mut text = String::from_str("1: sleep_factor, value: ");
    text.append(context.options.sleep_factor.as_str());
    context.println(text.as_str());
    context.println("");
    context.print(" choose an option > ");
    assert(context.log() =~= old(context).log() + options_menu(old(context)));
}

/// The question for a new sleep factor.
pub open spec fn sleep_factor_question(context: &RotfContext) -> Seq<EffectView> {
    seq![
        line("sleep factor"@),
        line("  current value: "@ + context.options.sleep_factor@),
        line("  accepted values: 0-2"@),
        line(""@),
        EffectView::PRINT(" enter new value > "@),
    ]
}

/// Whether `after` is the session `before` after the answer to the
/// options menu: `0` leaves the menu for the prompt for a command; `1` asks
/// for a new sleep factor; anything else is no option, which the player is
/// told, and the menu stays open.
pub open spec fn option_given(before: &RotfContext, after: &RotfContext, answer: Seq<char>) -> bool {
    if trim(answer) == "0"@ {
        asks(before, after, PromptView::COMMAND, Seq::empty())
    } else if trim(answer) == "1"@ {
        asks(before, after, PromptView::SLEEP_FACTOR, sleep_factor_question(before))
    } else {
        asks(
            before,
            after,
            PromptView::OPTIONS,
            seq![line("Invalid input. If you wish to leave the option menu, enter '0'"@)],
        )
    }
}

/// Takes the answer to the options menu.
pub fn answer_option(context: &mut RotfContext, answer: &str)
    ensures
        option_given(old(context), final(context), answer@),
{
    let t = trimmed(&chars_of(answer));
    if eq_str(&t, "0") {
        context.prompt = Prompt::COMMAND;
        assert(context.log() =~= old(context).log() + Seq::empty());
    } else if eq_str(&t, "1") {
        context.println("sleep factor");
        let mut text = String::from_str("  current value: ");
        text.append(context.options.sleep_factor.as_str());
        context.println(text.as_str());
        context.println("  accepted values: 0-2");
        context.println("");
        context.print(" enter new value > ");
        context.prompt = Prompt::SLEEP_FACTOR;
        assert(context.log() =~= old(context).log() + sleep_factor_question(old(context)));
    } else {
        context.println("Invalid input. If you wish to leave the option menu, enter '0'");
        context.prompt = Prompt::OPTIONS;
    }
}

/// Takes the answer to the question for a new sleep factor: the answer,
/// trimmed, is left as an effect, to be checked and taken over by the
/// program around the session, and the options menu is open again.
pub fn answer_sleep_factor(context: &mut RotfContext, answer: &str)
    ensures
        asks(
            old(context),
            final(context),
            PromptView::OPTIONS,
            seq![EffectView::SLEEP_FACTOR(trim(answer@))],
        ),
{
    let t = trimmed(&chars_of(answer));
    context.push(Effect::SLEEP_FACTOR(string_of(&t)));
    context.prompt = Prompt::OPTIONS;
}

} // verus!
