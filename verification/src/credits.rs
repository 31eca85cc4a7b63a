//! The words that open the program.

use crate::context::{EffectView, RotfContext};
use vstd::prelude::*;

verus! {

/// A line said to the player: the text and a line feed.
pub open spec fn line(text: Seq<char>) -> EffectView {
    EffectView::PRINT(text + seq!['\n'])
}

/// What the credits say.
pub open spec fn credits_log() -> Seq<EffectView> {
    seq![
        line("Created by Daniel Gray"@),
        line("2023 03 11"@),
        line("v0.1: Initial Infrastructure"@),
    ]
}

/// Says who made the game.
pub fn credits(context: &mut RotfContext)
    ensures
        final(context).says(old(context), credits_log()),
{
    context.println("Created by Daniel Gray");
    context.println("2023 03 11");
    context.println("v0.1: Initial Infrastructure");
    assert(context.log() =~= old(context).log() + credits_log());
}

/// What the title says.
pub open spec fn asci_log() -> Seq<EffectView> {
    seq![
        line(r#"  ___ _                __   _   _          ___                 "#@),
        line(r#" | _ (_)___ ___   ___ / _| | |_| |_  ___  | __| _ ___  __ _ ___"#@),
        line(r#" |   / (_-</ -_) / _ \  _| |  _| ' \/ -_) | _| '_/ _ \/ _` (_-<"#@),
        line(r#" |_|_\_/__/\___| \___/_|    \__|_||_\___| |_||_| \___/\__, /__/"#@),
        line(r#"                                                      |___/    "#@),
    ]
}

/// Says the title of the game, in large letters.
pub fn asci(context: &mut RotfContext)
    ensures
        final(context).says(old(context), asci_log()),
{
    context.println(r#"  ___ _                __   _   _          ___                 "#);
    context.println(r#" | _ (_)___ ___   ___ / _| | |_| |_  ___  | __| _ ___  __ _ ___"#);
    context.println(r#" |   / (_-</ -_) / _ \  _| |  _| ' \/ -_) | _| '_/ _ \/ _` (_-<"#);
    context.println(r#" |_|_\_/__/\___| \___/_|    \__|_||_\___| |_||_| \___/\__, /__/"#);
    context.println(r#"                                                      |___/    "#);
    assert(context.log() =~= old(context).log() + asci_log());
}

/// What the program says when it starts.
pub open spec fn welcome_log() -> Seq<EffectView> {
    asci_log() + credits_log() + seq![
        line("\nWelcome to 'Rise of the Frogs'"@),
        line("\nTo see the list of possible commands, type 'ls'"@),
        line("For general information on how the program works, type 'help'"@),
    ]
}

/// Greets the player: the title, the credits, and where to go from here.
pub fn welcome(context: &mut RotfContext)
    ensures
        final(context).says(old(context), welcome_log()),
{
    asci(context);
    credits(context);
    context.println("\nWelcome to 'Rise of the Frogs'");
    context.println("\nTo see the list of possible commands, type 'ls'");
    context.println("For general information on how the program works, type 'help'");
    assert(context.log() =~= old(context).log() + welcome_log());
}

} // verus!
