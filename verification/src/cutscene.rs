//! Cutscenes: texts that are played to the player at a pace.

use crate::context::{letters, line_pause, ContextState, EffectView, RotfContext};
use crate::credits::line;
use crate::game::GameState;
use crate::text::{
    chars_of, eq_str, has_prefix, lines, spec_split_double, spec_split_once, split_double,
    split_lines, split_once, starts_with, string_of, trim, trimmed, views,
};
use vstd::prelude::*;

verus! {

/// How the lines of a cutscene are played.
#[allow(non_camel_case_types)]
#[derive(Clone, Copy, Debug, PartialEq, Eq, Structural)]
pub enum CutsceneMode {
    /// Each line at once.
    INSTANT,
    /// A pause after each letter.
    LETTER_BY_LETTER,
    /// A pause after each part of a line, the line feed before the last pause.
    LINE_AFTER,
    /// A pause after each part of a line, the line feed after the last pause.
    LINE_BEFORE,
}

impl CutsceneMode {
    /// The mode in which a cutscene starts.
    pub fn default() -> (r: CutsceneMode)
        ensures
            r == CutsceneMode::LETTER_BY_LETTER,
    {
        CutsceneMode::LETTER_BY_LETTER
    }

    /// The mode that a name stands for.
    pub open spec fn spec_from_name(s: Seq<char>) -> Option<CutsceneMode> {
        if s == "INSTANT"@ {
            Some(CutsceneMode::INSTANT)
        } else if s == "LETTER_BY_LETTER"@ {
            Some(CutsceneMode::LETTER_BY_LETTER)
        } else if s == "LINE_AFTER"@ {
            Some(CutsceneMode::LINE_AFTER)
        } else if s == "LINE_BEFORE"@ {
            Some(CutsceneMode::LINE_BEFORE)
        } else {
            None
        }
    }

    /// Reads a mode from its name.
    pub fn from_chars(s: &Vec<char>) -> (r: Result<CutsceneMode, ()>)
        ensures
            match r {
                Ok(m) => CutsceneMode::spec_from_name(s@) == Some(m),
                Err(_) => CutsceneMode::spec_from_name(s@) is None,
            },
    {
        if eq_str(s, "INSTANT") {
            Ok(CutsceneMode::INSTANT)
        } else if eq_str(s, "LETTER_BY_LETTER") {
            Ok(CutsceneMode::LETTER_BY_LETTER)
        } else if eq_str(s, "LINE_AFTER") {
            Ok(CutsceneMode::LINE_AFTER)
        } else if eq_str(s, "LINE_BEFORE") {
            Ok(CutsceneMode::LINE_BEFORE)
        } else {
            Err(())
        }
    }

    /// Reads a mode from its name.
    pub fn from_str(s: &str) -> (r: Result<CutsceneMode, ()>)
        ensures
            match r {
                Ok(m) => CutsceneMode::spec_from_name(s@) == Some(m),
                Err(_) => CutsceneMode::spec_from_name(s@) is None,
            },
    {
        let v = chars_of(s);
        CutsceneMode::from_chars(&v)
    }
}

/// The cutscenes that exist.
#[allow(non_camel_case_types)]
#[derive(Clone, Copy, Debug, PartialEq, Eq, Structural)]
pub enum RotfCutscene {
    LAUNCH_GAME,
}

impl RotfCutscene {
    /// The name of the cutscene, under which its file is kept.
    pub open spec fn spec_name(self) -> Seq<char> {
        "LAUNCH_GAME"@
    }

    /// The name of the cutscene.
    pub fn name(&self) -> (s: &'static str)
        ensures
            s@ == self.spec_name(),
    {
        "LAUNCH_GAME"
    }
}

/// The file of a cutscene is not there.
#[derive(Clone, Copy, Debug, PartialEq, Eq, Structural)]
pub struct MissingCutscene {
    pub cutscene: RotfCutscene,
}

impl MissingCutscene {
    /// What the player is told of the error.
    pub fn message(&self) -> (s: &'static str)
        ensures
            s@ == "data/cutscenes/LAUNCH_GAME.rotf not found"@,
    {
        "data/cutscenes/LAUNCH_GAME.rotf not found"
    }
}

/// Whether a line of a cutscene sets the mode instead of being played.
pub open spec fn sets_mode(l: Seq<char>) -> bool {
    starts_with(trim(l), "%%% mode ="@)
}

/// The mode after a line that sets it: the one named after the first
/// equals sign, or the mode before if the name is none.
pub open spec fn next_mode(mode: CutsceneMode, l: Seq<char>) -> CutsceneMode {
    let name = match spec_split_once(l, '=') {
        Some((_, v)) => trim(v),
        None => trim(Seq::empty()),
    };
    match CutsceneMode::spec_from_name(name) {
        Some(m) => m,
        None => mode,
    }
}

/// How a part of a line that is not its last is played.
pub open spec fn part_log(mode: CutsceneMode, part: Seq<char>, testing: bool) -> Seq<EffectView> {
    match mode {
        CutsceneMode::LETTER_BY_LETTER => letters(part, testing),
        _ => seq![EffectView::PRINT(part)] + line_pause(testing),
    }
}

/// How the parts of a line that are not its last are played, one after
/// the other.
pub open spec fn parts_log(mode: CutsceneMode, parts: Seq<Seq<char>>, testing: bool) -> Seq<
    EffectView,
>
    decreases parts.len(),
{
    if parts.len() == 0 {
        Seq::empty()
    } else {
        parts_log(mode, parts.drop_last(), testing) + part_log(mode, parts.last(), testing)
    }
}

/// How the last part of a line is played: with the line feed after the
/// pause, letter by letter, or before it, line after line.
pub open spec fn last_log(mode: CutsceneMode, part: Seq<char>, testing: bool) -> Seq<EffectView> {
    match mode {
        CutsceneMode::LETTER_BY_LETTER => letters(part, testing) + seq![line(""@)],
        _ => seq![line(part)] + line_pause(testing),
    }
}

/// How one line of a cutscene is played in the given mode. But for the
/// instant mode, the line is played in the parts between its `%%`.
pub open spec fn line_log(mode: CutsceneMode, l: Seq<char>, testing: bool) -> Seq<EffectView> {
    let parts = spec_split_double(l, '%');
    match mode {
        CutsceneMode::INSTANT => seq![line(l)],
        CutsceneMode::LINE_BEFORE => parts_log(mode, parts, testing) + seq![line(""@)],
        _ => parts_log(mode, parts.drop_last(), testing) + last_log(mode, parts.last(), testing),
    }
}

/// How the lines of a cutscene are played, from the given mode on.
pub open spec fn played(mode: CutsceneMode, ls: Seq<Seq<char>>, testing: bool) -> Seq<EffectView>
    decreases ls.len(),
{
    if ls.len() == 0 {
        Seq::empty()
    } else if sets_mode(ls[0]) {
        played(next_mode(mode, ls[0]), ls.skip(1), testing)
    } else {
        line_log(mode, ls[0], testing) + played(mode, ls.skip(1), testing)
    }
}

/// How a cutscene is played: a line feed and a pause, the lines, an empty
/// line and a pause.
pub open spec fn play_log(text: Seq<char>, testing: bool) -> Seq<EffectView> {
    seq![EffectView::PRINT(seq!['\n'] + ""@)] + line_pause(testing) + played(
        CutsceneMode::LETTER_BY_LETTER,
        lines(text),
        testing,
    ) + seq![line(""@)] + line_pause(testing)
}

impl RotfCutscene {
    /// Plays one line of the cutscene in the given mode.
    fn play_line(context: &mut RotfContext, mode: CutsceneMode, l: &Vec<char>)
        ensures
            final(context).says(old(context), line_log(mode, l@, old(context).testing)),
    {
        let ghost testing = context.testing;
        match mode {
            CutsceneMode::INSTANT => {
                let text = string_of(l);
                context.println(text.as_str());
            },
            _ => {
                let parts = split_double(l, '%');
                let ghost all = views(parts@);
                let n: usize = parts.len();
                let last: usize = match mode {
                    CutsceneMode::LINE_BEFORE => n,
                    _ => n - 1,
                };
                let mut i: usize = 0;
                assert(context.log() =~= old(context).log() + parts_log(
                    mode,
                    all.take(0),
                    testing,
                ));
                while i < last
                    invariant
                        i <= last <= n == parts@.len(),
                        all == views(parts@),
                        mode != CutsceneMode::INSTANT,
                        testing == old(context).testing,
                        *context == (RotfContext { effects: context.effects, ..*old(context) }),
                        context.log() == old(context).log() + parts_log(
                            mode,
                            all.take(i as int),
                            testing,
                        ),
                    decreases last - i,
                {
                    let ghost before = context.log();
                    let text = string_of(&parts[i]);
                    match mode {
                        CutsceneMode::LETTER_BY_LETTER => {
                            context.print_letter_by_letter(text.as_str());
                        },
                        _ => {
                            context.print_sleep(text.as_str());
                        },
                    }
                    proof {
                        assert(all.take(i + 1).drop_last() == all.take(i as int));
                        assert(all.take(i + 1).last() == parts@[i as int]@);
                        assert(context.log() =~= old(context).log() + parts_log(
                            mode,
                            all.take(i + 1),
                            testing,
                        ));
                    }
                    i += 1;
                }
                let ghost before = context.log();
                match mode {
                    CutsceneMode::LINE_BEFORE => {
                        context.println("");
                        proof {
                            assert(all.take(n as int) == all);
                            assert(context.log() =~= old(context).log() + line_log(
                                mode,
                                l@,
                                testing,
                            ));
                        }
                    },
                    CutsceneMode::LETTER_BY_LETTER => {
                        let text = string_of(&parts[n - 1]);
                        context.println_letter_by_letter(text.as_str());
                        proof {
                            assert(all.take(n - 1) == all.drop_last());
                            assert(all.last() == parts@[n - 1]@);
                            assert(context.log() =~= old(context).log() + line_log(
                                mode,
                                l@,
                                testing,
                            ));
                        }
                    },
                    _ => {
                        let text = string_of(&parts[n - 1]);
                        context.println_sleep(text.as_str());
                        proof {
                            assert(all.take(n - 1) == all.drop_last());
                            assert(all.last() == parts@[n - 1]@);
                            assert(context.log() =~= old(context).log() + line_log(
                                mode,
                                l@,
                                testing,
                            ));
                        }
                    },
                }
            },
        }
    }

    /// Plays the cutscene to the player, from its file in the data
    /// directory. If the file is not there, nothing is played.
    pub fn play(&self, context: &mut RotfContext) -> (r: Result<(), MissingCutscene>)
        ensures
            match old(context).data.launch_game {
                Some(text) => r is Ok && final(context).says(
                    old(context),
                    play_log(text@, old(context).testing),
                ),
                None => r == Err::<(), MissingCutscene>(MissingCutscene { cutscene: *self })
                    && *final(context) == *old(context),
            },
    {
        let chars = match &context.data.launch_game {
            Some(text) => chars_of(text.as_str()),
            None => {
                return Err(MissingCutscene { cutscene: *self });
            },
        };
        let ghost testing = context.testing;
        let ghost text = old(context).data.launch_game->0@;
        context.lnprint_sleep("");
        let ghost start = context.log();
        let ls = split_lines(&chars);
        let ghost all = views(ls@);
        let mut mode = CutsceneMode::default();
        let mut i: usize = 0;
        let ghost mut done: Seq<EffectView> = Seq::empty();
        assert(all.skip(0) == all);
        assert(context.log() =~= start + done);
        while i < ls.len()
            invariant
                i <= ls.len(),
                all == views(ls@),
                testing == old(context).testing,
                *context == (RotfContext { effects: context.effects, ..*old(context) }),
                context.log() == start + done,
                played(CutsceneMode::LETTER_BY_LETTER, all, testing) == done + played(
                    mode,
                    all.skip(i as int),
                    testing,
                ),
            decreases ls.len() - i,
        {
            proof {
                assert(all.skip(i as int)[0] == ls@[i as int]@);
                assert(all.skip(i as int).skip(1) == all.skip(i + 1));
            }
            let t = trimmed(&ls[i]);
            if has_prefix(&t, "%%% mode =") {
                let name = match split_once(&ls[i], '=') {
                    Some((_, v)) => trimmed(&v),
                    None => trimmed(&Vec::new()),
                };
                mode = match CutsceneMode::from_chars(&name) {
                    Ok(m) => m,
                    Err(_) => mode,
                };
            } else {
                RotfCutscene::play_line(context, mode, &ls[i]);
                proof {
                    let more = line_log(mode, ls@[i as int]@, testing);
                    assert(context.log() =~= start + (done + more));
                    assert(done + (more + played(mode, all.skip(i + 1), testing)) =~= (done + more)
                        + played(mode, all.skip(i + 1), testing));
                    done = done + more;
                }
            }
            i += 1;
        }
        context.println_sleep("");
        proof {
            assert(played(mode, all.skip(ls.len() as int), testing) =~= Seq::empty());
            assert(done =~= played(CutsceneMode::LETTER_BY_LETTER, all, testing));
            assert(context.log() =~= old(context).log() + play_log(text, testing));
        }
        Ok(())
    }

    /// What is said when the cutscene of the session is due: the cutscene,
    /// or the report that its file is not there.
    pub open spec fn due_log(context: &RotfContext) -> Seq<EffectView> {
        match context.data.launch_game {
            Some(text) => play_log(text@, context.testing),
            None => seq![
                EffectView::ERROR(
                    RotfContext::error_line(
                        "playing cutscene"@,
                        "data/cutscenes/LAUNCH_GAME.rotf not found"@,
                    ),
                ),
            ],
        }
    }

    /// Plays the cutscene, and reports it if its file is not there.
    pub fn play_or_report(&self, context: &mut RotfContext)
        ensures
            final(context).says(old(context), RotfCutscene::due_log(old(context))),
    {
        match self.play(context) {
            Ok(_) => {},
            Err(e) => {
                context.print_error("playing cutscene", e.message());
            },
        }
    }

    /// Whether a cutscene is due: the player is in a game that is in its
    /// cutscene.
    pub open spec fn is_due(context: &RotfContext) -> bool {
        context.context_state == ContextState::INGAME && context.game_state() == Some(
            GameState::CUTSCENE,
        )
    }

    /// Whether `after` is the session `before` after its cutscene has
    /// been seen to: if one was due, it has been played, or its file
    /// reported missing, and the game goes on in the environment; else
    /// nothing has changed.
    pub open spec fn resolved(before: &RotfContext, after: &RotfContext) -> bool {
        if RotfCutscene::is_due(before) {
            &&& after.log() == before.log() + RotfCutscene::due_log(before)
            &&& after.curr_game matches Some(game) && game == (crate::game::RotfGame {
                state: GameState::ENVIRONMENT,
                ..before.curr_game->0
            })
            &&& after.same_session(before)
        } else {
            *after == *before
        }
    }

    /// Plays the cutscene of a game that is in its cutscene, and lets the
    /// game go on in the environment. Else nothing happens.
    pub fn resolve_context(context: &mut RotfContext)
        ensures
            RotfCutscene::resolved(old(context), final(context)),
            old(context).wf() ==> final(context).wf(),
    {
        if context.context_state != ContextState::INGAME {
            return ;
        }
        let mut cutscene = RotfCutscene::LAUNCH_GAME;
        let mut play_cutscene = false;
        match context.curr_game.as_mut() {
            Some(game) => {
                if game.state == GameState::CUTSCENE {
                    game.state = GameState::ENVIRONMENT;
                    play_cutscene = true;
                    cutscene = game.last_cutscene;
                }
            },
            None => {},
        }
        if play_cutscene {
            cutscene.play_or_report(context);
        }
    }
}

} // verus!
