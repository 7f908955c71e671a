//! Two-phase acquisition of help text for a target command.
//!
//! Phase one asks the command itself for `--help` under a short budget; a
//! cheap heuristic then decides whether the captured text looks like an
//! option listing. If the run or the heuristic fails, phase two falls back
//! to the command's manual page under a longer budget. The crate builds the
//! command descriptions and makes every decision; the caller runs the
//! processes and feeds each outcome back into [`Acquisition::on_outcome`].

use vstd::prelude::*;
use vstd::string::*;

use crate::supervisor::{CommandSpec, CommandSpecView, EnvVar, EnvVarView};
use crate::{Error, Language};

verus! {

/// Wall-clock budget for the native `--help` attempt.
pub const HELP_TIMEOUT_MS: u64 = 1000;

/// Wall-clock budget for the manual-page fallback.
pub const MAN_TIMEOUT_MS: u64 = 2000;

/// How many occurrences of a dash pattern the acceptance heuristic demands.
pub const ACCEPT_THRESHOLD: usize = 3;

/// Number of indices at which the two-character pattern `ab` occurs in `s`.
pub open spec fn spec_count_pairs(s: Seq<char>, a: char, b: char) -> nat
    decreases s.len(),
{
    if s.len() < 2 {
        0
    } else {
        (if s[0] == a && s[1] == b {
            1nat
        } else {
            0nat
        }) + spec_count_pairs(s.drop_first(), a, b)
    }
}

/// The acceptance heuristic: text looks like an option listing when a dash
/// follows a space, or follows a line break, at least three times.
pub open spec fn spec_accepts(s: Seq<char>) -> bool {
    spec_count_pairs(s, ' ', '-') >= ACCEPT_THRESHOLD
        || spec_count_pairs(s, '\n', '-') >= ACCEPT_THRESHOLD
}

/// Counts the occurrences of the two-character pattern `ab` in `text`.
fn count_pairs(text: &str, a: char, b: char) -> (count: usize)
    ensures
        count == spec_count_pairs(text@, a, b),
{
    let n = text.unicode_len();
    if n < 2 {
        return 0;
    }
    let mut count: usize = 0;
    let mut i: usize = 0;
    proof {
        assert(text@.skip(0) =~= text@);
    }
    while i < n - 1
        invariant
            2 <= n,
            i <= n - 1,
            n == text@.len(),
            count <= i,
            spec_count_pairs(text@, a, b) == count + spec_count_pairs(
                text@.skip(i as int),
                a,
                b,
            ),
        decreases n - i,
    {
        let c0 = text.get_char(i);
        let c1 = text.get_char(i + 1);
        proof {
            assert(text@.skip(i as int).drop_first() =~= text@.skip(i + 1));
            assert(text@.skip(i as int)[0] == text@[i as int]);
            assert(text@.skip(i as int)[1] == text@[i + 1]);
        }
        if c0 == a && c1 == b {
            count = count + 1;
        }
        i = i + 1;
    }
    proof {
        assert(text@.skip(i as int).len() < 2);
    }
    count
}

/// Whether captured `--help` output is accepted as a genuine option listing.
pub fn accept_help_text(text: &str) -> (accepted: bool)
    ensures
        accepted == spec_accepts(text@),
{
    count_pairs(text, ' ', '-') >= ACCEPT_THRESHOLD || count_pairs(text, '\n', '-')
        >= ACCEPT_THRESHOLD
}

/// The `--help` invocation of phase one: a wide-terminal hint against
/// premature line wrapping, and a locale-neutral override in English mode.
pub open spec fn spec_help_command(cmd: Seq<char>, lang: Language) -> CommandSpecView {
    CommandSpecView {
        program: cmd,
        args: seq!["--help"@],
        env: if lang is English {
            seq![
                EnvVarView { name: "COLUMNS"@, value: "500"@ },
                EnvVarView { name: "LC_ALL"@, value: "C"@ },
            ]
        } else {
            seq![EnvVarView { name: "COLUMNS"@, value: "500"@ }]
        },
        timeout_ms: HELP_TIMEOUT_MS,
    }
}

/// The manual-page invocation of phase two: a plain-text pager, typographic
/// formatting and color escapes disabled, and the same width/locale hints.
pub open spec fn spec_man_command(cmd: Seq<char>, lang: Language) -> CommandSpecView {
    CommandSpecView {
        program: "man"@,
        args: seq![cmd],
        env: if lang is English {
            seq![
                EnvVarView { name: "PAGER"@, value: "cat"@ },
                EnvVarView { name: "MANROFFOPT"@, value: "-c"@ },
                EnvVarView { name: "GROFF_NO_SGR"@, value: "1"@ },
                EnvVarView { name: "COLUMNS"@, value: "500"@ },
                EnvVarView { name: "LC_ALL"@, value: "C"@ },
            ]
        } else {
            seq![
                EnvVarView { name: "PAGER"@, value: "cat"@ },
                EnvVarView { name: "MANROFFOPT"@, value: "-c"@ },
                EnvVarView { name: "GROFF_NO_SGR"@, value: "1"@ },
                EnvVarView { name: "COLUMNS"@, value: "500"@ },
            ]
        },
        timeout_ms: MAN_TIMEOUT_MS,
    }
}

fn env_var(name: &str, value: &str) -> (e: EnvVar)
    ensures
        e@ == (EnvVarView { name: name@, value: value@ }),
{
    EnvVar { name: String::from_str(name), value: String::from_str(value) }
}

/// Builds the phase-one `--help` invocation for `cmd`.
pub fn help_command(cmd: &str, lang: Language) -> (c: CommandSpec)
    ensures
        c@ == spec_help_command(cmd@, lang),
{
    let mut args: Vec<String> = Vec::new();
    args.push(String::from_str("--help"));
    let mut env: Vec<EnvVar> = Vec::new();
    env.push(env_var("COLUMNS", "500"));
    if lang == Language::English {
        env.push(env_var("LC_ALL", "C"));
    }
    let c = CommandSpec {
        program: String::from_str(cmd),
        args,
        env,
        timeout_ms: HELP_TIMEOUT_MS,
    };
    proof {
        assert(c@ =~~= spec_help_command(cmd@, lang));
    }
    c
}

/// Builds the phase-two manual-page invocation for `cmd`.
pub fn man_command(cmd: &str, lang: Language) -> (c: CommandSpec)
    ensures
        c@ == spec_man_command(cmd@, lang),
{
    let mut args: Vec<String> = Vec::new();
    args.push(String::from_str(cmd));
    let mut env: Vec<EnvVar> = Vec::new();
    env.push(env_var("PAGER", "cat"));
    env.push(env_var("MANROFFOPT", "-c"));
    env.push(env_var("GROFF_NO_SGR", "1"));
    env.push(env_var("COLUMNS", "500"));
    if lang == Language::English {
        env.push(env_var("LC_ALL", "C"));
    }
    let c = CommandSpec {
        program: String::from_str("man"),
        args,
        env,
        timeout_ms: MAN_TIMEOUT_MS,
    };
    proof {
        assert(c@ =~~= spec_man_command(cmd@, lang));
    }
    c
}

/// Which phase of the two-tier strategy is underway.
#[derive(Clone, Copy, Debug, PartialEq, Eq, Structural)]
pub enum AcquisitionPhase {
    /// Waiting for the outcome of the native `--help` run.
    Help,
    /// Waiting for the outcome of the manual-page run.
    Man,
}

/// What the caller must do after feeding an outcome back.
pub enum AcquireStep {
    /// Acquisition succeeded with this text.
    Deliver(String),
    /// Run this command next and feed its outcome back.
    RunNext(CommandSpec),
    /// Both phases are exhausted.
    Fail(Error),
}

/// The two-tier acquisition strategy, first success wins: `--help` under a
/// short budget, validated by [`accept_help_text`], then the manual page
/// under a longer budget.
pub struct Acquisition {
    pub cmd_name: String,
    pub lang: Language,
    pub phase: AcquisitionPhase,
}

impl Acquisition {
    /// Starts an acquisition for `cmd_name`: the first command to supervise
    /// is the `--help` invocation.
    pub fn start(cmd_name: String, lang: Language) -> (r: (Acquisition, CommandSpec))
        ensures
            r.0.cmd_name@ == cmd_name@,
            r.0.lang == lang,
            r.0.phase is Help,
            r.1@ == spec_help_command(cmd_name@, lang),
    {
        let first = help_command(cmd_name.as_str(), lang);
        (Acquisition { cmd_name, lang, phase: AcquisitionPhase::Help }, first)
    }

    /// Feeds back the outcome of the last supervised run and decides what
    /// happens next. Accepted `--help` text or any successful manual-page
    /// text is delivered; a failed or rejected `--help` run falls through to
    /// the manual page; a failed manual-page run exhausts the strategy.
    pub fn on_outcome(&mut self, outcome: Result<String, Error>) -> (step: AcquireStep)
        ensures
            final(self).cmd_name@ == old(self).cmd_name@,
            final(self).lang == old(self).lang,
            old(self).phase is Help && (outcome matches Ok(t) && spec_accepts(t@)) ==> {
                &&& step matches AcquireStep::Deliver(u) && u == outcome->Ok_0
                &&& final(self).phase is Help
            },
            old(self).phase is Help && !(outcome matches Ok(t) && spec_accepts(t@)) ==> {
                &&& step matches AcquireStep::RunNext(c) && c@ == spec_man_command(
                    old(self).cmd_name@,
                    old(self).lang,
                )
                &&& final(self).phase is Man
            },
            old(self).phase is Man ==> {
                &&& final(self).phase is Man
                &&& match outcome {
                    Ok(t) => step matches AcquireStep::Deliver(u) && u == t,
                    Err(_) => step matches AcquireStep::Fail(e) && e is NoHelpAvailable,
                }
            },
    {
        match self.phase {
            AcquisitionPhase::Help => {
                let accepted: Option<String> = match outcome {
                    Ok(text) => if accept_help_text(text.as_str()) {
                        Some(text)
                    } else {
                        None
                    },
                    Err(_) => None,
                };
                match accepted {
                    Some(text) => AcquireStep::Deliver(text),
                    None => {
                        self.phase = AcquisitionPhase::Man;
                        AcquireStep::RunNext(man_command(self.cmd_name.as_str(), self.lang))
                    },
                }
            },
            AcquisitionPhase::Man => match outcome {
                Ok(text) => AcquireStep::Deliver(text),
                Err(_) => AcquireStep::Fail(Error::NoHelpAvailable),
            },
        }
    }
}

} // verus!
