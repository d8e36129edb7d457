//! The dispatch policy: what to do with one tokenized line, and what to
//! report about the outcome of an external execution.
//!
//! Everything here is a pure decision; the surrounding binary performs the
//! chosen action (change the working directory, terminate, spawn a
//! process) and formats the chosen diagnostic.

use vstd::prelude::*;
use vstd::string::StringExecFns;

use crate::text::{line_to_chars, str_eq, trim_chars, trim_ws};
use crate::tokenizer::{spec_tokenize, tokenize_chars};

verus! {

/// The one action a non-empty token sequence calls for.
#[derive(Debug, PartialEq, Eq)]
pub enum Action {
    /// `cd` with no argument: change to the root directory.
    ChangeToRoot,
    /// `cd` with one argument: change to that path.
    ChangeTo(String),
    /// `cd` with two or more arguments: report a usage error, change nothing.
    CdUsage,
    /// `exit`, regardless of any trailing arguments: terminate the shell
    /// with success status.
    Exit,
    /// Anything else: run an external program with the remaining tokens as
    /// its arguments, and wait for it.
    Run { program: String, args: Vec<String> },
}

/// Whether `a` is the action the dispatch policy assigns to the token
/// sequence `ts` (first token the command name, the rest its arguments).
pub open spec fn is_action_for(ts: Seq<Seq<char>>, a: Action) -> bool
    recommends
        ts.len() >= 1,
{
    if ts[0] == "cd"@ {
        if ts.len() == 1 {
            a == Action::ChangeToRoot
        } else if ts.len() == 2 {
            a matches Action::ChangeTo(p) && p@ == ts[1]
        } else {
            a == Action::CdUsage
        }
    } else if ts[0] == "exit"@ {
        a == Action::Exit
    } else {
        a matches Action::Run { program, args } && program@ == ts[0] && args.deep_view() == ts.skip(
            1,
        )
    }
}

/// Choose the action for a non-empty token sequence.
pub fn decide_action(tokens: Vec<String>) -> (a: Action)
    requires
        tokens@.len() >= 1,
    ensures
        is_action_for(tokens.deep_view(), a),
{
    proof {
        assert(tokens.deep_view()[0] == tokens@[0]@);
    }
    if str_eq(tokens[0].as_str(), "cd") {
        if tokens.len() == 1 {
            Action::ChangeToRoot
        } else if tokens.len() == 2 {
            proof {
                assert(tokens.deep_view()[1] == tokens@[1]@);
            }
            Action::ChangeTo(tokens[1].clone())
        } else {
            Action::CdUsage
        }
    } else if str_eq(tokens[0].as_str(), "exit") {
        Action::Exit
    } else {
        let program = tokens[0].clone();
        let mut args: Vec<String> = Vec::new();
        let mut i: usize = 1;
        proof {
            assert(args.deep_view() =~= tokens.deep_view().subrange(1, 1));
        }
        while i < tokens.len()
            invariant
                1 <= i <= tokens@.len(),
                args.deep_view() == tokens.deep_view().subrange(1, i as int),
            decreases tokens@.len() - i,
        {
            let ghost prev = args.deep_view();
            args.push(tokens[i].clone());
            proof {
                assert(args.deep_view() =~= prev.push(tokens.deep_view()[i as int]));
                assert(args.deep_view() =~= tokens.deep_view().subrange(1, i + 1 as int));
            }
            i += 1;
        }
        proof {
            assert(args.deep_view() =~= tokens.deep_view().skip(1));
        }
        Action::Run { program, args }
    }
}

/// What one external execution attempt came to.
#[derive(Debug, PartialEq, Eq)]
pub enum ProcessOutcome {
    /// The process ran and exited with this status code.
    Exited(i32),
    /// The process ended on a signal, so no exit code is available.
    SignalTerminated,
    /// The program name could not be resolved.
    NotFound,
    /// The spawn failed for some other reason, given as the OS error text.
    SpawnFailed(String),
}

/// A diagnostic owed to the error stream.
#[derive(Debug, PartialEq, Eq)]
pub enum Diagnostic {
    /// The command ran but exited with this non-zero code.
    NonZeroExit(i32),
    /// The command was terminated by a signal.
    KilledBySignal,
    /// No program of this name could be found.
    CommandNotFound(String),
    /// The spawn failed; the OS error text.
    SpawnError(String),
}

/// What to report for the outcome of running `program`: nothing on a clean
/// exit, and one diagnostic for every failure, none of them fatal to the
/// shell itself.
pub fn report_for_outcome(program: &str, outcome: ProcessOutcome) -> (r: Option<Diagnostic>)
    ensures
        match outcome {
            ProcessOutcome::Exited(code) => r == if code == 0 {
                None::<Diagnostic>
            } else {
                Some(Diagnostic::NonZeroExit(code))
            },
            ProcessOutcome::SignalTerminated => r == Some(Diagnostic::KilledBySignal),
            ProcessOutcome::NotFound => r matches Some(d) && d matches Diagnostic::CommandNotFound(
                n,
            ) && n@ == program@,
            ProcessOutcome::SpawnFailed(t) => r == Some(Diagnostic::SpawnError(t)),
        },
{
    match outcome {
        ProcessOutcome::Exited(code) => {
            if code == 0 {
                None
            } else {
                Some(Diagnostic::NonZeroExit(code))
            }
        },
        ProcessOutcome::SignalTerminated => Some(Diagnostic::KilledBySignal),
        ProcessOutcome::NotFound => Some(Diagnostic::CommandNotFound(String::from_str(program))),
        ProcessOutcome::SpawnFailed(t) => Some(Diagnostic::SpawnError(t)),
    }
}

/// The plan for one raw input line.
#[derive(Debug, PartialEq, Eq)]
pub enum LinePlan {
    /// The line is empty once trimmed: take no action at all.
    EmptyInput,
    /// The line has unbalanced quoting: report a quote mismatch, run
    /// nothing.
    BadQuoting,
    /// The line tokenized: perform this action.
    Do(Action),
}

/// Plan one raw input line: trim it, tokenize it, and choose the action.
pub fn plan_line(line: &str) -> (p: LinePlan)
    ensures
        ({
            let t = trim_ws(line@);
            &&& (p is EmptyInput <==> t.len() == 0)
            &&& (p is BadQuoting <==> t.len() > 0 && spec_tokenize(t) is None)
            &&& (t.len() > 0 && spec_tokenize(t) is Some ==> (p matches LinePlan::Do(a)
                && is_action_for(spec_tokenize(t)->0, a)))
        }),
{
    let chars = line_to_chars(line);
    let trimmed = trim_chars(&chars);
    if trimmed.len() == 0 {
        return LinePlan::EmptyInput;
    }
    match tokenize_chars(&trimmed) {
        Err(_) => LinePlan::BadQuoting,
        Ok(tokens) => {
            proof {
                assert(tokens.deep_view().len() == tokens@.len());
            }
            LinePlan::Do(decide_action(tokens))
        },
    }
}

} // verus!
