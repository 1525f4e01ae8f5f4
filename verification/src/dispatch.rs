//! The dispatcher: maps a stage's leading token to a builtin of the fixed
//! registry, resolves the stage's redirections, and plans the run; a pipe
//! hands the remaining tokens to the next stage, and a pipeline reports the
//! last stage's status.

use crate::command::BuildError;
use crate::command::CommandBackPack;
use crate::command::CommandError;
use crate::command::InputFile;
use crate::command::resolve_spec;
use crate::command::sink_matches;
use crate::command::str_eq;
use crate::split::spec_tokenize;
use crate::split::split_args;
use vstd::prelude::*;
use vstd::string::StrSliceExecFns;
use vstd::string::StringExecFns;

verus! {

/// The fixed registry of builtin commands.
#[derive(Clone, Copy, Debug, PartialEq, Eq)]
pub enum Builtin {
    Grep,
    Cat,
    Ls,
    HeadTail,
}

/// The registry as a function: an exact match on the command name.
pub open spec fn builtin_of(name: Seq<char>) -> Option<Builtin> {
    if name == "grep"@ {
        Some(Builtin::Grep)
    } else if name == "cat"@ {
        Some(Builtin::Cat)
    } else if name == "ls"@ {
        Some(Builtin::Ls)
    } else if name == "head-tail"@ {
        Some(Builtin::HeadTail)
    } else {
        None
    }
}

/// Looks a command name up in the registry.
pub fn lookup(name: &String) -> (r: Option<Builtin>)
    ensures
        r == builtin_of(name@),
{
    if str_eq(name.as_str(), "grep") {
        Some(Builtin::Grep)
    } else if str_eq(name.as_str(), "cat") {
        Some(Builtin::Cat)
    } else if str_eq(name.as_str(), "ls") {
        Some(Builtin::Ls)
    } else if str_eq(name.as_str(), "head-tail") {
        Some(Builtin::HeadTail)
    } else {
        None
    }
}

/// What dispatching one stage decided: the name matched no builtin (one
/// diagnostic naming it, a failure, and no file is touched); resolving the
/// redirections failed; or a builtin is to run with its residual arguments,
/// its bound sinks, its input source, and the tokens of the next stage when
/// a pipe was requested.
#[derive(Debug, PartialEq, Eq)]
pub enum StagePlan {
    Unknown(String),
    ResolveFailed(BuildError),
    Run {
        builtin: Builtin,
        backpack: CommandBackPack,
        args_left: Vec<String>,
        input: InputFile,
        pipe: Option<Vec<String>>,
    },
}

/// What the plan for tokens `toks` must be. An unknown leading token plans
/// only the diagnostic; otherwise the stage is resolved, a missing operand
/// surfacing as the build error naming its operator, and the run is planned
/// with the resolved sinks, the residual arguments, the pipe continuation,
/// and the stage's input: the pipe when this stage continues one, standard
/// input otherwise.
pub open spec fn plan_matches(plan: StagePlan, toks: Seq<Seq<char>>, pipe_mode: bool) -> bool {
    if builtin_of(toks[0]) is None {
        plan matches StagePlan::Unknown(name) && name@ == toks[0]
    } else {
        match resolve_spec(toks) {
            Err(op) => plan matches StagePlan::ResolveFailed(BuildError::NoArgument(name))
                && name@ == op,
            Ok(res) => plan matches StagePlan::Run { builtin, backpack, args_left, input, pipe }
                && Some(builtin) == builtin_of(toks[0]) && sink_matches(
                backpack.stdout,
                res.out,
                res.pipe is Some,
            ) && sink_matches(backpack.stderr, res.err, false) && args_left.deep_view() == res.left
                && pipe.deep_view() == res.pipe && input == (if pipe_mode {
                InputFile::Pipe
            } else {
                InputFile::Stdin
            }),
        }
    }
}

/// Plans one stage from its tokens. The leading token selects the builtin;
/// an unknown name fails the stage without opening any file.
pub fn set(args: Vec<String>, pipe_mode: bool) -> (r: StagePlan)
    requires
        args@.len() > 0,
    ensures
        plan_matches(r, args.deep_view(), pipe_mode),
{
    match lookup(&args[0]) {
        None => StagePlan::Unknown(args[0].clone()),
        Some(b) => match CommandBackPack::new(args) {
            Err(e) => StagePlan::ResolveFailed(e),
            Ok((bp, left, pipe)) => StagePlan::Run {
                builtin: b,
                backpack: bp,
                args_left: left,
                input: if pipe_mode {
                    InputFile::Pipe
                } else {
                    InputFile::Stdin
                },
                pipe,
            },
        },
    }
}

/// Tokenizes one raw line and plans its first stage; `None` when the line
/// holds no tokens at all.
pub fn todo(command: &str) -> (r: Option<StagePlan>)
    ensures
        r is None <==> spec_tokenize(command@).len() == 0,
        r matches Some(plan) ==> plan_matches(plan, spec_tokenize(command@), false),
{
    let toks = split_args(command);
    if toks.len() == 0 {
        None
    } else {
        Some(set(toks, false))
    }
}

/// The single diagnostic line for an unknown command, naming it.
pub fn unknown_message(name: &String) -> (r: String)
    ensures
        r@ == "shu: unknown command: "@ + name@,
{
    "shu: unknown command: ".to_owned().concat(name.as_str())
}

/// How one stage ended: a failure while resolving, building or running it,
/// or a completed run reporting whether it wrote error output.
#[derive(Debug, PartialEq, Eq)]
pub enum StageOutcome {
    Failed(CommandError),
    Completed(bool),
}

/// What the pipeline loop does next: stop with the overall status, or go on
/// to the next stage's tokens.
#[derive(Debug, PartialEq, Eq)]
pub enum StageStep {
    Done(bool),
    Continue(Vec<String>),
}

/// Drives the pipeline from one stage's outcome. A failed stage stops the
/// pipeline with failure, the planned continuation abandoned; a completed
/// stage hands over to the continuation when there is one, so that the
/// pipeline's status is the last stage's status — an earlier stage's error
/// output never decides it — and otherwise the pipeline succeeds exactly
/// when the stage wrote no error output.
pub fn next_step(outcome: StageOutcome, pipe: Option<Vec<String>>) -> (r: StageStep)
    ensures
        outcome is Failed ==> r == StageStep::Done(false),
        outcome is Completed && pipe is Some ==> (r matches StageStep::Continue(next) && next
            == pipe->0),
        outcome is Completed && pipe is None ==> r == StageStep::Done(!outcome->Completed_0),
{
    match outcome {
        StageOutcome::Failed(_) => StageStep::Done(false),
        StageOutcome::Completed(had_err) => match pipe {
            Some(t) => StageStep::Continue(t),
            None => StageStep::Done(!had_err),
        },
    }
}

} // verus!
