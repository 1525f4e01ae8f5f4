use shu::command::{BuildError, CommandError, InputFile, OutSink};
use shu::dispatch::{
    lookup, next_step, todo, unknown_message, Builtin, StageOutcome, StagePlan, StageStep,
};
use shu::split::split_args;

fn sv(xs: &[&str]) -> Vec<String> {
    xs.iter().map(|s| s.to_string()).collect()
}

#[test]
fn registry_matches_exact_names() {
    assert_eq!(lookup(&"grep".to_string()), Some(Builtin::Grep));
    assert_eq!(lookup(&"cat".to_string()), Some(Builtin::Cat));
    assert_eq!(lookup(&"ls".to_string()), Some(Builtin::Ls));
    assert_eq!(lookup(&"head-tail".to_string()), Some(Builtin::HeadTail));
    assert_eq!(lookup(&"grepx".to_string()), None);
    assert_eq!(lookup(&"Grep".to_string()), None);
}

#[test]
fn unknown_command_plans_only_a_diagnostic() {
    let plan = shu::dispatch::set(sv(&["nosuch", ">", "f"]), false);
    assert_eq!(plan, StagePlan::Unknown("nosuch".to_string()));
    assert_eq!(
        unknown_message(&"nosuch".to_string()),
        "shu: unknown command: nosuch"
    );
}

#[test]
fn pipeline_stage_binds_output_to_the_pipe() {
    let plan = shu::dispatch::set(split_args("grep foo file | cat"), false);
    match plan {
        StagePlan::Run {
            builtin,
            backpack,
            args_left,
            input,
            pipe,
        } => {
            assert_eq!(builtin, Builtin::Grep);
            assert_eq!(backpack.stdout, OutSink::Pipe);
            assert_eq!(backpack.stderr, OutSink::Std);
            assert_eq!(args_left, sv(&["foo", "file"]));
            assert_eq!(input, InputFile::Stdin);
            assert_eq!(pipe, Some(sv(&["cat"])));
        }
        other => panic!("expected a run plan, got {:?}", other),
    }
}

#[test]
fn piped_stage_reads_from_the_pipe() {
    let plan = shu::dispatch::set(sv(&["cat"]), true);
    match plan {
        StagePlan::Run { input, pipe, .. } => {
            assert_eq!(input, InputFile::Pipe);
            assert_eq!(pipe, None);
        }
        other => panic!("expected a run plan, got {:?}", other),
    }
}

#[test]
fn resolve_failure_becomes_a_stage_failure() {
    let plan = shu::dispatch::set(sv(&["cat", ">"]), false);
    assert_eq!(
        plan,
        StagePlan::ResolveFailed(BuildError::NoArgument(">".to_string()))
    );
}

#[test]
fn todo_plans_the_first_stage() {
    assert_eq!(todo(""), None);
    assert_eq!(todo("   "), None);
    assert_eq!(todo("# only a comment"), None);
    match todo("cat x") {
        Some(StagePlan::Run {
            builtin, args_left, ..
        }) => {
            assert_eq!(builtin, Builtin::Cat);
            assert_eq!(args_left, sv(&["x"]));
        }
        other => panic!("expected a run plan, got {:?}", other),
    }
}

#[test]
fn pipeline_status_is_the_last_stage_status() {
    // The first stage completes (error output or not): the pipeline goes on.
    assert_eq!(
        next_step(StageOutcome::Completed(true), Some(sv(&["cat"]))),
        StageStep::Continue(sv(&["cat"]))
    );
    assert_eq!(
        next_step(StageOutcome::Completed(false), Some(sv(&["cat"]))),
        StageStep::Continue(sv(&["cat"]))
    );
    // The last stage decides: success exactly when it wrote no error output.
    assert_eq!(
        next_step(StageOutcome::Completed(false), None),
        StageStep::Done(true)
    );
    assert_eq!(
        next_step(StageOutcome::Completed(true), None),
        StageStep::Done(false)
    );
}

#[test]
fn failed_stage_stops_the_pipeline() {
    assert_eq!(
        next_step(
            StageOutcome::Failed(CommandError::Help),
            Some(sv(&["cat"]))
        ),
        StageStep::Done(false)
    );
}

#[test]
fn error_messages_name_the_shell_and_the_argument() {
    assert_eq!(
        BuildError::NoArgument(">".to_string()).message(),
        "shu: no argument after: >"
    );
    assert_eq!(
        BuildError::UnopenedFile("x.txt".to_string()).message(),
        "shu: can't open the file: x.txt"
    );
    assert_eq!(
        CommandError::Other("grep".to_string(), "no pattern to find".to_string()).message(),
        "shu: grep: no pattern to find"
    );
    assert_eq!(
        CommandError::BuildError(BuildError::PipeError).message(),
        "shu: build error: shu: error with build pipe command"
    );
}
