use shu::command::{BuildError, CommandBackPack, OutSink};
use shu::filter::FilterArgs;
use shu::split::split_args;

fn sv(xs: &[&str]) -> Vec<String> {
    xs.iter().map(|s| s.to_string()).collect()
}

#[test]
fn resolve_truncate_output() {
    let (bp, left, pipe) = CommandBackPack::new(split_args("cat a.txt > out.txt")).unwrap();
    assert_eq!(left, sv(&["a.txt"]));
    assert_eq!(
        bp.stdout,
        OutSink::File {
            path: "out.txt".to_string(),
            append: false
        }
    );
    assert_eq!(bp.stderr, OutSink::Std);
    assert_eq!(pipe, None);
}

#[test]
fn append_differs_from_truncate_only_in_mode() {
    let (t, left_t, _) = CommandBackPack::new(split_args("cat a.txt > out.txt")).unwrap();
    let (a, left_a, _) = CommandBackPack::new(split_args("cat a.txt >> out.txt")).unwrap();
    assert_eq!(left_t, left_a);
    assert_eq!(
        t.stdout,
        OutSink::File {
            path: "out.txt".to_string(),
            append: false
        }
    );
    assert_eq!(
        a.stdout,
        OutSink::File {
            path: "out.txt".to_string(),
            append: true
        }
    );
    assert_eq!(t.stderr, a.stderr);
}

#[test]
fn missing_operand_names_the_operator() {
    let r = CommandBackPack::new(sv(&["cat", ">"]));
    assert_eq!(r.unwrap_err(), BuildError::NoArgument(">".to_string()));
    let r = CommandBackPack::new(sv(&["cat", "2>>"]));
    assert_eq!(r.unwrap_err(), BuildError::NoArgument("2>>".to_string()));
}

#[test]
fn long_form_aliases_bind_the_streams() {
    let (bp, left, _) = CommandBackPack::new(sv(&["cat", "--output", "o", "--stderr", "e", "x"]))
        .unwrap();
    assert_eq!(left, sv(&["x"]));
    assert_eq!(
        bp.stdout,
        OutSink::File {
            path: "o".to_string(),
            append: false
        }
    );
    assert_eq!(
        bp.stderr,
        OutSink::File {
            path: "e".to_string(),
            append: false
        }
    );
}

#[test]
fn add_mode_forces_append_for_later_output() {
    let (bp, _, _) = CommandBackPack::new(sv(&["cat", "-add", ">", "o"])).unwrap();
    assert_eq!(
        bp.stdout,
        OutSink::File {
            path: "o".to_string(),
            append: true
        }
    );
}

#[test]
fn first_redirection_binds_the_stream() {
    let (bp, left, _) = CommandBackPack::new(sv(&["cat", ">", "a", ">", "b"])).unwrap();
    assert_eq!(
        bp.stdout,
        OutSink::File {
            path: "a".to_string(),
            append: false
        }
    );
    assert_eq!(left, sv(&[]));
}

#[test]
fn pipe_takes_over_output_and_stops_the_scan() {
    let (bp, left, pipe) = CommandBackPack::new(split_args("grep f > o | cat > p")).unwrap();
    assert_eq!(bp.stdout, OutSink::Pipe);
    assert_eq!(left, sv(&["f"]));
    assert_eq!(pipe, Some(sv(&["cat", ">", "p"])));
}

#[test]
fn trailing_pipe_is_ignored() {
    let (bp, left, pipe) = CommandBackPack::new(sv(&["cat", "x", "|"])).unwrap();
    assert_eq!(bp.stdout, OutSink::Std);
    assert_eq!(left, sv(&["x"]));
    assert_eq!(pipe, None);
}

#[test]
fn command_name_is_not_a_residual_argument() {
    let (_, left, _) = CommandBackPack::new(sv(&["cat", "x", "y"])).unwrap();
    assert_eq!(left, sv(&["x", "y"]));
}

#[test]
fn get_next_returns_operand_or_error() {
    let args = sv(&["a", ">", "b"]);
    assert_eq!(CommandBackPack::get_next(&args, 1), Ok("b".to_string()));
    assert_eq!(
        CommandBackPack::get_next(&args, 2),
        Err(BuildError::NoArgument("b".to_string()))
    );
}

#[test]
fn filter_resolves_both_streams() {
    let f = FilterArgs::filter(sv(&["a", ">", "f", "2>>", "g", "b"])).unwrap();
    assert_eq!(f.args_left, sv(&["a", "b"]));
    assert_eq!(
        f.outfile,
        OutSink::File {
            path: "f".to_string(),
            append: false
        }
    );
    assert_eq!(
        f.errfile,
        OutSink::File {
            path: "g".to_string(),
            append: true
        }
    );
}

#[test]
fn filter_defaults_to_standard_streams() {
    let f = FilterArgs::filter(sv(&["a", "b"])).unwrap();
    assert_eq!(f.outfile, OutSink::Std);
    assert_eq!(f.errfile, OutSink::Std);
    assert_eq!(f.args_left, sv(&["a", "b"]));
}

#[test]
fn filter_reports_the_missing_operand() {
    let r = FilterArgs::filter(sv(&["a", ">>"]));
    assert_eq!(r.unwrap_err(), BuildError::NoArgument(">>".to_string()));
}

#[test]
fn next_write_builds_the_sink() {
    let args = sv(&[">", "f"]);
    assert_eq!(
        FilterArgs::next_write(&args, 0, true),
        Ok(OutSink::File {
            path: "f".to_string(),
            append: true
        })
    );
    assert_eq!(
        FilterArgs::next_write(&args, 1, false),
        Err(BuildError::NoArgument("f".to_string()))
    );
}
