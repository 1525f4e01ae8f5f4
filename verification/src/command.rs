//! The redirection resolver and the command protocol: scanning a token
//! sequence for redirection and pipe operators, binding each stage's output
//! and error sinks, and the error types a stage can report.

use vstd::prelude::*;
use vstd::string::StrSliceExecFns;
use vstd::string::StringExecFns;

verus! {

/// Where a stage's output or error stream is bound: the process's standard
/// stream, a file opened for truncating or appending writes, or the write
/// end of an in-memory pipe feeding the next stage.
#[derive(Debug, PartialEq, Eq)]
pub enum OutSink {
    Std,
    File { path: String, append: bool },
    Pipe,
}

/// Where a stage reads its input from.
#[derive(Debug, PartialEq, Eq)]
pub enum InputFile {
    Stdin,
    Pipe,
    File(String),
}

/// A failure while building a stage: a flag no builtin knows, an operator
/// with no operand after it, a file that could not be opened, or a pipe that
/// could not be made.
#[derive(Debug, PartialEq, Eq)]
pub enum BuildError {
    UnexpectedArg(String),
    NoArgument(String),
    UnopenedFile(String),
    PipeError,
}

/// A failure while running a stage: a write that failed, a build failure, a
/// request for usage text, or a builtin's own error under its name.
#[derive(Debug, PartialEq, Eq)]
pub enum CommandError {
    WriteError(String),
    BuildError(BuildError),
    Help,
    Other(String, String),
}

/// The diagnostic for a build failure, prefixed with the shell's name and
/// naming the argument or path involved.
pub open spec fn build_error_message(e: BuildError) -> Seq<char> {
    match e {
        BuildError::UnexpectedArg(s) => "shu: unexpected arg: "@ + s@,
        BuildError::NoArgument(s) => "shu: no argument after: "@ + s@,
        BuildError::UnopenedFile(p) => "shu: can't open the file: "@ + p@,
        BuildError::PipeError => "shu: error with build pipe command"@,
    }
}

/// The diagnostic for a run-time failure.
pub open spec fn command_error_message(e: CommandError) -> Seq<char> {
    match e {
        CommandError::WriteError(s) => "shu: error with write into file: "@ + s@,
        CommandError::BuildError(b) => "shu: build error: "@ + build_error_message(b),
        CommandError::Help => "shu: just helping"@,
        CommandError::Other(name, s) => "shu: "@ + name@ + ": "@ + s@,
    }
}

impl BuildError {
    /// The one-line diagnostic for this error.
    pub fn message(&self) -> (r: String)
        ensures
            r@ == build_error_message(*self),
    {
        match self {
            BuildError::UnexpectedArg(s) => "shu: unexpected arg: ".to_owned().concat(s.as_str()),
            BuildError::NoArgument(s) => "shu: no argument after: ".to_owned().concat(s.as_str()),
            BuildError::UnopenedFile(p) => "shu: can't open the file: ".to_owned().concat(
                p.as_str(),
            ),
            BuildError::PipeError => "shu: error with build pipe command".to_owned(),
        }
    }
}

impl CommandError {
    /// The one-line diagnostic for this error.
    pub fn message(&self) -> (r: String)
        ensures
            r@ == command_error_message(*self),
    {
        match self {
            CommandError::WriteError(s) => "shu: error with write into file: ".to_owned().concat(
                s.as_str(),
            ),
            CommandError::BuildError(b) => {
                let inner = b.message();
                "shu: build error: ".to_owned().concat(inner.as_str())
            },
            CommandError::Help => "shu: just helping".to_owned(),
            CommandError::Other(name, s) => {
                let r = "shu: ".to_owned().concat(name.as_str()).concat(": ").concat(s.as_str());
                proof {
                    assert(r@ =~= "shu: "@ + name@ + ": "@ + s@);
                }
                r
            },
        }
    }
}

/// Compares two strings character by character.
pub fn str_eq(a: &str, b: &str) -> (r: bool)
    ensures
        r == (a@ == b@),
{
    let na = a.unicode_len();
    let nb = b.unicode_len();
    if na != nb {
        return false;
    }
    let mut i: usize = 0;
    while i < na
        invariant
            0 <= i <= na,
            na == a@.len(),
            nb == b@.len(),
            na == nb,
            forall|q: int| 0 <= q < i ==> a@[q] == b@[q],
        decreases na - i,
    {
        if a.get_char(i) != b.get_char(i) {
            return false;
        }
        i = i + 1;
    }
    proof {
        assert(a@ =~= b@);
    }
    true
}

/// The operators that bind the output stream to a file, truncating.
pub open spec fn is_out_op(t: Seq<char>) -> bool {
    t == ">"@ || t == "--output"@ || t == "-out"@
}

/// The operator that binds the output stream to a file, appending.
pub open spec fn is_append_out_op(t: Seq<char>) -> bool {
    t == ">>"@
}

/// The operators that bind the error stream to a file, truncating.
pub open spec fn is_err_op(t: Seq<char>) -> bool {
    t == "2>"@ || t == "--err"@ || t == "--stderr"@ || t == "--error"@
}

/// The operator that binds the error stream to a file, appending.
pub open spec fn is_append_err_op(t: Seq<char>) -> bool {
    t == "2>>"@
}

/// The operators that hand everything after them to the next pipeline stage.
pub open spec fn is_pipe_op(t: Seq<char>) -> bool {
    t == "|"@ || t == "--pipe"@ || t == "--pipe-mode"@
}

/// The flags that force append mode for the output redirections that follow.
pub open spec fn is_add_op(t: Seq<char>) -> bool {
    t == "-add"@ || t == "--add-mode"@
}

/// What resolving a stage's tokens yields: the file bound to each stream (a
/// path and whether to append), the residual arguments, and the tokens of
/// the next stage when a pipe was requested.
pub struct Resolution {
    pub out: Option<(Seq<char>, bool)>,
    pub err: Option<(Seq<char>, bool)>,
    pub left: Seq<Seq<char>>,
    pub pipe: Option<Seq<Seq<char>>>,
}

/// One left-to-right scan over the tokens from position `i`. Each operator
/// consumes the operand after it — its absence is the error, carrying the
/// operator — and the first redirection for a stream is the one that binds
/// it. A pipe operator followed by at least one token stops the scan at
/// once, the rest becoming the next stage; a trailing pipe operator is
/// ignored. `add` records whether an append-mode flag was seen; everything
/// else lands in the residual arguments `left`.
pub open spec fn scan_from(
    toks: Seq<Seq<char>>,
    i: int,
    out: Option<(Seq<char>, bool)>,
    err: Option<(Seq<char>, bool)>,
    add: bool,
    left: Seq<Seq<char>>,
) -> Result<Resolution, Seq<char>>
    decreases toks.len() - i,
{
    if i < 0 || i >= toks.len() {
        Ok(Resolution { out, err, left, pipe: None })
    } else {
        let t = toks[i];
        if is_out_op(t) {
            if i + 1 >= toks.len() {
                Err(t)
            } else {
                scan_from(
                    toks,
                    i + 2,
                    if out is Some {
                        out
                    } else {
                        Some((toks[i + 1], add))
                    },
                    err,
                    add,
                    left,
                )
            }
        } else if is_append_out_op(t) {
            if i + 1 >= toks.len() {
                Err(t)
            } else {
                scan_from(
                    toks,
                    i + 2,
                    if out is Some {
                        out
                    } else {
                        Some((toks[i + 1], true))
                    },
                    err,
                    true,
                    left,
                )
            }
        } else if is_pipe_op(t) {
            if i + 1 < toks.len() {
                Ok(Resolution { out, err, left, pipe: Some(toks.subrange(i + 1, toks.len() as int)) })
            } else {
                scan_from(toks, i + 1, out, err, add, left)
            }
        } else if is_err_op(t) {
            if i + 1 >= toks.len() {
                Err(t)
            } else {
                scan_from(
                    toks,
                    i + 2,
                    out,
                    if err is Some {
                        err
                    } else {
                        Some((toks[i + 1], false))
                    },
                    add,
                    left,
                )
            }
        } else if is_append_err_op(t) {
            if i + 1 >= toks.len() {
                Err(t)
            } else {
                scan_from(
                    toks,
                    i + 2,
                    out,
                    if err is Some {
                        err
                    } else {
                        Some((toks[i + 1], true))
                    },
                    add,
                    left,
                )
            }
        } else if is_add_op(t) {
            scan_from(toks, i + 1, out, err, true, left)
        } else {
            scan_from(toks, i + 1, out, err, add, left.push(t))
        }
    }
}

/// Resolving a whole stage: the scan starts after the command name.
pub open spec fn resolve_spec(toks: Seq<Seq<char>>) -> Result<Resolution, Seq<char>> {
    scan_from(toks, 1, None, None, false, Seq::empty())
}

/// How an executable sink relates to a resolved stream: when the stage is
/// piped the output binds to the pipe, whatever file redirection was
/// recorded; otherwise to the recorded file, or to the standard stream when
/// none was.
pub open spec fn sink_matches(sink: OutSink, file: Option<(Seq<char>, bool)>, piped: bool) -> bool {
    if piped {
        sink is Pipe
    } else {
        match file {
            None => sink is Std,
            Some((p, a)) => sink matches OutSink::File { path, append } && path@ == p && append
                == a,
        }
    }
}

/// The view of the redirection recorded for one stream.
pub open spec fn redirect_view(o: Option<(String, bool)>) -> Option<(Seq<char>, bool)> {
    match o {
        None => None,
        Some((s, a)) => Some((s@, a)),
    }
}

/// A stage's bound sinks: the pair of write destinations for its output and
/// its error stream.
#[derive(Debug, PartialEq, Eq)]
pub struct CommandBackPack {
    pub stdout: OutSink,
    pub stderr: OutSink,
}

impl CommandBackPack {
    /// The operand after the operator at `i`, or the missing-argument error
    /// naming that operator.
    pub fn get_next(args: &Vec<String>, i: usize) -> (r: Result<String, BuildError>)
        requires
            i < args@.len(),
        ensures
            i + 1 < args@.len() ==> (r matches Ok(s) && s@ == args@[i as int + 1]@),
            i + 1 >= args@.len() ==> (r matches Err(BuildError::NoArgument(op)) && op@ == args@[
                i as int
            ]@),
    {
        let n = args.len();
        if i + 1 >= n {
            Err(BuildError::NoArgument(args[i].clone()))
        } else {
            Ok(args[i + 1].clone())
        }
    }

    /// Resolves a stage's tokens into its sink bundle, its residual
    /// arguments, and the tokens of the next stage when a pipe was
    /// requested, exactly as [`resolve_spec`] states; the missing operand
    /// after a redirection operator is the one error.
    pub fn new(args: Vec<String>) -> (r: Result<
        (CommandBackPack, Vec<String>, Option<Vec<String>>),
        BuildError,
    >)
        ensures
            resolve_spec(args.deep_view()) matches Ok(res) ==> r matches Ok((bp, left, pipe))
                && sink_matches(bp.stdout, res.out, res.pipe is Some) && sink_matches(
                bp.stderr,
                res.err,
                false,
            ) && left.deep_view() == res.left && pipe.deep_view() == res.pipe,
            resolve_spec(args.deep_view()) matches Err(op) ==> r matches Err(
                BuildError::NoArgument(name),
            ) && name@ == op,
    {
        let ghost dv = args.deep_view();
        let n = args.len();
        let mut left: Vec<String> = Vec::new();
        let mut out: Option<(String, bool)> = None;
        let mut err: Option<(String, bool)> = None;
        let mut add = false;
        let mut pipe: Option<Vec<String>> = None;
        proof {
            assert(left.deep_view() =~= Seq::<Seq<char>>::empty());
        }
        let mut i: usize = 1;
        while i < n
            invariant_except_break
                pipe is None,
                1 <= i,
                scan_from(dv, 1, None, None, false, Seq::empty()) == scan_from(
                    dv,
                    i as int,
                    redirect_view(out),
                    redirect_view(err),
                    add,
                    left.deep_view(),
                ),
            invariant
                n == args@.len(),
                dv == args.deep_view(),
                dv.len() == n,
            ensures
                scan_from(dv, 1, None, None, false, Seq::empty()) == Ok::<Resolution, Seq<char>>(
                    Resolution {
                        out: redirect_view(out),
                        err: redirect_view(err),
                        left: left.deep_view(),
                        pipe: pipe.deep_view(),
                    },
                ),
            decreases n - i,
        {
            let ghost pre_left = left.deep_view();
            let t = &args[i];
            proof {
                assert(t@ == dv[i as int]);
            }
            if str_eq(t.as_str(), ">") || str_eq(t.as_str(), "--output") || str_eq(
                t.as_str(),
                "-out",
            ) {
                let operand = match Self::get_next(&args, i) {
                    Ok(s) => s,
                    Err(e) => {
                        return Err(e);
                    },
                };
                if out.is_none() {
                    out = Some((operand, add));
                }
                i = i + 2;
            } else if str_eq(t.as_str(), ">>") {
                let operand = match Self::get_next(&args, i) {
                    Ok(s) => s,
                    Err(e) => {
                        return Err(e);
                    },
                };
                if out.is_none() {
                    out = Some((operand, true));
                }
                add = true;
                i = i + 2;
            } else if str_eq(t.as_str(), "|") || str_eq(t.as_str(), "--pipe") || str_eq(
                t.as_str(),
                "--pipe-mode",
            ) {
                if i + 1 < n {
                    let mut tail: Vec<String> = Vec::new();
                    let mut k = i + 1;
                    while k < n
                        invariant
                            i + 1 <= k <= n,
                            n == args@.len(),
                            tail@.len() == k - i - 1,
                            forall|q: int| 0 <= q < tail@.len() ==> tail@[q] == args@[i + 1 + q],
                        decreases n - k,
                    {
                        tail.push(args[k].clone());
                        k = k + 1;
                    }
                    proof {
                        assert forall|q: int| 0 <= q < tail@.len() implies tail.deep_view()[q]
                            == dv.subrange(i as int + 1, n as int)[q] by {
                            assert(tail@[q] == args@[i + 1 + q]);
                        };
                        assert(tail.deep_view() =~= dv.subrange(i as int + 1, n as int));
                    }
                    pipe = Some(tail);
                    proof {
                        assert(pipe.deep_view() == Some(dv.subrange(i as int + 1, n as int)));
                        assert(scan_from(
                            dv,
                            i as int,
                            redirect_view(out),
                            redirect_view(err),
                            add,
                            left.deep_view(),
                        ) == Ok::<Resolution, Seq<char>>(
                            Resolution {
                                out: redirect_view(out),
                                err: redirect_view(err),
                                left: left.deep_view(),
                                pipe: Some(dv.subrange(i as int + 1, n as int)),
                            },
                        ));
                    }
                    break ;
                } else {
                    i = i + 1;
                }
            } else if str_eq(t.as_str(), "2>") || str_eq(t.as_str(), "--err") || str_eq(
                t.as_str(),
                "--stderr",
            ) || str_eq(t.as_str(), "--error") {
                let operand = match Self::get_next(&args, i) {
                    Ok(s) => s,
                    Err(e) => {
                        return Err(e);
                    },
                };
                if err.is_none() {
                    err = Some((operand, false));
                }
                i = i + 2;
            } else if str_eq(t.as_str(), "2>>") {
                let operand = match Self::get_next(&args, i) {
                    Ok(s) => s,
                    Err(e) => {
                        return Err(e);
                    },
                };
                if err.is_none() {
                    err = Some((operand, true));
                }
                i = i + 2;
            } else if str_eq(t.as_str(), "-add") || str_eq(t.as_str(), "--add-mode") {
                add = true;
                i = i + 1;
            } else {
                left.push(t.clone());
                proof {
                    assert(left.deep_view() =~= pre_left.push(dv[i as int]));
                }
                i = i + 1;
            }
        }
        let stdout = if pipe.is_some() {
            OutSink::Pipe
        } else {
            match out {
                Some((p, a)) => OutSink::File { path: p, append: a },
                None => OutSink::Std,
            }
        };
        let stderr = match err {
            Some((p, a)) => OutSink::File { path: p, append: a },
            None => OutSink::Std,
        };
        Ok((CommandBackPack { stdout, stderr }, left, pipe))
    }
}

/// The execution protocol of a builtin: running it against the stage's bound
/// sinks yields whether it wrote error output, or the failure that stopped
/// it. Embedders implement this for each builtin they register.
pub trait Command: Sized {
    /// Prints usage for the builtin.
    fn help();

    /// Runs the builtin against the stage's sinks.
    fn run(self, sinks: &mut CommandBackPack) -> Result<bool, CommandError>;
}

/// The construction protocol of a builtin: building it from a stage's
/// residual arguments, knowing whether the stage reads from a pipe.
pub trait CommandBuild: Sized {
    /// Parses the residual arguments into a runnable builtin, or reports the
    /// flag or operand that stopped the build.
    fn new_obj(args: Vec<String>, pipe_mode: bool) -> Result<Self, CommandError>;
}

} // verus!
