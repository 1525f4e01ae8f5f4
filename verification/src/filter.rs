//! A reduced redirection resolver: only the four file-redirection operators,
//! scanned over a whole argument list, with no aliases, pipes or mode flags.
//! It serves embedders that feed a command's arguments directly, without a
//! leading command name.

use crate::command::BuildError;
use crate::command::CommandBackPack;
use crate::command::OutSink;
use crate::command::Resolution;
use crate::command::str_eq;
use vstd::prelude::*;

verus! {

/// One left-to-right scan over all of `toks`. `>` and `>>` bind the output
/// stream, `2>` and `2>>` the error stream, each consuming the operand after
/// it — its absence is the error, carrying the operator — and the first
/// redirection for a stream is the one that binds it; everything else lands
/// in the residual arguments.
pub open spec fn filter_scan(
    toks: Seq<Seq<char>>,
    i: int,
    out: Option<(Seq<char>, bool)>,
    err: Option<(Seq<char>, bool)>,
    left: Seq<Seq<char>>,
) -> Result<Resolution, Seq<char>>
    decreases toks.len() - i,
{
    if i < 0 || i >= toks.len() {
        Ok(Resolution { out, err, left, pipe: None })
    } else {
        let t = toks[i];
        if t == ">"@ || t == ">>"@ {
            if i + 1 >= toks.len() {
                Err(t)
            } else {
                filter_scan(
                    toks,
                    i + 2,
                    if out is Some {
                        out
                    } else {
                        Some((toks[i + 1], t == ">>"@))
                    },
                    err,
                    left,
                )
            }
        } else if t == "2>"@ || t == "2>>"@ {
            if i + 1 >= toks.len() {
                Err(t)
            } else {
                filter_scan(
                    toks,
                    i + 2,
                    out,
                    if err is Some {
                        err
                    } else {
                        Some((toks[i + 1], t == "2>>"@))
                    },
                    left,
                )
            }
        } else {
            filter_scan(toks, i + 1, out, err, left.push(t))
        }
    }
}

/// Filtering a whole argument list.
pub open spec fn filter_spec(toks: Seq<Seq<char>>) -> Result<Resolution, Seq<char>> {
    filter_scan(toks, 0, None, None, Seq::empty())
}

/// The view of a sink recorded for one stream while filtering.
pub open spec fn opt_sink_view(o: Option<OutSink>) -> Option<(Seq<char>, bool)> {
    match o {
        Some(OutSink::File { path, append }) => Some((path@, append)),
        _ => None,
    }
}

/// An argument list with its file redirections resolved: the residual
/// arguments and the sink each stream binds to.
#[derive(Debug, PartialEq, Eq)]
pub struct FilterArgs {
    pub args_left: Vec<String>,
    pub outfile: OutSink,
    pub errfile: OutSink,
}

impl FilterArgs {
    /// The file sink for the operand after the operator at `i`, in the given
    /// mode, or the missing-argument error naming that operator.
    pub fn next_write(args: &Vec<String>, i: usize, add_mode: bool) -> (r: Result<
        OutSink,
        BuildError,
    >)
        requires
            i < args@.len(),
        ensures
            i + 1 < args@.len() ==> (r matches Ok(s) && s matches OutSink::File { path, append }
                && path@ == args@[i as int + 1]@ && append == add_mode),
            i + 1 >= args@.len() ==> (r matches Err(BuildError::NoArgument(op)) && op@ == args@[
                i as int
            ]@),
    {
        match CommandBackPack::get_next(args, i) {
            Ok(p) => Ok(OutSink::File { path: p, append: add_mode }),
            Err(e) => Err(e),
        }
    }

    /// Resolves the file redirections of `args`, exactly as [`filter_spec`]
    /// states; a stream with no redirection binds to its standard stream.
    pub fn filter(args: Vec<String>) -> (r: Result<FilterArgs, BuildError>)
        ensures
            filter_spec(args.deep_view()) matches Ok(res) ==> (r matches Ok(f) && (f.outfile
                matches OutSink::File { path, append } ==> Some((path@, append)) == res.out) && (
            f.outfile is Std ==> res.out is None) && (f.errfile matches OutSink::File {
                path,
                append,
            } ==> Some((path@, append)) == res.err) && (f.errfile is Std ==> res.err is None) && !(
            f.outfile is Pipe) && !(f.errfile is Pipe) && f.args_left.deep_view() == res.left),
            filter_spec(args.deep_view()) matches Err(op) ==> (r matches Err(
                BuildError::NoArgument(name),
            ) && name@ == op),
    {
        let ghost dv = args.deep_view();
        let n = args.len();
        let mut left: Vec<String> = Vec::new();
        let mut out: Option<OutSink> = None;
        let mut err: Option<OutSink> = None;
        proof {
            assert(left.deep_view() =~= Seq::<Seq<char>>::empty());
        }
        let mut i: usize = 0;
        while i < n
            invariant
                0 <= i,
                n == args@.len(),
                dv == args.deep_view(),
                dv.len() == n,
                out is None || (out matches Some(OutSink::File { .. })),
                err is None || (err matches Some(OutSink::File { .. })),
                filter_spec(dv) == filter_scan(
                    dv,
                    i as int,
                    opt_sink_view(out),
                    opt_sink_view(err),
                    left.deep_view(),
                ),
            decreases n - i,
        {
            let ghost pre_left = left.deep_view();
            let t = &args[i];
            proof {
                assert(t@ == dv[i as int]);
            }
            if str_eq(t.as_str(), ">") || str_eq(t.as_str(), ">>") {
                let ap = str_eq(t.as_str(), ">>");
                match Self::next_write(&args, i, ap) {
                    Ok(sink) => {
                        if out.is_none() {
                            out = Some(sink);
                        }
                    },
                    Err(e) => {
                        return Err(e);
                    },
                }
                i = i + 2;
            } else if str_eq(t.as_str(), "2>") || str_eq(t.as_str(), "2>>") {
                let ap = str_eq(t.as_str(), "2>>");
                match Self::next_write(&args, i, ap) {
                    Ok(sink) => {
                        if err.is_none() {
                            err = Some(sink);
                        }
                    },
                    Err(e) => {
                        return Err(e);
                    },
                }
                i = i + 2;
            } else {
                left.push(t.clone());
                proof {
                    assert(left.deep_view() =~= pre_left.push(dv[i as int]));
                }
                i = i + 1;
            }
        }
        let outfile = match out {
            Some(s) => s,
            None => OutSink::Std,
        };
        let errfile = match err {
            Some(s) => s,
            None => OutSink::Std,
        };
        Ok(FilterArgs { args_left: left, outfile, errfile })
    }
}

} // verus!
