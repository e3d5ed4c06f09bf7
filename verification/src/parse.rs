//! The executable parser: a command classifier over the first token, and a
//! single-pass build-argument parser over the remaining tokens, both proved
//! to follow the scan model of [`crate::scan`].

use vstd::prelude::*;

use crate::args::{Args, ArgsView, Command, ParseError};
use crate::scan::{init_state, lemma_scan_attempted_monotone, scan, ScanKind, ScanOut, ScanState};
use crate::strutil::{opt_view, str_eq, strip_prefix_owned, tok_views};

verus! {

/// The option bundle `a` holds exactly what the scan accumulated in `st`;
/// of the manifest path only presence is determined, since its stored value
/// is the filesystem's canonicalization of the raw text.
pub open spec fn args_match_state(a: ArgsView, st: ScanState) -> bool {
    &&& a.cargo_args == st.cargo
    &&& a.run_args == st.run
    &&& a.bin_name == st.bin
    &&& a.target == st.target
    &&& a.release == st.release
    &&& (a.manifest_path is Some <==> st.manifest_raw is Some)
}

/// The result owed for each way the scan of the build arguments can end,
/// when the tokens follow the build subcommand.
pub open spec fn build_expected(o: ScanOut, r: Result<Command, ParseError>) -> bool {
    match o.kind {
        ScanKind::Help => r == Ok::<Command, ParseError>(Command::BuildHelp),
        ScanKind::Version => r == Ok::<Command, ParseError>(Command::Version),
        ScanKind::Duplicate => r == Err::<Command, ParseError>(ParseError::DuplicateOption),
        ScanKind::Done => match r {
            Ok(c) => match c {
                Command::Build(a) => args_match_state(a@, o.st),
                _ => false,
            },
            Err(_) => false,
        },
    }
}

/// As [`build_expected`], with the build outcomes remapped for the run
/// subcommand.
pub open spec fn run_expected(o: ScanOut, r: Result<Command, ParseError>) -> bool {
    match o.kind {
        ScanKind::Help => r == Ok::<Command, ParseError>(Command::RunHelp),
        ScanKind::Version => r == Ok::<Command, ParseError>(Command::Version),
        ScanKind::Duplicate => r == Err::<Command, ParseError>(ParseError::DuplicateOption),
        ScanKind::Done => match r {
            Ok(c) => match c {
                Command::Run(a) => args_match_state(a@, o.st),
                _ => false,
            },
            Err(_) => false,
        },
    }
}

/// As [`build_expected`], remapped for the test subcommand, whose test
/// binaries are not selectable by name: a parse that set the binary-name
/// slot is an illegal combination.
pub open spec fn test_expected(o: ScanOut, r: Result<Command, ParseError>) -> bool {
    match o.kind {
        ScanKind::Help => r == Ok::<Command, ParseError>(Command::TestHelp),
        ScanKind::Version => r == Ok::<Command, ParseError>(Command::Version),
        ScanKind::Duplicate => r == Err::<Command, ParseError>(ParseError::DuplicateOption),
        ScanKind::Done => if o.st.bin is Some {
            r == Err::<Command, ParseError>(ParseError::IllegalCombination)
        } else {
            match r {
                Ok(c) => match c {
                    Command::Test(a) => args_match_state(a@, o.st),
                    _ => false,
                },
                Err(_) => false,
            }
        },
    }
}

/// The contract of the build-argument parser over the token views: the
/// result is the one the scan owes, except that a failed filesystem
/// resolution — possible only where the scan attempted one — yields the
/// invalid-path error instead.
pub open spec fn build_result_matches(toks: Seq<Seq<char>>, r: Result<Command, ParseError>) -> bool {
    let o = scan(toks, init_state());
    &&& (build_expected(o, r) || (o.st.attempted && r == Err::<Command, ParseError>(
        ParseError::InvalidPath,
    )))
    &&& (r == Err::<Command, ParseError>(ParseError::InvalidPath) ==> o.st.attempted)
}

/// As [`build_result_matches`], for the run subcommand.
pub open spec fn run_result_matches(toks: Seq<Seq<char>>, r: Result<Command, ParseError>) -> bool {
    let o = scan(toks, init_state());
    &&& (run_expected(o, r) || (o.st.attempted && r == Err::<Command, ParseError>(
        ParseError::InvalidPath,
    )))
    &&& (r == Err::<Command, ParseError>(ParseError::InvalidPath) ==> o.st.attempted)
}

/// As [`build_result_matches`], for the test subcommand.
pub open spec fn test_result_matches(toks: Seq<Seq<char>>, r: Result<Command, ParseError>) -> bool {
    let o = scan(toks, init_state());
    &&& (test_expected(o, r) || (o.st.attempted && r == Err::<Command, ParseError>(
        ParseError::InvalidPath,
    )))
    &&& (r == Err::<Command, ParseError>(ParseError::InvalidPath) ==> o.st.attempted)
}

/// The contract of [`parse`] over the views of the full argument vector:
/// the first token picks the subcommand, and the rest go to the
/// build-argument parser, with the build outcomes remapped.
pub open spec fn parse_result_matches(toks: Seq<Seq<char>>, r: Result<Command, ParseError>) -> bool {
    if toks.len() == 0 {
        r == Ok::<Command, ParseError>(Command::NoSubcommand)
    } else {
        let rest = toks.drop_first();
        if toks[0] == "build"@ {
            build_result_matches(rest, r)
        } else if toks[0] == "run"@ {
            run_result_matches(rest, r)
        } else if toks[0] == "test"@ {
            test_result_matches(rest, r)
        } else if toks[0] == "--help"@ || toks[0] == "-h"@ {
            r == Ok::<Command, ParseError>(Command::Help)
        } else if toks[0] == "--version"@ {
            r == Ok::<Command, ParseError>(Command::Version)
        } else {
            r == Ok::<Command, ParseError>(Command::NoSubcommand)
        }
    }
}

/// Relies on `std::path::Path::canonicalize`: resolves the path against the
/// filesystem, yielding an absolute canonical form, and fails when the path
/// does not exist or cannot be resolved. The outcome depends on the state of
/// the filesystem, so nothing is promised of it.
#[verifier::external_body]
fn canonicalize_path(p: &str) -> (r: Option<String>) {
    match std::path::Path::new(p).canonicalize() {
        Ok(c) => Some(c.to_string_lossy().into_owned()),
        Err(_) => None,
    }
}

/// The scan state mid-way through the executable loop, assembled from the
/// loop's local variables.
pub open spec fn mid_state(
    cargo: Seq<String>,
    run: Seq<String>,
    mraw: Option<Seq<char>>,
    bin: Option<String>,
    tgt: Option<String>,
    rel: bool,
    fwd: bool,
    att: bool,
) -> ScanState {
    ScanState {
        cargo: tok_views(cargo),
        run: tok_views(run),
        manifest_raw: mraw,
        bin: opt_view(bin),
        target: opt_view(tgt),
        release: rel,
        forwarding: fwd,
        attempted: att,
    }
}

/// Consumes the tokens that follow a build, run or test subcommand in one
/// left-to-right pass, producing the build outcome that the scan model owes
/// for them.
pub fn parse_build_args(tokens: &Vec<String>) -> (r: Result<Command, ParseError>)
    ensures
        build_result_matches(tok_views(tokens@), r),
{
    let ghost toks = tok_views(tokens@);
    let mut manifest_path: Option<String> = None;
    let mut bin_name: Option<String> = None;
    let mut target: Option<String> = None;
    let mut release = false;
    let mut cargo_args: Vec<String> = Vec::new();
    let mut run_args: Vec<String> = Vec::new();
    let mut run_args_started = false;
    let ghost mut manifest_raw: Option<Seq<char>> = None;
    let ghost mut attempted: bool = false;
    let n = tokens.len();
    let mut i: usize = 0;
    proof {
        assert(toks.skip(0) =~= toks);
        assert(tok_views(cargo_args@) =~= Seq::<Seq<char>>::empty());
        assert(tok_views(run_args@) =~= Seq::<Seq<char>>::empty());
    }
    while i < n
        invariant
            n == tokens.len(),
            toks == tok_views(tokens@),
            toks.len() == n,
            i <= n,
            scan(toks, init_state()) == scan(
                toks.skip(i as int),
                mid_state(
                    cargo_args@,
                    run_args@,
                    manifest_raw,
                    bin_name,
                    target,
                    release,
                    run_args_started,
                    attempted,
                ),
            ),
            manifest_path is Some <==> manifest_raw is Some,
        decreases n - i,
    {
        let ghost sk = toks.skip(i as int);
        let ghost mid = mid_state(
            cargo_args@,
            run_args@,
            manifest_raw,
            bin_name,
            target,
            release,
            run_args_started,
            attempted,
        );
        let arg = &tokens[i];
        proof {
            assert(sk.len() == n - i);
            assert(sk[0] == arg@);
            assert(sk.drop_first() =~= toks.skip(i as int + 1));
        }
        if run_args_started {
            run_args.push(arg.clone());
            proof {
                assert(tok_views(run_args@) =~= mid.run.push(arg@));
            }
            i += 1;
        } else if str_eq(arg.as_str(), "--help") || str_eq(arg.as_str(), "-h") {
            return Ok(Command::BuildHelp);
        } else if str_eq(arg.as_str(), "--version") {
            return Ok(Command::Version);
        } else if str_eq(arg.as_str(), "--bin") {
            if bin_name.is_some() {
                return Err(ParseError::DuplicateOption);
            }
            if i + 1 < n {
                let v = tokens[i + 1].clone();
                proof {
                    assert(sk[1] == toks[i as int + 1]);
                    assert(sk.skip(2) =~= toks.skip(i as int + 2));
                }
                bin_name = Some(v.clone());
                cargo_args.push(arg.clone());
                cargo_args.push(v);
                proof {
                    assert(tok_views(cargo_args@) =~= mid.cargo + seq![sk[0], sk[1]]);
                }
                i += 2;
            } else {
                cargo_args.push(arg.clone());
                proof {
                    assert(tok_views(cargo_args@) =~= mid.cargo.push(arg@));
                }
                i += 1;
            }
        } else if let Some(v) = strip_prefix_owned(arg.as_str(), "--bin=") {
            if bin_name.is_some() {
                return Err(ParseError::DuplicateOption);
            }
            bin_name = Some(v);
            cargo_args.push(arg.clone());
            proof {
                assert(tok_views(cargo_args@) =~= mid.cargo.push(arg@));
            }
            i += 1;
        } else if str_eq(arg.as_str(), "--target") {
            if target.is_some() {
                return Err(ParseError::DuplicateOption);
            }
            if i + 1 < n {
                let v = tokens[i + 1].clone();
                proof {
                    assert(sk[1] == toks[i as int + 1]);
                    assert(sk.skip(2) =~= toks.skip(i as int + 2));
                }
                target = Some(v.clone());
                cargo_args.push(arg.clone());
                cargo_args.push(v);
                proof {
                    assert(tok_views(cargo_args@) =~= mid.cargo + seq![sk[0], sk[1]]);
                }
                i += 2;
            } else {
                cargo_args.push(arg.clone());
                proof {
                    assert(tok_views(cargo_args@) =~= mid.cargo.push(arg@));
                }
                i += 1;
            }
        } else if let Some(v) = strip_prefix_owned(arg.as_str(), "--target=") {
            if target.is_some() {
                return Err(ParseError::DuplicateOption);
            }
            target = Some(v);
            cargo_args.push(arg.clone());
            proof {
                assert(tok_views(cargo_args@) =~= mid.cargo.push(arg@));
            }
            i += 1;
        } else if str_eq(arg.as_str(), "--manifest-path") {
            if i + 1 < n {
                let v = tokens[i + 1].clone();
                proof {
                    assert(sk[1] == toks[i as int + 1]);
                    assert(sk.skip(2) =~= toks.skip(i as int + 2));
                }
                match canonicalize_path(v.as_str()) {
                    None => {
                        proof {
                            if manifest_raw is None {
                                lemma_scan_attempted_monotone(
                                    toks.skip(i as int + 2),
                                    ScanState {
                                        manifest_raw: Some(sk[1]),
                                        cargo: mid.cargo + seq![sk[0], sk[1]],
                                        attempted: true,
                                        ..mid
                                    },
                                );
                            }
                        }
                        return Err(ParseError::InvalidPath);
                    },
                    Some(cp) => {
                        if manifest_path.is_some() {
                            return Err(ParseError::DuplicateOption);
                        }
                        manifest_path = Some(cp);
                        proof {
                            manifest_raw = Some(v@);
                            attempted = true;
                        }
                        cargo_args.push(arg.clone());
                        cargo_args.push(v);
                        proof {
                            assert(tok_views(cargo_args@) =~= mid.cargo + seq![sk[0], sk[1]]);
                        }
                        i += 2;
                    },
                }
            } else {
                if manifest_path.is_some() {
                    return Err(ParseError::DuplicateOption);
                }
                cargo_args.push(arg.clone());
                proof {
                    assert(tok_views(cargo_args@) =~= mid.cargo.push(arg@));
                }
                i += 1;
            }
        } else if let Some(v) = strip_prefix_owned(arg.as_str(), "--manifest-path=") {
            match canonicalize_path(v.as_str()) {
                None => {
                    proof {
                        if manifest_raw is None {
                            lemma_scan_attempted_monotone(
                                toks.skip(i as int + 1),
                                ScanState {
                                    manifest_raw: Some(arg@.skip("--manifest-path="@.len() as int)),
                                    cargo: mid.cargo.push(arg@),
                                    attempted: true,
                                    ..mid
                                },
                            );
                        }
                    }
                    return Err(ParseError::InvalidPath);
                },
                Some(cp) => {
                    if manifest_path.is_some() {
                        return Err(ParseError::DuplicateOption);
                    }
                    manifest_path = Some(cp);
                    proof {
                        manifest_raw = Some(arg@.skip("--manifest-path="@.len() as int));
                        attempted = true;
                    }
                    cargo_args.push(arg.clone());
                    proof {
                        assert(tok_views(cargo_args@) =~= mid.cargo.push(arg@));
                    }
                    i += 1;
                },
            }
        } else if str_eq(arg.as_str(), "--release") {
            release = true;
            cargo_args.push(arg.clone());
            proof {
                assert(tok_views(cargo_args@) =~= mid.cargo.push(arg@));
            }
            i += 1;
        } else if str_eq(arg.as_str(), "--") {
            run_args_started = true;
            i += 1;
        } else {
            cargo_args.push(arg.clone());
            proof {
                assert(tok_views(cargo_args@) =~= mid.cargo.push(arg@));
            }
            i += 1;
        }
    }
    proof {
        assert(toks.skip(n as int) =~= Seq::<Seq<char>>::empty());
    }
    let a = Args::bundle(cargo_args, run_args, manifest_path, bin_name, target, release);
    Ok(Command::Build(a))
}

/// Classifies the full argument vector (excluding the program name) by its
/// first token and delegates the remainder to the build-argument parser,
/// remapping the build outcomes for the run and test subcommands.
pub fn parse(args: &Vec<String>) -> (r: Result<Command, ParseError>)
    ensures
        parse_result_matches(tok_views(args@), r),
{
    let ghost toks = tok_views(args@);
    if args.len() == 0 {
        return Ok(Command::NoSubcommand);
    }
    let first = &args[0];
    proof {
        assert(toks[0] == first@);
    }
    let mut tail: Vec<String> = Vec::new();
    let mut i: usize = 1;
    while i < args.len()
        invariant
            1 <= i <= args.len(),
            toks == tok_views(args@),
            toks.len() == args@.len(),
            tok_views(tail@) == toks.subrange(1, i as int),
        decreases args.len() - i,
    {
        let ghost tail0 = tail@;
        tail.push(args[i].clone());
        proof {
            crate::strutil::lemma_tok_views_len(tail0);
            crate::strutil::lemma_tok_views_len(tail@);
            crate::strutil::lemma_tok_views_len(args@);
            assert(tail@ == tail0.push(args@[i as int]));
            assert forall|j: int| 0 <= j < tail@.len() implies tok_views(tail@)[j] == toks.subrange(
                1,
                i as int + 1,
            )[j] by {
                crate::strutil::lemma_tok_views_index(tail@, j);
                crate::strutil::lemma_tok_views_index(args@, 1 + j);
                if j < i as int - 1 {
                    crate::strutil::lemma_tok_views_index(tail0, j);
                    assert(tok_views(tail0)[j] == toks.subrange(1, i as int)[j]);
                }
            }
            assert(tok_views(tail@) =~= toks.subrange(1, i as int + 1));
        }
        i += 1;
    }
    proof {
        assert(tok_views(tail@) =~= toks.drop_first());
    }
    if str_eq(first.as_str(), "build") {
        parse_build_args(&tail)
    } else if str_eq(first.as_str(), "run") {
        match parse_build_args(&tail) {
            Ok(c) => match c {
                Command::Build(a) => Ok(Command::Run(a)),
                Command::BuildHelp => Ok(Command::RunHelp),
                other => Ok(other),
            },
            Err(e) => Err(e),
        }
    } else if str_eq(first.as_str(), "test") {
        match parse_build_args(&tail) {
            Ok(c) => match c {
                Command::Build(a) => {
                    if a.bin_name().is_some() {
                        Err(ParseError::IllegalCombination)
                    } else {
                        Ok(Command::Test(a))
                    }
                },
                Command::BuildHelp => Ok(Command::TestHelp),
                other => Ok(other),
            },
            Err(e) => Err(e),
        }
    } else if str_eq(first.as_str(), "--help") || str_eq(first.as_str(), "-h") {
        Ok(Command::Help)
    } else if str_eq(first.as_str(), "--version") {
        Ok(Command::Version)
    } else {
        Ok(Command::NoSubcommand)
    }
}

} // verus!
