//! General properties of the scan, stated and proved once and for all: no
//! token after the first separator is ever reinterpreted; a stream in which
//! each one-time option occurs at most once parses to completion with every
//! token forwarded in original order and form; and the two spellings of a
//! valued option set the same slot.

use vstd::prelude::*;

use crate::args::{Command, ParseError};
use crate::parse::{args_match_state, build_result_matches};
use crate::scan::{init_state, scan, ScanKind, ScanOut, ScanState};
use crate::strutil::has_prefix;

verus! {

/// Once the separator has been crossed, the scan completes and appends every
/// remaining token — a second separator included — to the runner arguments
/// verbatim, touching nothing else.
pub proof fn lemma_forwarding_verbatim(tokens: Seq<Seq<char>>, st: ScanState)
    requires
        st.forwarding,
    ensures
        scan(tokens, st) == (ScanOut {
            kind: ScanKind::Done,
            st: ScanState { run: st.run + tokens, ..st },
        }),
    decreases tokens.len(),
{
    if tokens.len() == 0 {
        assert(st.run + tokens =~= st.run);
        assert(st == ScanState { run: st.run + tokens, ..st });
    } else {
        let t = tokens[0];
        let rest = tokens.drop_first();
        lemma_forwarding_verbatim(rest, ScanState { run: st.run.push(t), ..st });
        assert(st.run.push(t) + rest =~= st.run + tokens);
    }
}

/// The three one-time option kinds.
pub ghost enum OptKind {
    Bin,
    Target,
    Manifest,
}

/// `t` is a spelling — bare or combined — of the one-time option `k`.
pub open spec fn is_opt(t: Seq<char>, k: OptKind) -> bool {
    match k {
        OptKind::Bin => t == "--bin"@ || has_prefix(t, "--bin="@),
        OptKind::Target => t == "--target"@ || has_prefix(t, "--target="@),
        OptKind::Manifest => t == "--manifest-path"@ || has_prefix(t, "--manifest-path="@),
    }
}

/// How many tokens of the stream are spellings of the option `k`.
pub open spec fn opt_count(tokens: Seq<Seq<char>>, k: OptKind) -> int
    decreases tokens.len(),
{
    if tokens.len() == 0 {
        0
    } else {
        (if is_opt(tokens[0], k) {
            1int
        } else {
            0int
        }) + opt_count(tokens.drop_first(), k)
    }
}

proof fn lemma_opt_count_nonneg(tokens: Seq<Seq<char>>, k: OptKind)
    ensures
        opt_count(tokens, k) >= 0,
    decreases tokens.len(),
{
    if tokens.len() > 0 {
        lemma_opt_count_nonneg(tokens.drop_first(), k);
    }
}

/// On a stream that holds no help, version or separator token, and in which
/// each one-time option — counted together with a slot the state already
/// holds — occurs at most once, the scan consumes every token and forwards
/// all of them, in original order and original form, while the runner
/// arguments stay untouched; and where no manifest-path spelling occurs at
/// all, no path resolution is attempted either.
pub proof fn lemma_passthrough(tokens: Seq<Seq<char>>, st: ScanState)
    requires
        !st.forwarding,
        forall|j: int|
            0 <= j < tokens.len() ==> !(tokens[j] == "--help"@ || tokens[j] == "-h"@ || tokens[j]
                == "--version"@ || tokens[j] == "--"@),
        opt_count(tokens, OptKind::Bin) + (if st.bin is Some {
            1int
        } else {
            0int
        }) <= 1,
        opt_count(tokens, OptKind::Target) + (if st.target is Some {
            1int
        } else {
            0int
        }) <= 1,
        opt_count(tokens, OptKind::Manifest) + (if st.manifest_raw is Some {
            1int
        } else {
            0int
        }) <= 1,
    ensures
        scan(tokens, st).kind == ScanKind::Done,
        scan(tokens, st).st.cargo == st.cargo + tokens,
        scan(tokens, st).st.run == st.run,
        opt_count(tokens, OptKind::Manifest) == 0 && !st.attempted ==> !scan(
            tokens,
            st,
        ).st.attempted,
        opt_count(tokens, OptKind::Manifest) == 0 && st.manifest_raw is None ==> scan(
            tokens,
            st,
        ).st.manifest_raw is None,
    decreases tokens.len(),
{
    lemma_opt_count_nonneg(tokens, OptKind::Bin);
    lemma_opt_count_nonneg(tokens, OptKind::Target);
    lemma_opt_count_nonneg(tokens, OptKind::Manifest);
    if tokens.len() == 0 {
        assert(st.cargo + tokens =~= st.cargo);
    } else {
        let t = tokens[0];
        let rest = tokens.drop_first();
        lemma_opt_count_nonneg(rest, OptKind::Bin);
        lemma_opt_count_nonneg(rest, OptKind::Target);
        lemma_opt_count_nonneg(rest, OptKind::Manifest);
        assert(!(t == "--help"@ || t == "-h"@ || t == "--version"@ || t == "--"@));
        if tokens.len() >= 2 {
            assert(rest.drop_first() =~= tokens.skip(2));
            lemma_opt_count_nonneg(tokens.skip(2), OptKind::Bin);
            lemma_opt_count_nonneg(tokens.skip(2), OptKind::Target);
            lemma_opt_count_nonneg(tokens.skip(2), OptKind::Manifest);
        }
        if t == "--bin"@ {
            assert(is_opt(t, OptKind::Bin));
            assert(st.bin is None);
            if tokens.len() >= 2 {
                let v = tokens[1];
                let stn = ScanState { bin: Some(v), cargo: st.cargo + seq![t, v], ..st };
                lemma_passthrough(tokens.skip(2), stn);
                assert(stn.cargo + tokens.skip(2) =~= st.cargo + tokens);
            } else {
                let stn = ScanState { cargo: st.cargo.push(t), ..st };
                lemma_passthrough(rest, stn);
                assert(stn.cargo + rest =~= st.cargo + tokens);
            }
        } else if has_prefix(t, "--bin="@) {
            assert(is_opt(t, OptKind::Bin));
            assert(st.bin is None);
            let stn = ScanState {
                bin: Some(t.skip("--bin="@.len() as int)),
                cargo: st.cargo.push(t),
                ..st
            };
            lemma_passthrough(rest, stn);
            assert(stn.cargo + rest =~= st.cargo + tokens);
        } else if t == "--target"@ {
            assert(is_opt(t, OptKind::Target));
            assert(st.target is None);
            if tokens.len() >= 2 {
                let v = tokens[1];
                let stn = ScanState { target: Some(v), cargo: st.cargo + seq![t, v], ..st };
                lemma_passthrough(tokens.skip(2), stn);
                assert(stn.cargo + tokens.skip(2) =~= st.cargo + tokens);
            } else {
                let stn = ScanState { cargo: st.cargo.push(t), ..st };
                lemma_passthrough(rest, stn);
                assert(stn.cargo + rest =~= st.cargo + tokens);
            }
        } else if has_prefix(t, "--target="@) {
            assert(is_opt(t, OptKind::Target));
            assert(st.target is None);
            let stn = ScanState {
                target: Some(t.skip("--target="@.len() as int)),
                cargo: st.cargo.push(t),
                ..st
            };
            lemma_passthrough(rest, stn);
            assert(stn.cargo + rest =~= st.cargo + tokens);
        } else if t == "--manifest-path"@ {
            assert(is_opt(t, OptKind::Manifest));
            assert(st.manifest_raw is None);
            if tokens.len() >= 2 {
                let v = tokens[1];
                let stn = ScanState {
                    manifest_raw: Some(v),
                    cargo: st.cargo + seq![t, v],
                    attempted: true,
                    ..st
                };
                lemma_passthrough(tokens.skip(2), stn);
                assert(stn.cargo + tokens.skip(2) =~= st.cargo + tokens);
            } else {
                let stn = ScanState { cargo: st.cargo.push(t), ..st };
                lemma_passthrough(rest, stn);
                assert(stn.cargo + rest =~= st.cargo + tokens);
            }
        } else if has_prefix(t, "--manifest-path="@) {
            assert(is_opt(t, OptKind::Manifest));
            assert(st.manifest_raw is None);
            let stn = ScanState {
                manifest_raw: Some(t.skip("--manifest-path="@.len() as int)),
                cargo: st.cargo.push(t),
                attempted: true,
                ..st
            };
            lemma_passthrough(rest, stn);
            assert(stn.cargo + rest =~= st.cargo + tokens);
        } else if t == "--release"@ {
            let stn = ScanState { release: true, cargo: st.cargo.push(t), ..st };
            lemma_passthrough(rest, stn);
            assert(stn.cargo + rest =~= st.cargo + tokens);
        } else {
            let stn = ScanState { cargo: st.cargo.push(t), ..st };
            lemma_passthrough(rest, stn);
            assert(stn.cargo + rest =~= st.cargo + tokens);
        }
    }
}

/// The pass-through law at the level of the parser's contract: on a token
/// stream that holds no help, version, separator or manifest-path token and
/// each of the other one-time options at most once, any result the
/// build-argument parser's contract admits is a successfully parsed bundle
/// that forwards every token, in original order and original form, with no
/// runner arguments.
pub proof fn lemma_passthrough_contract(toks: Seq<Seq<char>>, r: Result<Command, ParseError>)
    requires
        build_result_matches(toks, r),
        forall|j: int|
            0 <= j < toks.len() ==> !(toks[j] == "--help"@ || toks[j] == "-h"@ || toks[j]
                == "--version"@ || toks[j] == "--"@),
        opt_count(toks, OptKind::Bin) <= 1,
        opt_count(toks, OptKind::Target) <= 1,
        opt_count(toks, OptKind::Manifest) == 0,
    ensures
        r matches Ok(c) && c matches Command::Build(a) && a@.cargo_args == toks && a@.run_args
            == Seq::<Seq<char>>::empty() && a@.manifest_path is None,
{
    lemma_passthrough(toks, init_state());
    let o = scan(toks, init_state());
    assert(o.st.cargo =~= toks);
    match r {
        Ok(c) => match c {
            Command::Build(a) => {
                assert(args_match_state(a@, o.st));
            },
            _ => {
                assert(false);
            },
        },
        Err(_) => {
            assert(false);
        },
    }
}

/// The relation that [`lemma_cargo_frame`] establishes between the outcomes
/// of the same scan started from two states that differ only in the tokens
/// already forwarded: the scans end the same way, the forwarded tokens
/// already present are preserved as a prefix, and each side appends the same
/// suffix to its own.
pub open spec fn frame_related(
    st1: ScanState,
    c2: Seq<Seq<char>>,
    o1: ScanOut,
    o2: ScanOut,
) -> bool {
    &&& o1.kind == o2.kind
    &&& o1.st.cargo.len() >= st1.cargo.len()
    &&& o1.st.cargo.take(st1.cargo.len() as int) == st1.cargo
    &&& o2.st == (ScanState { cargo: c2 + o1.st.cargo.skip(st1.cargo.len() as int), ..o1.st })
}

/// Glue for the terminal cases of [`lemma_cargo_frame`]: both sides stop in
/// states whose non-cargo fields agree and whose cargo is untouched.
proof fn lemma_frame_terminal(st1: ScanState, c2: Seq<Seq<char>>, o1: ScanOut, o2: ScanOut)
    requires
        o1.kind == o2.kind,
        o1.st.cargo == st1.cargo,
        o2.st == (ScanState { cargo: c2, ..o1.st }),
    ensures
        frame_related(st1, c2, o1, o2),
{
    assert(o1.st.cargo.take(st1.cargo.len() as int) =~= st1.cargo);
    assert(c2 + o1.st.cargo.skip(st1.cargo.len() as int) =~= c2);
    assert(o2.st == (ScanState {
        cargo: c2 + o1.st.cargo.skip(st1.cargo.len() as int),
        ..o1.st
    }));
}

/// Glue for the recursive cases of [`lemma_cargo_frame`]: from the relation
/// at the next state — both sides having appended `app` — to the relation at
/// the current one.
proof fn lemma_frame_step(
    st1: ScanState,
    c2: Seq<Seq<char>>,
    stn: ScanState,
    app: Seq<Seq<char>>,
    o1: ScanOut,
    o2: ScanOut,
)
    requires
        stn.cargo == st1.cargo + app,
        frame_related(stn, c2 + app, o1, o2),
    ensures
        frame_related(st1, c2, o1, o2),
{
    let l = st1.cargo.len() as int;
    let a = app.len() as int;
    let x = o1.st.cargo;
    assert(x.len() >= l + a);
    assert(x.take(l + a) == st1.cargo + app);
    assert forall|j: int| 0 <= j < l + a implies x[j] == (st1.cargo + app)[j] by {
        assert(x.take(l + a)[j] == x[j]);
    }
    assert(x.take(l) =~= st1.cargo);
    assert(x.skip(l) =~= app + x.skip(l + a));
    assert((c2 + app) + x.skip(l + a) =~= c2 + x.skip(l));
    assert(o2.st == (ScanState { cargo: c2 + x.skip(l), ..o1.st }));
}

/// Starting the same scan from two states that differ only in the tokens
/// already forwarded ends the same way and appends the same tokens to each
/// side's forwarded sequence: what the scan forwards does not depend on what
/// was forwarded before.
#[verifier::rlimit(60)]
pub proof fn lemma_cargo_frame(tokens: Seq<Seq<char>>, st1: ScanState, c2: Seq<Seq<char>>)
    ensures
        frame_related(st1, c2, scan(tokens, st1), scan(tokens, ScanState { cargo: c2, ..st1 })),
    decreases tokens.len(),
{
    let st2 = ScanState { cargo: c2, ..st1 };
    let o1 = scan(tokens, st1);
    let o2 = scan(tokens, st2);
    if tokens.len() == 0 {
        lemma_frame_terminal(st1, c2, o1, o2);
    } else {
        let t = tokens[0];
        let rest = tokens.drop_first();
        if st1.forwarding {
            let stn = ScanState { run: st1.run.push(t), ..st1 };
            assert(stn.cargo =~= st1.cargo + Seq::<Seq<char>>::empty());
            lemma_cargo_frame(rest, stn, c2);
            assert(c2 + Seq::<Seq<char>>::empty() =~= c2);
            lemma_frame_step(st1, c2, stn, Seq::<Seq<char>>::empty(), o1, o2);
        } else if t == "--help"@ || t == "-h"@ || t == "--version"@ {
            lemma_frame_terminal(st1, c2, o1, o2);
        } else if t == "--bin"@ {
            if st1.bin is Some {
                lemma_frame_terminal(st1, c2, o1, o2);
            } else if tokens.len() >= 2 {
                let v = tokens[1];
                let app = seq![t, v];
                let stn = ScanState { bin: Some(v), cargo: st1.cargo + app, ..st1 };
                lemma_cargo_frame(tokens.skip(2), stn, c2 + app);
                lemma_frame_step(st1, c2, stn, app, o1, o2);
            } else {
                let app = seq![t];
                let stn = ScanState { cargo: st1.cargo.push(t), ..st1 };
                assert(stn.cargo =~= st1.cargo + app);
                lemma_cargo_frame(rest, stn, c2 + app);
                assert(c2 + app =~= c2.push(t));
                lemma_frame_step(st1, c2, stn, app, o1, o2);
            }
        } else if has_prefix(t, "--bin="@) {
            if st1.bin is Some {
                lemma_frame_terminal(st1, c2, o1, o2);
            } else {
                let app = seq![t];
                let stn = ScanState {
                    bin: Some(t.skip("--bin="@.len() as int)),
                    cargo: st1.cargo.push(t),
                    ..st1
                };
                assert(stn.cargo =~= st1.cargo + app);
                lemma_cargo_frame(rest, stn, c2 + app);
                assert(c2 + app =~= c2.push(t));
                lemma_frame_step(st1, c2, stn, app, o1, o2);
            }
        } else if t == "--target"@ {
            if st1.target is Some {
                lemma_frame_terminal(st1, c2, o1, o2);
            } else if tokens.len() >= 2 {
                let v = tokens[1];
                let app = seq![t, v];
                let stn = ScanState { target: Some(v), cargo: st1.cargo + app, ..st1 };
                lemma_cargo_frame(tokens.skip(2), stn, c2 + app);
                lemma_frame_step(st1, c2, stn, app, o1, o2);
            } else {
                let app = seq![t];
                let stn = ScanState { cargo: st1.cargo.push(t), ..st1 };
                assert(stn.cargo =~= st1.cargo + app);
                lemma_cargo_frame(rest, stn, c2 + app);
                assert(c2 + app =~= c2.push(t));
                lemma_frame_step(st1, c2, stn, app, o1, o2);
            }
        } else if has_prefix(t, "--target="@) {
            if st1.target is Some {
                lemma_frame_terminal(st1, c2, o1, o2);
            } else {
                let app = seq![t];
                let stn = ScanState {
                    target: Some(t.skip("--target="@.len() as int)),
                    cargo: st1.cargo.push(t),
                    ..st1
                };
                assert(stn.cargo =~= st1.cargo + app);
                lemma_cargo_frame(rest, stn, c2 + app);
                assert(c2 + app =~= c2.push(t));
                lemma_frame_step(st1, c2, stn, app, o1, o2);
            }
        } else if t == "--manifest-path"@ {
            if tokens.len() >= 2 {
                if st1.manifest_raw is Some {
                    lemma_frame_terminal(st1, c2, o1, o2);
                } else {
                    let v = tokens[1];
                    let app = seq![t, v];
                    let stn = ScanState {
                        manifest_raw: Some(v),
                        cargo: st1.cargo + app,
                        attempted: true,
                        ..st1
                    };
                    lemma_cargo_frame(tokens.skip(2), stn, c2 + app);
                    lemma_frame_step(st1, c2, stn, app, o1, o2);
                }
            } else {
                if st1.manifest_raw is Some {
                    lemma_frame_terminal(st1, c2, o1, o2);
                } else {
                    let app = seq![t];
                    let stn = ScanState { cargo: st1.cargo.push(t), ..st1 };
                    assert(stn.cargo =~= st1.cargo + app);
                    lemma_cargo_frame(rest, stn, c2 + app);
                    assert(c2 + app =~= c2.push(t));
                    lemma_frame_step(st1, c2, stn, app, o1, o2);
                }
            }
        } else if has_prefix(t, "--manifest-path="@) {
            if st1.manifest_raw is Some {
                lemma_frame_terminal(st1, c2, o1, o2);
            } else {
                let app = seq![t];
                let stn = ScanState {
                    manifest_raw: Some(t.skip("--manifest-path="@.len() as int)),
                    cargo: st1.cargo.push(t),
                    attempted: true,
                    ..st1
                };
                assert(stn.cargo =~= st1.cargo + app);
                lemma_cargo_frame(rest, stn, c2 + app);
                assert(c2 + app =~= c2.push(t));
                lemma_frame_step(st1, c2, stn, app, o1, o2);
            }
        } else if t == "--release"@ {
            let app = seq![t];
            let stn = ScanState { release: true, cargo: st1.cargo.push(t), ..st1 };
            assert(stn.cargo =~= st1.cargo + app);
            lemma_cargo_frame(rest, stn, c2 + app);
            assert(c2 + app =~= c2.push(t));
            lemma_frame_step(st1, c2, stn, app, o1, o2);
        } else if t == "--"@ {
            let stn = ScanState { forwarding: true, ..st1 };
            assert(stn.cargo =~= st1.cargo + Seq::<Seq<char>>::empty());
            lemma_cargo_frame(rest, stn, c2);
            assert(c2 + Seq::<Seq<char>>::empty() =~= c2);
            lemma_frame_step(st1, c2, stn, Seq::<Seq<char>>::empty(), o1, o2);
        } else {
            let app = seq![t];
            let stn = ScanState { cargo: st1.cargo.push(t), ..st1 };
            assert(stn.cargo =~= st1.cargo + app);
            lemma_cargo_frame(rest, stn, c2 + app);
            assert(c2 + app =~= c2.push(t));
            lemma_frame_step(st1, c2, stn, app, o1, o2);
        }
    }
}

/// A binary name once set is never overwritten: a later spelling of the
/// option stops the scan as a duplicate instead.
pub proof fn lemma_bin_persists(tokens: Seq<Seq<char>>, st: ScanState)
    requires
        st.bin is Some,
    ensures
        scan(tokens, st).st.bin == st.bin,
    decreases tokens.len(),
{
    if tokens.len() == 0 {
    } else {
        let t = tokens[0];
        let rest = tokens.drop_first();
        if st.forwarding {
            lemma_bin_persists(rest, ScanState { run: st.run.push(t), ..st });
        } else if t == "--help"@ || t == "-h"@ || t == "--version"@ {
        } else if t == "--bin"@ || has_prefix(t, "--bin="@) {
        } else if t == "--target"@ {
            if st.target is Some {
            } else if tokens.len() >= 2 {
                lemma_bin_persists(
                    tokens.skip(2),
                    ScanState {
                        target: Some(tokens[1]),
                        cargo: st.cargo + seq![t, tokens[1]],
                        ..st
                    },
                );
            } else {
                lemma_bin_persists(rest, ScanState { cargo: st.cargo.push(t), ..st });
            }
        } else if has_prefix(t, "--target="@) {
            if st.target is Some {
            } else {
                lemma_bin_persists(
                    rest,
                    ScanState {
                        target: Some(t.skip("--target="@.len() as int)),
                        cargo: st.cargo.push(t),
                        ..st
                    },
                );
            }
        } else if t == "--manifest-path"@ {
            if tokens.len() >= 2 {
                if st.manifest_raw is Some {
                } else {
                    lemma_bin_persists(
                        tokens.skip(2),
                        ScanState {
                            manifest_raw: Some(tokens[1]),
                            cargo: st.cargo + seq![t, tokens[1]],
                            attempted: true,
                            ..st
                        },
                    );
                }
            } else {
                if st.manifest_raw is Some {
                } else {
                    lemma_bin_persists(rest, ScanState { cargo: st.cargo.push(t), ..st });
                }
            }
        } else if has_prefix(t, "--manifest-path="@) {
            if st.manifest_raw is Some {
            } else {
                lemma_bin_persists(
                    rest,
                    ScanState {
                        manifest_raw: Some(t.skip("--manifest-path="@.len() as int)),
                        cargo: st.cargo.push(t),
                        attempted: true,
                        ..st
                    },
                );
            }
        } else if t == "--release"@ {
            lemma_bin_persists(rest, ScanState { release: true, cargo: st.cargo.push(t), ..st });
        } else if t == "--"@ {
            lemma_bin_persists(rest, ScanState { forwarding: true, ..st });
        } else {
            lemma_bin_persists(rest, ScanState { cargo: st.cargo.push(t), ..st });
        }
    }
}

/// The two spellings of the binary-name option are interchangeable: with the
/// slot still empty, scanning `--bin value` followed by any continuation and
/// scanning the single combined `--bin=value` token followed by the same
/// continuation end the same way, set the same slots — the binary name to
/// the same value — collect the same runner arguments, and forward the same
/// tokens but for the shape of the option itself: the first spelling
/// forwards the two original tokens where the second forwards the one
/// combined token.
pub proof fn lemma_bin_forms_agree(v: Seq<char>, rest: Seq<Seq<char>>, st: ScanState)
    requires
        !st.forwarding,
        st.bin is None,
    ensures
        ({
            let o1 = scan(seq!["--bin"@, v] + rest, st);
            let o2 = scan(seq!["--bin="@ + v] + rest, st);
            &&& o1.kind == o2.kind
            &&& o1.st.bin == Some(v)
            &&& o2.st.bin == Some(v)
            &&& o1.st.target == o2.st.target
            &&& o1.st.manifest_raw == o2.st.manifest_raw
            &&& o1.st.release == o2.st.release
            &&& o1.st.run == o2.st.run
            &&& o1.st.forwarding == o2.st.forwarding
            &&& o1.st.attempted == o2.st.attempted
            &&& o1.st.cargo.len() >= st.cargo.len() + 2
            &&& o1.st.cargo.take(st.cargo.len() as int + 2) == st.cargo + seq!["--bin"@, v]
            &&& o2.st.cargo == st.cargo.push("--bin="@ + v) + o1.st.cargo.skip(
                st.cargo.len() as int + 2,
            )
        }),
{
    reveal_strlit("--bin");
    reveal_strlit("--bin=");
    reveal_strlit("--help");
    reveal_strlit("-h");
    reveal_strlit("--version");
    reveal_strlit("--target");
    reveal_strlit("--target=");
    reveal_strlit("--manifest-path");
    reveal_strlit("--manifest-path=");
    reveal_strlit("--release");
    reveal_strlit("--");
    let t1 = "--bin"@;
    let tokens1 = seq![t1, v] + rest;
    let t2 = "--bin="@ + v;
    let tokens2 = seq![t2] + rest;
    assert(tokens1[0] == t1);
    assert(tokens1[1] == v);
    assert(tokens1.len() == 2 + rest.len());
    assert(tokens2[0] == t2);
    assert(tokens2.len() == 1 + rest.len());
    assert(t2.len() == 6 + v.len());
    assert(t2[2] == 'b');
    assert(has_prefix(t2, "--bin="@));
    assert(t2 != "--help"@) by {
        assert("--help"@[2] == 'h');
    }
    assert(t2 != "-h"@);
    assert(t2 != "--version"@) by {
        assert("--version"@[2] == 'v');
    }
    assert(t2 != "--bin"@);
    let stn1 = ScanState { bin: Some(v), cargo: st.cargo + seq![t1, v], ..st };
    assert(tokens1.skip(2) =~= rest);
    assert(scan(tokens1, st) == scan(rest, stn1));
    assert(t2.skip("--bin="@.len() as int) =~= v);
    let stn2 = ScanState { bin: Some(v), cargo: st.cargo.push(t2), ..st };
    assert(tokens2.drop_first() =~= rest);
    assert(scan(tokens2, st) == scan(rest, stn2));
    assert(stn2 == (ScanState { cargo: st.cargo.push(t2), ..stn1 }));
    lemma_cargo_frame(rest, stn1, st.cargo.push(t2));
    lemma_bin_persists(rest, stn1);
    assert(stn1.cargo.len() == st.cargo.len() + 2);
}

} // verus!
