//! The mathematical model of the build-argument scan: a single left-to-right
//! pass over the token sequence that either stops early (help, version, or a
//! repeated one-time option) or consumes every token, accumulating the
//! forwarded tokens, the runner tokens, and the recognized option slots.

use vstd::prelude::*;

use crate::strutil::has_prefix;

verus! {

/// The state carried through one left-to-right scan of the build-argument
/// tokens.
pub ghost struct ScanState {
    /// Tokens forwarded to the underlying build tool, in order, in their
    /// original form.
    pub cargo: Seq<Seq<char>>,
    /// Tokens that appeared strictly after the first separator, forwarded to
    /// the runner verbatim.
    pub run: Seq<Seq<char>>,
    /// The raw (uncanonicalized) text supplied to the manifest-path option.
    pub manifest_raw: Option<Seq<char>>,
    /// The binary-name selector.
    pub bin: Option<Seq<char>>,
    /// The target-platform selector.
    pub target: Option<Seq<char>>,
    /// The release flag.
    pub release: bool,
    /// Set once the separator has been consumed: every later token goes to
    /// `run` and is never reinterpreted.
    pub forwarding: bool,
    /// A filesystem path resolution was attempted at some point of the scan;
    /// only then can the scan's outcome be disturbed by the filesystem.
    pub attempted: bool,
}

/// How a scan ended.
pub ghost enum ScanKind {
    /// The scan consumed every token.
    Done,
    /// The scan stopped at a help request.
    Help,
    /// The scan stopped at a version request.
    Version,
    /// The scan stopped at a repeated one-time option.
    Duplicate,
}

/// The outcome of a scan: how it ended, and the state it ended in.
pub ghost struct ScanOut {
    pub kind: ScanKind,
    pub st: ScanState,
}

/// The state at the start of a scan: everything empty, every flag clear.
pub open spec fn init_state() -> ScanState {
    ScanState {
        cargo: Seq::<Seq<char>>::empty(),
        run: Seq::<Seq<char>>::empty(),
        manifest_raw: None,
        bin: None,
        target: None,
        release: false,
        forwarding: false,
        attempted: false,
    }
}

/// One left-to-right scan of `tokens` starting from state `st`.
///
/// Per-token rules, first match wins: once forwarding, every token goes to
/// `run`; a help or version token stops the scan; `--bin`, `--target` and
/// `--manifest-path` consume the following token as their value (recording
/// the option as set at most once, a second occurrence stopping the scan as
/// a duplicate) and forward both tokens; their `--opt=value` forms set the
/// same slot from the suffix and forward the single token; `--release` sets
/// the release flag; a bare `--` switches to forwarding without being
/// forwarded itself; anything else is forwarded verbatim.
pub open spec fn scan(tokens: Seq<Seq<char>>, st: ScanState) -> ScanOut
    decreases tokens.len(),
{
    if tokens.len() == 0 {
        ScanOut { kind: ScanKind::Done, st }
    } else {
        let t = tokens[0];
        let rest = tokens.drop_first();
        if st.forwarding {
            scan(rest, ScanState { run: st.run.push(t), ..st })
        } else if t == "--help"@ || t == "-h"@ {
            ScanOut { kind: ScanKind::Help, st }
        } else if t == "--version"@ {
            ScanOut { kind: ScanKind::Version, st }
        } else if t == "--bin"@ {
            if st.bin is Some {
                ScanOut { kind: ScanKind::Duplicate, st }
            } else if tokens.len() >= 2 {
                scan(
                    tokens.skip(2),
                    ScanState { bin: Some(tokens[1]), cargo: st.cargo + seq![t, tokens[1]], ..st },
                )
            } else {
                scan(rest, ScanState { cargo: st.cargo.push(t), ..st })
            }
        } else if has_prefix(t, "--bin="@) {
            if st.bin is Some {
                ScanOut { kind: ScanKind::Duplicate, st }
            } else {
                scan(
                    rest,
                    ScanState {
                        bin: Some(t.skip("--bin="@.len() as int)),
                        cargo: st.cargo.push(t),
                        ..st
                    },
                )
            }
        } else if t == "--target"@ {
            if st.target is Some {
                ScanOut { kind: ScanKind::Duplicate, st }
            } else if tokens.len() >= 2 {
                scan(
                    tokens.skip(2),
                    ScanState {
                        target: Some(tokens[1]),
                        cargo: st.cargo + seq![t, tokens[1]],
                        ..st
                    },
                )
            } else {
                scan(rest, ScanState { cargo: st.cargo.push(t), ..st })
            }
        } else if has_prefix(t, "--target="@) {
            if st.target is Some {
                ScanOut { kind: ScanKind::Duplicate, st }
            } else {
                scan(
                    rest,
                    ScanState {
                        target: Some(t.skip("--target="@.len() as int)),
                        cargo: st.cargo.push(t),
                        ..st
                    },
                )
            }
        } else if t == "--manifest-path"@ {
            if tokens.len() >= 2 {
                if st.manifest_raw is Some {
                    ScanOut { kind: ScanKind::Duplicate, st: ScanState { attempted: true, ..st } }
                } else {
                    scan(
                        tokens.skip(2),
                        ScanState {
                            manifest_raw: Some(tokens[1]),
                            cargo: st.cargo + seq![t, tokens[1]],
                            attempted: true,
                            ..st
                        },
                    )
                }
            } else {
                if st.manifest_raw is Some {
                    ScanOut { kind: ScanKind::Duplicate, st }
                } else {
                    scan(rest, ScanState { cargo: st.cargo.push(t), ..st })
                }
            }
        } else if has_prefix(t, "--manifest-path="@) {
            if st.manifest_raw is Some {
                ScanOut { kind: ScanKind::Duplicate, st: ScanState { attempted: true, ..st } }
            } else {
                scan(
                    rest,
                    ScanState {
                        manifest_raw: Some(t.skip("--manifest-path="@.len() as int)),
                        cargo: st.cargo.push(t),
                        attempted: true,
                        ..st
                    },
                )
            }
        } else if t == "--release"@ {
            scan(rest, ScanState { release: true, cargo: st.cargo.push(t), ..st })
        } else if t == "--"@ {
            scan(rest, ScanState { forwarding: true, ..st })
        } else {
            scan(rest, ScanState { cargo: st.cargo.push(t), ..st })
        }
    }
}

/// Once a path resolution has been attempted, that fact survives to the end
/// of the scan.
pub proof fn lemma_scan_attempted_monotone(tokens: Seq<Seq<char>>, st: ScanState)
    requires
        st.attempted,
    ensures
        scan(tokens, st).st.attempted,
    decreases tokens.len(),
{
    if tokens.len() == 0 {
    } else {
        let t = tokens[0];
        let rest = tokens.drop_first();
        if st.forwarding {
            lemma_scan_attempted_monotone(rest, ScanState { run: st.run.push(t), ..st });
        } else if t == "--help"@ || t == "-h"@ || t == "--version"@ {
        } else if t == "--bin"@ {
            if st.bin is Some {
            } else if tokens.len() >= 2 {
                lemma_scan_attempted_monotone(
                    tokens.skip(2),
                    ScanState { bin: Some(tokens[1]), cargo: st.cargo + seq![t, tokens[1]], ..st },
                );
            } else {
                lemma_scan_attempted_monotone(rest, ScanState { cargo: st.cargo.push(t), ..st });
            }
        } else if has_prefix(t, "--bin="@) {
            if st.bin is Some {
            } else {
                lemma_scan_attempted_monotone(
                    rest,
                    ScanState {
                        bin: Some(t.skip("--bin="@.len() as int)),
                        cargo: st.cargo.push(t),
                        ..st
                    },
                );
            }
        } else if t == "--target"@ {
            if st.target is Some {
            } else if tokens.len() >= 2 {
                lemma_scan_attempted_monotone(
                    tokens.skip(2),
                    ScanState {
                        target: Some(tokens[1]),
                        cargo: st.cargo + seq![t, tokens[1]],
                        ..st
                    },
                );
            } else {
                lemma_scan_attempted_monotone(rest, ScanState { cargo: st.cargo.push(t), ..st });
            }
        } else if has_prefix(t, "--target="@) {
            if st.target is Some {
            } else {
                lemma_scan_attempted_monotone(
                    rest,
                    ScanState {
                        target: Some(t.skip("--target="@.len() as int)),
                        cargo: st.cargo.push(t),
                        ..st
                    },
                );
            }
        } else if t == "--manifest-path"@ {
            if tokens.len() >= 2 {
                if st.manifest_raw is Some {
                } else {
                    lemma_scan_attempted_monotone(
                        tokens.skip(2),
                        ScanState {
                            manifest_raw: Some(tokens[1]),
                            cargo: st.cargo + seq![t, tokens[1]],
                            attempted: true,
                            ..st
                        },
                    );
                }
            } else {
                if st.manifest_raw is Some {
                } else {
                    lemma_scan_attempted_monotone(
                        rest,
                        ScanState { cargo: st.cargo.push(t), ..st },
                    );
                }
            }
        } else if has_prefix(t, "--manifest-path="@) {
            if st.manifest_raw is Some {
            } else {
                lemma_scan_attempted_monotone(
                    rest,
                    ScanState {
                        manifest_raw: Some(t.skip("--manifest-path="@.len() as int)),
                        cargo: st.cargo.push(t),
                        attempted: true,
                        ..st
                    },
                );
            }
        } else if t == "--release"@ {
            lemma_scan_attempted_monotone(
                rest,
                ScanState { release: true, cargo: st.cargo.push(t), ..st },
            );
        } else if t == "--"@ {
            lemma_scan_attempted_monotone(rest, ScanState { forwarding: true, ..st });
        } else {
            lemma_scan_attempted_monotone(rest, ScanState { cargo: st.cargo.push(t), ..st });
        }
    }
}

} // verus!
