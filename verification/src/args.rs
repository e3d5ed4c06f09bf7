//! The parsed option bundle and the tagged outcome of classifying the full
//! argument vector, with the two post-construction mutators that an external
//! dispatcher uses to inject values it computed itself.

use vstd::prelude::*;

use crate::strutil::{opt_view, tok_views};

verus! {

/// A fatal usage or contract error detected while interpreting arguments.
#[derive(Debug, Clone, Copy, PartialEq, Eq)]
pub enum ParseError {
    /// `--bin`, `--target` or `--manifest-path` was supplied more than once.
    DuplicateOption,
    /// The value given to `--manifest-path` could not be resolved against the
    /// filesystem.
    InvalidPath,
    /// `--bin` was supplied together with the `test` subcommand.
    IllegalCombination,
    /// A setter was invoked while the corresponding field was already
    /// populated.
    AlreadySet,
}

/// The abstract value of an [`Args`]: every field as a mathematical value.
pub ghost struct ArgsView {
    pub cargo_args: Seq<Seq<char>>,
    pub run_args: Seq<Seq<char>>,
    pub manifest_path: Option<Seq<char>>,
    pub bin_name: Option<Seq<char>>,
    pub target: Option<Seq<char>>,
    pub release: bool,
}

/// The parsed option bundle shared by the build, run and test subcommands.
#[derive(Debug, Clone, PartialEq, Eq)]
pub struct Args {
    /// All arguments that are passed to the build tool.
    pub cargo_args: Vec<String>,
    /// All arguments that are passed to the runner.
    pub run_args: Vec<String>,
    /// The canonicalized manifest path (also present in `cargo_args` in its
    /// original form).
    pub(crate) manifest_path: Option<String>,
    /// The name of the binary (also present in `cargo_args`).
    pub(crate) bin_name: Option<String>,
    /// The target triple (also present in `cargo_args`).
    pub(crate) target: Option<String>,
    /// The release flag (also present in `cargo_args`).
    pub(crate) release: bool,
}

impl View for Args {
    type V = ArgsView;

    closed spec fn view(&self) -> ArgsView {
        ArgsView {
            cargo_args: tok_views(self.cargo_args@),
            run_args: tok_views(self.run_args@),
            manifest_path: opt_view(self.manifest_path),
            bin_name: opt_view(self.bin_name),
            target: opt_view(self.target),
            release: self.release,
        }
    }
}

/// The outcome of parsing the full argument vector.
#[derive(Debug, Clone, PartialEq, Eq)]
pub enum Command {
    /// The build subcommand, with its parsed option bundle.
    Build(Args),
    /// The run subcommand, with its parsed option bundle.
    Run(Args),
    /// The test subcommand, with its parsed option bundle.
    Test(Args),
    /// The build subcommand's own help was requested.
    BuildHelp,
    /// The run subcommand's own help was requested.
    RunHelp,
    /// The test subcommand's own help was requested.
    TestHelp,
    /// Top-level help was requested.
    Help,
    /// The version was requested.
    Version,
    /// The first token was absent or not a recognized subcommand.
    NoSubcommand,
}

impl Args {
    /// Bundles the collected sequences and slots into an `Args`.
    pub(crate) fn bundle(
        cargo_args: Vec<String>,
        run_args: Vec<String>,
        manifest_path: Option<String>,
        bin_name: Option<String>,
        target: Option<String>,
        release: bool,
    ) -> (a: Args)
        ensures
            a@ == (ArgsView {
                cargo_args: tok_views(cargo_args@),
                run_args: tok_views(run_args@),
                manifest_path: opt_view(manifest_path),
                bin_name: opt_view(bin_name),
                target: opt_view(target),
                release: release,
            }),
    {
        Args { cargo_args, run_args, manifest_path, bin_name, target, release }
    }

    /// The canonicalized manifest path, when one was supplied.
    pub fn manifest_path(&self) -> (r: &Option<String>)
        ensures
            opt_view(*r) == self@.manifest_path,
    {
        &self.manifest_path
    }

    /// The binary-name selector, when one was supplied.
    pub fn bin_name(&self) -> (r: &Option<String>)
        ensures
            opt_view(*r) == self@.bin_name,
    {
        &self.bin_name
    }

    /// The target-platform selector, when one was supplied.
    pub fn target(&self) -> (r: &Option<String>)
        ensures
            opt_view(*r) == self@.target,
    {
        &self.target
    }

    /// Whether release mode was enabled.
    pub fn release(&self) -> (r: bool)
        ensures
            r == self@.release,
    {
        self.release
    }

    /// Injects a target computed by the dispatcher: requires the slot to be
    /// empty, fills it, and appends `--target value` to the forwarded tokens.
    pub fn set_target(&mut self, target: String) -> (r: Result<(), ParseError>)
        ensures
            old(self)@.target is Some ==> r == Err::<(), ParseError>(ParseError::AlreadySet)
                && final(self)@ == old(self)@,
            old(self)@.target is None ==> r == Ok::<(), ParseError>(()) && final(self)@ == (ArgsView {
                target: Some(target@),
                cargo_args: old(self)@.cargo_args + seq!["--target"@, target@],
                ..old(self)@
            }),
    {
        if self.target.is_some() {
            return Err(ParseError::AlreadySet);
        }
        self.target = Some(target.clone());
        self.cargo_args.push("--target".to_owned());
        self.cargo_args.push(target);
        proof {
            assert(self@.cargo_args =~= old(self)@.cargo_args + seq!["--target"@, target@]);
        }
        Ok(())
    }

    /// Injects a binary name computed by the dispatcher: requires the slot to
    /// be empty, fills it, and appends `--bin value` to the forwarded tokens.
    pub fn set_bin_name(&mut self, bin_name: String) -> (r: Result<(), ParseError>)
        ensures
            old(self)@.bin_name is Some ==> r == Err::<(), ParseError>(ParseError::AlreadySet)
                && final(self)@ == old(self)@,
            old(self)@.bin_name is None ==> r == Ok::<(), ParseError>(()) && final(self)@ == (ArgsView {
                bin_name: Some(bin_name@),
                cargo_args: old(self)@.cargo_args + seq!["--bin"@, bin_name@],
                ..old(self)@
            }),
    {
        if self.bin_name.is_some() {
            return Err(ParseError::AlreadySet);
        }
        self.bin_name = Some(bin_name.clone());
        self.cargo_args.push("--bin".to_owned());
        self.cargo_args.push(bin_name);
        proof {
            assert(self@.cargo_args =~= old(self)@.cargo_args + seq!["--bin"@, bin_name@]);
        }
        Ok(())
    }
}

} // verus!
