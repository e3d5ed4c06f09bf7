//! Command-line front end of a build-wrapper tool: classifies the invoked
//! subcommand and splits the remaining tokens into options the wrapper acts
//! on itself, tokens forwarded verbatim to the underlying build tool, and
//! tokens destined for a runner program after a `--` separator.

pub mod args;
pub mod laws;
pub mod parse;
pub mod scan;
pub mod strutil;

pub use args::Args;
pub use args::ArgsView;
pub use args::Command;
pub use args::ParseError;
pub use parse::parse;
pub use parse::parse_build_args;
