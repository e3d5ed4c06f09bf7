use buildargs::parse;
use buildargs::Command;
use buildargs::ParseError;

fn sv(xs: &[&str]) -> Vec<String> {
    xs.iter().map(|s| s.to_string()).collect()
}

#[test]
fn build_release_exact() {
    match parse(&sv(&["build", "--release"])) {
        Ok(Command::Build(a)) => {
            assert!(a.release());
            assert_eq!(a.cargo_args, sv(&["--release"]));
            assert_eq!(a.run_args, sv(&[]));
            assert_eq!(a.bin_name(), &None);
            assert_eq!(a.target(), &None);
            assert_eq!(a.manifest_path(), &None);
        }
        other => panic!("unexpected result: {:?}", other),
    }
}

#[test]
fn run_bin_and_separator() {
    match parse(&sv(&["run", "--bin", "foo", "--", "a", "b"])) {
        Ok(Command::Run(a)) => {
            assert_eq!(a.bin_name(), &Some("foo".to_string()));
            assert_eq!(a.cargo_args, sv(&["--bin", "foo"]));
            assert_eq!(a.run_args, sv(&["a", "b"]));
            assert!(!a.release());
        }
        other => panic!("unexpected result: {:?}", other),
    }
}

#[test]
fn test_with_bin_is_illegal() {
    assert_eq!(
        parse(&sv(&["test", "--bin", "foo"])),
        Err(ParseError::IllegalCombination)
    );
    assert_eq!(
        parse(&sv(&["test", "--release", "--bin", "foo", "extra"])),
        Err(ParseError::IllegalCombination)
    );
}

#[test]
fn test_without_bin_parses() {
    match parse(&sv(&["test", "--release"])) {
        Ok(Command::Test(a)) => {
            assert!(a.release());
            assert_eq!(a.cargo_args, sv(&["--release"]));
        }
        other => panic!("unexpected result: {:?}", other),
    }
}

#[test]
fn duplicate_bin_is_fatal() {
    assert_eq!(
        parse(&sv(&["build", "--bin", "a", "--bin", "b"])),
        Err(ParseError::DuplicateOption)
    );
}

#[test]
fn duplicate_bin_mixed_forms_is_fatal() {
    assert_eq!(
        parse(&sv(&["build", "--bin=a", "--bin", "b"])),
        Err(ParseError::DuplicateOption)
    );
}

#[test]
fn duplicate_bin_trailing_is_fatal() {
    assert_eq!(
        parse(&sv(&["build", "--bin", "a", "--bin"])),
        Err(ParseError::DuplicateOption)
    );
}

#[test]
fn duplicate_target_is_fatal() {
    assert_eq!(
        parse(&sv(&["build", "--target=a", "--target", "b"])),
        Err(ParseError::DuplicateOption)
    );
}

#[test]
fn top_level_help() {
    assert_eq!(parse(&sv(&["--help"])), Ok(Command::Help));
    assert_eq!(parse(&sv(&["-h"])), Ok(Command::Help));
}

#[test]
fn subcommand_help() {
    assert_eq!(parse(&sv(&["build", "--help"])), Ok(Command::BuildHelp));
    assert_eq!(parse(&sv(&["build", "-h"])), Ok(Command::BuildHelp));
    assert_eq!(parse(&sv(&["run", "--help"])), Ok(Command::RunHelp));
    assert_eq!(parse(&sv(&["test", "--help"])), Ok(Command::TestHelp));
}

#[test]
fn version_requests() {
    assert_eq!(parse(&sv(&["--version"])), Ok(Command::Version));
    assert_eq!(parse(&sv(&["build", "--version"])), Ok(Command::Version));
    assert_eq!(parse(&sv(&["run", "--version"])), Ok(Command::Version));
}

#[test]
fn version_short_circuits() {
    assert_eq!(
        parse(&sv(&["build", "x", "--version", "y"])),
        Ok(Command::Version)
    );
}

#[test]
fn help_short_circuits_before_errors() {
    assert_eq!(
        parse(&sv(&["build", "--help", "--bin", "a", "--bin", "b"])),
        Ok(Command::BuildHelp)
    );
}

#[test]
fn empty_vector_is_no_subcommand() {
    assert_eq!(parse(&sv(&[])), Ok(Command::NoSubcommand));
}

#[test]
fn unknown_first_token_is_no_subcommand() {
    assert_eq!(parse(&sv(&["frobnicate"])), Ok(Command::NoSubcommand));
    assert_eq!(parse(&sv(&["Build"])), Ok(Command::NoSubcommand));
}

#[test]
fn bin_forms_agree_on_slot_but_not_shape() {
    let split = match parse(&sv(&["build", "--bin", "x"])) {
        Ok(Command::Build(a)) => a,
        other => panic!("unexpected result: {:?}", other),
    };
    let combined = match parse(&sv(&["build", "--bin=x"])) {
        Ok(Command::Build(a)) => a,
        other => panic!("unexpected result: {:?}", other),
    };
    assert_eq!(split.bin_name(), &Some("x".to_string()));
    assert_eq!(combined.bin_name(), &Some("x".to_string()));
    assert_eq!(split.cargo_args, sv(&["--bin", "x"]));
    assert_eq!(combined.cargo_args, sv(&["--bin=x"]));
}

#[test]
fn second_separator_is_forwarded() {
    match parse(&sv(&["build", "--", "a", "--", "b"])) {
        Ok(Command::Build(a)) => {
            assert_eq!(a.cargo_args, sv(&[]));
            assert_eq!(a.run_args, sv(&["a", "--", "b"]));
        }
        other => panic!("unexpected result: {:?}", other),
    }
}

#[test]
fn tokens_after_separator_are_never_interpreted() {
    match parse(&sv(&["run", "--", "--bin", "x", "--help"])) {
        Ok(Command::Run(a)) => {
            assert_eq!(a.bin_name(), &None);
            assert_eq!(a.cargo_args, sv(&[]));
            assert_eq!(a.run_args, sv(&["--bin", "x", "--help"]));
        }
        other => panic!("unexpected result: {:?}", other),
    }
}

#[test]
fn unrecognized_tokens_pass_through_in_order() {
    match parse(&sv(&["build", "-v", "--foo", "bar", "--release", "baz"])) {
        Ok(Command::Build(a)) => {
            assert!(a.release());
            assert_eq!(a.cargo_args, sv(&["-v", "--foo", "bar", "--release", "baz"]));
            assert_eq!(a.run_args, sv(&[]));
        }
        other => panic!("unexpected result: {:?}", other),
    }
}

#[test]
fn release_is_idempotent() {
    match parse(&sv(&["build", "--release", "--release"])) {
        Ok(Command::Build(a)) => {
            assert!(a.release());
            assert_eq!(a.cargo_args, sv(&["--release", "--release"]));
        }
        other => panic!("unexpected result: {:?}", other),
    }
}

#[test]
fn target_combined_form() {
    match parse(&sv(&["build", "--target=thumbv7em-none-eabihf"])) {
        Ok(Command::Build(a)) => {
            assert_eq!(a.target(), &Some("thumbv7em-none-eabihf".to_string()));
            assert_eq!(a.cargo_args, sv(&["--target=thumbv7em-none-eabihf"]));
        }
        other => panic!("unexpected result: {:?}", other),
    }
}

#[test]
fn trailing_valued_option_records_empty_forward() {
    match parse(&sv(&["build", "--bin"])) {
        Ok(Command::Build(a)) => {
            assert_eq!(a.bin_name(), &None);
            assert_eq!(a.cargo_args, sv(&["--bin"]));
        }
        other => panic!("unexpected result: {:?}", other),
    }
}

#[test]
fn combined_form_with_empty_value() {
    match parse(&sv(&["build", "--bin="])) {
        Ok(Command::Build(a)) => {
            assert_eq!(a.bin_name(), &Some("".to_string()));
            assert_eq!(a.cargo_args, sv(&["--bin="]));
        }
        other => panic!("unexpected result: {:?}", other),
    }
}

#[test]
fn separator_consumed_as_option_value() {
    match parse(&sv(&["build", "--bin", "--", "x"])) {
        Ok(Command::Build(a)) => {
            assert_eq!(a.bin_name(), &Some("--".to_string()));
            assert_eq!(a.cargo_args, sv(&["--bin", "--", "x"]));
            assert_eq!(a.run_args, sv(&[]));
        }
        other => panic!("unexpected result: {:?}", other),
    }
}

#[test]
fn invalid_manifest_path_is_fatal() {
    assert_eq!(
        parse(&sv(&["build", "--manifest-path", "/nonexistent_zz/Cargo.toml"])),
        Err(ParseError::InvalidPath)
    );
    assert_eq!(
        parse(&sv(&["build", "--manifest-path=/nonexistent_zz/Cargo.toml"])),
        Err(ParseError::InvalidPath)
    );
}

#[test]
fn manifest_path_is_canonicalized_but_forwarded_verbatim() {
    match parse(&sv(&["build", "--manifest-path", "."])) {
        Ok(Command::Build(a)) => {
            let stored = a.manifest_path().clone().expect("path should resolve");
            assert_ne!(stored, ".".to_string());
            assert!(stored.starts_with('/'));
            assert_eq!(a.cargo_args, sv(&["--manifest-path", "."]));
        }
        other => panic!("unexpected result: {:?}", other),
    }
}

#[test]
fn invalid_manifest_path_beats_later_help() {
    assert_eq!(
        parse(&sv(&["build", "--manifest-path=/nonexistent_zz/x", "--help"])),
        Err(ParseError::InvalidPath)
    );
}

#[test]
fn invalid_manifest_path_beats_later_duplicate() {
    assert_eq!(
        parse(&sv(&[
            "build",
            "--manifest-path",
            "/nonexistent_zz/x",
            "--bin",
            "a",
            "--bin",
            "b"
        ])),
        Err(ParseError::InvalidPath)
    );
}

#[test]
fn duplicate_manifest_path_is_fatal() {
    assert_eq!(
        parse(&sv(&["build", "--manifest-path=.", "--manifest-path", "."])),
        Err(ParseError::DuplicateOption)
    );
}
