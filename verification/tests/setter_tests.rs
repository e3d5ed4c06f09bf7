use buildargs::parse;
use buildargs::Args;
use buildargs::Command;
use buildargs::ParseError;

fn parsed_build(tokens: &[&str]) -> Args {
    let v: Vec<String> = tokens.iter().map(|s| s.to_string()).collect();
    match parse(&v) {
        Ok(Command::Build(a)) => a,
        other => panic!("unexpected result: {:?}", other),
    }
}

#[test]
fn set_bin_name_fills_and_forwards() {
    let mut a = parsed_build(&["build", "--release"]);
    assert_eq!(a.set_bin_name("kernel".to_string()), Ok(()));
    assert_eq!(a.bin_name(), &Some("kernel".to_string()));
    assert_eq!(
        a.cargo_args,
        vec![
            "--release".to_string(),
            "--bin".to_string(),
            "kernel".to_string()
        ]
    );
}

#[test]
fn set_bin_name_twice_is_fatal() {
    let mut a = parsed_build(&["build"]);
    assert_eq!(a.set_bin_name("first".to_string()), Ok(()));
    assert_eq!(
        a.set_bin_name("second".to_string()),
        Err(ParseError::AlreadySet)
    );
    assert_eq!(a.bin_name(), &Some("first".to_string()));
    assert_eq!(a.cargo_args, vec!["--bin".to_string(), "first".to_string()]);
}

#[test]
fn set_bin_name_refused_after_parsed_bin() {
    let mut a = parsed_build(&["build", "--bin=x"]);
    assert_eq!(a.set_bin_name("y".to_string()), Err(ParseError::AlreadySet));
    assert_eq!(a.bin_name(), &Some("x".to_string()));
}

#[test]
fn set_target_fills_and_forwards() {
    let mut a = parsed_build(&["build"]);
    assert_eq!(a.set_target("x86_64-unknown-none".to_string()), Ok(()));
    assert_eq!(a.target(), &Some("x86_64-unknown-none".to_string()));
    assert_eq!(
        a.cargo_args,
        vec!["--target".to_string(), "x86_64-unknown-none".to_string()]
    );
}

#[test]
fn set_target_twice_is_fatal() {
    let mut a = parsed_build(&["build"]);
    assert_eq!(a.set_target("a".to_string()), Ok(()));
    assert_eq!(a.set_target("b".to_string()), Err(ParseError::AlreadySet));
    assert_eq!(a.target(), &Some("a".to_string()));
}

#[test]
fn set_target_refused_after_parsed_target() {
    let mut a = parsed_build(&["build", "--target", "t"]);
    assert_eq!(a.set_target("u".to_string()), Err(ParseError::AlreadySet));
    assert_eq!(a.target(), &Some("t".to_string()));
}

#[test]
fn getters_on_bare_build() {
    let a = parsed_build(&["build"]);
    assert_eq!(a.bin_name(), &None);
    assert_eq!(a.target(), &None);
    assert_eq!(a.manifest_path(), &None);
    assert!(!a.release());
    assert!(a.cargo_args.is_empty());
    assert!(a.run_args.is_empty());
}
