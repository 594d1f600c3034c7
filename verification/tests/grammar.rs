use arguments::Arguments;
use arguments::Error;

fn strings(slices: &[&str]) -> Vec<String> {
    slices.iter().map(|s| s.to_string()).collect()
}

#[test]
fn empty_input_misses_program() {
    match Arguments::parse(Vec::new()) {
        Err(Error::MissingProgram) => {}
        _ => unreachable!(),
    }
}

#[test]
fn leading_flag_misses_program() {
    match Arguments::parse(strings(&["--a", "b"])) {
        Err(Error::MissingProgram) => {}
        _ => unreachable!(),
    }
}

#[test]
fn bare_double_dash_is_rejected() {
    match Arguments::parse(strings(&["a", "--"])) {
        Err(Error::EmptyFlagName) => {}
        _ => unreachable!(),
    }
    match Arguments::parse(strings(&["a", "--", "b"])) {
        Err(Error::EmptyFlagName) => {}
        _ => unreachable!(),
    }
}

#[test]
fn bare_negation_is_rejected() {
    match Arguments::parse(strings(&["a", "--no-"])) {
        Err(Error::EmptyNegatedFlagName) => {}
        _ => unreachable!(),
    }
    match Arguments::parse(strings(&["a", "--no-", "--b"])) {
        Err(Error::EmptyNegatedFlagName) => {}
        _ => unreachable!(),
    }
}

#[test]
fn negation_with_value_keeps_literal_name() {
    let arguments = Arguments::parse(strings(&["a", "--no-", "b"])).unwrap();
    assert_eq!(arguments.get::<String>("no-").unwrap(), "b");
}

#[test]
fn program_is_kept_verbatim() {
    let arguments = Arguments::parse(strings(&["./bin/tool", "-x"])).unwrap();
    assert_eq!(arguments.program, "./bin/tool");
    assert_eq!(&arguments.orphans, &["-x"]);
}

#[test]
fn single_dash_is_no_flag() {
    let arguments = Arguments::parse(strings(&["a", "-b", "c"])).unwrap();
    assert_eq!(&arguments.orphans, &["-b", "c"]);
}

#[test]
fn empty_token_is_an_orphan() {
    let arguments = Arguments::parse(strings(&["a", ""])).unwrap();
    assert_eq!(&arguments.orphans, &[""]);
}

#[test]
fn messages_name_the_failure() {
    assert_eq!(
        Error::MissingProgram.message(),
        "expected a name as the first argument"
    );
    assert_eq!(
        Error::EmptyFlagName.message(),
        "expected a name right after \"--\""
    );
    assert_eq!(
        Error::EmptyNegatedFlagName.message(),
        "expected a name right after \"--no-\""
    );
}
