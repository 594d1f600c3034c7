use arguments::Arguments;

fn strings(slices: &[&str]) -> Vec<String> {
    slices.iter().map(|s| s.to_string()).collect()
}

#[test]
fn arguments_program() {
    let arguments = vec!["--a", "--b"];
    match Arguments::parse(strings(&arguments)) {
        Ok(_) => unreachable!(),
        Err(_) => {}
    }
}

#[test]
fn arguments_arrays() {
    let arguments = vec!["a", "--b", "1", "--b", "2"];
    let arguments = Arguments::parse(strings(&arguments)).unwrap();
    assert_eq!(arguments.get_all::<usize>("b").unwrap(), &[1, 2]);
}

#[test]
fn arguments_booleans() {
    let arguments = vec!["a", "--b", "--no-c", "--d"];
    let arguments = Arguments::parse(strings(&arguments)).unwrap();
    assert_eq!(arguments.get::<bool>("b").unwrap(), true);
    assert_eq!(arguments.get::<bool>("c").unwrap(), false);
    assert_eq!(arguments.get::<bool>("d").unwrap(), true);
}

#[test]
fn arguments_orphans() {
    let arguments = vec!["a", "b", "--c", "d", "e", "--f"];
    let Arguments { orphans, .. } = Arguments::parse(strings(&arguments)).unwrap();
    assert_eq!(&orphans, &["b", "e"]);
}

#[test]
fn arguments_overrides() {
    let arguments = vec!["a", "--b", "1", "--b", "2"];
    let arguments = Arguments::parse(strings(&arguments)).unwrap();
    assert_eq!(arguments.get::<usize>("b").unwrap(), 2);
}

#[test]
fn example() {
    let arguments = vec![
        "foo",
        "--no-bar",
        "--baz",
        "42",
        "--baz",
        "69",
        "--qux",
        "Hello, world!",
    ];
    let arguments = arguments::parse(strings(&arguments)).unwrap();
    assert_eq!(arguments.program, "foo");
    assert_eq!(arguments.get::<bool>("bar").unwrap(), false);
    assert_eq!(arguments.get::<usize>("baz").unwrap(), 69);
    assert_eq!(arguments.get_all::<usize>("baz").unwrap(), &[42, 69]);
    assert_eq!(arguments.get::<String>("qux").unwrap(), "Hello, world!");
}

#[test]
fn absent_key_is_none() {
    let arguments = vec!["a", "--b", "1"];
    let arguments = Arguments::parse(strings(&arguments)).unwrap();
    assert!(arguments.get::<usize>("missing").is_none());
    assert!(arguments.get_all::<usize>("missing").is_none());
    assert!(arguments.get::<String>("missing").is_none());
}

#[test]
fn get_all_fails_on_any_bad_element() {
    let arguments = vec!["a", "--b", "1", "--b", "x"];
    let arguments = Arguments::parse(strings(&arguments)).unwrap();
    assert!(arguments.get_all::<usize>("b").is_none());
    assert_eq!(
        arguments.get_all::<String>("b").unwrap(),
        &["1".to_string(), "x".to_string()]
    );
}

#[test]
fn get_takes_last_value() {
    let arguments = vec!["a", "--b", "x", "--b", "7"];
    let arguments = Arguments::parse(strings(&arguments)).unwrap();
    assert_eq!(arguments.get::<usize>("b").unwrap(), 7);
    assert_eq!(arguments.get::<String>("b").unwrap(), "7");
}

#[test]
fn value_beats_negation() {
    let arguments = vec!["a", "--no-b", "c"];
    let arguments = Arguments::parse(strings(&arguments)).unwrap();
    assert_eq!(arguments.get::<String>("no-b").unwrap(), "c");
    assert!(arguments.get::<bool>("b").is_none());
}

#[test]
fn usize_text_forms() {
    let arguments = vec![
        "a",
        "--plus",
        "+7",
        "--huge",
        "99999999999999999999999999999999",
        "--signed",
        "-1",
        "--padded",
        " 1",
    ];
    let arguments = Arguments::parse(strings(&arguments)).unwrap();
    assert_eq!(arguments.get::<usize>("plus").unwrap(), 7);
    assert!(arguments.get::<usize>("huge").is_none());
    assert!(arguments.get::<usize>("signed").is_none());
    assert!(arguments.get::<usize>("padded").is_none());
}

#[test]
fn bool_text_is_exact() {
    let arguments = vec!["a", "--b", "True", "--c", "false"];
    let arguments = Arguments::parse(strings(&arguments)).unwrap();
    assert!(arguments.get::<bool>("b").is_none());
    assert_eq!(arguments.get::<bool>("c").unwrap(), false);
}
