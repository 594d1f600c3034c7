use arguments::Arguments;
use arguments::Parser;

fn strings(slices: &[&str]) -> Vec<String> {
    slices.iter().map(|s| s.to_string()).collect()
}

#[test]
fn parser_program() {
    let arguments = vec!["--a", "--b"];
    match Parser::new().parse(strings(&arguments)) {
        Ok(_) => unreachable!(),
        Err(_) => {}
    }
}

#[test]
fn parser_arrays() {
    let arguments = vec!["a", "--b", "1", "--b", "2"];
    let arguments = Parser::new().parse(strings(&arguments)).unwrap();
    assert_eq!(arguments.get_all::<usize>("b").unwrap(), &[1, 2]);
}

#[test]
fn parser_booleans() {
    let arguments = vec!["a", "--b", "--no-c", "--d"];
    let arguments = Parser::new().parse(strings(&arguments)).unwrap();
    assert_eq!(arguments.get::<bool>("b").unwrap(), true);
    assert_eq!(arguments.get::<bool>("c").unwrap(), false);
    assert_eq!(arguments.get::<bool>("d").unwrap(), true);
}

#[test]
fn parser_orphans() {
    let arguments = vec!["a", "b", "--c", "d", "e", "--f"];
    let Arguments { orphans, .. } = Parser::new().parse(strings(&arguments)).unwrap();
    assert_eq!(&orphans, &["b", "e"]);
}

#[test]
fn parser_overrides() {
    let arguments = vec!["a", "--b", "1", "--b", "2"];
    let arguments = Parser::new().parse(strings(&arguments)).unwrap();
    assert_eq!(arguments.get::<usize>("b").unwrap(), 2);
}
