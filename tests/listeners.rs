use eyebot::command::CommandRules;
use eyebot::listener::{escape_pattern, regex_is_valid, str_contains, Listener, Predicate};

#[test]
fn exact_and_contains_predicates() {
    let e = Predicate::Exactly(String::from("hello"));
    assert_eq!(e.args("hello"), Some(vec![]));
    assert_eq!(e.args("hello!"), None);
    let c = Predicate::Contains(String::from("ell"));
    assert_eq!(c.args("say hello"), Some(vec![]));
    assert_eq!(c.args("help"), None);
    assert!(str_contains("abc", ""));
    assert!(!str_contains("", "a"));
}

#[test]
fn regex_predicate_groups() {
    let r = Predicate::Regex(String::from(r"^hi (\w+)(x)?$"));
    assert_eq!(r.args("hi bob"), Some(vec![String::from("hi bob"), String::from("bob")]));
    assert_eq!(r.args("bye"), None);
    assert!(regex_is_valid(r"\d+"));
    assert!(!regex_is_valid("("));
    assert_eq!(Predicate::Regex(String::from("(")).args("("), None);
}

#[test]
fn listener_parts_split() {
    let (name, pattern, command) = Listener::parts(r"greet hi\/there/Hello %name").unwrap();
    assert_eq!(name, "greet");
    assert_eq!(pattern, "hi/there");
    assert_eq!(command, "Hello %name");
    assert!(Listener::parts("nothing").is_none());
}

#[test]
fn patterns_are_escaped_for_the_store() {
    assert_eq!(escape_pattern(r"a/b\c"), r"a\/b\\c");
    let p = Predicate::Contains(String::from("x"));
    assert_eq!(p.kind(), 'c');
    assert_eq!(p.pattern(), "x");
}

#[test]
fn listener_matches_trimmed_text() {
    let l = Listener {
        predicate: Predicate::Exactly(String::from("gg")),
        body: CommandRules::parse("wp").ok().unwrap(),
    };
    assert_eq!(l.matches("  gg \n"), Some(vec![]));
    assert_eq!(l.matches("ggg"), None);
}
