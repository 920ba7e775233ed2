use eyebot::command::CommandRules;
use eyebot::listener::{Listener, Predicate};
use eyebot::store::{
    command_from_line, command_line, command_words, counter_from_line, counter_line, listener_from_line, listener_line,
    parse_i64,
};

#[test]
fn signed_numbers_parse_like_std() {
    assert_eq!(parse_i64("42"), Some(42));
    assert_eq!(parse_i64("+7"), Some(7));
    assert_eq!(parse_i64("-12"), Some(-12));
    assert_eq!(parse_i64("-9223372036854775808"), Some(i64::MIN));
    assert_eq!(parse_i64("9223372036854775807"), Some(i64::MAX));
    assert_eq!(parse_i64("9223372036854775808"), None);
    assert_eq!(parse_i64("-"), None);
    assert_eq!(parse_i64("-+1"), None);
    assert_eq!(parse_i64(""), None);
    assert_eq!(parse_i64("1a"), None);
}

#[test]
fn counter_lines_round_trip() {
    let line = counter_line("deaths", -3);
    assert_eq!(line, "deaths -3");
    assert_eq!(counter_from_line("  deaths -3 \r"), Some((String::from("deaths"), -3)));
    assert_eq!(counter_from_line("deaths"), None);
    assert_eq!(counter_from_line("deaths many"), None);
}

#[test]
fn command_lines_round_trip() {
    let c = CommandRules::parse("hi %name &REPLY").ok().unwrap();
    let line = command_line("greet", &c);
    assert_eq!(line, "greet &REPLY hi %name");
    let (name, back) = command_from_line(&line).unwrap();
    assert_eq!(name, "greet");
    assert_eq!(back.as_words_string(), c.as_words_string());
    assert!(command_from_line("bad %nope").is_none());
    assert!(command_from_line("lonely").is_none());
}

#[test]
fn listener_lines_round_trip() {
    let l = Listener { predicate: Predicate::Contains(String::from("a/b")), body: CommandRules::parse("yes").ok().unwrap() };
    let line = listener_line("slash", &l);
    assert_eq!(line, r"c slash a\/b/yes ");
    let (name, back) = listener_from_line(&line).unwrap();
    assert_eq!(name, "slash");
    assert_eq!(back.predicate.pattern(), "a/b");
    assert_eq!(back.predicate.kind(), 'c');
    assert!(listener_from_line("r bad (/x").is_none());
    assert!(listener_from_line("").is_none());
}

#[test]
fn chat_command_words() {
    let (name, args) = command_words("!so  eye_motif ").unwrap();
    assert_eq!(name, "so");
    assert_eq!(args, vec![String::new(), String::from("eye_motif")]);
    assert!(command_words("hello").is_none());
    let (name, args) = command_words("!").unwrap();
    assert_eq!(name, "");
    assert!(args.is_empty());
}
