use zodiac_bot::command::{find_command, Command, Invocation, Router, COMMAND_COUNT};
use zodiac_bot::content::Category;

fn router() -> Router {
    Router::new("~".to_string())
}

fn invocation(command: Command, rest: &str) -> Option<Invocation> {
    Some(Invocation { command, rest: rest.to_string() })
}

#[test]
fn the_command_table() {
    let words =
        ["help", "sign", "set", "car", "track", "monthly", "deleteme", "ping", "uwu"];
    assert_eq!(COMMAND_COUNT, words.len());
    for (i, word) in words.iter().enumerate() {
        let command = Command::at(i).unwrap();
        assert_eq!(command.word(), *word);
        let key: Vec<char> = word.chars().collect();
        assert_eq!(find_command(&key), Some(command));
    }
    assert_eq!(Command::at(9), None);
    assert_eq!(Command::at(3), Some(Command::Content(Category::Car)));
}

#[test]
fn parse_splits_command_and_rest() {
    let r = router();
    assert_eq!(r.parse("~set Leo"), invocation(Command::SetSign, "Leo"));
    assert_eq!(r.parse("~set    Leo  "), invocation(Command::SetSign, "   Leo  "));
    assert_eq!(r.parse("~set"), invocation(Command::SetSign, ""));
    assert_eq!(r.parse("~set "), invocation(Command::SetSign, ""));
    assert_eq!(r.parse("~set  "), invocation(Command::SetSign, " "));
    assert_eq!(r.parse("~set\tNot A Sign\n"), invocation(Command::SetSign, "Not A Sign\n"));
    assert_eq!(r.parse("~sign"), invocation(Command::ShowSign, ""));
    assert_eq!(r.parse("~car please"), invocation(Command::Content(Category::Car), "please"));
    assert_eq!(r.parse("~track"), invocation(Command::Content(Category::Track), ""));
    assert_eq!(r.parse("~monthly"), invocation(Command::Content(Category::Monthly), ""));
    assert_eq!(r.parse("~deleteme"), invocation(Command::DeleteMe, ""));
    assert_eq!(r.parse("~help"), invocation(Command::Help, ""));
    assert_eq!(r.parse("~ping"), invocation(Command::Ping, ""));
    assert_eq!(r.parse("~uwu"), invocation(Command::Uwu, ""));
}

#[test]
fn command_names_match_without_regard_to_case() {
    let r = router();
    assert_eq!(r.parse("~SET leo"), invocation(Command::SetSign, "leo"));
    assert_eq!(r.parse("~Sign"), invocation(Command::ShowSign, ""));
    assert_eq!(r.parse("~DeleteMe"), invocation(Command::DeleteMe, ""));
    assert_eq!(r.parse("~UwU"), invocation(Command::Uwu, ""));
    assert_eq!(r.parse("~MONTHLY"), invocation(Command::Content(Category::Monthly), ""));
}

#[test]
fn messages_without_the_prefix_are_not_commands() {
    let r = router();
    assert_eq!(r.parse(""), None);
    assert_eq!(r.parse("ping"), None);
    assert_eq!(r.parse(" ~ping"), None);
    assert_eq!(r.parse("!ping"), None);
    assert_eq!(r.parse("hello ~ping"), None);
}

#[test]
fn unknown_words_are_not_commands() {
    let r = router();
    assert_eq!(r.parse("~"), None);
    assert_eq!(r.parse("~ ping"), None);
    assert_eq!(r.parse("~pin"), None);
    assert_eq!(r.parse("~pingg"), None);
    assert_eq!(r.parse("~setsign leo"), None);
    assert_eq!(r.parse("~compatibility"), None);
    assert_eq!(r.parse("~trac\u{212A}"), None);
    assert_eq!(r.parse("~~ping"), None);
}

#[test]
fn a_longer_prefix_matches_without_regard_to_case() {
    let r = Router::new("Zodiac!".to_string());
    assert_eq!(r.parse("zodiac!ping"), invocation(Command::Ping, ""));
    assert_eq!(r.parse("ZODIAC!set  Virgo "), invocation(Command::SetSign, " Virgo "));
    assert_eq!(r.parse("zodiac! ping"), None);
    assert_eq!(r.parse("zodiac"), None);
}

#[test]
fn an_empty_prefix_makes_every_message_a_candidate() {
    let r = Router::new(String::new());
    assert_eq!(r.parse("ping"), invocation(Command::Ping, ""));
    assert_eq!(r.parse("pong"), None);
    assert_eq!(r.parse(" ping"), None);
}
