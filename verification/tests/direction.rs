use gesture_binding::direction::Direction;
use gesture_binding::error::ParseError;
use std::str::FromStr;

#[test]
fn direction_names() {
    assert_eq!(Direction::Left.name(), "Left");
    assert_eq!(Direction::Right.name(), "Right");
    assert_eq!(Direction::Up.name(), "Up");
    assert_eq!(Direction::Down.name(), "Down");
    assert_eq!(Direction::Down.to_string(), String::from("Down"));
}

#[test]
fn direction_parse_reads_each_name() {
    assert_eq!(Direction::parse("Left"), Ok(Direction::Left));
    assert_eq!(Direction::parse("Right"), Ok(Direction::Right));
    assert_eq!(Direction::parse("Up"), Ok(Direction::Up));
    assert_eq!(Direction::parse("Down"), Ok(Direction::Down));
    assert_eq!(Direction::from_str("Down"), Ok(Direction::Down));
}

#[test]
fn direction_name_reads_back() {
    for d in [
        Direction::Left,
        Direction::Right,
        Direction::Up,
        Direction::Down,
    ] {
        assert_eq!(Direction::parse(d.name()), Ok(d));
        assert_eq!(Direction::parse(&d.to_string()), Ok(d));
    }
}

#[test]
fn direction_parse_rejects_unknown_names() {
    assert_eq!(
        Direction::parse("Sideways"),
        Err(ParseError::InvalidDirection(String::from("Sideways")))
    );
    assert_eq!(
        Direction::parse(""),
        Err(ParseError::InvalidDirection(String::new()))
    );
    assert_eq!(
        Direction::from_str("Forward"),
        Err(ParseError::InvalidDirection(String::from("Forward")))
    );
}

#[test]
fn direction_parse_is_exact() {
    assert_eq!(
        Direction::parse("left"),
        Err(ParseError::InvalidDirection(String::from("left")))
    );
    assert_eq!(
        Direction::parse("UP"),
        Err(ParseError::InvalidDirection(String::from("UP")))
    );
    assert_eq!(
        Direction::parse(" Up"),
        Err(ParseError::InvalidDirection(String::from(" Up")))
    );
    assert_eq!(
        Direction::parse("Up\n"),
        Err(ParseError::InvalidDirection(String::from("Up\n")))
    );
    assert_eq!(
        Direction::parse("Lef"),
        Err(ParseError::InvalidDirection(String::from("Lef")))
    );
    assert_eq!(
        Direction::parse("Leftt"),
        Err(ParseError::InvalidDirection(String::from("Leftt")))
    );
    assert_eq!(
        Direction::parse("Dow\u{144}"),
        Err(ParseError::InvalidDirection(String::from("Dow\u{144}")))
    );
}

#[test]
fn direction_parse_chars_reads_a_range() {
    let text: Vec<char> = "xxUpyy".chars().collect();
    assert_eq!(Direction::parse_chars(&text, 2, 4), Some(Direction::Up));
    assert_eq!(Direction::parse_chars(&text, 2, 5), None);
    assert_eq!(Direction::parse_chars(&text, 3, 3), None);
}
