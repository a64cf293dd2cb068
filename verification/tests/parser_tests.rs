use sgdb::controller::Command;
use sgdb::parser::ParseError;
use sgdb::parser::ParseResult;
use sgdb::parser::parse_to_command;

#[test]
fn test_corr_parse_to_command() {
    let corr = vec![
        ParseResult::Command(Command::Begin),
        ParseResult::Command(Command::Begin),
        ParseResult::Command(Command::Commit),
        ParseResult::Command(Command::Commit),
        ParseResult::Help,
        ParseResult::Help,
        ParseResult::Command(Command::List(None)),
        ParseResult::Command(Command::List(None)),
        ParseResult::Command(Command::List(Some(String::from("gui")))),
        ParseResult::Command(Command::List(Some(String::from("gui")))),
        ParseResult::Quit,
        ParseResult::Quit,
        ParseResult::Command(Command::Rent("1".into(), "2".into())),
        ParseResult::Command(Command::Rent("1".into(), "2".into())),
        ParseResult::Command(Command::Rollback),
        ParseResult::Command(Command::Rollback),
        ParseResult::Command(Command::TryTerminate("1".into(), "2".into())),
        ParseResult::Command(Command::TryTerminate("1".into(), "2".into())),
    ];

    let data = vec![
        "b",
        "begin",
        "c",
        "commit",
        "h",
        "help",
        "l",
        "list",
        "l gui",
        "list gui",
        "q",
        "quit",
        "re 1 2",
        "rent 1 2",
        "ro",
        "rollback",
        "t 1 2",
        "terminate 1 2",
    ];

    for i in 0..data.len() {
        assert_eq!(parse_to_command(data[i]).unwrap(), corr[i]);
    }
}

#[test]
fn test_fail_parse_to_command() {
    let corr = vec![
        ParseError::Default,
        ParseError::NoStudent,
        ParseError::NoStudent,
        ParseError::NoInstrument,
        ParseError::NoInstrument,
    ];

    let data = vec!["x", "re", "t", "re 1", "t 1"];

    for i in 0..data.len() {
        assert_eq!(parse_to_command(data[i]).unwrap_err(), corr[i]);
    }
}

#[test]
fn test_parse_trims_whitespace() {
    assert_eq!(
        parse_to_command("  begin \n").unwrap(),
        ParseResult::Command(Command::Begin)
    );
    assert_eq!(
        parse_to_command("\tre 1 2\r\n").unwrap(),
        ParseResult::Command(Command::Rent("1".into(), "2".into()))
    );
}

#[test]
fn test_parse_double_space_makes_empty_word() {
    // Two spaces in a row give an empty second word, so the filter is
    // treated as absent, exactly as splitting on single spaces does.
    assert_eq!(
        parse_to_command("l  gui").unwrap(),
        ParseResult::Command(Command::List(None))
    );
    assert_eq!(
        parse_to_command("re  1").unwrap(),
        ParseResult::Command(Command::Rent("".into(), "1".into()))
    );
}

#[test]
fn test_parse_empty_line() {
    assert_eq!(parse_to_command("").unwrap_err(), ParseError::Default);
    assert_eq!(parse_to_command("   ").unwrap_err(), ParseError::Default);
}

#[test]
fn test_parse_first_letters_decide() {
    // Only the first letter of the first word matters, so any word
    // starting with it is accepted.
    assert_eq!(
        parse_to_command("banana").unwrap(),
        ParseResult::Command(Command::Begin)
    );
    assert_eq!(parse_to_command("r").unwrap_err(), ParseError::Default);
    assert_eq!(parse_to_command("rx").unwrap_err(), ParseError::Default);
}
