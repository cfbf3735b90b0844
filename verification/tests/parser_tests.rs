use kvstore::enums::Command;
use kvstore::parser::CommandParser;

#[test]
fn parser_test_read() {
    let parser = CommandParser::new();
    assert_eq!(Command::Read("foo".to_owned()), parser.parse_line("read foo"));
    assert_eq!(Command::Read("foo".to_owned()), parser.parse_line(" READ foo "));
    assert_eq!(Command::Read("foo".to_owned()), parser.parse_line("READ    foo"));
    assert_eq!(Command::Read("foo".to_owned()), parser.parse_line("rEAd foo"));
    assert_eq!(Command::Read("foo".to_owned()), parser.parse_line("rEAd foo "));
    assert_eq!(
        Command::ParseError("READ must supply key".to_owned()),
        parser.parse_line("read")
    );
    assert_eq!(
        Command::ParseError("READ must supply key".to_owned()),
        parser.parse_line("read  ")
    );
}

#[test]
fn test_write() {
    let parser = CommandParser::new();
    assert_eq!(
        Command::Write("foo".to_owned(), "bar".to_owned()),
        parser.parse_line("write foo bar")
    );
    assert_eq!(
        Command::Write("foo".to_owned(), "bar".to_owned()),
        parser.parse_line("WRITE foo bar ")
    );
    assert_eq!(
        Command::Write("foo".to_owned(), "bar".to_owned()),
        parser.parse_line("WRITE    foo  bar")
    );
    assert_eq!(
        Command::Write("foo".to_owned(), "bar baz".to_owned()),
        parser.parse_line("WRITE foo bar baz")
    );
    assert_eq!(
        Command::ParseError("WRITE must supply key and value".to_owned()),
        parser.parse_line("WRITE")
    );
    assert_eq!(
        Command::ParseError("WRITE must supply key and value".to_owned()),
        parser.parse_line("WRITE foo")
    );
    assert_eq!(
        Command::ParseError("WRITE must supply key and value".to_owned()),
        parser.parse_line("WRITE foo  ")
    );
}

#[test]
fn test_delete() {
    let parser = CommandParser::new();
    assert_eq!(Command::Delete("foo".to_owned()), parser.parse_line("delete foo"));
    assert_eq!(Command::Delete("foo".to_owned()), parser.parse_line("DELETE  foo"));
    assert_eq!(
        Command::ParseError("Unexpected input after command".to_owned()),
        parser.parse_line("DELETE  foo bar")
    );
}

#[test]
fn test_start_commit_abort_quit() {
    let parser = CommandParser::new();
    assert_eq!(Command::Start, parser.parse_line("start"));
    assert_eq!(Command::Commit, parser.parse_line("commit"));
    assert_eq!(Command::Abort, parser.parse_line("abort"));
    assert_eq!(Command::Quit, parser.parse_line("quit"));
}

#[test]
fn test_empty_command() {
    let parser = CommandParser::new();
    assert_eq!(
        Command::ParseError("Must supply command".to_owned()),
        parser.parse_line("")
    );
    assert_eq!(
        Command::ParseError("Must supply command".to_owned()),
        parser.parse_line("  ")
    );
}

#[test]
fn parser_invalid_command_names_the_token() {
    let parser = CommandParser::new();
    assert_eq!(
        Command::ParseError("Invalid Command <fly>".to_owned()),
        parser.parse_line("fly away")
    );
    assert_eq!(
        Command::ParseError("Invalid Command <reads>".to_owned()),
        parser.parse_line("reads foo")
    );
}

#[test]
fn parser_trailing_tokens_are_rejected() {
    let parser = CommandParser::new();
    assert_eq!(
        Command::ParseError("Unexpected input after command".to_owned()),
        parser.parse_line("start now")
    );
    assert_eq!(
        Command::ParseError("Unexpected input after command".to_owned()),
        parser.parse_line("read foo bar")
    );
    assert_eq!(
        Command::ParseError("Unexpected input after command".to_owned()),
        parser.parse_line("read foo!")
    );
}

#[test]
fn parser_value_keeps_internal_separators() {
    let parser = CommandParser::new();
    assert_eq!(
        Command::Write("k".to_owned(), "a,b  c".to_owned()),
        parser.parse_line("write k a,b  c")
    );
}

#[test]
fn parser_keys_are_case_sensitive() {
    let parser = CommandParser::new();
    assert_eq!(Command::Read("FOO".to_owned()), parser.parse_line("read FOO"));
    assert_eq!(Command::Delete("Foo".to_owned()), parser.parse_line("DELETE Foo"));
}
