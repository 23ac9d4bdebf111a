use ed_debby::command_structs::{Address, EdCommand, RangeSep};
use ed_debby::ed_command_error::EdCommandError;
use ed_debby::ed_command_parser::{parse_line, parse_range};

fn range(input: &str) -> (Address, RangeSep, Address) {
    parse_range(input).expect("bad range parse")
}

#[test]
fn test_address_from_str_digits() {
    assert_eq!(Address::from_str("50"), Some(Address::Absolute(50)));
    assert_eq!(Address::from_str("5"), Some(Address::Absolute(5)));
}

#[test]
fn test_address_from_str_symbolic() {
    assert_eq!(Address::from_str("$"), Some(Address::Last));
    assert_eq!(Address::from_str("."), Some(Address::Current));
}

#[test]
fn test_address_from_str_rejects() {
    assert_eq!(Address::from_str(""), None);
    assert_eq!(Address::from_str("5s/foo123/123foo/"), None);
    assert_eq!(Address::from_str("+5"), None);
    assert_eq!(Address::from_str("99999999999999999999999999"), None);
}

#[test]
fn test_range_num_comma_num() {
    assert_eq!(
        range("50,60"),
        (Address::Absolute(50), RangeSep::Comma, Address::Absolute(60)),
        "num,num"
    );
}

#[test]
fn test_range_single_num() {
    assert_eq!(
        range("50"),
        (Address::Absolute(50), RangeSep::Comma, Address::Absolute(50)),
        "num"
    );
}

#[test]
fn test_range_trailing_comma() {
    assert_eq!(
        range("50,"),
        (Address::Absolute(50), RangeSep::Comma, Address::Current),
        "num,"
    );
}

#[test]
fn test_range_leading_comma() {
    assert_eq!(
        range(",50"),
        (Address::Current, RangeSep::Comma, Address::Absolute(50)),
        ",num"
    );
}

#[test]
fn test_range_dot_comma_num() {
    assert_eq!(
        range(".,50"),
        (Address::Current, RangeSep::Comma, Address::Absolute(50)),
        ".,num"
    );
}

#[test]
fn test_range_dot_comma_dollar() {
    assert_eq!(
        range(".,$"),
        (Address::Current, RangeSep::Comma, Address::Last),
        ".,$"
    );
}

#[test]
fn test_range_semicolon_pair() {
    assert_eq!(
        range("10;20"),
        (Address::Absolute(10), RangeSep::Semicolon, Address::Absolute(20)),
        "num;num"
    );
}

#[test]
fn test_range_empty() {
    assert_eq!(
        range(""),
        (Address::Current, RangeSep::Comma, Address::Current),
        "empty string"
    );
}

#[test]
fn test_range_bare_semicolon() {
    assert_eq!(
        range(";"),
        (Address::Current, RangeSep::Semicolon, Address::Last),
        "; (current->end)"
    );
}

#[test]
fn test_range_percent() {
    assert_eq!(
        range("%"),
        (Address::Absolute(1), RangeSep::Comma, Address::Last),
        "% (all lines)"
    );
}

#[test]
fn test_range_parse_is_repeatable() {
    for _ in 0..3 {
        assert_eq!(
            range("50,60"),
            (Address::Absolute(50), RangeSep::Comma, Address::Absolute(60))
        );
        assert_eq!(range(""), (Address::Current, RangeSep::Comma, Address::Current));
        assert_eq!(range("%"), (Address::Absolute(1), RangeSep::Comma, Address::Last));
    }
}

#[test]
fn test_line_print_command() {
    let expected = EdCommand {
        address1: Address::Absolute(10),
        address2: Address::Absolute(15),
        command: Some(String::from("p")),
        ..EdCommand::default()
    };
    assert_eq!(parse_line("10,15p").expect("bad line parse"), expected, "print command");
}

#[test]
fn test_line_write_quit_command() {
    let expected = EdCommand {
        command: Some(String::from("wq")),
        ..EdCommand::default()
    };
    assert_eq!(parse_line("wq").expect("bad line parse"), expected, "write and quit command");
}

#[test]
fn test_line_write_with_args() {
    let expected = EdCommand {
        command: Some(String::from("w")),
        command_args: Some(String::from("foo.txt")),
        ..EdCommand::default()
    };
    assert_eq!(parse_line("wfoo.txt").expect("bad line parse"), expected, "write with args");
}

#[test]
fn test_line_range_without_command() {
    let expected = EdCommand {
        address1: Address::Absolute(1),
        address2: Address::Last,
        ..EdCommand::default()
    };
    assert_eq!(
        parse_line("1,$").expect("bad line parse"),
        expected,
        "no command, first and last address"
    );
}

#[test]
fn test_line_single_letter_verbs() {
    for verb in ["w", "q", "p", "i", "d", "n", "a", "c"] {
        let cmd = parse_line(verb).expect("bad line parse");
        assert_eq!(cmd.command, Some(verb.to_string()), "verb {}", verb);
        assert_eq!(cmd.command_args, None);
    }
    let eq_cmd = parse_line("=").expect("bad line parse");
    assert_eq!(eq_cmd.command, Some("=".to_string()));
}

#[test]
fn test_line_address_with_glued_command() {
    let cmd = parse_line("5s/foo123/123foo/").expect("bad line parse");
    assert_eq!(cmd.address1, Address::Absolute(5));
    assert_eq!(cmd.address2, Address::Absolute(5));
    assert_eq!(cmd.command, Some("s".to_string()));
    assert_eq!(cmd.command_args, Some("/foo123/123foo/".to_string()));
}

#[test]
fn test_line_percent_with_verb() {
    let cmd = parse_line("%p").expect("bad line parse");
    assert_eq!(cmd.address1, Address::Absolute(1));
    assert_eq!(cmd.address2, Address::Last);
    assert_eq!(cmd.range_sep, RangeSep::Comma);
    assert_eq!(cmd.command, Some("p".to_string()));
}

#[test]
fn test_line_oversized_address_is_parse_error() {
    let r = parse_line("99999999999999999999999999p");
    assert!(matches!(r, Err(EdCommandError::ParseError(0))));
}

#[test]
fn test_input_terminator_is_exact() {
    assert!(ed_debby::ed_command_parser::is_input_terminator("."));
    assert!(!ed_debby::ed_command_parser::is_input_terminator(". "));
    assert!(!ed_debby::ed_command_parser::is_input_terminator(""));
    assert!(!ed_debby::ed_command_parser::is_input_terminator(".."));
    assert!(!ed_debby::ed_command_parser::is_input_terminator("a"));
}

#[test]
fn test_parse_error_message() {
    let e = EdCommandError::ParseError(7);
    assert_eq!(e.message(), "Parse Error at character 7");
}
