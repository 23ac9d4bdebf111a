use ed_debby::buffer::LineBuffer;
use ed_debby::command_structs::{Address, EdCommand};
use ed_debby::ed_command_error::EdCommandError;
use ed_debby::ed_commands::{
    address_to_index, command_runner, print, print_with_numbers, validate_range, wants_input,
    REPLStatus,
};

fn five_line_buffer() -> LineBuffer {
    LineBuffer {
        lines: Some(vec![
            "one".to_string(),
            "two".to_string(),
            "three".to_string(),
            "four".to_string(),
            "five".to_string(),
        ]),
        filename: None,
        current_line: 0,
    }
}

#[test]
fn quit_returns_quit_signal() {
    let mut buffer = LineBuffer::empty();
    let command = EdCommand {
        command: Some("q".to_string()),
        ..EdCommand::default()
    };

    if let Ok(out) = command_runner(&mut buffer, &command, vec![]) {
        assert_eq!(out.status, REPLStatus::Quit);
    } else {
        assert!(false)
    }
}

#[test]
fn write_returns_continue_signal() {
    let mut buffer = LineBuffer {
        filename: Some("/tmp/foo.txt".to_string()),
        ..LineBuffer::empty()
    };
    let command = EdCommand {
        command: Some("w".to_string()),
        ..EdCommand::default()
    };

    match command_runner(&mut buffer, &command, vec![]) {
        Ok(out) => assert_eq!(out.status, REPLStatus::Continue),
        Err(e) => {
            println!("{:?}", e);
            assert!(false);
        }
    }
    if let Ok(out) = command_runner(&mut buffer, &command, vec![]) {
        assert_eq!(out.status, REPLStatus::Continue);
    } else {
        assert!(false)
    }
}

#[test]
fn write_with_no_filename() {
    // Pass back error.
    let mut buffer = LineBuffer {
        filename: None,
        ..LineBuffer::empty()
    };
    let command = EdCommand {
        command: Some("w".to_string()),
        ..EdCommand::default()
    };

    match command_runner(&mut buffer, &command, vec![]) {
        Ok(out) => assert_eq!(out.status, REPLStatus::Continue),
        Err(e) => {
            println!("{:?}", e);
            assert!(true);
        }
    }
}

#[test]
fn write_quit_returns_quit() {
    let mut buffer = LineBuffer {
        filename: Some("/tmp/foo.txt".to_string()),
        ..LineBuffer::empty()
    };
    let command = EdCommand {
        command: Some("wq".to_string()),
        ..EdCommand::default()
    };

    match command_runner(&mut buffer, &command, vec![]) {
        Ok(out) => assert_eq!(out.status, REPLStatus::Quit),
        Err(e) => {
            println!("{:?}", e);
            assert!(false);
        }
    }
}

#[test]
fn write_quit_returns_err() {
    // Pass back error.
    let mut buffer = LineBuffer {
        filename: None,
        ..LineBuffer::empty()
    };
    let command = EdCommand {
        command: Some("w".to_string()),
        ..EdCommand::default()
    };

    match command_runner(&mut buffer, &command, vec![]) {
        Ok(out) => assert_eq!(out.status, REPLStatus::Continue),
        Err(e) => {
            println!("{:?}", e);
            assert!(true);
        }
    }
}

#[test]
fn write_reports_save_target() {
    let mut buffer = five_line_buffer();
    let command = EdCommand {
        command: Some("w".to_string()),
        command_args: Some("bar.txt".to_string()),
        ..EdCommand::default()
    };
    let out = command_runner(&mut buffer, &command, vec![]).expect("write failed");
    assert_eq!(out.save_to, Some("bar.txt".to_string()));
    assert_eq!(out.status, REPLStatus::Continue);
    // The executor only asks for the write; the name is remembered by the
    // caller once that write has succeeded.
    assert_eq!(buffer.filename, None);
    buffer.remember_filename("bar.txt");
    assert_eq!(buffer.filename, Some("bar.txt".to_string()));
}

#[test]
fn missing_filename_error_is_reported() {
    let mut buffer = LineBuffer::empty();
    let command = EdCommand {
        command: Some("w".to_string()),
        ..EdCommand::default()
    };
    let r = command_runner(&mut buffer, &command, vec![]);
    assert!(matches!(r, Err(EdCommandError::MissingFilename)));
}

#[test]
fn test_print_with_numbers_empty_buffer() {
    let buffer = LineBuffer::empty();
    let command = EdCommand {
        command: Some("p".to_string()),
        address1: Address::Absolute(1),
        address2: Address::Absolute(1),
        ..EdCommand::default()
    };

    let result = print_with_numbers(&buffer, &command);

    assert!(result.is_err());
    if let Err(ref e) = result {
        assert_eq!(e.message(), EdCommandError::EmptyBuffer.message());
    }
}

#[test]
fn test_print_with_numbers_invalid_range() {
    let buffer = LineBuffer {
        lines: Some(vec![
            "line one".to_string(),
            "line two".to_string(),
            "line three".to_string(),
        ]),
        ..LineBuffer::empty()
    };

    let command = EdCommand {
        command: Some("p".to_string()),
        address1: Address::Absolute(3),
        address2: Address::Absolute(1),
        ..EdCommand::default()
    };

    let result = print_with_numbers(&buffer, &command);

    assert!(result.is_err());
    if let Err(ref e) = result {
        assert_eq!(e.message(), EdCommandError::InvalidRange.message());
    }
}

#[test]
fn print_with_numbers_formats_entries() {
    let buffer = five_line_buffer();
    let command = EdCommand {
        command: Some("n".to_string()),
        address1: Address::Absolute(2),
        address2: Address::Absolute(3),
        ..EdCommand::default()
    };
    let out = print_with_numbers(&buffer, &command).expect("numbered print failed");
    assert_eq!(out, vec!["   2\ttwo".to_string(), "   3\tthree".to_string()]);
}

#[test]
fn address_to_index_cases() {
    let buffer = five_line_buffer();
    assert_eq!(address_to_index(Address::Absolute(5), &buffer), 4);
    assert_eq!(address_to_index(Address::Absolute(1000), &buffer), 4);
    assert_eq!(address_to_index(Address::Absolute(0), &buffer), 0);
    assert_eq!(address_to_index(Address::Current, &buffer), 0);
    assert_eq!(address_to_index(Address::Last, &buffer), 4);
}

#[test]
fn address_to_index_one_less_than_number() {
    let buffer = five_line_buffer();
    for n in 1..=5usize {
        assert_eq!(address_to_index(Address::Absolute(n), &buffer), n - 1);
    }
}

#[test]
fn address_convert_tracks_cursor() {
    for (current, expected) in [(5usize, 4usize), (3, 2), (0, 0)] {
        let mut buffer = five_line_buffer();
        buffer.current_line = current;
        assert_eq!(address_to_index(Address::Current, &buffer), expected);
    }
}

#[test]
fn print_single_line() {
    let buffer = five_line_buffer();
    let command = EdCommand {
        command: Some("p".to_string()),
        address1: Address::Absolute(2),
        address2: Address::Absolute(2),
        ..EdCommand::default()
    };
    let out = print(&buffer, &command).expect("print failed");
    assert_eq!(out, vec!["two".to_string()]);
}

#[test]
fn print_whole_range_through_runner() {
    let mut buffer = five_line_buffer();
    let command = ed_debby::ed_command_parser::parse_line("%p").expect("parse failed");
    let out = command_runner(&mut buffer, &command, vec![]).expect("runner failed");
    assert_eq!(
        out.lines_out,
        vec![
            "one".to_string(),
            "two".to_string(),
            "three".to_string(),
            "four".to_string(),
            "five".to_string(),
        ]
    );
}

#[test]
fn equals_reports_and_moves_cursor() {
    let mut buffer = five_line_buffer();
    let command = EdCommand {
        command: Some("=".to_string()),
        address2: Address::Last,
        ..EdCommand::default()
    };
    let out = command_runner(&mut buffer, &command, vec![]).expect("runner failed");
    assert_eq!(buffer.current_line, 5);
    assert_eq!(out.lines_out, vec!["5".to_string()]);
}

#[test]
fn unknown_verb_is_lenient_no_op() {
    let mut buffer = five_line_buffer();
    let before = buffer.clone();
    let command = EdCommand {
        command: Some("z".to_string()),
        ..EdCommand::default()
    };
    let out = command_runner(&mut buffer, &command, vec![]).expect("runner failed");
    assert_eq!(out.status, REPLStatus::Continue);
    assert!(out.lines_out.is_empty());
    assert_eq!(buffer, before);
}

#[test]
fn validate_range_clamps_drifted_cursor() {
    let mut buffer = five_line_buffer();
    buffer.current_line = 9;
    let command = EdCommand {
        command: Some("p".to_string()),
        address1: Address::Absolute(1),
        address2: Address::Absolute(2),
        ..EdCommand::default()
    };
    assert!(validate_range(&mut buffer, &command).is_ok());
    assert_eq!(buffer.current_line, 5);
}

#[test]
fn bare_dot_on_shrunk_buffer_is_invalid_range() {
    // Cursor parked beyond the end of a shrunk buffer, then a bare "."
    // command: the ordering check runs against the pre-repair cursor, so the
    // command is rejected, while the repair itself still lands.
    let mut buffer = five_line_buffer();
    buffer.current_line = 9;
    let command = EdCommand {
        command: Some("p".to_string()),
        ..EdCommand::default()
    };
    let r = command_runner(&mut buffer, &command, vec![]);
    assert!(matches!(r, Err(EdCommandError::InvalidRange)));
    assert_eq!(buffer.current_line, 5);
}

#[test]
fn rejected_commands_leave_buffer_unchanged() {
    let mut buffer = five_line_buffer();
    buffer.current_line = 3;
    let lines_before = buffer.lines.clone();

    // InvalidRange: first address after second.
    let command = EdCommand {
        command: Some("d".to_string()),
        address1: Address::Absolute(4),
        address2: Address::Absolute(2),
        ..EdCommand::default()
    };
    let r = command_runner(&mut buffer, &command, vec![]);
    assert!(matches!(r, Err(EdCommandError::InvalidRange)));
    assert_eq!(buffer.lines, lines_before);
    assert_eq!(buffer.current_line, 3);

    // InvalidRange: zero endpoint for a destructive verb.
    let command = EdCommand {
        command: Some("d".to_string()),
        address1: Address::Absolute(0),
        address2: Address::Absolute(2),
        ..EdCommand::default()
    };
    let r = command_runner(&mut buffer, &command, vec![]);
    assert!(matches!(r, Err(EdCommandError::InvalidRange)));
    assert_eq!(buffer.lines, lines_before);
    assert_eq!(buffer.current_line, 3);

    // MissingFilename: write with no target anywhere.
    let command = EdCommand {
        command: Some("w".to_string()),
        ..EdCommand::default()
    };
    let r = command_runner(&mut buffer, &command, vec![]);
    assert!(matches!(r, Err(EdCommandError::MissingFilename)));
    assert_eq!(buffer.lines, lines_before);
    assert_eq!(buffer.current_line, 3);

    // EmptyBuffer: print on a buffer with no lines.
    let mut empty = LineBuffer::empty();
    let command = EdCommand {
        command: Some("p".to_string()),
        ..EdCommand::default()
    };
    let r = command_runner(&mut empty, &command, vec![]);
    assert!(matches!(r, Err(EdCommandError::EmptyBuffer)));
    assert_eq!(empty.lines, None);
    assert_eq!(empty.current_line, 0);
}

#[test]
fn correct_line_two_through_runner() {
    let mut buffer = five_line_buffer();
    let command = EdCommand {
        command: Some("c".to_string()),
        address1: Address::Absolute(2),
        address2: Address::Absolute(2),
        ..EdCommand::default()
    };
    let out = command_runner(&mut buffer, &command, vec!["alpha".to_string()])
        .expect("runner failed");
    assert_eq!(
        buffer.lines,
        Some(vec![
            "one".to_string(),
            "alpha".to_string(),
            "three".to_string(),
            "four".to_string(),
            "five".to_string(),
        ])
    );
    assert_eq!(buffer.current_line, 2);
    assert_eq!(out.lines_out, vec!["2".to_string()]);
}

#[test]
fn correct_multi_line_range_through_runner() {
    let mut buffer = five_line_buffer();
    let command = EdCommand {
        command: Some("c".to_string()),
        address1: Address::Absolute(1),
        address2: Address::Absolute(3),
        ..EdCommand::default()
    };
    let out = command_runner(&mut buffer, &command, vec!["alpha".to_string()])
        .expect("runner failed");
    assert_eq!(
        buffer.lines,
        Some(vec![
            "alpha".to_string(),
            "four".to_string(),
            "five".to_string(),
        ])
    );
    // The cursor lands at the end of the inserted block.
    assert_eq!(buffer.current_line, 1);
    assert_eq!(out.lines_out, vec!["1".to_string()]);
}

#[test]
fn delete_line_two_through_runner() {
    let mut buffer = five_line_buffer();
    let command = EdCommand {
        command: Some("d".to_string()),
        address1: Address::Absolute(2),
        address2: Address::Absolute(2),
        ..EdCommand::default()
    };
    let out = command_runner(&mut buffer, &command, vec![]).expect("runner failed");
    assert_eq!(
        buffer.lines,
        Some(vec![
            "one".to_string(),
            "three".to_string(),
            "four".to_string(),
            "five".to_string(),
        ])
    );
    assert_eq!(buffer.current_line, 1);
    assert_eq!(out.lines_out, vec!["1".to_string()]);
}

#[test]
fn wants_input_for_text_verbs() {
    for verb in ["i", "a", "c"] {
        let mut buffer = five_line_buffer();
        let command = EdCommand {
            command: Some(verb.to_string()),
            ..EdCommand::default()
        };
        assert_eq!(wants_input(&mut buffer, &command), Ok(true), "verb {}", verb);
    }
    let mut buffer = five_line_buffer();
    let command = EdCommand {
        command: Some("p".to_string()),
        ..EdCommand::default()
    };
    assert_eq!(wants_input(&mut buffer, &command), Ok(false));
}

#[test]
fn wants_input_rejects_zero_correct_before_collecting() {
    let mut buffer = five_line_buffer();
    let command = EdCommand {
        command: Some("c".to_string()),
        address1: Address::Absolute(0),
        ..EdCommand::default()
    };
    assert_eq!(
        wants_input(&mut buffer, &command),
        Err(EdCommandError::InvalidRange)
    );
}
