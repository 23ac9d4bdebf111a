use ed_debby::buffer::LineBuffer;

fn five_lines() -> Vec<String> {
    vec![
        "one".to_string(),
        "two".to_string(),
        "three".to_string(),
        "four".to_string(),
        "five".to_string(),
    ]
}

#[test]
fn test_empty_buffer_create() {
    let buff = LineBuffer::empty();
    assert!(buff.lines == None);
    assert!(buff.filename == None);
}

#[test]
fn test_count_chars_empty() {
    let buff = LineBuffer::empty();
    assert_eq!(
        buff.char_length(),
        None,
        "Char count for empty buffer should be none."
    );
}

#[test]
fn test_count_chars_five_lines() {
    let buff = LineBuffer {
        lines: Some(five_lines()),
        filename: None,
        current_line: 0,
    };
    assert_eq!(buff.char_length(), Some(24), "Char count should be 24");
}

#[test]
fn test_count_chars_cleared() {
    let buff = LineBuffer {
        lines: Some(vec![]),
        filename: None,
        current_line: 0,
    };
    assert_eq!(buff.char_length(), Some(0));
}

#[test]
fn test_save_target_explicit_leaves_name_until_confirmed() {
    let buff = LineBuffer::empty();
    let target = buff.save_target(Some("/tmp/out.txt"));
    assert_eq!(target, Ok("/tmp/out.txt".to_string()));
    // Nothing is remembered by resolution alone: a failed write must not
    // cost the remembered name.
    assert_eq!(buff.filename, None);
}

#[test]
fn test_remember_filename_after_successful_save() {
    let mut buff = LineBuffer::empty();
    buff.remember_filename("/tmp/out.txt");
    assert_eq!(buff.filename, Some("/tmp/out.txt".to_string()));
    let target = buff.save_target(Some("/tmp/other.txt"));
    assert_eq!(target, Ok("/tmp/other.txt".to_string()));
    assert_eq!(buff.filename, Some("/tmp/out.txt".to_string()));
}

#[test]
fn test_save_target_remembered() {
    let buff = LineBuffer {
        filename: Some("/tmp/foo.txt".to_string()),
        ..LineBuffer::empty()
    };
    let target = buff.save_target(None);
    assert_eq!(target, Ok("/tmp/foo.txt".to_string()));
    assert_eq!(buff.filename, Some("/tmp/foo.txt".to_string()));
}

#[test]
fn test_save_target_missing() {
    let buff = LineBuffer::empty();
    let target = buff.save_target(None);
    assert!(matches!(
        target,
        Err(ed_debby::ed_command_error::EdCommandError::MissingFilename)
    ));
    assert!(buff.filename.is_none());
}

#[test]
fn test_buffer_text() {
    let buff = LineBuffer {
        lines: Some(vec!["a".to_string(), "b".to_string()]),
        filename: None,
        current_line: 0,
    };
    assert_eq!(buff.text(), "a\nb\n");
    let empty = LineBuffer::empty();
    assert_eq!(empty.text(), "");
}
