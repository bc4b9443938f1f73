use editor_buffer::{CaretDirection, EditorBuffer, EditorBufferCommand, Position, UnicodeString};

fn buffer_of(lines: &[&str]) -> EditorBuffer {
    let mut buffer = EditorBuffer::default();
    for (row, line) in lines.iter().enumerate() {
        if row > 0 {
            buffer.insert_new_line();
        }
        buffer.insert_str(line);
    }
    buffer
}

fn texts_of(buffer: &EditorBuffer) -> Vec<String> {
    buffer.get_lines().iter().map(|line| line.get_string()).collect()
}

#[test]
fn left_and_right_stop_at_segment_boundaries_only() {
    let mut buffer = buffer_of(&["a😀b🙏🏽"]);
    let boundaries = [0, 1, 3, 4, 8];
    assert_eq!(buffer.get_caret(), Position::new(8, 0));
    let moves = [
        CaretDirection::Left,
        CaretDirection::Left,
        CaretDirection::Right,
        CaretDirection::Left,
        CaretDirection::Left,
        CaretDirection::Left,
        CaretDirection::Left,
        CaretDirection::Right,
        CaretDirection::Right,
        CaretDirection::Right,
        CaretDirection::Right,
        CaretDirection::Right,
    ];
    let expected = [4, 3, 4, 3, 1, 0, 0, 1, 3, 4, 8, 8];
    for (direction, col) in moves.iter().zip(expected.iter()) {
        buffer.move_caret(*direction);
        assert_eq!(buffer.get_caret(), Position::new(*col, 0));
        assert!(boundaries.contains(&buffer.get_caret().col_index));
    }
    buffer.move_caret_left();
    assert_eq!(buffer.get_caret(), Position::new(4, 0));
    buffer.move_caret_right();
    assert_eq!(buffer.get_caret(), Position::new(8, 0));
}

#[test]
fn an_inserted_grapheme_moves_the_caret_by_its_width() {
    let mut buffer = buffer_of(&["ab"]);
    buffer.move_caret(CaretDirection::Left);
    buffer.insert_str("😀");
    assert_eq!(buffer.get_caret(), Position::new(3, 0));
    assert_eq!(texts_of(&buffer), vec!["a😀b"]);
    buffer.insert_char_into_current_line('c');
    assert_eq!(buffer.get_caret(), Position::new(4, 0));
    buffer.insert_str_into_current_line("🙏🏽");
    assert_eq!(buffer.get_caret(), Position::new(8, 0));
    assert_eq!(texts_of(&buffer), vec!["a😀c🙏🏽b"]);
    assert_eq!(buffer.get_lines().len(), 1);
    buffer.insert_str("");
    assert_eq!(buffer.get_caret(), Position::new(8, 0));
}

#[test]
fn backspace_at_the_start_of_a_row_merges_it_into_the_row_above() {
    let mut buffer = buffer_of(&["a😀", "bc", "d"]);
    buffer.move_caret(CaretDirection::Up);
    buffer.move_caret(CaretDirection::Left);
    assert_eq!(buffer.get_caret(), Position::new(0, 1));
    buffer.backspace();
    assert_eq!(texts_of(&buffer), vec!["a😀bc", "d"]);
    assert_eq!(buffer.get_caret(), Position::new(3, 0));
    // On the first row there is nothing to merge into.
    let mut buffer = buffer_of(&["ab"]);
    buffer.move_caret(CaretDirection::Left);
    buffer.move_caret(CaretDirection::Left);
    buffer.backspace();
    assert_eq!(texts_of(&buffer), vec!["ab"]);
    assert_eq!(buffer.get_caret(), Position::new(0, 0));
}

#[test]
fn delete_at_the_end_of_a_row_merges_the_next_row_into_it() {
    let mut buffer = buffer_of(&["a😀", "bc", "d"]);
    buffer.move_caret(CaretDirection::Up);
    buffer.move_caret(CaretDirection::Up);
    buffer.move_caret(CaretDirection::Right);
    assert_eq!(buffer.get_caret(), Position::new(3, 0));
    buffer.delete();
    assert_eq!(texts_of(&buffer), vec!["a😀bc", "d"]);
    assert_eq!(buffer.get_caret(), Position::new(3, 0));
    // On the last row there is nothing to merge.
    let mut buffer = buffer_of(&["ab"]);
    buffer.delete();
    assert_eq!(texts_of(&buffer), vec!["ab"]);
    assert_eq!(buffer.get_caret(), Position::new(2, 0));
}

#[test]
fn delete_takes_out_the_whole_grapheme_at_the_caret() {
    let mut buffer = buffer_of(&["a🙏🏽b"]);
    buffer.move_caret(CaretDirection::Left);
    buffer.move_caret(CaretDirection::Left);
    assert_eq!(buffer.get_caret(), Position::new(1, 0));
    buffer.delete();
    assert_eq!(texts_of(&buffer), vec!["ab"]);
    assert_eq!(buffer.get_caret(), Position::new(1, 0));
}

#[test]
fn up_on_the_first_row_and_down_on_the_last_change_nothing() {
    let mut buffer = buffer_of(&["abc", "de"]);
    let before = buffer.clone();
    buffer.move_caret(CaretDirection::Down);
    assert_eq!(buffer, before);
    buffer.move_caret_down();
    assert_eq!(buffer, before);
    buffer.move_caret(CaretDirection::Up);
    let before = buffer.clone();
    assert_eq!(buffer.get_caret(), Position::new(2, 0));
    buffer.move_caret(CaretDirection::Up);
    assert_eq!(buffer, before);
    buffer.move_caret_up();
    assert_eq!(buffer, before);
}

#[test]
fn up_and_down_clamp_the_column_to_the_line() {
    let mut buffer = buffer_of(&["a", "", "abcdef"]);
    buffer.move_caret(CaretDirection::Up);
    assert_eq!(buffer.get_caret(), Position::new(0, 1));
    buffer.move_caret(CaretDirection::Down);
    buffer.move_caret(CaretDirection::Right);
    buffer.move_caret(CaretDirection::Right);
    buffer.move_caret(CaretDirection::Up);
    buffer.move_caret(CaretDirection::Up);
    assert_eq!(buffer.get_caret(), Position::new(0, 0));
}

#[test]
fn commands_are_applied_in_order() {
    let mut this = EditorBuffer::default();
    EditorBuffer::apply_editor_events(
        &mut this,
        vec![
            EditorBufferCommand::InsertString("abc".into()),
            EditorBufferCommand::InsertNewLine,
            EditorBufferCommand::InsertString("ab".into()),
            EditorBufferCommand::InsertNewLine,
            EditorBufferCommand::InsertString("a".into()),
        ],
    );
    assert_eq!(texts_of(&this), vec!["abc", "ab", "a"]);
    assert_eq!(this.get_caret(), Position::new(1, 2));
    EditorBuffer::apply_editor_events(
        &mut this,
        vec![
            EditorBufferCommand::MoveCaret(CaretDirection::Left),
            EditorBufferCommand::Delete,
        ],
    );
    assert_eq!(texts_of(&this), vec!["abc", "ab", ""]);
    assert_eq!(this.get_caret(), Position::new(0, 2));
    EditorBuffer::apply_editor_events(&mut this, vec![]);
    assert_eq!(texts_of(&this), vec!["abc", "ab", ""]);
}

#[test]
fn the_caret_does_not_stop_inside_a_wide_grapheme() {
    let mut this = buffer_of(&["😀", "1"]);
    assert_eq!(this.get_caret(), Position::new(1, 1));
    this.move_caret(CaretDirection::Up);
    assert_eq!(this.get_caret(), Position::new(2, 0));
}

#[test]
fn inserting_and_backspacing_as_often_gives_back_the_buffer() {
    let mut buffer = buffer_of(&["abc", "x😀y"]);
    buffer.move_caret(CaretDirection::Left);
    let before = buffer.clone();
    buffer.insert_str("😀d🙏🏽");
    assert_eq!(texts_of(&buffer), vec!["abc", "x😀😀d🙏🏽y"]);
    assert_eq!(buffer.get_caret(), Position::new(10, 1));
    // Three graphemes went in.
    buffer.backspace();
    buffer.backspace();
    buffer.backspace();
    assert_eq!(buffer, before);
    assert_eq!(buffer.get_caret(), Position::new(3, 1));
}

#[test]
fn a_mark_typed_alone_is_a_segment_without_columns() {
    let mut buffer = buffer_of(&["e"]);
    buffer.insert_char('\u{301}');
    assert_eq!(buffer.get_caret(), Position::new(1, 0));
    assert_eq!(buffer.get_lines()[0].len(), 2);
    assert_eq!(buffer.get_lines()[0].display_width(), 1);
    assert_eq!(buffer.line_at_caret_to_string(), "e\u{301}");
    // Typed as one text, the letter and its mark are one grapheme.
    assert_eq!(UnicodeString::new("e\u{301}").unwrap().len(), 1);
    // A backspace takes out the segment that covers the column left of the
    // caret: the letter.
    buffer.backspace();
    assert_eq!(buffer.get_caret(), Position::new(0, 0));
    assert_eq!(buffer.line_at_caret_to_string(), "\u{301}");
}

#[test]
fn set_lines_puts_the_caret_at_the_start() {
    let mut buffer = buffer_of(&["abc", "de"]);
    buffer.set_scroll_offset(Position::new(1, 1));
    EditorBuffer::apply_editor_event(&mut buffer, EditorBufferCommand::Select(CaretDirection::Left));
    assert_eq!(buffer.get_scroll_offset(), Position::new(1, 1));
    buffer.set_lines(vec![UnicodeString::new("x").unwrap(), UnicodeString::new("😀").unwrap()]);
    assert_eq!(texts_of(&buffer), vec!["x", "😀"]);
    assert_eq!(buffer.get_caret(), Position::new(0, 0));
    assert_eq!(buffer.get_scroll_offset(), Position::new(0, 0));
    assert!(buffer.get_selection_map().is_empty());
    assert_eq!(buffer.get_line_display_width(1), 2);
    assert_eq!(buffer.get_line_display_width(2), 0);
    assert_eq!(buffer.get_as_string(), "x\n😀");
    // Without lines the document is one empty line.
    buffer.set_lines(vec![]);
    assert_eq!(texts_of(&buffer), vec![""]);
    assert!(!buffer.is_empty());
    assert_eq!(buffer.duplicate(), buffer);
}

#[test]
fn a_new_buffer_keeps_its_file_extension() {
    let buffer = EditorBuffer::new_empty(Some("rs".to_string()));
    assert_eq!(buffer.get_maybe_file_extension(), &Some("rs".to_string()));
    assert_eq!(buffer.get_lines().len(), 1);
    assert_eq!(buffer.get_caret(), Position::new(0, 0));
    assert_eq!(EditorBuffer::default().get_maybe_file_extension(), &None);
}

#[test]
fn a_buffer_is_made_of_its_parts_if_the_caret_fits() {
    let lines = || vec![UnicodeString::new("a😀b").unwrap(), UnicodeString::new("").unwrap()];
    let make = |caret: Position| {
        EditorBuffer::from_parts(
            lines(),
            caret,
            Position::new(0, 0),
            editor_buffer::SelectionMap::new(),
            None,
        )
    };
    assert!(make(Position::new(0, 0)).is_some());
    assert!(make(Position::new(1, 0)).is_some());
    assert!(make(Position::new(3, 0)).is_some());
    assert!(make(Position::new(4, 0)).is_some());
    assert!(make(Position::new(0, 1)).is_some());
    // Inside the smiley, beyond the line, on no line.
    assert!(make(Position::new(2, 0)).is_none());
    assert!(make(Position::new(5, 0)).is_none());
    assert!(make(Position::new(1, 1)).is_none());
    assert!(make(Position::new(0, 2)).is_none());
    assert!(EditorBuffer::from_parts(
        vec![],
        Position::new(0, 0),
        Position::new(0, 0),
        editor_buffer::SelectionMap::new(),
        None
    )
    .is_none());
    let buffer = make(Position::new(3, 0)).unwrap();
    assert_eq!(buffer.get_caret(), Position::new(3, 0));
    assert_eq!(buffer.get_as_string(), "a😀b\n");
    assert_eq!(buffer.string_at_caret(), Some("b".to_string()));
}

#[test]
fn up_and_down_go_to_the_nearest_boundary() {
    let arrive = |col: usize| {
        let mut buffer = buffer_of(&["🙏🏽", "abcde"]);
        while buffer.get_caret().col_index > col {
            buffer.move_caret(CaretDirection::Left);
        }
        assert_eq!(buffer.get_caret(), Position::new(col, 1));
        buffer.move_caret(CaretDirection::Up);
        buffer.get_caret()
    };
    assert_eq!(arrive(0), Position::new(0, 0));
    assert_eq!(arrive(1), Position::new(0, 0));
    assert_eq!(arrive(2), Position::new(4, 0));
    assert_eq!(arrive(3), Position::new(4, 0));
    assert_eq!(arrive(4), Position::new(4, 0));
    assert_eq!(arrive(5), Position::new(4, 0));

    let mut buffer = buffer_of(&["a", "🙏🏽"]);
    buffer.move_caret(CaretDirection::Up);
    assert_eq!(buffer.get_caret(), Position::new(1, 0));
    buffer.move_caret(CaretDirection::Down);
    assert_eq!(buffer.get_caret(), Position::new(0, 1));
}

#[test]
fn delete_at_the_end_of_a_row_and_then_a_move_right() {
    let mut buffer = buffer_of(&["ab", "😀c", "d"]);
    buffer.move_caret(CaretDirection::Up);
    buffer.move_caret(CaretDirection::Up);
    buffer.move_caret(CaretDirection::Right);
    assert_eq!(buffer.get_caret(), Position::new(2, 0));
    buffer.delete();
    buffer.move_caret_right();
    assert_eq!(texts_of(&buffer), vec!["ab😀c", "d"]);
    assert_eq!(buffer.get_caret(), Position::new(4, 0));
}

#[test]
fn backspace_at_the_start_of_a_row_and_then_an_insertion() {
    let mut buffer = buffer_of(&["a😀", "bc", "d"]);
    buffer.move_caret(CaretDirection::Up);
    buffer.move_caret(CaretDirection::Left);
    assert_eq!(buffer.get_caret(), Position::new(0, 1));
    buffer.backspace();
    buffer.insert_str_into_current_line("x🙏🏽");
    assert_eq!(texts_of(&buffer), vec!["a😀x🙏🏽bc", "d"]);
    assert_eq!(buffer.get_caret(), Position::new(8, 0));
}

#[test]
fn inserting_again_after_taking_back_lands_where_it_did() {
    let mut buffer = buffer_of(&["abc", "x😀y"]);
    buffer.move_caret(CaretDirection::Left);
    buffer.insert_str_into_current_line("😀d🙏🏽");
    let first = buffer.clone();
    buffer.backspace();
    buffer.backspace();
    buffer.backspace();
    buffer.insert_str_into_current_line("😀d🙏🏽");
    assert_eq!(buffer, first);
    assert_eq!(buffer.get_caret(), Position::new(10, 1));
}
