use editor_buffer::{CaretDirection, EditorBuffer, EditorBufferCommand, Position, UnicodeString};

fn none_is_at_caret(editor_buffer: &EditorBuffer) {
    assert_eq!(editor_buffer.string_at_caret(), None);
}

fn str_is_at_caret(editor_buffer: &EditorBuffer, expected: &str) {
    match editor_buffer.string_at_caret() {
        Some(text) => assert_eq!(text, expected),
        None => panic!("Expected string at caret, but got None."),
    }
}

fn line_at_caret(editor_buffer: &EditorBuffer, expected: &str) {
    assert_eq!(editor_buffer.line_at_caret_to_string(), expected);
}

fn line(text: &str) -> UnicodeString {
    UnicodeString::new(text).unwrap()
}

#[test]
fn test_delete() {
    let mut this = EditorBuffer::default();

    // Insert "abc\nab\na".
    // `this` should look like:
    // R ┌──────────┐
    // 0 │abc       │
    // 1 │ab        │
    // 2 ▸a         │
    //   └─▴────────┘
    //   C0123456789
    EditorBuffer::apply_editor_events(
        &mut this,
        vec![
            EditorBufferCommand::InsertString("abc".into()),
            EditorBufferCommand::InsertNewLine,
            EditorBufferCommand::InsertString("ab".into()),
            EditorBufferCommand::InsertNewLine,
            EditorBufferCommand::InsertString("a".into()),
        ],
    );
    assert_eq!(this.get_caret(), Position::new(1, 2));

    // Remove the "a" on the last line.
    // `this` should look like:
    // R ┌──────────┐
    // 0 │abc       │
    // 1 │ab        │
    // 2 ▸          │
    //   └▴─────────┘
    //   C0123456789
    EditorBuffer::apply_editor_events(
        &mut this,
        vec![
            EditorBufferCommand::MoveCaret(CaretDirection::Left),
            EditorBufferCommand::Delete,
        ],
    );
    assert_eq!(this.get_caret(), Position::new(0, 2));

    // Move to the end of the 2nd line. Press delete.
    // `this` should look like:
    // R ┌──────────┐
    // 0 │abc       │
    // 1 ▸ab        │
    //   └──▴───────┘
    //   C0123456789
    EditorBuffer::apply_editor_events(
        &mut this,
        vec![
            EditorBufferCommand::MoveCaret(CaretDirection::Up),
            EditorBufferCommand::MoveCaret(CaretDirection::Right),
            EditorBufferCommand::MoveCaret(CaretDirection::Right),
            EditorBufferCommand::Delete,
        ],
    );
    assert_eq!(this.get_lines().len(), 2);
    assert_eq!(this.get_caret(), Position::new(2, 1));

    // Move to the end of the 1st line.
    // `this` should look like:
    // R ┌──────────┐
    // 0 ▸abcab     │
    //   └───▴──────┘
    //   C0123456789
    EditorBuffer::apply_editor_events(
        &mut this,
        vec![
            EditorBufferCommand::MoveCaret(CaretDirection::Up),
            EditorBufferCommand::MoveCaret(CaretDirection::Right),
            EditorBufferCommand::Delete,
        ],
    );
    assert_eq!(this.get_lines().len(), 1);
    assert_eq!(this.get_caret(), Position::new(3, 0));
    line_at_caret(&this, "abcab");
}

#[test]
fn test_backspace() {
    let mut this = EditorBuffer::default();

    // Insert "abc\nab\na".
    EditorBuffer::apply_editor_events(
        &mut this,
        vec![
            EditorBufferCommand::InsertString("abc".into()),
            EditorBufferCommand::InsertNewLine,
            EditorBufferCommand::InsertString("ab".into()),
            EditorBufferCommand::InsertNewLine,
            EditorBufferCommand::InsertString("a".into()),
        ],
    );
    assert_eq!(this.get_caret(), Position::new(1, 2));

    // Remove the "a" on the last line.
    this.backspace();
    assert_eq!(this.get_caret(), Position::new(0, 2));

    // Remove the last line.
    // `this` should look like:
    // R ┌──────────┐
    // 0 │abc       │
    // 1 ▸ab        │
    //   └──▴───────┘
    //   C0123456789
    this.backspace();
    assert_eq!(this.get_caret(), Position::new(2, 1));

    // Move caret to start of 2nd line. Then press backspace.
    // `this` should look like:
    // R ┌──────────┐
    // 0 ▸abcab     │
    //   └───▴──────┘
    //   C0123456789
    EditorBuffer::apply_editor_events(
        &mut this,
        vec![
            EditorBufferCommand::MoveCaret(CaretDirection::Left),
            EditorBufferCommand::MoveCaret(CaretDirection::Left),
        ],
    );
    assert_eq!(this.get_caret(), Position::new(0, 1));
    this.backspace();
    assert_eq!(this.get_lines().len(), 1);
    assert_eq!(this.get_caret(), Position::new(3, 0));
    line_at_caret(&this, "abcab");

    // Move caret to end of line. Insert "😃". Then move caret to end of line.
    // `this` should look like:
    // R ┌──────────┐
    // 0 ▸abcab😃   │
    //   └───────▴──┘
    //   C0123456789
    EditorBuffer::apply_editor_events(
        &mut this,
        vec![
            EditorBufferCommand::MoveCaret(CaretDirection::Right),
            EditorBufferCommand::MoveCaret(CaretDirection::Right),
            EditorBufferCommand::InsertString("😃".into()),
            EditorBufferCommand::MoveCaret(CaretDirection::Right),
            EditorBufferCommand::MoveCaret(CaretDirection::Right),
        ],
    );
    assert_eq!(this.get_caret(), Position::new(7, 0));

    // Press backspace.
    EditorBuffer::apply_editor_event(&mut this, EditorBufferCommand::Backspace);
    line_at_caret(&this, "abcab");
}

#[test]
fn test_validate_caret_position_on_up() {
    let mut this = EditorBuffer::default();

    // Insert "😀\n1".
    // R ┌──────────┐
    // 0 │😀        │
    // 1 ▸1         │
    //   └─▴────────┘
    //   C0123456789
    EditorBuffer::apply_editor_events(
        &mut this,
        vec![
            EditorBufferCommand::InsertString("😀".into()),
            EditorBufferCommand::InsertNewLine,
            EditorBufferCommand::InsertChar('1'),
        ],
    );
    assert_eq!(this.get_caret(), Position::new(1, 1));

    // Move caret up. It should not be in the middle of the smiley face.
    // R ┌──────────┐
    // 0 ▸😀        │
    // 1 │1         │
    //   └──▴───────┘
    //   C0123456789
    this.move_caret(CaretDirection::Up);
    assert_eq!(this.get_caret(), Position::new(2, 0));
}

#[test]
fn test_validate_caret_position_on_down() {
    let mut this = EditorBuffer::default();

    // Insert "1\n😀".
    // R ┌──────────┐
    // 0 ▸1         │
    // 1 │😀        │
    //   └──▴───────┘
    //   C0123456789
    EditorBuffer::apply_editor_events(
        &mut this,
        vec![
            EditorBufferCommand::InsertChar('1'),
            EditorBufferCommand::InsertNewLine,
            EditorBufferCommand::InsertString("😀".into()),
        ],
    );
    assert_eq!(this.get_caret(), Position::new(2, 1));

    // Move caret up, and right.
    // R ┌──────────┐
    // 0 ▸1         │
    // 1 │😀        │
    //   └─▴────────┘
    //   C0123456789
    EditorBuffer::apply_editor_events(
        &mut this,
        vec![
            EditorBufferCommand::MoveCaret(CaretDirection::Up),
            EditorBufferCommand::MoveCaret(CaretDirection::Right),
        ],
    );
    assert_eq!(this.get_caret(), Position::new(1, 0));

    // Move caret down. It should not be in the middle of the smiley face.
    // R ┌──────────┐
    // 0 │1         │
    // 1 ▸😀        │
    //   └──▴───────┘
    //   C0123456789
    this.move_caret(CaretDirection::Down);
    assert_eq!(this.get_caret(), Position::new(2, 1));
}

#[test]
fn test_move_caret_up_down() {
    let mut this = EditorBuffer::default();

    // Insert "abc\nab\na".
    EditorBuffer::apply_editor_events(
        &mut this,
        vec![
            EditorBufferCommand::InsertString("abc".into()),
            EditorBufferCommand::InsertNewLine,
            EditorBufferCommand::InsertString("ab".into()),
            EditorBufferCommand::InsertNewLine,
            EditorBufferCommand::InsertString("a".into()),
        ],
    );
    assert_eq!(this.get_caret(), Position::new(1, 2));

    // Move caret down. Noop.
    EditorBuffer::apply_editor_events(
        &mut this,
        vec![
            EditorBufferCommand::MoveCaret(CaretDirection::Down),
            EditorBufferCommand::MoveCaret(CaretDirection::Down),
            EditorBufferCommand::MoveCaret(CaretDirection::Down),
        ],
    );
    assert_eq!(this.get_caret(), Position::new(1, 2));

    // Move caret up.
    this.move_caret(CaretDirection::Up);
    assert_eq!(this.get_caret(), Position::new(1, 1));

    // Move caret up.
    this.move_caret(CaretDirection::Up);
    assert_eq!(this.get_caret(), Position::new(1, 0));

    // Move caret up a few times. Noop.
    EditorBuffer::apply_editor_events(
        &mut this,
        vec![
            EditorBufferCommand::MoveCaret(CaretDirection::Up),
            EditorBufferCommand::MoveCaret(CaretDirection::Up),
            EditorBufferCommand::MoveCaret(CaretDirection::Up),
        ],
    );
    assert_eq!(this.get_caret(), Position::new(1, 0));

    // Move right to end of line. Then down.
    // `this` should look like:
    // R ┌──────────┐
    // 0 │abc       │
    // 1 ▸ab        │
    // 2 │a         │
    //   └──▴───────┘
    //   C0123456789
    EditorBuffer::apply_editor_events(
        &mut this,
        vec![
            EditorBufferCommand::MoveCaret(CaretDirection::Right),
            EditorBufferCommand::MoveCaret(CaretDirection::Right),
            EditorBufferCommand::MoveCaret(CaretDirection::Down),
        ],
    );
    assert_eq!(this.get_caret(), Position::new(2, 1));

    // Move caret down.
    // `this` should look like:
    // R ┌──────────┐
    // 0 │abc       │
    // 1 │ab        │
    // 2 ▸a         │
    //   └─▴────────┘
    //   C0123456789
    this.move_caret(CaretDirection::Down);
    assert_eq!(this.get_caret(), Position::new(1, 2));
}

#[test]
fn test_insert_new_line() {
    // Starts w/ an empty line.
    let mut this = EditorBuffer::default();
    assert_eq!(this.get_lines().len(), 1);
    none_is_at_caret(&this);

    // Insert "a".
    this.insert_char('a');
    none_is_at_caret(&this);
    assert_eq!(this.get_caret(), Position::new(1, 0));

    // Insert new line (at end of line).
    // `this` should look like:
    // R ┌──────────┐
    // 0 │a         │
    // 1 ▸          │
    //   └▴─────────┘
    //   C0123456789
    this.insert_new_line();
    assert_eq!(this.get_lines().len(), 2);
    none_is_at_caret(&this);
    assert_eq!(this.get_caret(), Position::new(0, 1));

    // Insert "a".
    this.insert_char('a');

    // Move caret left.
    this.move_caret(CaretDirection::Left);
    str_is_at_caret(&this, "a");

    // Insert new line (at start of line).
    // `this` should look like:
    // R ┌──────────┐
    // 0 │a         │
    // 1 │          │
    // 2 ▸a         │
    //   └▴─────────┘
    //   C0123456789
    this.insert_new_line();
    assert_eq!(this.get_lines().len(), 3);
    str_is_at_caret(&this, "a");
    assert_eq!(this.get_caret(), Position::new(0, 2));

    // Move caret right, insert "b".
    EditorBuffer::apply_editor_events(
        &mut this,
        vec![
            EditorBufferCommand::MoveCaret(CaretDirection::Right),
            EditorBufferCommand::InsertChar('b'),
        ],
    );
    none_is_at_caret(&this);
    assert_eq!(this.line_at_caret_to_string(), "ab");

    // Move caret left, insert new line (at middle of line).
    // `this` should look like:
    // R ┌──────────┐
    // 0 │a         │
    // 1 │          │
    // 2 │a         │
    // 3 ▸b         │
    //   └▴─────────┘
    //   C0123456789
    EditorBuffer::apply_editor_events(
        &mut this,
        vec![
            EditorBufferCommand::MoveCaret(CaretDirection::Left),
            EditorBufferCommand::InsertNewLine,
        ],
    );
    str_is_at_caret(&this, "b");
    assert_eq!(this.get_caret(), Position::new(0, 3));
    assert_eq!(this.get_lines().len(), 4);

    // Move caret to end of prev line. Press enter. `this` should look like:
    // R ┌──────────┐
    // 0 │a         │
    // 1 │          │
    // 2 │a         │
    // 3 ▸          │
    // 4 │b         │
    //   └▴─────────┘
    //   C0123456789
    EditorBuffer::apply_editor_events(
        &mut this,
        vec![
            EditorBufferCommand::MoveCaret(CaretDirection::Up),
            EditorBufferCommand::MoveCaret(CaretDirection::Right),
            EditorBufferCommand::InsertNewLine,
        ],
    );
    assert_eq!(this.get_lines().len(), 5);
    assert_eq!(this.get_caret(), Position::new(0, 3));
}

#[test]
fn test_move_caret_left_right() {
    let mut this = EditorBuffer::default();

    // Insert "a".
    this.insert_char('a');
    none_is_at_caret(&this);

    // Move caret left.
    this.move_caret(CaretDirection::Left);
    this.move_caret(CaretDirection::Left); // Noop.
    str_is_at_caret(&this, "a");

    // Insert "1".
    // `this` should look like:
    // R ┌──────────┐
    // 0 ▸1a        │
    //   └─▴────────┘
    //   C0123456789
    this.insert_char('1');
    assert_eq!(this.line_at_caret_to_string(), "1a");
    str_is_at_caret(&this, "a");

    // Move caret left.
    this.move_caret(CaretDirection::Left);
    str_is_at_caret(&this, "1");

    // Move caret right.
    this.move_caret(CaretDirection::Right);
    str_is_at_caret(&this, "a");

    // Insert "2".
    // `this` should look like:
    // R ┌──────────┐
    // 0 ▸12a       │
    //   └──▴───────┘
    //   C0123456789
    this.insert_char('2');
    str_is_at_caret(&this, "a");
    assert_eq!(this.line_at_caret_to_string(), "12a");

    // Move caret right.
    this.move_caret(CaretDirection::Right);
    this.move_caret(CaretDirection::Right); // Noop.
    none_is_at_caret(&this);
}

#[test]
fn test_empty_state() {
    let editor_buffer = EditorBuffer::default();
    assert_eq!(editor_buffer.get_lines().len(), 1);
    assert!(!editor_buffer.is_empty());
}

#[test]
fn test_insertion() {
    let mut this = EditorBuffer::default();

    // Move caret to col: 0, row: 0. Insert "a".
    // `this` should look like:
    // R ┌──────────┐
    // 0 ▸a░        │
    //   └─▴────────┘
    //   C0123456789
    assert_eq!(this.get_caret(), Position::new(0, 0));
    this.insert_char('a');
    assert_eq!(*this.get_lines(), vec![line("a")]);
    assert_eq!(this.get_caret(), Position::new(1, 0));

    // Move caret to col: 0, row: 1. Insert "b".
    // `this` should look like:
    // R ┌──────────┐
    // 0 │a         │
    // 1 ▸b░        │
    //   └─▴────────┘
    //   C0123456789
    this.insert_new_line();
    this.insert_char('b');
    assert_eq!(*this.get_lines(), vec![line("a"), line("b")]);
    assert_eq!(this.get_caret(), Position::new(1, 1));

    // Move caret to col: 0, row: 3. Insert "😀" (unicode width = 2).
    // `this` should look like:
    // R ┌──────────┐
    // 0 │a         │
    // 1 │b         │
    // 2 │          │
    // 3 ▸😀░       │
    //   └──▴───────┘
    //   C0123456789
    EditorBuffer::apply_editor_events(
        &mut this,
        vec![
            EditorBufferCommand::InsertNewLine,
            EditorBufferCommand::InsertNewLine,
            EditorBufferCommand::InsertChar('😀'),
        ],
    );
    assert_eq!(*this.get_lines(), vec![line("a"), line("b"), line(""), line("😀")]);
    assert_eq!(this.get_caret(), Position::new(2, 3));

    // Insert "d".
    // `this` should look like:
    // R ┌──────────┐
    // 0 │a         │
    // 1 │b         │
    // 2 │          │
    // 3 ▸😀d░      │
    //   └───▴──────┘
    //   C0123456789
    this.insert_char('d');
    assert_eq!(*this.get_lines(), vec![line("a"), line("b"), line(""), line("😀d")]);
    assert_eq!(this.get_caret(), Position::new(3, 3));

    // Insert "🙏🏽" (unicode width = 4).
    // `this` should look like:
    // R ┌──────────┐
    // 0 │a         │
    // 1 │b         │
    // 2 │          │
    // 3 ▸😀d🙏🏽  ░  │
    //   └───────▴──┘
    //   C0123456789
    this.insert_str("🙏🏽");
    assert_eq!(*this.get_lines(), vec![line("a"), line("b"), line(""), line("😀d🙏🏽")]);
    assert_eq!(this.get_caret(), Position::new(7, 3));
}
