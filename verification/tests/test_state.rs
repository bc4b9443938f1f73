use editor_buffer::{get_content, get_file_extension, Id, State, DEFAULT_SYN_HI_FILE_EXT};

#[test]
fn test_file_extension() {
    let file_path = Some("foo.rs".to_string());
    let file_ext = get_file_extension(&file_path);
    assert_eq!(file_ext, "rs");

    let file_path = Some("foo".to_string());
    let file_ext = get_file_extension(&file_path);
    assert_eq!(file_ext, "md");

    let file_path = Some("foo.".to_string());
    let file_ext = get_file_extension(&file_path);
    assert_eq!(file_ext, "md");

    let file_path = Some("foo.bar.rs".to_string());
    let file_ext = get_file_extension(&file_path);
    assert_eq!(file_ext, "rs");

    let file_path = Some("foo.bar".to_string());
    let file_ext = get_file_extension(&file_path);
    assert_eq!(file_ext, "bar");

    let file_path = Some("foo.bar.".to_string());
    let file_ext = get_file_extension(&file_path);
    assert_eq!(file_ext, "md");

    let file_path = Some("foo.bar.baz".to_string());
    let file_ext = get_file_extension(&file_path);
    assert_eq!(file_ext, "baz");

    let file_path = Some("foo.bar.baz.".to_string());
    let file_ext = get_file_extension(&file_path);
    assert_eq!(file_ext, "md");

    let file_path = None;
    let file_ext = get_file_extension(&file_path);
    assert_eq!(file_ext, "md");
}

#[test]
fn default_file_extension() {
    assert_eq!(DEFAULT_SYN_HI_FILE_EXT, "md");
}

#[test]
fn get_content_gives_the_lines_of_a_text() {
    let content = Some("This is a test.\nThis is only a test.".to_string());
    assert_eq!(
        get_content(&content),
        vec!["This is a test.".to_string(), "This is only a test.".to_string()]
    );
    assert_eq!(get_content(&None), Vec::<String>::new());
    assert_eq!(get_content(&Some(String::new())), Vec::<String>::new());
    // A line ending at the end starts no further line.
    assert_eq!(get_content(&Some("a\n".to_string())), vec!["a".to_string()]);
    assert_eq!(get_content(&Some("\n".to_string())), vec!["".to_string()]);
    assert_eq!(
        get_content(&Some("a\n\nb".to_string())),
        vec!["a".to_string(), "".to_string(), "b".to_string()]
    );
    // A carriage return goes with the line feed behind it, and only with that.
    assert_eq!(
        get_content(&Some("a\r\nb\r".to_string())),
        vec!["a".to_string(), "b\r".to_string()]
    );
    assert_eq!(get_content(&Some("a\r\r\n".to_string())), vec!["a\r".to_string()]);
}

#[test]
fn state_constructor_over_a_file() {
    let maybe_file_path = Some("/tmp/some_file.rs".to_string());
    let content = "This is a test.\nThis is only a test.";

    // Create a state.
    let state = editor_buffer::state::new(&maybe_file_path, &Some(content.to_string()));

    // Check the state.
    assert_eq!(state.editor_buffers.len(), 1);
    assert_eq!(state.dialog_buffers.len(), 0);
    assert_eq!(state.editor_buffers.contains_key(&Id::Editor.flex_box_id()), true);
    assert_eq!(state.contains_editor_buffer(Id::Editor.flex_box_id()), true);
    assert_eq!(state.contains_editor_buffer(Id::Dialog.flex_box_id()), false);
    let buffer = state.get_editor_buffer(Id::Editor.flex_box_id()).unwrap();
    assert_eq!(buffer.get_lines().len(), 2);
    assert_eq!(buffer.get_as_string(), content);
    assert_eq!(buffer.get_maybe_file_extension(), &Some("rs".to_string()));
    assert!(state.get_dialog_buffer(Id::Dialog.flex_box_id()).is_none());
}

#[test]
fn state_constructor_without_a_file() {
    let state = editor_buffer::state::new(&None, &None);
    let buffer = state.get_editor_buffer(Id::Editor.flex_box_id()).unwrap();
    // A document without lines is one empty line.
    assert_eq!(buffer.get_lines().len(), 1);
    assert_eq!(buffer.get_as_string(), "");
    assert_eq!(buffer.get_maybe_file_extension(), &Some("md".to_string()));
    assert_eq!(state, State::default());
}

#[test]
fn state_takes_another_editor_buffer() {
    let mut state = State::default();
    let mut buffer = editor_buffer::EditorBuffer::default();
    buffer.insert_str("abc");
    state.insert_editor_buffer(5, buffer);
    assert_eq!(state.editor_buffers.len(), 2);
    assert_eq!(state.get_editor_buffer(5).unwrap().get_as_string(), "abc");
    assert!(state.get_editor_buffer(6).is_none());
}
