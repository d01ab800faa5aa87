use minal::input::InputLine;

#[test]
fn chat_input_buffer_operations() {
    let mut panel = InputLine::new();
    panel.insert_char('h');
    panel.insert_char('i');
    assert_eq!(panel.input_buffer, "hi");
    assert_eq!(panel.input_cursor, 2);

    panel.backspace();
    assert_eq!(panel.input_buffer, "h");
    assert_eq!(panel.input_cursor, 1);

    panel.cursor_left();
    assert_eq!(panel.input_cursor, 0);

    panel.insert_char('a');
    assert_eq!(panel.input_buffer, "ah");
}

#[test]
fn chat_take_input_clears() {
    let mut panel = InputLine::new();
    panel.insert_str("hello world");
    let text = panel.take_input();
    assert_eq!(text, Some("hello world".to_string()));
    assert!(panel.input_buffer.is_empty());
    assert_eq!(panel.input_cursor, 0);
}

#[test]
fn chat_take_input_empty_returns_none() {
    let mut panel = InputLine::new();
    assert!(panel.take_input().is_none());
    panel.insert_str("   ");
    assert!(panel.take_input().is_none());
}

#[test]
fn agent_input_buffer_operations() {
    let mut panel = InputLine::new();
    panel.insert_char('h');
    panel.insert_char('i');
    assert_eq!(panel.input_buffer, "hi");
    assert_eq!(panel.input_cursor, 2);

    panel.backspace();
    assert_eq!(panel.input_buffer, "h");
    assert_eq!(panel.input_cursor, 1);

    panel.cursor_left();
    assert_eq!(panel.input_cursor, 0);

    panel.insert_char('a');
    assert_eq!(panel.input_buffer, "ah");
}

#[test]
fn agent_take_input_clears() {
    let mut panel = InputLine::new();
    panel.insert_char('t');
    panel.insert_char('e');
    panel.insert_char('s');
    panel.insert_char('t');
    let text = panel.take_input();
    assert_eq!(text, Some("test".to_string()));
    assert!(panel.input_buffer.is_empty());
    assert_eq!(panel.input_cursor, 0);
}

#[test]
fn agent_take_input_empty_returns_none() {
    let mut panel = InputLine::new();
    assert!(panel.take_input().is_none());
}

#[test]
fn multibyte_characters_move_the_cursor_by_their_width() {
    let mut line = InputLine::new();
    line.insert_char('é');
    assert_eq!(line.input_cursor, 2);
    line.insert_char('日');
    assert_eq!(line.input_cursor, 5);
    line.insert_char('😀');
    assert_eq!(line.input_cursor, 9);
    assert_eq!(line.input_buffer, "é日😀");
    line.cursor_left();
    assert_eq!(line.input_cursor, 5);
    line.cursor_left();
    assert_eq!(line.input_cursor, 2);
    line.cursor_right();
    assert_eq!(line.input_cursor, 5);
    line.backspace();
    assert_eq!(line.input_buffer, "é😀");
    assert_eq!(line.input_cursor, 2);
}

#[test]
fn delete_removes_the_character_after_the_cursor() {
    let mut line = InputLine::new();
    line.insert_str("abc");
    line.cursor_home();
    assert_eq!(line.input_cursor, 0);
    line.delete_char();
    assert_eq!(line.input_buffer, "bc");
    assert_eq!(line.input_cursor, 0);
    line.cursor_end();
    assert_eq!(line.input_cursor, 2);
    line.delete_char();
    assert_eq!(line.input_buffer, "bc");
}

#[test]
fn edits_at_the_edges_do_nothing() {
    let mut line = InputLine::new();
    line.backspace();
    line.cursor_left();
    line.cursor_right();
    line.delete_char();
    assert_eq!(line.input_buffer, "");
    assert_eq!(line.input_cursor, 0);
}

#[test]
fn insert_str_in_the_middle() {
    let mut line = InputLine::new();
    line.insert_str("ad");
    line.cursor_left();
    line.insert_str("bc");
    assert_eq!(line.input_buffer, "abcd");
    assert_eq!(line.input_cursor, 3);
}

#[test]
fn take_input_trims_surrounding_space() {
    let mut line = InputLine::new();
    line.insert_str("  ls -la \n");
    assert_eq!(line.take_input(), Some("ls -la".to_string()));
    assert_eq!(line.input_buffer, "");
}

#[test]
fn backspace_after_insert_restores_the_line() {
    let mut line = InputLine::new();
    line.insert_str("hello");
    line.cursor_left();
    line.cursor_left();
    line.insert_char('X');
    assert_eq!(line.input_buffer, "helXlo");
    line.backspace();
    assert_eq!(line.input_buffer, "hello");
    assert_eq!(line.input_cursor, 3);
}
