use minal::chat::{
    chat_key_action, default_system_prompt, extract_code_blocks, extract_code_blocks_from,
    render_messages, ChatKeyAction, HistoryMessage, Role,
};
use minal::chat_panel::ChatRole;
use minal::keys::{KeyPress, Modifiers, NamedKey};

#[test]
fn extract_code_blocks_basic() {
    let mut blocks = Vec::new();
    extract_code_blocks_from("hello\n```bash\nls -la\necho hi\n```\nbye", &mut blocks);
    assert_eq!(blocks.len(), 1);
    assert_eq!(blocks[0].code, "ls -la\necho hi");
    assert_eq!(blocks[0].language, Some("bash".to_string()));
}

#[test]
fn extract_multiple_code_blocks() {
    let mut blocks = Vec::new();
    extract_code_blocks_from("```\nfoo\n```\ntext\n```python\nbar\n```", &mut blocks);
    assert_eq!(blocks.len(), 2);
    assert_eq!(blocks[0].code, "foo");
    assert!(blocks[0].language.is_none());
    assert_eq!(blocks[1].code, "bar");
    assert_eq!(blocks[1].language, Some("python".to_string()));
}

#[test]
fn extract_handles_crlf_and_trailing_space() {
    let mut blocks = Vec::new();
    extract_code_blocks_from("```rs \r\nlet x = 1;  \r\n  ```\r\n", &mut blocks);
    assert_eq!(blocks.len(), 1);
    assert_eq!(blocks[0].code, "let x = 1;");
    assert_eq!(blocks[0].language, Some("rs".to_string()));
}

#[test]
fn extract_drops_unclosed_block() {
    let mut blocks = Vec::new();
    extract_code_blocks_from("```\nfoo", &mut blocks);
    assert!(blocks.is_empty());
}

#[test]
fn default_prompt_text() {
    let p = default_system_prompt();
    assert!(p.starts_with("You are Minal AI, a helpful terminal assistant. You help"));
    assert!(p.ends_with("wrap them in code blocks."));
}

#[test]
fn render_messages_maps_roles_and_appends_errors() {
    let history = vec![
        HistoryMessage { role: Role::System, content: "sys".to_string() },
        HistoryMessage { role: Role::User, content: "hi".to_string() },
        HistoryMessage { role: Role::Assistant, content: "hello".to_string() },
    ];
    let errors = vec!["timeout".to_string()];
    let msgs = render_messages(&history, &errors);
    assert_eq!(msgs.len(), 4);
    assert_eq!(msgs[0].role, ChatRole::Assistant);
    assert_eq!(msgs[1].role, ChatRole::User);
    assert_eq!(msgs[1].content, "hi");
    assert_eq!(msgs[2].role, ChatRole::Assistant);
    assert_eq!(msgs[3].role, ChatRole::Error);
    assert_eq!(msgs[3].content, "timeout");
}

#[test]
fn code_blocks_come_from_assistant_messages_only() {
    let history = vec![
        HistoryMessage { role: Role::User, content: "```\nuser code\n```".to_string() },
        HistoryMessage { role: Role::Assistant, content: "```sh\nls\n```".to_string() },
        HistoryMessage { role: Role::Assistant, content: "```\npwd\n```".to_string() },
    ];
    let blocks = extract_code_blocks(&history);
    assert_eq!(blocks.len(), 2);
    assert_eq!(blocks[0].code, "ls");
    assert_eq!(blocks[0].language, Some("sh".to_string()));
    assert_eq!(blocks[1].code, "pwd");
}

#[test]
fn chat_keys() {
    let m = Modifiers::default();
    let shift = Modifiers { shift: true, ..Modifiers::default() };
    let ctrl = Modifiers { ctrl: true, ..Modifiers::default() };
    assert_eq!(chat_key_action(&KeyPress::Named(NamedKey::Escape), m), ChatKeyAction::Close);
    assert_eq!(chat_key_action(&KeyPress::Named(NamedKey::Enter), m), ChatKeyAction::Send);
    assert_eq!(chat_key_action(&KeyPress::Named(NamedKey::Enter), shift), ChatKeyAction::InsertNewline);
    assert_eq!(chat_key_action(&KeyPress::Named(NamedKey::Delete), m), ChatKeyAction::Delete);
    assert_eq!(chat_key_action(&KeyPress::Named(NamedKey::Home), m), ChatKeyAction::CursorHome);
    assert_eq!(chat_key_action(&KeyPress::Named(NamedKey::End), m), ChatKeyAction::CursorEnd);
    assert_eq!(chat_key_action(&KeyPress::Named(NamedKey::ArrowUp), m), ChatKeyAction::ScrollUp);
    assert_eq!(chat_key_action(&KeyPress::Named(NamedKey::F1), m), ChatKeyAction::Ignore);
    assert_eq!(
        chat_key_action(&KeyPress::Character("ab".to_string()), m),
        ChatKeyAction::InsertText("ab".to_string())
    );
    assert_eq!(chat_key_action(&KeyPress::Character("c".to_string()), ctrl), ChatKeyAction::Ignore);
}
