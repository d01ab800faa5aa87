use minal::chat_panel::{parse_inline_bold, parse_simple_markdown, ChatMessage, ChatRole, ChatSpan};

fn text(t: &str, bold: bool) -> ChatSpan {
    ChatSpan::Text { text: t.to_string(), bold }
}

#[test]
fn parse_plain_text() {
    let spans = parse_simple_markdown("Hello world");
    assert_eq!(spans, vec![text("Hello world", false)]);
}

#[test]
fn parse_bold_text() {
    let spans = parse_simple_markdown("Hello **world**!");
    assert_eq!(spans, vec![text("Hello ", false), text("world", true), text("!", false)]);
}

#[test]
fn parse_code_block() {
    let input = "Before\n```rust\nfn main() {}\n```\nAfter";
    let spans = parse_simple_markdown(input);
    assert_eq!(
        spans,
        vec![
            text("Before", false),
            ChatSpan::CodeBlock { code: "fn main() {}".to_string(), language: Some("rust".to_string()) },
            ChatSpan::Newline,
            text("After", false),
        ]
    );
}

#[test]
fn parse_code_block_no_language() {
    let input = "```\nsome code\n```";
    let spans = parse_simple_markdown(input);
    assert_eq!(spans, vec![ChatSpan::CodeBlock { code: "some code".to_string(), language: None }]);
}

#[test]
fn parse_multiline_code_block() {
    let input = "```\nline1\nline2\nline3\n```";
    let spans = parse_simple_markdown(input);
    assert_eq!(spans, vec![ChatSpan::CodeBlock { code: "line1\nline2\nline3".to_string(), language: None }]);
}

#[test]
fn parse_multiple_lines() {
    let spans = parse_simple_markdown("line1\nline2");
    assert_eq!(spans, vec![text("line1", false), ChatSpan::Newline, text("line2", false)]);
}

#[test]
fn parse_unclosed_bold() {
    let spans = parse_simple_markdown("Hello **world");
    assert_eq!(spans, vec![text("Hello ", false), text("**world", false)]);
}

#[test]
fn parse_unclosed_code_block() {
    let input = "```rust\nfn main() {}";
    let spans = parse_simple_markdown(input);
    assert_eq!(spans, vec![ChatSpan::CodeBlock { code: "fn main() {}".to_string(), language: Some("rust".to_string()) }]);
}

#[test]
fn parse_empty_string() {
    let spans = parse_simple_markdown("");
    assert!(spans.is_empty());
}

#[test]
fn parse_bold_multiple_segments() {
    let spans = parse_simple_markdown("a **b** c **d** e");
    assert_eq!(
        spans,
        vec![text("a ", false), text("b", true), text(" c ", false), text("d", true), text(" e", false)]
    );
}

#[test]
fn chat_message_clone() {
    let msg = ChatMessage { role: ChatRole::User, content: "Hello".to_string() };
    let cloned = msg.clone();
    assert_eq!(cloned.role, ChatRole::User);
    assert_eq!(cloned.content, "Hello");
}

#[test]
fn chat_role_equality() {
    assert_eq!(ChatRole::User, ChatRole::User);
    assert_eq!(ChatRole::Assistant, ChatRole::Assistant);
    assert_eq!(ChatRole::Error, ChatRole::Error);
    assert_ne!(ChatRole::User, ChatRole::Assistant);
}

#[test]
fn parse_indented_fence_and_empty_bold() {
    let spans = parse_simple_markdown("  ```  sh  \nx\n   ```\n****");
    assert_eq!(
        spans,
        vec![
            ChatSpan::CodeBlock { code: "x".to_string(), language: Some("sh".to_string()) },
            ChatSpan::Newline,
            text("", true),
        ]
    );
}

#[test]
fn parse_unclosed_empty_code_block_is_dropped() {
    let spans = parse_simple_markdown("hi\n```py\n");
    assert_eq!(spans, vec![text("hi", false)]);
}

#[test]
fn parse_empty_first_code_line_is_skipped() {
    let spans = parse_simple_markdown("```\n\nx\n```");
    assert_eq!(spans, vec![ChatSpan::CodeBlock { code: "x".to_string(), language: None }]);
}

#[test]
fn inline_bold_appends_to_existing_spans() {
    let mut spans = vec![ChatSpan::Newline];
    parse_inline_bold("x**y**", &mut spans);
    assert_eq!(spans, vec![ChatSpan::Newline, text("x", false), text("y", true)]);
}

#[test]
fn inline_bold_on_empty_line_adds_nothing() {
    let mut spans = Vec::new();
    parse_inline_bold("", &mut spans);
    assert!(spans.is_empty());
}
