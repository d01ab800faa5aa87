//! Conversation helpers of the inline AI chat overlay: the messages it
//! shows, the code blocks of assistant messages, what a key does in it, and
//! the default system prompt.

use vstd::prelude::*;

use crate::text::{
    chars_to_string, is_fence, lemma_split_lines_step, split_lines, starts_with_fence, std_lines,
    str_to_chars, strip_cr, strip_cr_chars, sub_chars, trim, trim_chars, trim_end, trim_end_chars,
};

use crate::chat_panel::{ChatMessage, ChatRole};
use crate::keys::{KeyPress, Modifiers, NamedKey};

verus! {

broadcast use vstd::string::group_string_axioms;

/// A code block extracted from an assistant message.
#[derive(Debug, Clone)]
pub struct CodeBlock {
    /// The code content.
    pub code: String,
    /// Optional language identifier.
    pub language: Option<String>,
}

/// What a code block holds, as characters.
pub ghost struct CodeBlockModel {
    pub code: Seq<char>,
    pub language: Option<Seq<char>>,
}

impl CodeBlock {
    /// What the block holds, as characters.
    pub open spec fn model(self) -> CodeBlockModel {
        CodeBlockModel {
            code: self.code@,
            language: match self.language {
                Some(l) => Some(l@),
                None => None,
            },
        }
    }
}

/// The models of a sequence of code blocks.
pub open spec fn blocks_model(v: Seq<CodeBlock>) -> Seq<CodeBlockModel> {
    v.map_values(|b: CodeBlock| b.model())
}

/// Where the code-block scan stands after some lines.
pub ghost struct FenceState {
    /// Blocks closed so far.
    pub blocks: Seq<CodeBlockModel>,
    /// Inside a fenced block.
    pub in_code: bool,
    /// Lines of the open block, joined by newlines.
    pub code: Seq<char>,
    /// Language tag of the open block.
    pub language: Option<Seq<char>>,
}

/// One line of the scan. A line that is a fence once trimmed closes an
/// open block (its text without trailing white space becomes a block) or
/// opens one (the trimmed rest of the fence being its language); inside a
/// block any other line joins it.
pub open spec fn fence_line(st: FenceState, line: Seq<char>) -> FenceState {
    let t = trim(line);
    if is_fence(t) {
        if st.in_code {
            FenceState {
                blocks: st.blocks.push(CodeBlockModel { code: trim_end(st.code), language: st.language }),
                in_code: false,
                code: Seq::empty(),
                language: None,
            }
        } else {
            let lang = trim(t.skip(3));
            FenceState {
                in_code: true,
                language: if lang.len() == 0 {
                    None
                } else {
                    Some(lang)
                },
                ..st
            }
        }
    } else if st.in_code {
        FenceState {
            code: if st.code.len() == 0 {
                line
            } else {
                st.code + seq!['\n'] + line
            },
            ..st
        }
    } else {
        st
    }
}

/// The scan after the given lines.
pub open spec fn fence_lines(start: FenceState, lines: Seq<Seq<char>>) -> FenceState
    decreases lines.len(),
{
    if lines.len() == 0 {
        start
    } else {
        fence_line(fence_lines(start, lines.drop_last()), lines.last())
    }
}

/// The code blocks closed in `text`, in order; a block left open is dropped.
pub open spec fn code_blocks(text: Seq<char>) -> Seq<CodeBlockModel> {
    fence_lines(
        FenceState { blocks: Seq::empty(), in_code: false, code: Seq::empty(), language: None },
        std_lines(text),
    ).blocks
}

/// The scan's working state.
struct FenceScan {
    in_code: bool,
    code: Vec<char>,
    language: Option<Vec<char>>,
}

impl FenceScan {
    spec fn model(self, blocks: Seq<CodeBlock>) -> FenceState {
        FenceState {
            blocks: blocks_model(blocks),
            in_code: self.in_code,
            code: self.code@,
            language: match self.language {
                Some(l) => Some(l@),
                None => None,
            },
        }
    }

    fn line(&mut self, line: &Vec<char>, out: &mut Vec<CodeBlock>)
        ensures
            final(self).model(final(out)@) == fence_line(old(self).model(old(out)@), line@),
    {
        let t = trim_chars(line);
        if starts_with_fence(&t) {
            if self.in_code {
                let code = chars_to_string(trim_end_chars(&self.code).as_slice());
                let mut language: Option<Vec<char>> = None;
                std::mem::swap(&mut language, &mut self.language);
                let language = match language {
                    Some(l) => Some(chars_to_string(l.as_slice())),
                    None => None,
                };
                out.push(CodeBlock { code, language });
                self.code = Vec::new();
                self.in_code = false;
                proof {
                    assert(blocks_model(out@) =~= blocks_model(old(out)@).push(
                        CodeBlockModel { code: trim_end(old(self).code@), language: old(self).model(old(out)@).language },
                    ));
                    assert(self.code@ =~= Seq::<char>::empty());
                }
            } else {
                let after = sub_chars(&t, 3, t.len());
                let lang = trim_chars(&after);
                proof {
                    assert(after@ =~= trim(line@).skip(3));
                }
                self.language = if lang.len() == 0 {
                    None
                } else {
                    Some(lang)
                };
                self.in_code = true;
            }
        } else if self.in_code {
            if self.code.len() > 0 {
                self.code.push('\n');
            }
            let mut rest = line.clone();
            self.code.append(&mut rest);
            proof {
                if old(self).code@.len() == 0 {
                    assert(self.code@ =~= line@);
                } else {
                    assert(self.code@ =~= old(self).code@ + seq!['\n'] + line@);
                }
            }
        }
    }
}

/// Extract fenced code blocks from markdown text, appending them to `out`.
pub fn extract_code_blocks_from(text: &str, out: &mut Vec<CodeBlock>)
    ensures
        blocks_model(final(out)@) == blocks_model(old(out)@) + code_blocks(text@),
{
    let chars = str_to_chars(text);
    let n = chars.len();
    let mut scan = FenceScan { in_code: false, code: Vec::new(), language: None };
    let mut cur: Vec<char> = Vec::new();
    let ghost start = FenceState { blocks: Seq::empty(), in_code: false, code: Seq::empty(), language: None };
    let ghost base = blocks_model(old(out)@);
    let mut i: usize = 0;
    proof {
        assert(chars@.take(0) =~= Seq::<char>::empty());
        assert(split_lines(chars@.take(0)).drop_last().map_values(|l: Seq<char>| strip_cr(l)) =~= Seq::<Seq<char>>::empty());
        assert(scan.code@ =~= Seq::<char>::empty());
    }
    while i < n
        invariant
            n == chars@.len(),
            i <= n,
            split_lines(chars@.take(i as int)).len() >= 1,
            scan.model(out@) == ({
                let st = fence_lines(
                    start,
                    split_lines(chars@.take(i as int)).drop_last().map_values(|l: Seq<char>| strip_cr(l)),
                );
                FenceState { blocks: base + st.blocks, ..st }
            }),
            cur@ == split_lines(chars@.take(i as int)).last(),
        decreases n - i,
    {
        proof {
            lemma_split_lines_step(chars@, i as int);
        }
        let c = chars[i];
        if c == '\n' {
            let ghost lines = split_lines(chars@.take(i as int));
            let line = strip_cr_chars(&cur);
            scan.line(&line, out);
            cur = Vec::new();
            proof {
                assert(split_lines(chars@.take(i + 1)).drop_last() =~= lines);
                let stripped = lines.map_values(|l: Seq<char>| strip_cr(l));
                assert(stripped.drop_last() =~= lines.drop_last().map_values(|l: Seq<char>| strip_cr(l)));
                assert(stripped.last() == strip_cr(lines.last()));
                assert(cur@ =~= Seq::<char>::empty());
            }
        } else {
            cur.push(c);
            proof {
                let lines = split_lines(chars@.take(i as int));
                assert(split_lines(chars@.take(i + 1)).drop_last() =~= lines.drop_last());
            }
        }
        i = i + 1;
    }
    proof {
        assert(chars@.take(n as int) =~= text@);
    }
    if cur.len() > 0 {
        let ghost lines = split_lines(text@);
        scan.line(&cur, out);
        proof {
            let stripped = lines.drop_last().map_values(|l: Seq<char>| strip_cr(l));
            assert((stripped + seq![lines.last()]).drop_last() =~= stripped);
        }
    } else {
        proof {
            let lines = split_lines(text@);
            let stripped = lines.drop_last().map_values(|l: Seq<char>| strip_cr(l));
            assert(stripped + Seq::<Seq<char>>::empty() =~= stripped);
        }
    }
}

/// Default system prompt for the chat engine.
pub fn default_system_prompt() -> (prompt: String)
    ensures
        prompt@ == "You are Minal AI, a helpful terminal assistant. You help users with command-line tasks, explain errors, and suggest solutions. Keep responses concise and actionable. When suggesting commands, wrap them in code blocks."@,
{
    "You are Minal AI, a helpful terminal assistant. You help users with command-line tasks, explain errors, and suggest solutions. Keep responses concise and actionable. When suggesting commands, wrap them in code blocks.".to_string()
}

/// Who wrote a message of the conversation history.
#[derive(Debug, Clone, Copy, PartialEq, Eq, Structural)]
pub enum Role {
    System,
    User,
    Assistant,
}

/// A message of the conversation history.
#[derive(Debug, Clone)]
pub struct HistoryMessage {
    pub role: Role,
    pub content: String,
}

/// How a history message is shown: the user's as the user's, everything
/// else as the assistant's.
pub open spec fn display_role(r: Role) -> ChatRole {
    match r {
        Role::User => ChatRole::User,
        Role::Assistant | Role::System => ChatRole::Assistant,
    }
}

/// The messages to render: the history, then each pending error message.
pub fn render_messages(history: &[HistoryMessage], errors: &[String]) -> (msgs: Vec<ChatMessage>)
    ensures
        msgs@.len() == history@.len() + errors@.len(),
        forall|i: int|
            0 <= i < history@.len() ==> (#[trigger] msgs@[i]).role == display_role(history@[i].role)
                && msgs@[i].content@ == history@[i].content@,
        forall|j: int|
            0 <= j < errors@.len() ==> (#[trigger] msgs@[history@.len() + j]).role == ChatRole::Error
                && msgs@[history@.len() + j].content@ == errors@[j]@,
{
    let mut msgs: Vec<ChatMessage> = Vec::new();
    let mut i: usize = 0;
    while i < history.len()
        invariant
            i <= history@.len(),
            msgs@.len() == i,
            forall|k: int|
                0 <= k < i ==> (#[trigger] msgs@[k]).role == display_role(history@[k].role)
                    && msgs@[k].content@ == history@[k].content@,
        decreases history@.len() - i,
    {
        let m = &history[i];
        let role = match m.role {
            Role::User => ChatRole::User,
            Role::Assistant | Role::System => ChatRole::Assistant,
        };
        msgs.push(ChatMessage { role, content: m.content.clone() });
        i = i + 1;
    }
    let mut j: usize = 0;
    while j < errors.len()
        invariant
            j <= errors@.len(),
            msgs@.len() == history@.len() + j,
            forall|k: int|
                0 <= k < history@.len() ==> (#[trigger] msgs@[k]).role == display_role(
                    history@[k].role,
                ) && msgs@[k].content@ == history@[k].content@,
            forall|k: int|
                0 <= k < j ==> (#[trigger] msgs@[history@.len() + k]).role == ChatRole::Error
                    && msgs@[history@.len() + k].content@ == errors@[k]@,
        decreases errors@.len() - j,
    {
        msgs.push(ChatMessage { role: ChatRole::Error, content: errors[j].clone() });
        j = j + 1;
    }
    msgs
}

/// The code blocks of the assistant's messages, in order.
pub open spec fn assistant_code_blocks(history: Seq<HistoryMessage>) -> Seq<CodeBlockModel>
    decreases history.len(),
{
    if history.len() == 0 {
        Seq::empty()
    } else {
        let last = history.last();
        assistant_code_blocks(history.drop_last()) + if last.role == Role::Assistant {
            code_blocks(last.content@)
        } else {
            Seq::empty()
        }
    }
}

/// Collects the code blocks of all assistant messages.
pub fn extract_code_blocks(history: &[HistoryMessage]) -> (blocks: Vec<CodeBlock>)
    ensures
        blocks_model(blocks@) == assistant_code_blocks(history@),
{
    let mut blocks: Vec<CodeBlock> = Vec::new();
    let mut i: usize = 0;
    proof {
        assert(history@.take(0) =~= Seq::<HistoryMessage>::empty());
        assert(blocks_model(blocks@) =~= Seq::<CodeBlockModel>::empty());
    }
    while i < history.len()
        invariant
            i <= history@.len(),
            blocks_model(blocks@) == assistant_code_blocks(history@.take(i as int)),
        decreases history@.len() - i,
    {
        proof {
            assert(history@.take(i + 1).drop_last() =~= history@.take(i as int));
        }
        let m = &history[i];
        if m.role == Role::Assistant {
            extract_code_blocks_from(m.content.as_str(), &mut blocks);
        } else {
            proof {
                assert(blocks_model(blocks@) + Seq::<CodeBlockModel>::empty() =~= blocks_model(blocks@));
            }
        }
        i = i + 1;
    }
    proof {
        assert(history@.take(history@.len() as int) =~= history@);
    }
    blocks
}

/// What a key does in the chat panel.
#[derive(Debug, Clone, PartialEq, Eq)]
pub enum ChatKeyAction {
    /// Close the panel.
    Close,
    /// Put a line break into the input.
    InsertNewline,
    /// Send the input to the assistant.
    Send,
    Backspace,
    Delete,
    CursorLeft,
    CursorRight,
    ScrollUp,
    ScrollDown,
    CursorHome,
    CursorEnd,
    /// Type these characters, one after the other.
    InsertText(String),
    /// Nothing.
    Ignore,
}

/// What a key does in the chat panel: the editing keys edit the input,
/// Enter sends it (with Shift it breaks the line), and the text of a
/// character key is typed unless Ctrl or Super is held.
pub open spec fn chat_key(key: KeyPress, mods: Modifiers) -> ChatKeyAction {
    match key {
        KeyPress::Named(k) => match k {
            NamedKey::Escape => ChatKeyAction::Close,
            NamedKey::Enter => if mods.shift {
                ChatKeyAction::InsertNewline
            } else {
                ChatKeyAction::Send
            },
            NamedKey::Backspace => ChatKeyAction::Backspace,
            NamedKey::Delete => ChatKeyAction::Delete,
            NamedKey::ArrowLeft => ChatKeyAction::CursorLeft,
            NamedKey::ArrowRight => ChatKeyAction::CursorRight,
            NamedKey::ArrowUp => ChatKeyAction::ScrollUp,
            NamedKey::ArrowDown => ChatKeyAction::ScrollDown,
            NamedKey::Home => ChatKeyAction::CursorHome,
            NamedKey::End => ChatKeyAction::CursorEnd,
            _ => ChatKeyAction::Ignore,
        },
        KeyPress::Character(text) => if !mods.ctrl && !mods.super_key {
            ChatKeyAction::InsertText(text)
        } else {
            ChatKeyAction::Ignore
        },
        KeyPress::Unidentified => ChatKeyAction::Ignore,
    }
}

/// What a key does in the chat panel.
pub fn chat_key_action(key: &KeyPress, mods: Modifiers) -> (a: ChatKeyAction)
    ensures
        a == chat_key(*key, mods),
        *key == KeyPress::Named(NamedKey::Backspace) ==> a == ChatKeyAction::Backspace,
        *key == KeyPress::Named(NamedKey::Delete) ==> a == ChatKeyAction::Delete,
        *key == KeyPress::Named(NamedKey::ArrowLeft) ==> a == ChatKeyAction::CursorLeft,
        *key == KeyPress::Named(NamedKey::ArrowRight) ==> a == ChatKeyAction::CursorRight,
        *key == KeyPress::Named(NamedKey::Home) ==> a == ChatKeyAction::CursorHome,
        *key == KeyPress::Named(NamedKey::End) ==> a == ChatKeyAction::CursorEnd,
        *key == KeyPress::Named(NamedKey::ArrowUp) ==> a == ChatKeyAction::ScrollUp,
        *key == KeyPress::Named(NamedKey::ArrowDown) ==> a == ChatKeyAction::ScrollDown,
        *key == KeyPress::Named(NamedKey::Escape) ==> a == ChatKeyAction::Close,
        *key == KeyPress::Named(NamedKey::Enter) ==> a == (if mods.shift {
            ChatKeyAction::InsertNewline
        } else {
            ChatKeyAction::Send
        }),
{
    match key {
        KeyPress::Named(k) => match k {
            NamedKey::Escape => ChatKeyAction::Close,
            NamedKey::Enter => if mods.shift {
                ChatKeyAction::InsertNewline
            } else {
                ChatKeyAction::Send
            },
            NamedKey::Backspace => ChatKeyAction::Backspace,
            NamedKey::Delete => ChatKeyAction::Delete,
            NamedKey::ArrowLeft => ChatKeyAction::CursorLeft,
            NamedKey::ArrowRight => ChatKeyAction::CursorRight,
            NamedKey::ArrowUp => ChatKeyAction::ScrollUp,
            NamedKey::ArrowDown => ChatKeyAction::ScrollDown,
            NamedKey::Home => ChatKeyAction::CursorHome,
            NamedKey::End => ChatKeyAction::CursorEnd,
            _ => ChatKeyAction::Ignore,
        },
        KeyPress::Character(text) => if !mods.ctrl && !mods.super_key {
            ChatKeyAction::InsertText(text.clone())
        } else {
            ChatKeyAction::Ignore
        },
        KeyPress::Unidentified => ChatKeyAction::Ignore,
    }
}

/// Law: in the chat panel the two erase keys do different things,
/// whatever modifiers are held: Backspace erases before the cursor and
/// Delete after it; the left and right arrows move the cursor the two
/// ways, and the up and down arrows scroll the two ways.
pub proof fn law_chat_keys_go_both_ways(mods: Modifiers)
    ensures
        chat_key(KeyPress::Named(NamedKey::Backspace), mods) == ChatKeyAction::Backspace,
        chat_key(KeyPress::Named(NamedKey::Delete), mods) == ChatKeyAction::Delete,
        chat_key(KeyPress::Named(NamedKey::Backspace), mods) != chat_key(KeyPress::Named(NamedKey::Delete), mods),
        chat_key(KeyPress::Named(NamedKey::ArrowLeft), mods) == ChatKeyAction::CursorLeft,
        chat_key(KeyPress::Named(NamedKey::ArrowRight), mods) == ChatKeyAction::CursorRight,
        chat_key(KeyPress::Named(NamedKey::ArrowUp), mods) == ChatKeyAction::ScrollUp,
        chat_key(KeyPress::Named(NamedKey::ArrowDown), mods) == ChatKeyAction::ScrollDown,
{
}

} // verus!
