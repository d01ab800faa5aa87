//! The simple markdown used by the chat panel: fenced code blocks, bold
//! text and line breaks.

use vstd::prelude::*;

use crate::text::{
    chars_to_string, is_fence, lemma_split_lines_step, split_lines, starts_with_fence, str_to_chars, sub_chars,
    trim, trim_chars, trim_start, trim_start_chars,
};

verus! {

/// Describes the role of a chat message for rendering purposes.
#[derive(Debug, Clone, Copy, PartialEq, Eq, Structural)]
pub enum ChatRole {
    /// Message from the user.
    User,
    /// Response from the AI assistant.
    Assistant,
    /// Error message.
    Error,
}

/// A chat message to render.
#[derive(Debug, Clone)]
pub struct ChatMessage {
    /// Who sent this message.
    pub role: ChatRole,
    /// The message content (may contain markdown).
    pub content: String,
}

/// Parsed markdown span for rendering.
#[derive(Debug, Clone, PartialEq)]
pub enum ChatSpan {
    /// Normal or bold text.
    Text { text: String, bold: bool },
    /// A fenced code block.
    CodeBlock { code: String, language: Option<String> },
    /// Line break.
    Newline,
}

/// What a [`ChatSpan`] holds, as characters.
pub ghost enum SpanModel {
    Text { text: Seq<char>, bold: bool },
    CodeBlock { code: Seq<char>, language: Option<Seq<char>> },
    Newline,
}


impl ChatSpan {
    /// What the span holds, as characters.
    pub open spec fn model(self) -> SpanModel {
        match self {
            ChatSpan::Text { text, bold } => SpanModel::Text { text: text@, bold },
            ChatSpan::CodeBlock { code, language } => SpanModel::CodeBlock {
                code: code@,
                language: match language {
                    Some(l) => Some(l@),
                    None => None,
                },
            },
            ChatSpan::Newline => SpanModel::Newline,
        }
    }
}

/// The models of a sequence of spans.
pub open spec fn spans_model(v: Seq<ChatSpan>) -> Seq<SpanModel> {
    v.map_values(|sp: ChatSpan| sp.model())
}

/// A bold marker `**` begins at position `i` of `s`.
pub open spec fn marker_at(s: Seq<char>, i: int) -> bool {
    0 <= i && i + 1 < s.len() && s[i] == '*' && s[i + 1] == '*'
}

/// Position of the first bold marker in `s` (`s.len()` when there is none).
pub open spec fn find_marker(s: Seq<char>) -> int
    decreases s.len(),
{
    if s.len() < 2 {
        s.len() as int
    } else if s[0] == '*' && s[1] == '*' {
        0
    } else {
        1 + find_marker(s.drop_first())
    }
}

/// `find_marker` is the first marker position, or the length when none.
pub proof fn lemma_find_marker(s: Seq<char>)
    ensures
        0 <= find_marker(s) <= s.len(),
        find_marker(s) < s.len() ==> marker_at(s, find_marker(s)),
        find_marker(s) == s.len() ==> forall|j: int| !marker_at(s, j),
        forall|j: int| 0 <= j < find_marker(s) ==> !marker_at(s, j),
    decreases s.len(),
{
    if s.len() >= 2 && !(s[0] == '*' && s[1] == '*') {
        let t = s.drop_first();
        lemma_find_marker(t);
        assert forall|j: int| 0 < j && marker_at(s, j) implies marker_at(t, j - 1) by {}
        assert forall|j: int| 0 <= j < find_marker(s) implies !marker_at(s, j) by {
            if j > 0 {
                assert(marker_at(s, j) ==> marker_at(t, j - 1));
            }
        }
        if find_marker(s) < s.len() {
            assert(marker_at(t, find_marker(t)));
        }
    }
}

/// The text spans of one line: plain runs, and runs between a pair of
/// `**` markers in bold. An opening marker without a closing one starts a
/// plain run that takes the rest of the line, marker included.
pub open spec fn bold_spans(r: Seq<char>) -> Seq<SpanModel>
    decreases r.len(),
{
    if r.len() == 0 {
        Seq::empty()
    } else {
        let start = find_marker(r);
        proof {
            lemma_find_marker(r);
        }
        if start + 2 > r.len() {
            seq![SpanModel::Text { text: r, bold: false }]
        } else {
            let pre = if start > 0 {
                seq![SpanModel::Text { text: r.take(start), bold: false }]
            } else {
                Seq::<SpanModel>::empty()
            };
            let after = r.skip(start + 2);
            let end = find_marker(after);
            proof {
                lemma_find_marker(after);
            }
            if end + 2 <= after.len() {
                pre + seq![SpanModel::Text { text: after.take(end), bold: true }] + bold_spans(after.skip(end + 2))
            } else {
                pre + seq![SpanModel::Text { text: r.skip(start), bold: false }]
            }
        }
    }
}

/// Position of the first bold marker in `v` at or after `from` (`v.len()`
/// when there is none).
fn find_marker_from(v: &Vec<char>, from: usize) -> (pos: usize)
    requires
        from <= v@.len(),
    ensures
        pos == from + find_marker(v@.skip(from as int)),
{
    let n = v.len();
    let ghost s = v@.skip(from as int);
    proof {
        lemma_find_marker(s);
    }
    let mut i: usize = from;
    while i < n && i + 1 < n
        invariant
            n == v@.len(),
            from <= i <= n,
            s == v@.skip(from as int),
            forall|j: int| from <= j < i ==> !marker_at(v@, j),
            0 <= find_marker(s) <= s.len(),
            find_marker(s) < s.len() ==> marker_at(s, find_marker(s)),
            find_marker(s) == s.len() ==> forall|j: int| !marker_at(s, j),
            forall|j: int| 0 <= j < find_marker(s) ==> !marker_at(s, j),
        decreases n - i,
    {
        if v[i] == '*' && v[i + 1] == '*' {
            proof {
                assert(marker_at(s, i - from));
                let f = find_marker(s);
                if f < i - from {
                    assert(marker_at(s, f));
                    assert(marker_at(v@, from + f));
                }
            }
            return i;
        }
        i = i + 1;
    }
    proof {
        let f = find_marker(s);
        if f < s.len() {
            assert(marker_at(s, f));
            assert(marker_at(v@, from + f));
        }
    }
    n
}

/// Appends the spans of one line to `spans` (see [`bold_spans`]).
fn push_bold_spans(line: &Vec<char>, spans: &mut Vec<ChatSpan>)
    ensures
        spans_model(final(spans)@) == spans_model(old(spans)@) + bold_spans(line@),
{
    let n = line.len();
    let mut pos: usize = 0;
    assert(line@.skip(0) =~= line@);
    while pos < n
        invariant
            n == line@.len(),
            pos <= n,
            spans_model(spans@) + bold_spans(line@.skip(pos as int)) == spans_model(old(spans)@) + bold_spans(
                line@,
            ),
        decreases n - pos,
    {
        let ghost r = line@.skip(pos as int);
        let ghost before = spans_model(spans@);
        let start = find_marker_from(line, pos);
        proof {
            lemma_find_marker(r);
            assert(line@.skip(0) =~= line@);
        }
        if n - start < 2 {
            let text = chars_to_string(sub_chars(line, pos, n).as_slice());
            spans.push(ChatSpan::Text { text, bold: false });
            proof {
                assert(line@.subrange(pos as int, n as int) =~= r);
                assert(spans_model(spans@) =~= before + bold_spans(r));
                assert(line@.skip(n as int) =~= Seq::<char>::empty());
            }
            pos = n;
        } else {
            if start > pos {
                let text = chars_to_string(sub_chars(line, pos, start).as_slice());
                spans.push(ChatSpan::Text { text, bold: false });
                proof {
                    assert(line@.subrange(pos as int, start as int) =~= r.take(start - pos));
                }
            }
            let ghost mid = spans_model(spans@);
            let ghost after = r.skip(start - pos + 2);
            proof {
                assert(after =~= line@.skip(start + 2));
            }
            let end = find_marker_from(line, start + 2);
            proof {
                lemma_find_marker(after);
            }
            if n - end >= 2 {
                let text = chars_to_string(sub_chars(line, start + 2, end).as_slice());
                spans.push(ChatSpan::Text { text, bold: true });
                proof {
                    assert(line@.subrange(start + 2, end as int) =~= after.take(end - start - 2));
                    assert(after.skip(end - start - 2 + 2) =~= line@.skip(end + 2));
                    let pre = if start > pos {
                        seq![SpanModel::Text { text: r.take(start - pos), bold: false }]
                    } else {
                        Seq::<SpanModel>::empty()
                    };
                    assert(mid =~= before + pre);
                    assert(spans_model(spans@) =~= before + pre + seq![SpanModel::Text { text: after.take(end - start - 2), bold: true }]);
                }
                pos = end + 2;
            } else {
                let text = chars_to_string(sub_chars(line, start, n).as_slice());
                spans.push(ChatSpan::Text { text, bold: false });
                proof {
                    assert(line@.subrange(start as int, n as int) =~= r.skip(start - pos));
                    let pre = if start > pos {
                        seq![SpanModel::Text { text: r.take(start - pos), bold: false }]
                    } else {
                        Seq::<SpanModel>::empty()
                    };
                    assert(mid =~= before + pre);
                    assert(spans_model(spans@) =~= before + bold_spans(r));
                    assert(line@.skip(n as int) =~= Seq::<char>::empty());
                }
                pos = n;
            }
        }
    }
    assert(line@.skip(n as int) =~= Seq::<char>::empty());
    assert(spans_model(final(spans)@) =~= spans_model(old(spans)@) + bold_spans(line@));
}

/// Parses bold markers (`**...**`) within a single line and appends spans.
pub fn parse_inline_bold(line: &str, spans: &mut Vec<ChatSpan>)
    ensures
        spans_model(final(spans)@) == spans_model(old(spans)@) + bold_spans(line@),
{
    let chars = str_to_chars(line);
    push_bold_spans(&chars, spans);
}


/// Where the markdown parser stands after some lines.
pub ghost struct MarkdownState {
    /// Spans emitted so far.
    pub spans: Seq<SpanModel>,
    /// Inside a fenced code block.
    pub in_code: bool,
    /// Lines of the open code block, joined by newlines.
    pub code: Seq<char>,
    /// Language tag of the open code block.
    pub language: Option<Seq<char>>,
}

/// The state before the first line.
pub open spec fn markdown_start() -> MarkdownState {
    MarkdownState { spans: Seq::empty(), in_code: false, code: Seq::empty(), language: None }
}

/// One line of markdown. Inside a code block, a line that begins (after
/// leading white space) with a fence closes the block and emits it; any
/// other line joins the block. Outside, a fence opens a block, its
/// trimmed rest being the language; any other line emits its text spans,
/// after a line break when spans came before.
pub open spec fn markdown_line(st: MarkdownState, line: Seq<char>) -> MarkdownState {
    if st.in_code {
        if is_fence(trim_start(line)) {
            MarkdownState {
                spans: st.spans.push(SpanModel::CodeBlock { code: st.code, language: st.language }),
                in_code: false,
                code: Seq::empty(),
                language: None,
            }
        } else {
            MarkdownState {
                code: if st.code.len() == 0 {
                    line
                } else {
                    st.code + seq!['\n'] + line
                },
                ..st
            }
        }
    } else if is_fence(trim_start(line)) {
        let lang = trim(trim_start(line).skip(3));
        MarkdownState {
            in_code: true,
            code: Seq::empty(),
            language: if lang.len() == 0 {
                None
            } else {
                Some(lang)
            },
            ..st
        }
    } else {
        MarkdownState {
            spans: (if st.spans.len() > 0 {
                st.spans.push(SpanModel::Newline)
            } else {
                st.spans
            }) + bold_spans(line),
            ..st
        }
    }
}

/// The state after the given lines.
pub open spec fn markdown_lines(lines: Seq<Seq<char>>) -> MarkdownState
    decreases lines.len(),
{
    if lines.len() == 0 {
        markdown_start()
    } else {
        markdown_line(markdown_lines(lines.drop_last()), lines.last())
    }
}

/// The spans of a finished parse: a code block left open is emitted when
/// it holds any text.
pub open spec fn markdown_finish(st: MarkdownState) -> Seq<SpanModel> {
    if st.in_code && st.code.len() > 0 {
        st.spans.push(SpanModel::CodeBlock { code: st.code, language: st.language })
    } else {
        st.spans
    }
}

/// The spans of a markdown text.
pub open spec fn markdown_spans(text: Seq<char>) -> Seq<SpanModel> {
    markdown_finish(markdown_lines(split_lines(text)))
}

/// The parser's working state.
struct MarkdownParser {
    spans: Vec<ChatSpan>,
    in_code: bool,
    code: Vec<char>,
    language: Option<Vec<char>>,
}

impl MarkdownParser {
    spec fn model(self) -> MarkdownState {
        MarkdownState {
            spans: spans_model(self.spans@),
            in_code: self.in_code,
            code: self.code@,
            language: match self.language {
                Some(l) => Some(l@),
                None => None,
            },
        }
    }

    fn line(&mut self, line: &Vec<char>)
        ensures
            final(self).model() == markdown_line(old(self).model(), line@),
    {
        let lead = trim_start_chars(line);
        if self.in_code {
            if starts_with_fence(&lead) {
                let code = chars_to_string(self.code.as_slice());
                let mut language: Option<Vec<char>> = None;
                std::mem::swap(&mut language, &mut self.language);
                let language = match language {
                    Some(l) => Some(chars_to_string(l.as_slice())),
                    None => None,
                };
                self.spans.push(ChatSpan::CodeBlock { code, language });
                self.code = Vec::new();
                self.in_code = false;
                proof {
                    assert(final(self).model().spans =~= old(self).model().spans.push(
                        SpanModel::CodeBlock { code: old(self).model().code, language: old(self).model().language },
                    ));
                }
            } else {
                if self.code.len() > 0 {
                    self.code.push('\n');
                }
                let mut rest = line.clone();
                self.code.append(&mut rest);
                proof {
                    if old(self).code@.len() == 0 {
                        assert(self.code@ =~= line@);
                    } else {
                        assert(self.code@ =~= old(self).code@ + seq!['\n'] + line@);
                    }
                }
            }
        } else if starts_with_fence(&lead) {
            let after = sub_chars(&lead, 3, lead.len());
            let lang = trim_chars(&after);
            proof {
                assert(after@ =~= trim_start(line@).skip(3));
            }
            self.in_code = true;
            self.language = if lang.len() == 0 {
                None
            } else {
                Some(lang)
            };
            self.code = Vec::new();
            proof {
                assert(self.code@ =~= Seq::<char>::empty());
            }
        } else {
            if self.spans.len() > 0 {
                self.spans.push(ChatSpan::Newline);
                proof {
                    assert(spans_model(self.spans@) =~= spans_model(old(self).spans@).push(SpanModel::Newline));
                }
            }
            push_bold_spans(line, &mut self.spans);
        }
    }
}

/// Parses simple markdown into a sequence of [`ChatSpan`]s.
///
/// Supports:
/// - Fenced code blocks (```) with optional language tag
/// - Bold text (`**...**`)
/// - Line breaks
pub fn parse_simple_markdown(text: &str) -> (spans: Vec<ChatSpan>)
    ensures
        spans_model(spans@) == markdown_spans(text@),
{
    let chars = str_to_chars(text);
    let n = chars.len();
    let mut p = MarkdownParser { spans: Vec::new(), in_code: false, code: Vec::new(), language: None };
    let mut cur: Vec<char> = Vec::new();
    let mut i: usize = 0;
    proof {
        assert(chars@.take(0) =~= Seq::<char>::empty());
        assert(split_lines(chars@.take(0)).drop_last() =~= Seq::<Seq<char>>::empty());
        assert(p.model().spans =~= Seq::<SpanModel>::empty());
        assert(p.model().code =~= Seq::<char>::empty());
        assert(p.model() == markdown_start());
    }
    while i < n
        invariant
            n == chars@.len(),
            i <= n,
            split_lines(chars@.take(i as int)).len() >= 1,
            p.model() == markdown_lines(split_lines(chars@.take(i as int)).drop_last()),
            cur@ == split_lines(chars@.take(i as int)).last(),
        decreases n - i,
    {
        proof {
            lemma_split_lines_step(chars@, i as int);
        }
        let c = chars[i];
        if c == '\n' {
            let ghost lines = split_lines(chars@.take(i as int));
            p.line(&cur);
            cur = Vec::new();
            proof {
                assert(lines.drop_last().push(lines.last()) =~= lines);
                assert(split_lines(chars@.take(i + 1)).drop_last() =~= lines);
                assert(cur@ =~= Seq::<char>::empty());
            }
        } else {
            cur.push(c);
            proof {
                let lines = split_lines(chars@.take(i as int));
                assert(split_lines(chars@.take(i + 1)).drop_last() =~= lines.drop_last());
            }
        }
        i = i + 1;
    }
    proof {
        assert(chars@.take(n as int) =~= text@);
        let lines = split_lines(text@);
        assert(lines.drop_last().push(lines.last()) =~= lines);
    }
    p.line(&cur);
    if p.in_code && p.code.len() > 0 {
        let code = chars_to_string(p.code.as_slice());
        let language = match p.language {
            Some(l) => Some(chars_to_string(l.as_slice())),
            None => None,
        };
        p.spans.push(ChatSpan::CodeBlock { code, language });
    }
    p.spans
}

} // verus!
