//! The single-line text input of the chat and agent panels.
//!
//! The cursor is a byte offset into the UTF-8 text, always on a character
//! boundary.

use vstd::prelude::*;

use crate::text::{chars_to_string, str_to_chars, trim, trim_chars};

verus! {

/// Number of bytes of the UTF-8 encoding of `c`.
pub open spec fn utf8_len(c: char) -> nat {
    let u = c as u32;
    if u < 0x80 {
        1
    } else if u < 0x800 {
        2
    } else if u < 0x10000 {
        3
    } else {
        4
    }
}

/// Number of bytes of the UTF-8 encoding of `s`.
pub open spec fn byte_len(s: Seq<char>) -> nat
    decreases s.len(),
{
    if s.len() == 0 {
        0
    } else {
        byte_len(s.drop_last()) + utf8_len(s.last())
    }
}

/// `char::len_utf8` of std.
pub fn char_utf8_len(c: char) -> (n: usize)
    ensures
        n == utf8_len(c),
{
    let u = c as u32;
    if u < 0x80 {
        1
    } else if u < 0x800 {
        2
    } else if u < 0x10000 {
        3
    } else {
        4
    }
}

/// The byte length of a prefix one character longer.
pub proof fn lemma_byte_len_take(s: Seq<char>, k: int)
    requires
        0 <= k < s.len(),
    ensures
        byte_len(s.take(k + 1)) == byte_len(s.take(k)) + utf8_len(s[k]),
{
    assert(s.take(k + 1).drop_last() =~= s.take(k));
}

/// Longer prefixes have more bytes.
pub proof fn lemma_byte_len_monotone(s: Seq<char>, j: int, k: int)
    requires
        0 <= j <= k <= s.len(),
    ensures
        byte_len(s.take(j)) + (k - j) <= byte_len(s.take(k)),
        j < k ==> byte_len(s.take(j)) < byte_len(s.take(k)),
    decreases k - j,
{
    if j < k {
        lemma_byte_len_monotone(s, j, k - 1);
        lemma_byte_len_take(s, k - 1);
    }
}

/// The byte length of a concatenation.
pub proof fn lemma_byte_len_concat(a: Seq<char>, b: Seq<char>)
    ensures
        byte_len(a + b) == byte_len(a) + byte_len(b),
    decreases b.len(),
{
    if b.len() == 0 {
        assert(a + b =~= a);
    } else {
        assert((a + b).drop_last() =~= a + b.drop_last());
        lemma_byte_len_concat(a, b.drop_last());
    }
}

/// `b` is the byte offset of the boundary before character `k` of `s`.
pub open spec fn boundary_at(s: Seq<char>, k: int, b: int) -> bool {
    0 <= k <= s.len() && byte_len(s.take(k)) == b
}

/// `s` with `t` put in before character `k`.
pub open spec fn inserted_at(s: Seq<char>, k: int, t: Seq<char>) -> Seq<char> {
    s.take(k) + t + s.skip(k)
}

/// `s` without character `k`.
pub open spec fn removed_at(s: Seq<char>, k: int) -> Seq<char> {
    s.take(k) + s.skip(k + 1)
}

/// Text being typed, with a cursor.
#[derive(Debug, Clone)]
pub struct InputLine {
    /// Current text input buffer.
    pub input_buffer: String,
    /// Cursor position within `input_buffer` (byte offset).
    pub input_cursor: usize,
}

/// The character index of the boundary at byte offset `b` of `s`.
pub open spec fn char_index(s: Seq<char>, b: int) -> int {
    choose|k: int| boundary_at(s, k, b)
}

/// Boundaries are found at one character index only.
pub proof fn lemma_boundary_unique(s: Seq<char>, j: int, k: int, b: int)
    requires
        boundary_at(s, j, b),
        boundary_at(s, k, b),
    ensures
        j == k,
{
    if j < k {
        lemma_byte_len_monotone(s, j, k);
    } else if k < j {
        lemma_byte_len_monotone(s, k, j);
    }
}

/// The byte length of `s` is that of its UTF-8 encoding.
pub proof fn lemma_byte_len_encode(s: Seq<char>)
    ensures
        byte_len(s) == vstd::utf8::encode_utf8(s).len(),
    decreases s.len(),
{
    if s.len() > 0 {
        let c = s[0];
        let first = seq![c];
        assert(s =~= first + s.drop_first());
        lemma_byte_len_concat(first, s.drop_first());
        assert(first.drop_last() =~= Seq::<char>::empty());
        assert(byte_len(Seq::<char>::empty()) == 0);
        assert(first.last() == c);
        assert(byte_len(first) == utf8_len(c));
        lemma_byte_len_encode(s.drop_first());
        vstd::utf8::char_is_scalar(c);
        let u = c as u32;
        assert(vstd::utf8::encode_scalar(u).len() == utf8_len(c)) by {
            if u < 0x80 {
                assert(vstd::utf8::has_width_1_encoding(u));
            } else if u < 0x800 {
                assert(vstd::utf8::has_width_2_encoding(u));
            } else if u < 0x10000 {
                assert(vstd::utf8::has_width_3_encoding(u));
            } else {
                assert(vstd::utf8::has_width_4_encoding(u));
            }
        }
        assert(vstd::utf8::encode_utf8(s) == vstd::utf8::encode_scalar(u) + vstd::utf8::encode_utf8(
            s.drop_first(),
        ));
    }
}

impl InputLine {
    /// The cursor sits on a character boundary, and the text is no longer
    /// than a `String` can be.
    pub open spec fn wf(self) -> bool {
        &&& exists|k: int| boundary_at(self.input_buffer@, k, self.input_cursor as int)
        &&& byte_len(self.input_buffer@) <= isize::MAX
    }

    /// The character index of the cursor.
    pub open spec fn cursor(self) -> int {
        char_index(self.input_buffer@, self.input_cursor as int)
    }

    /// An empty input.
    pub fn new() -> (l: Self)
        ensures
            l.wf(),
            l.input_buffer@ == Seq::<char>::empty(),
            l.input_cursor == 0,
    {
        let l = InputLine { input_buffer: String::new(), input_cursor: 0 };
        proof {
            assert(l.input_buffer@.take(0) =~= Seq::<char>::empty());
            assert(boundary_at(l.input_buffer@, 0, l.input_cursor as int));
            assert(byte_len(l.input_buffer@) == 0);
        }
        l
    }

    /// The characters of the text and the cursor's character index.
    fn locate(&self) -> (r: (Vec<char>, usize))
        requires
            self.wf(),
        ensures
            r.0@ == self.input_buffer@,
            r.1 == self.cursor(),
            boundary_at(self.input_buffer@, r.1 as int, self.input_cursor as int),
    {
        let chars = str_to_chars(self.input_buffer.as_str());
        let ghost s = chars@;
        let ghost k0 = choose|k: int| boundary_at(s, k, self.input_cursor as int);
        let n = chars.len();
        let mut k: usize = 0;
        let mut b: usize = 0;
        proof {
            assert(s.take(0) =~= Seq::<char>::empty());
        }
        while b < self.input_cursor
            invariant
                s == chars@,
                n == s.len(),
                boundary_at(s, k0, self.input_cursor as int),
                boundary_at(s, k as int, b as int),
                k <= k0,
                k0 <= s.len(),
            decreases k0 - k,
        {
            proof {
                if k == k0 {
                    assert(false);
                }
                lemma_byte_len_take(s, k as int);
                lemma_byte_len_monotone(s, k as int + 1, k0);
            }
            b = b + char_utf8_len(chars[k]);
            k = k + 1;
        }
        proof {
            if (k as int) < k0 {
                lemma_byte_len_monotone(s, k as int, k0);
            }
            lemma_boundary_unique(s, k as int, self.cursor(), self.input_cursor as int);
        }
        (chars, k)
    }

    /// Inserts `ch` at the cursor and moves the cursor past it.
    pub fn insert_char(&mut self, ch: char)
        requires
            old(self).wf(),
            byte_len(old(self).input_buffer@) + utf8_len(ch) <= isize::MAX,
        ensures
            final(self).wf(),
            final(self).input_buffer@ == inserted_at(
                old(self).input_buffer@,
                old(self).cursor(),
                seq![ch],
            ),
            final(self).input_cursor == old(self).input_cursor + utf8_len(ch),
            final(self).cursor() == old(self).cursor() + 1,
    {
        let (mut chars, k) = self.locate();
        let ghost s = chars@;
        let ghost b = self.input_cursor as int;
        chars.insert(k, ch);
        let ghost t = chars@;
        proof {
            assert(t =~= s.take(k as int) + seq![ch] + s.skip(k as int));
            assert(t.take(k as int) =~= s.take(k as int));
            lemma_byte_len_take(t, k as int);
            lemma_byte_len_monotone(s, k as int, s.len() as int);
            assert(s.take(s.len() as int) =~= s);
            assert(s =~= s.take(k as int) + s.skip(k as int));
            lemma_byte_len_concat(s.take(k as int), s.skip(k as int));
            lemma_byte_len_concat(s.take(k as int) + seq![ch], s.skip(k as int));
            assert(t.take(k + 1) =~= s.take(k as int) + seq![ch]);
        }
        self.input_buffer = chars_to_string(chars.as_slice());
        self.input_cursor = self.input_cursor + char_utf8_len(ch);
        proof {
            assert(boundary_at(t, k + 1, self.input_cursor as int));
            lemma_boundary_unique(t, k + 1, self.cursor(), self.input_cursor as int);
        }
    }

    /// Inserts `s` at the cursor and moves the cursor past it.
    pub fn insert_str(&mut self, s: &str)
        requires
            old(self).wf(),
            byte_len(old(self).input_buffer@) + byte_len(s@) <= isize::MAX,
        ensures
            final(self).wf(),
            final(self).input_buffer@ == inserted_at(old(self).input_buffer@, old(self).cursor(), s@),
            final(self).input_cursor == old(self).input_cursor + byte_len(s@),
            final(self).cursor() == old(self).cursor() + s@.len(),
    {
        let (chars, k) = self.locate();
        let ghost v = chars@;
        let ins = str_to_chars(s);
        let n = s.len();
        proof {
            lemma_byte_len_encode(s@);
        }
        let mut out: Vec<char> = Vec::new();
        let mut i: usize = 0;
        while i < k
            invariant
                v == chars@,
                k <= v.len(),
                i <= k,
                out@ == v.take(i as int),
            decreases k - i,
        {
            out.push(chars[i]);
            i = i + 1;
            proof {
                assert(out@ =~= v.take(i as int));
            }
        }
        let mut j: usize = 0;
        while j < ins.len()
            invariant
                ins@ == s@,
                j <= ins@.len(),
                out@ == v.take(k as int) + ins@.take(j as int),
            decreases ins@.len() - j,
        {
            out.push(ins[j]);
            j = j + 1;
            proof {
                assert(out@ =~= v.take(k as int) + ins@.take(j as int));
            }
        }
        let mut i: usize = k;
        while i < chars.len()
            invariant
                v == chars@,
                k <= i <= v.len(),
                out@ == v.take(k as int) + s@ + v.subrange(k as int, i as int),
            decreases v.len() - i,
        {
            out.push(chars[i]);
            i = i + 1;
            proof {
                assert(out@ =~= v.take(k as int) + s@ + v.subrange(k as int, i as int));
            }
        }
        let ghost t = out@;
        proof {
            assert(ins@.take(ins@.len() as int) =~= ins@);
            assert(v.subrange(k as int, v.len() as int) =~= v.skip(k as int));
            assert(t.take(k + s@.len()) =~= v.take(k as int) + s@);
            lemma_byte_len_concat(v.take(k as int), s@);
            lemma_byte_len_monotone(v, k as int, v.len() as int);
            assert(v.take(v.len() as int) =~= v);
            assert(v =~= v.take(k as int) + v.skip(k as int));
            lemma_byte_len_concat(v.take(k as int), v.skip(k as int));
            lemma_byte_len_concat(v.take(k as int) + s@, v.skip(k as int));
            assert(t =~= (v.take(k as int) + s@) + v.skip(k as int));
        }
        self.input_buffer = chars_to_string(out.as_slice());
        self.input_cursor = self.input_cursor + n;
        proof {
            assert(boundary_at(t, k + s@.len(), self.input_cursor as int));
            lemma_boundary_unique(t, k + s@.len(), self.cursor(), self.input_cursor as int);
        }
    }

    /// Removes the character before the cursor, if there is one.
    pub fn backspace(&mut self)
        requires
            old(self).wf(),
        ensures
            final(self).wf(),
            old(self).cursor() > 0 ==> {
                &&& final(self).input_buffer@ == removed_at(
                    old(self).input_buffer@,
                    old(self).cursor() - 1,
                )
                &&& final(self).input_cursor == byte_len(
                    old(self).input_buffer@.take(old(self).cursor() - 1),
                )
                &&& final(self).cursor() == old(self).cursor() - 1
            },
            old(self).cursor() == 0 ==> *final(self) == *old(self),
    {
        if self.input_cursor > 0 {
            let (mut chars, k) = self.locate();
            let ghost s = chars@;
            proof {
                if k == 0 {
                    assert(s.take(0) =~= Seq::<char>::empty());
                }
                lemma_byte_len_take(s, k - 1);
                lemma_byte_len_monotone(s, k as int, s.len() as int);
                assert(s.take(s.len() as int) =~= s);
            }
            let c = chars.remove(k - 1);
            let ghost t = chars@;
            let prev = self.input_cursor - char_utf8_len(c);
            proof {
                assert(t =~= s.take(k - 1) + s.skip(k as int));
                assert(t.take(k - 1) =~= s.take(k - 1));
                assert(s =~= s.take(k - 1) + s.skip(k - 1));
                lemma_byte_len_concat(s.take(k - 1), s.skip(k - 1));
                lemma_byte_len_concat(s.take(k - 1), s.skip(k as int));
                assert(s.skip(k - 1) =~= seq![c] + s.skip(k as int));
                lemma_byte_len_concat(seq![c], s.skip(k as int));
                assert(seq![c].drop_last() =~= Seq::<char>::empty());
            }
            self.input_buffer = chars_to_string(chars.as_slice());
            self.input_cursor = prev;
            proof {
                assert(boundary_at(t, k - 1, self.input_cursor as int));
                lemma_boundary_unique(t, k - 1, self.cursor(), self.input_cursor as int);
            }
        } else {
            proof {
                let s = self.input_buffer@;
                let k = self.cursor();
                assert(s.take(0) =~= Seq::<char>::empty());
                assert(boundary_at(s, 0, 0));
                assert(boundary_at(s, k, 0));
                lemma_boundary_unique(s, 0, k, 0);
            }
        }
    }

    /// Removes the character at the cursor, if there is one.
    pub fn delete_char(&mut self)
        requires
            old(self).wf(),
        ensures
            final(self).wf(),
            old(self).cursor() < old(self).input_buffer@.len() ==> {
                &&& final(self).input_buffer@ == removed_at(
                    old(self).input_buffer@,
                    old(self).cursor(),
                )
                &&& final(self).input_cursor == old(self).input_cursor
                &&& final(self).cursor() == old(self).cursor()
            },
            old(self).cursor() == old(self).input_buffer@.len() ==> *final(self) == *old(self),
    {
        let (mut chars, k) = self.locate();
        let ghost s = chars@;
        if k < chars.len() {
            chars.remove(k);
            let ghost t = chars@;
            proof {
                assert(t =~= s.take(k as int) + s.skip(k + 1));
                assert(t.take(k as int) =~= s.take(k as int));
                assert(s =~= s.take(k as int) + s.skip(k as int));
                lemma_byte_len_concat(s.take(k as int), s.skip(k as int));
                lemma_byte_len_concat(s.take(k as int), s.skip(k + 1));
                assert(s.skip(k as int) =~= seq![s[k as int]] + s.skip(k + 1));
                lemma_byte_len_concat(seq![s[k as int]], s.skip(k + 1));
            }
            self.input_buffer = chars_to_string(chars.as_slice());
            proof {
                assert(boundary_at(t, k as int, self.input_cursor as int));
                lemma_boundary_unique(t, k as int, self.cursor(), self.input_cursor as int);
            }
        }
    }

    /// Moves the cursor one character to the left, if it can go.
    pub fn cursor_left(&mut self)
        requires
            old(self).wf(),
        ensures
            final(self).wf(),
            final(self).input_buffer@ == old(self).input_buffer@,
            old(self).cursor() > 0 ==> final(self).input_cursor == byte_len(
                old(self).input_buffer@.take(old(self).cursor() - 1),
            ) && final(self).cursor() == old(self).cursor() - 1,
            old(self).cursor() == 0 ==> final(self).input_cursor == old(self).input_cursor,
    {
        let (chars, k) = self.locate();
        let ghost s = chars@;
        if k > 0 {
            proof {
                lemma_byte_len_take(s, k - 1);
            }
            self.input_cursor = self.input_cursor - char_utf8_len(chars[k - 1]);
            proof {
                assert(boundary_at(s, k - 1, self.input_cursor as int));
                lemma_boundary_unique(s, k - 1, self.cursor(), self.input_cursor as int);
            }
        }
    }

    /// Moves the cursor one character to the right, if it can go.
    pub fn cursor_right(&mut self)
        requires
            old(self).wf(),
        ensures
            final(self).wf(),
            final(self).input_buffer@ == old(self).input_buffer@,
            old(self).cursor() < old(self).input_buffer@.len() ==> {
                &&& final(self).input_cursor == byte_len(
                    old(self).input_buffer@.take(old(self).cursor() + 1),
                )
                &&& final(self).cursor() == old(self).cursor() + 1
            },
            old(self).cursor() == old(self).input_buffer@.len() ==> final(self).input_cursor
                == old(self).input_cursor,
    {
        let (chars, k) = self.locate();
        let ghost s = chars@;
        if k < chars.len() {
            proof {
                lemma_byte_len_take(s, k as int);
                lemma_byte_len_monotone(s, k + 1, s.len() as int);
                assert(s.take(s.len() as int) =~= s);
            }
            self.input_cursor = self.input_cursor + char_utf8_len(chars[k]);
            proof {
                assert(boundary_at(s, k + 1, self.input_cursor as int));
                lemma_boundary_unique(s, k + 1, self.cursor(), self.input_cursor as int);
            }
        }
    }

    /// Moves the cursor to the start of the text.
    pub fn cursor_home(&mut self)
        requires
            old(self).wf(),
        ensures
            final(self).wf(),
            final(self).input_buffer@ == old(self).input_buffer@,
            final(self).input_cursor == 0,
            final(self).cursor() == 0,
    {
        self.input_cursor = 0;
        proof {
            let s = self.input_buffer@;
            assert(s.take(0) =~= Seq::<char>::empty());
            assert(boundary_at(s, 0, self.input_cursor as int));
            lemma_boundary_unique(s, 0, self.cursor(), 0);
        }
    }

    /// Moves the cursor to the end of the text.
    pub fn cursor_end(&mut self)
        requires
            old(self).wf(),
        ensures
            final(self).wf(),
            final(self).input_buffer@ == old(self).input_buffer@,
            final(self).input_cursor == byte_len(old(self).input_buffer@),
            final(self).cursor() == old(self).input_buffer@.len(),
    {
        proof {
            lemma_byte_len_encode(self.input_buffer@);
        }
        self.input_cursor = self.input_buffer.as_str().len();
        proof {
            let s = self.input_buffer@;
            assert(s.take(s.len() as int) =~= s);
            assert(boundary_at(s, s.len() as int, self.input_cursor as int));
            lemma_boundary_unique(s, s.len() as int, self.cursor(), self.input_cursor as int);
        }
    }

    /// Hands out the text without surrounding white space and clears the
    /// input; `None`, leaving the input as it is, when nothing but white
    /// space was typed.
    pub fn take_input(&mut self) -> (r: Option<String>)
        requires
            old(self).wf(),
        ensures
            final(self).wf(),
            trim(old(self).input_buffer@).len() == 0 ==> r is None && *final(self) == *old(self),
            trim(old(self).input_buffer@).len() > 0 ==> {
                &&& r matches Some(t) && t@ == trim(old(self).input_buffer@)
                &&& final(self).input_buffer@ == Seq::<char>::empty()
                &&& final(self).input_cursor == 0
            },
    {
        let chars = str_to_chars(self.input_buffer.as_str());
        let text = trim_chars(&chars);
        if text.len() == 0 {
            return None;
        }
        *self = InputLine::new();
        Some(chars_to_string(text.as_slice()))
    }
}

/// Backspace right after typing a character takes exactly that character
/// out again, and the cursor returns to where it was.
pub proof fn law_backspace_undoes_insert(s: Seq<char>, k: int, ch: char)
    requires
        0 <= k <= s.len(),
    ensures
        removed_at(inserted_at(s, k, seq![ch]), (k + 1) - 1) == s,
        byte_len(inserted_at(s, k, seq![ch]).take((k + 1) - 1)) == byte_len(s.take(k)),
{
    let t = inserted_at(s, k, seq![ch]);
    assert(t.take(k) =~= s.take(k));
    assert(removed_at(t, k) =~= s);
}

/// Law: on an input line, backspace right after typing a character gives
/// the line back as it was: the same text, the cursor at the same byte.
/// `typed` is the line as [`InputLine::insert_char`] leaves `before`, and
/// `after` the line as [`InputLine::backspace`] leaves `typed`.
pub proof fn law_line_backspace_undoes_insert(before: InputLine, typed: InputLine, after: InputLine, ch: char)
    requires
        before.wf(),
        typed.wf(),
        typed.input_buffer@ == inserted_at(before.input_buffer@, before.cursor(), seq![ch]),
        typed.input_cursor == before.input_cursor + utf8_len(ch),
        typed.cursor() == before.cursor() + 1,
        after.input_buffer@ == removed_at(typed.input_buffer@, typed.cursor() - 1),
        after.input_cursor == byte_len(typed.input_buffer@.take(typed.cursor() - 1)),
    ensures
        after.input_buffer@ == before.input_buffer@,
        after.input_cursor == before.input_cursor,
{
    let s = before.input_buffer@;
    let k = before.cursor();
    assert(boundary_at(s, k, before.input_cursor as int));
    law_backspace_undoes_insert(s, k, ch);
}

} // verus!
