//! What the clipboard hands to a shell: pasted text, bracketed when the
//! shell asked for it, and the answer to a clipboard query (OSC 52).

use vstd::prelude::*;

use crate::text::str_to_chars;

verus! {

broadcast use vstd::string::group_string_axioms;

/// The bytes a paste sends to the shell: nothing for empty text, else the
/// text's UTF-8, between the bracketed-paste marks when that mode is on.
pub open spec fn paste_payload(text: Seq<char>, bracketed: bool) -> Option<Seq<u8>> {
    if text.len() == 0 {
        None
    } else if bracketed {
        Some(
            seq![0x1bu8, 0x5bu8, 0x32u8, 0x30u8, 0x30u8, 0x7eu8] + vstd::utf8::encode_utf8(text)
                + seq![0x1bu8, 0x5bu8, 0x32u8, 0x30u8, 0x31u8, 0x7eu8],
        )
    } else {
        Some(vstd::utf8::encode_utf8(text))
    }
}

/// The bytes a paste sends to the shell.
pub fn paste_bytes(text: &str, bracketed: bool) -> (data: Option<Vec<u8>>)
    ensures
        data matches Some(d) ==> paste_payload(text@, bracketed) == Some(d@),
        data is None ==> paste_payload(text@, bracketed) is None,
{
    if text.is_empty() {
        return None;
    }
    let mut data: Vec<u8> = Vec::new();
    if bracketed {
        data.push(0x1bu8);
        data.push(0x5bu8);
        data.push(0x32u8);
        data.push(0x30u8);
        data.push(0x30u8);
        data.push(0x7eu8);
    }
    let ghost head = data@;
    let bytes = text.as_bytes();
    let mut i: usize = 0;
    while i < bytes.len()
        invariant
            i <= bytes@.len(),
            data@ == head + bytes@.take(i as int),
        decreases bytes@.len() - i,
    {
        data.push(bytes[i]);
        i = i + 1;
        proof {
            assert(data@ =~= head + bytes@.take(i as int));
        }
    }
    proof {
        assert(bytes@.take(bytes@.len() as int) =~= bytes@);
    }
    if bracketed {
        data.push(0x1bu8);
        data.push(0x5bu8);
        data.push(0x32u8);
        data.push(0x30u8);
        data.push(0x31u8);
        data.push(0x7eu8);
    }
    proof {
        if bracketed {
            assert(data@ =~= seq![0x1bu8, 0x5bu8, 0x32u8, 0x30u8, 0x30u8, 0x7eu8]
                + vstd::utf8::encode_utf8(text@) + seq![0x1bu8, 0x5bu8, 0x32u8, 0x30u8, 0x31u8, 0x7eu8]);
        } else {
            assert(data@ =~= vstd::utf8::encode_utf8(text@));
        }
    }
    Some(data)
}

/// The character of a 6-bit value in the standard base64 alphabet.
pub open spec fn base64_digit(v: nat) -> char {
    if v < 26 {
        (('A' as nat) + v) as char
    } else if v < 52 {
        (('a' as nat) + (v - 26)) as char
    } else if v < 62 {
        (('0' as nat) + (v - 52)) as char
    } else if v == 62 {
        '+'
    } else {
        '/'
    }
}

/// Standard base64 with padding (RFC 4648, section 4): each three bytes
/// become four characters; a last one or two bytes become two or three
/// characters filled up with `=`.
pub open spec fn base64_standard(b: Seq<u8>) -> Seq<char>
    decreases b.len(),
{
    if b.len() == 0 {
        Seq::empty()
    } else if b.len() == 1 {
        let x = b[0] as nat;
        seq![base64_digit(x / 4), base64_digit((x % 4) * 16), '=', '=']
    } else if b.len() == 2 {
        let x = b[0] as nat;
        let y = b[1] as nat;
        seq![base64_digit(x / 4), base64_digit((x % 4) * 16 + y / 16), base64_digit((y % 16) * 4), '=']
    } else {
        let x = b[0] as nat;
        let y = b[1] as nat;
        let z = b[2] as nat;
        seq![
            base64_digit(x / 4),
            base64_digit((x % 4) * 16 + y / 16),
            base64_digit((y % 16) * 4 + z / 64),
            base64_digit(z % 64),
        ] + base64_standard(b.skip(3))
    }
}

/// `Engine::encode` of the `base64` crate with its `STANDARD` engine:
/// standard base64 with padding. The crate panics when the length of the
/// encoding overflows `usize`; shorter input is required.
#[verifier::external_body]
fn base64_encode(bytes: &[u8]) -> (s: String)
    requires
        (bytes@.len() + 2) / 3 * 4 <= usize::MAX,
    ensures
        s@ == base64_standard(bytes@),
{
    base64::Engine::encode(&base64::engine::general_purpose::STANDARD, bytes)
}

/// The text of the answer to a clipboard query: the OSC 52 sequence with
/// the clipboard's contents in base64.
pub open spec fn osc52_answer(text: Seq<char>) -> Seq<char> {
    seq!['\x1b', ']', '5', '2', ';', 'c', ';'] + base64_standard(vstd::utf8::encode_utf8(text))
        + seq!['\x07']
}

/// The bytes that answer a shell's clipboard query with `text`.
pub fn osc52_response(text: &str) -> (data: Vec<u8>)
    requires
        (vstd::utf8::encode_utf8(text@).len() + 2) / 3 * 4 <= usize::MAX,
    ensures
        data@ == vstd::utf8::encode_utf8(osc52_answer(text@)),
{
    let encoded = base64_encode(text.as_bytes());
    let mut v: Vec<char> = Vec::new();
    v.push('\x1b');
    v.push(']');
    v.push('5');
    v.push('2');
    v.push(';');
    v.push('c');
    v.push(';');
    let mut body = str_to_chars(encoded.as_str());
    v.append(&mut body);
    v.push('\x07');
    proof {
        assert(v@ =~= osc52_answer(text@));
    }
    let answer = crate::text::chars_to_string(v.as_slice());
    vstd::slice::slice_to_vec(answer.as_str().as_bytes())
}

} // verus!
