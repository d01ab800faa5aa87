use minal::clipboard::{osc52_response, paste_bytes};

#[test]
fn empty_paste_sends_nothing() {
    assert_eq!(paste_bytes("", true), None);
    assert_eq!(paste_bytes("", false), None);
}

#[test]
fn plain_paste_sends_the_text() {
    assert_eq!(paste_bytes("ls -la", false), Some(b"ls -la".to_vec()));
}

#[test]
fn bracketed_paste_wraps_the_text() {
    assert_eq!(paste_bytes("héllo", true), Some(b"\x1b[200~h\xc3\xa9llo\x1b[201~".to_vec()));
}

#[test]
fn osc52_answers_in_base64() {
    assert_eq!(osc52_response("hello"), b"\x1b]52;c;aGVsbG8=\x07".to_vec());
    assert_eq!(osc52_response(""), b"\x1b]52;c;\x07".to_vec());
    assert_eq!(osc52_response("ab"), b"\x1b]52;c;YWI=\x07".to_vec());
    assert_eq!(osc52_response("abc"), b"\x1b]52;c;YWJj\x07".to_vec());
    assert_eq!(osc52_response("a"), b"\x1b]52;c;YQ==\x07".to_vec());
    assert_eq!(osc52_response("é?>"), b"\x1b]52;c;w6k/Pg==\x07".to_vec());
}
