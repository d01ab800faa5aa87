//! Keyboard decisions: the bytes a key sends to the shell, which user key
//! binding a key press triggers, and what a key does in the chat and agent
//! panels.

use vstd::prelude::*;

use crate::input::{byte_len, char_utf8_len, lemma_byte_len_take};
use crate::text::{ascii_lower, str_eq, str_to_chars};

verus! {

/// A key without a printable character.
#[derive(Debug, Clone, PartialEq, Eq)]
pub enum NamedKey {
    Enter,
    Backspace,
    Tab,
    Escape,
    ArrowUp,
    ArrowDown,
    ArrowRight,
    ArrowLeft,
    Home,
    End,
    PageUp,
    PageDown,
    Delete,
    Insert,
    F1,
    F2,
    F3,
    F4,
    F5,
    F6,
    F7,
    F8,
    F9,
    F10,
    F11,
    F12,
    /// Any other named key, by its name (such as `"Space"`).
    Other(String),
}

/// The logical key of a key event.
#[derive(Debug, Clone, PartialEq, Eq)]
pub enum KeyPress {
    Named(NamedKey),
    /// The text the key produces.
    Character(String),
    /// A key the platform could not identify.
    Unidentified,
}

/// The modifier keys held down.
#[derive(Debug, Clone, Copy, PartialEq, Eq, Default, Structural)]
pub struct Modifiers {
    pub shift: bool,
    pub ctrl: bool,
    pub alt: bool,
    pub super_key: bool,
}

/// The name of a named key.
pub open spec fn key_name(k: NamedKey) -> Seq<char> {
    match k {
        NamedKey::Enter => "Enter"@,
        NamedKey::Backspace => "Backspace"@,
        NamedKey::Tab => "Tab"@,
        NamedKey::Escape => "Escape"@,
        NamedKey::ArrowUp => "ArrowUp"@,
        NamedKey::ArrowDown => "ArrowDown"@,
        NamedKey::ArrowRight => "ArrowRight"@,
        NamedKey::ArrowLeft => "ArrowLeft"@,
        NamedKey::Home => "Home"@,
        NamedKey::End => "End"@,
        NamedKey::PageUp => "PageUp"@,
        NamedKey::PageDown => "PageDown"@,
        NamedKey::Delete => "Delete"@,
        NamedKey::Insert => "Insert"@,
        NamedKey::F1 => "F1"@,
        NamedKey::F2 => "F2"@,
        NamedKey::F3 => "F3"@,
        NamedKey::F4 => "F4"@,
        NamedKey::F5 => "F5"@,
        NamedKey::F6 => "F6"@,
        NamedKey::F7 => "F7"@,
        NamedKey::F8 => "F8"@,
        NamedKey::F9 => "F9"@,
        NamedKey::F10 => "F10"@,
        NamedKey::F11 => "F11"@,
        NamedKey::F12 => "F12"@,
        NamedKey::Other(name) => name@,
    }
}

/// The name of a named key.
pub fn named_key_name(k: &NamedKey) -> (name: &str)
    ensures
        name@ == key_name(*k),
{
    match k {
        NamedKey::Enter => "Enter",
        NamedKey::Backspace => "Backspace",
        NamedKey::Tab => "Tab",
        NamedKey::Escape => "Escape",
        NamedKey::ArrowUp => "ArrowUp",
        NamedKey::ArrowDown => "ArrowDown",
        NamedKey::ArrowRight => "ArrowRight",
        NamedKey::ArrowLeft => "ArrowLeft",
        NamedKey::Home => "Home",
        NamedKey::End => "End",
        NamedKey::PageUp => "PageUp",
        NamedKey::PageDown => "PageDown",
        NamedKey::Delete => "Delete",
        NamedKey::Insert => "Insert",
        NamedKey::F1 => "F1",
        NamedKey::F2 => "F2",
        NamedKey::F3 => "F3",
        NamedKey::F4 => "F4",
        NamedKey::F5 => "F5",
        NamedKey::F6 => "F6",
        NamedKey::F7 => "F7",
        NamedKey::F8 => "F8",
        NamedKey::F9 => "F9",
        NamedKey::F10 => "F10",
        NamedKey::F11 => "F11",
        NamedKey::F12 => "F12",
        NamedKey::Other(name) => name.as_str(),
    }
}

/// The bytes a named key sends to the shell, with the arrow keys in
/// application cursor mode or not; `None` for a key that sends nothing.
pub open spec fn named_key_bytes(k: NamedKey, app_cursor: bool) -> Option<Seq<u8>> {
    match k {
        NamedKey::Enter => Some(seq![0x0du8]),
        NamedKey::Backspace => Some(seq![0x7fu8]),
        NamedKey::Tab => Some(seq![0x09u8]),
        NamedKey::Escape => Some(seq![0x1bu8]),
        NamedKey::ArrowUp => Some(
            if app_cursor {
                seq![0x1bu8, 0x4fu8, 0x41u8]
            } else {
                seq![0x1bu8, 0x5bu8, 0x41u8]
            },
        ),
        NamedKey::ArrowDown => Some(
            if app_cursor {
                seq![0x1bu8, 0x4fu8, 0x42u8]
            } else {
                seq![0x1bu8, 0x5bu8, 0x42u8]
            },
        ),
        NamedKey::ArrowRight => Some(
            if app_cursor {
                seq![0x1bu8, 0x4fu8, 0x43u8]
            } else {
                seq![0x1bu8, 0x5bu8, 0x43u8]
            },
        ),
        NamedKey::ArrowLeft => Some(
            if app_cursor {
                seq![0x1bu8, 0x4fu8, 0x44u8]
            } else {
                seq![0x1bu8, 0x5bu8, 0x44u8]
            },
        ),
        NamedKey::Home => Some(seq![0x1bu8, 0x5bu8, 0x48u8]),
        NamedKey::End => Some(seq![0x1bu8, 0x5bu8, 0x46u8]),
        NamedKey::PageUp => Some(seq![0x1bu8, 0x5bu8, 0x35u8, 0x7eu8]),
        NamedKey::PageDown => Some(seq![0x1bu8, 0x5bu8, 0x36u8, 0x7eu8]),
        NamedKey::Delete => Some(seq![0x1bu8, 0x5bu8, 0x33u8, 0x7eu8]),
        NamedKey::Insert => Some(seq![0x1bu8, 0x5bu8, 0x32u8, 0x7eu8]),
        NamedKey::F1 => Some(seq![0x1bu8, 0x4fu8, 0x50u8]),
        NamedKey::F2 => Some(seq![0x1bu8, 0x4fu8, 0x51u8]),
        NamedKey::F3 => Some(seq![0x1bu8, 0x4fu8, 0x52u8]),
        NamedKey::F4 => Some(seq![0x1bu8, 0x4fu8, 0x53u8]),
        NamedKey::F5 => Some(seq![0x1bu8, 0x5bu8, 0x31u8, 0x35u8, 0x7eu8]),
        NamedKey::F6 => Some(seq![0x1bu8, 0x5bu8, 0x31u8, 0x37u8, 0x7eu8]),
        NamedKey::F7 => Some(seq![0x1bu8, 0x5bu8, 0x31u8, 0x38u8, 0x7eu8]),
        NamedKey::F8 => Some(seq![0x1bu8, 0x5bu8, 0x31u8, 0x39u8, 0x7eu8]),
        NamedKey::F9 => Some(seq![0x1bu8, 0x5bu8, 0x32u8, 0x30u8, 0x7eu8]),
        NamedKey::F10 => Some(seq![0x1bu8, 0x5bu8, 0x32u8, 0x31u8, 0x7eu8]),
        NamedKey::F11 => Some(seq![0x1bu8, 0x5bu8, 0x32u8, 0x33u8, 0x7eu8]),
        NamedKey::F12 => Some(seq![0x1bu8, 0x5bu8, 0x32u8, 0x34u8, 0x7eu8]),
        NamedKey::Other(_) => None,
    }
}

/// The bytes a key event sends to the shell: nothing on release, the
/// escape sequence of a named key, or the UTF-8 text of a character key.
pub open spec fn key_bytes(pressed: bool, key: KeyPress, app_cursor: bool) -> Option<Seq<u8>> {
    if !pressed {
        None
    } else {
        match key {
            KeyPress::Named(k) => named_key_bytes(k, app_cursor),
            KeyPress::Character(text) => if text@.len() == 0 {
                None
            } else {
                Some(vstd::utf8::encode_utf8(text@))
            },
            KeyPress::Unidentified => None,
        }
    }
}

/// Translates a key event to the bytes that go to the shell.
pub fn translate_key_input(pressed: bool, key: &KeyPress, app_cursor: bool) -> (r: Option<
    Vec<u8>,
>)
    ensures
        r matches Some(v) ==> key_bytes(pressed, *key, app_cursor) == Some(v@),
        r is None ==> key_bytes(pressed, *key, app_cursor) is None,
        !pressed ==> r is None,
        pressed && *key == KeyPress::Named(NamedKey::Enter) ==> (r matches Some(v) && v@ == seq![0x0du8]),
        pressed && *key == KeyPress::Named(NamedKey::Backspace) ==> (r matches Some(v) && v@ == seq![0x7fu8]),
        pressed && *key == KeyPress::Named(NamedKey::Tab) ==> (r matches Some(v) && v@ == seq![0x09u8]),
        pressed && *key == KeyPress::Named(NamedKey::Escape) ==> (r matches Some(v) && v@ == seq![0x1bu8]),
        pressed && *key == KeyPress::Named(NamedKey::ArrowUp) ==> (r matches Some(v) && v@ == seq![
            0x1bu8,
            if app_cursor { 0x4fu8 } else { 0x5bu8 },
            0x41u8,
        ]),
        pressed && *key == KeyPress::Named(NamedKey::ArrowDown) ==> (r matches Some(v) && v@ == seq![
            0x1bu8,
            if app_cursor { 0x4fu8 } else { 0x5bu8 },
            0x42u8,
        ]),
        pressed && *key == KeyPress::Named(NamedKey::ArrowRight) ==> (r matches Some(v) && v@ == seq![
            0x1bu8,
            if app_cursor { 0x4fu8 } else { 0x5bu8 },
            0x43u8,
        ]),
        pressed && *key == KeyPress::Named(NamedKey::ArrowLeft) ==> (r matches Some(v) && v@ == seq![
            0x1bu8,
            if app_cursor { 0x4fu8 } else { 0x5bu8 },
            0x44u8,
        ]),
{
    if !pressed {
        return None;
    }
    match key {
        KeyPress::Named(named) => {
            let bytes: Vec<u8> = match named {
                NamedKey::Enter => vec![0x0du8],
                NamedKey::Backspace => vec![0x7fu8],
                NamedKey::Tab => vec![0x09u8],
                NamedKey::Escape => vec![0x1bu8],
                NamedKey::ArrowUp => if app_cursor {
                    vec![0x1bu8, 0x4fu8, 0x41u8]
                } else {
                    vec![0x1bu8, 0x5bu8, 0x41u8]
                },
                NamedKey::ArrowDown => if app_cursor {
                    vec![0x1bu8, 0x4fu8, 0x42u8]
                } else {
                    vec![0x1bu8, 0x5bu8, 0x42u8]
                },
                NamedKey::ArrowRight => if app_cursor {
                    vec![0x1bu8, 0x4fu8, 0x43u8]
                } else {
                    vec![0x1bu8, 0x5bu8, 0x43u8]
                },
                NamedKey::ArrowLeft => if app_cursor {
                    vec![0x1bu8, 0x4fu8, 0x44u8]
                } else {
                    vec![0x1bu8, 0x5bu8, 0x44u8]
                },
                NamedKey::Home => vec![0x1bu8, 0x5bu8, 0x48u8],
                NamedKey::End => vec![0x1bu8, 0x5bu8, 0x46u8],
                NamedKey::PageUp => vec![0x1bu8, 0x5bu8, 0x35u8, 0x7eu8],
                NamedKey::PageDown => vec![0x1bu8, 0x5bu8, 0x36u8, 0x7eu8],
                NamedKey::Delete => vec![0x1bu8, 0x5bu8, 0x33u8, 0x7eu8],
                NamedKey::Insert => vec![0x1bu8, 0x5bu8, 0x32u8, 0x7eu8],
                NamedKey::F1 => vec![0x1bu8, 0x4fu8, 0x50u8],
                NamedKey::F2 => vec![0x1bu8, 0x4fu8, 0x51u8],
                NamedKey::F3 => vec![0x1bu8, 0x4fu8, 0x52u8],
                NamedKey::F4 => vec![0x1bu8, 0x4fu8, 0x53u8],
                NamedKey::F5 => vec![0x1bu8, 0x5bu8, 0x31u8, 0x35u8, 0x7eu8],
                NamedKey::F6 => vec![0x1bu8, 0x5bu8, 0x31u8, 0x37u8, 0x7eu8],
                NamedKey::F7 => vec![0x1bu8, 0x5bu8, 0x31u8, 0x38u8, 0x7eu8],
                NamedKey::F8 => vec![0x1bu8, 0x5bu8, 0x31u8, 0x39u8, 0x7eu8],
                NamedKey::F9 => vec![0x1bu8, 0x5bu8, 0x32u8, 0x30u8, 0x7eu8],
                NamedKey::F10 => vec![0x1bu8, 0x5bu8, 0x32u8, 0x31u8, 0x7eu8],
                NamedKey::F11 => vec![0x1bu8, 0x5bu8, 0x32u8, 0x33u8, 0x7eu8],
                NamedKey::F12 => vec![0x1bu8, 0x5bu8, 0x32u8, 0x34u8, 0x7eu8],
                NamedKey::Other(_) => {
                    return None;
                },
            };
            Some(bytes)
        },
        KeyPress::Character(text) => {
            let s = text.as_str();
            if s.is_empty() {
                return None;
            }
            Some(vstd::slice::slice_to_vec(s.as_bytes()))
        },
        KeyPress::Unidentified => None,
    }
}

/// `a` and `b` are equal when ASCII letters are compared without case.
/// Comparing characters this way agrees with comparing the UTF-8 bytes
/// this way, since only one-byte characters change case.
pub open spec fn eq_ignore_ascii_case(a: Seq<char>, b: Seq<char>) -> bool {
    &&& a.len() == b.len()
    &&& forall|i: int| 0 <= i < a.len() ==> ascii_lower(#[trigger] a[i]) == ascii_lower(b[i])
}

/// The lower case of an ASCII letter; every other character as it is.
pub fn ascii_lower_char(c: char) -> (r: char)
    ensures
        r == ascii_lower(c),
{
    if 'A' <= c && c <= 'Z' {
        let b: u8 = c as u8;
        (b + 32) as char
    } else {
        c
    }
}

/// Whether `a` and `b` are equal when ASCII letters are compared without
/// case.
pub fn chars_eq_ignore_ascii_case(a: &Vec<char>, b: &Vec<char>) -> (same: bool)
    ensures
        same == eq_ignore_ascii_case(a@, b@),
{
    if a.len() != b.len() {
        return false;
    }
    let mut i: usize = 0;
    while i < a.len()
        invariant
            a@.len() == b@.len(),
            i <= a@.len(),
            forall|j: int| 0 <= j < i ==> ascii_lower(#[trigger] a@[j]) == ascii_lower(b@[j]),
        decreases a@.len() - i,
    {
        if ascii_lower_char(a[i]) != ascii_lower_char(b[i]) {
            return false;
        }
        i = i + 1;
    }
    true
}

/// Whether the UTF-8 encoding of `v` fits in `limit` bytes.
fn fits_in_bytes(v: &Vec<char>, limit: usize) -> (fits: bool)
    ensures
        fits == (byte_len(v@) <= limit),
{
    let mut total: usize = 0;
    let mut i: usize = 0;
    proof {
        assert(v@.take(0) =~= Seq::<char>::empty());
    }
    while i < v.len()
        invariant
            i <= v@.len(),
            total == byte_len(v@.take(i as int)),
            total <= limit,
        decreases v@.len() - i,
    {
        proof {
            lemma_byte_len_take(v@, i as int);
        }
        let w = char_utf8_len(v[i]);
        if w > limit - total {
            proof {
                crate::input::lemma_byte_len_monotone(v@, i + 1, v@.len() as int);
                assert(v@.take(v@.len() as int) =~= v@);
            }
            return false;
        }
        total = total + w;
        i = i + 1;
    }
    proof {
        assert(v@.take(v@.len() as int) =~= v@);
    }
    true
}

/// A user key binding: a key name, the modifiers it needs, and what it
/// does.
#[derive(Debug, Clone)]
pub struct KeyBinding<A> {
    /// The key, by its character or its name, compared without ASCII case.
    pub key: String,
    /// The modifiers, each one of `Super`, `Ctrl` or `Control`, `Shift`,
    /// `Alt` or `Option`.
    pub modifiers: Vec<String>,
    pub action: A,
}

/// The four modifiers a binding can name.
#[derive(Debug, Clone, Copy, PartialEq, Eq, Structural)]
pub enum ModifierKind {
    Super,
    Ctrl,
    Shift,
    Alt,
    /// A name that is none of them.
    Unknown,
}

/// Which modifier a name in a binding stands for.
pub open spec fn modifier_kind(m: Seq<char>) -> ModifierKind {
    if m == "Super"@ {
        ModifierKind::Super
    } else if m == "Ctrl"@ || m == "Control"@ {
        ModifierKind::Ctrl
    } else if m == "Shift"@ {
        ModifierKind::Shift
    } else if m == "Alt"@ || m == "Option"@ {
        ModifierKind::Alt
    } else {
        ModifierKind::Unknown
    }
}

/// Which modifier a name in a binding stands for.
pub fn modifier_kind_of(m: &str) -> (k: ModifierKind)
    ensures
        k == modifier_kind(m@),
{
    if str_eq(m, "Super") {
        ModifierKind::Super
    } else if str_eq(m, "Ctrl") || str_eq(m, "Control") {
        ModifierKind::Ctrl
    } else if str_eq(m, "Shift") {
        ModifierKind::Shift
    } else if str_eq(m, "Alt") || str_eq(m, "Option") {
        ModifierKind::Alt
    } else {
        ModifierKind::Unknown
    }
}

/// Whether the modifier `k` is held.
pub open spec fn held(mods: Modifiers, k: ModifierKind) -> bool {
    match k {
        ModifierKind::Super => mods.super_key,
        ModifierKind::Ctrl => mods.ctrl,
        ModifierKind::Shift => mods.shift,
        ModifierKind::Alt => mods.alt,
        ModifierKind::Unknown => false,
    }
}

/// Whether some name in `names` stands for `k`.
pub open spec fn names_modifier(names: Seq<String>, k: ModifierKind) -> bool {
    exists|i: int| 0 <= i < names.len() && modifier_kind(#[trigger] names[i]@) == k
}

/// The key of a binding matches the key pressed: a character key by its
/// text, a named key by its name (a name of more than 32 bytes never
/// matches), both without ASCII case.
pub open spec fn key_matches(key: KeyPress, binding_key: Seq<char>) -> bool {
    match key {
        KeyPress::Character(text) => eq_ignore_ascii_case(text@, binding_key),
        KeyPress::Named(k) => byte_len(key_name(k)) <= 32 && eq_ignore_ascii_case(
            key_name(k),
            binding_key,
        ),
        KeyPress::Unidentified => false,
    }
}

/// A binding fires when its key matches, every modifier it names is a
/// known one that is held, and no other modifier is held.
pub open spec fn binding_fires<A>(b: KeyBinding<A>, key: KeyPress, mods: Modifiers) -> bool {
    &&& key_matches(key, b.key@)
    &&& forall|i: int|
        0 <= i < b.modifiers@.len() ==> held(mods, modifier_kind(#[trigger] b.modifiers@[i]@))
    &&& mods.super_key == names_modifier(b.modifiers@, ModifierKind::Super)
    &&& mods.ctrl == names_modifier(b.modifiers@, ModifierKind::Ctrl)
    &&& mods.shift == names_modifier(b.modifiers@, ModifierKind::Shift)
    &&& mods.alt == names_modifier(b.modifiers@, ModifierKind::Alt)
}

/// Whether the key of a binding matches the key pressed.
fn key_matches_exec(key: &KeyPress, binding_key: &str) -> (m: bool)
    ensures
        m == key_matches(*key, binding_key@),
{
    let want = str_to_chars(binding_key);
    match key {
        KeyPress::Character(text) => {
            let got = str_to_chars(text.as_str());
            chars_eq_ignore_ascii_case(&got, &want)
        },
        KeyPress::Named(k) => {
            let got = str_to_chars(named_key_name(k));
            fits_in_bytes(&got, 32) && chars_eq_ignore_ascii_case(&got, &want)
        },
        KeyPress::Unidentified => false,
    }
}

/// Whether a binding fires on a key press with the given modifiers held.
pub fn binding_fires_exec<A>(b: &KeyBinding<A>, key: &KeyPress, mods: Modifiers) -> (f: bool)
    ensures
        f == binding_fires(*b, *key, mods),
{
    if !key_matches_exec(key, b.key.as_str()) {
        return false;
    }
    let mut need_super = false;
    let mut need_ctrl = false;
    let mut need_shift = false;
    let mut need_alt = false;
    let mut all_held = true;
    let mut i: usize = 0;
    while i < b.modifiers.len()
        invariant
            i <= b.modifiers@.len(),
            need_super == names_modifier(b.modifiers@.take(i as int), ModifierKind::Super),
            need_ctrl == names_modifier(b.modifiers@.take(i as int), ModifierKind::Ctrl),
            need_shift == names_modifier(b.modifiers@.take(i as int), ModifierKind::Shift),
            need_alt == names_modifier(b.modifiers@.take(i as int), ModifierKind::Alt),
            all_held == forall|j: int|
                0 <= j < i ==> held(mods, modifier_kind(#[trigger] b.modifiers@[j]@)),
        decreases b.modifiers@.len() - i,
    {
        let k = modifier_kind_of(b.modifiers[i].as_str());
        let ghost prev = b.modifiers@.take(i as int);
        let ghost next = b.modifiers@.take(i + 1);
        proof {
            assert(next =~= prev.push(b.modifiers@[i as int]));
            assert forall|kind: ModifierKind|
                names_modifier(next, kind) == (names_modifier(prev, kind) || k == kind) by {
                if names_modifier(next, kind) {
                    let j = choose|j: int| 0 <= j < next.len() && modifier_kind(#[trigger] next[j]@) == kind;
                    if j < i {
                        assert(prev[j] == next[j]);
                    }
                }
                if names_modifier(prev, kind) {
                    let j = choose|j: int| 0 <= j < prev.len() && modifier_kind(#[trigger] prev[j]@) == kind;
                    assert(prev[j] == next[j]);
                }
                if k == kind {
                    assert(next[i as int] == b.modifiers@[i as int]);
                }
            }
        }
        match k {
            ModifierKind::Super => {
                need_super = true;
            },
            ModifierKind::Ctrl => {
                need_ctrl = true;
            },
            ModifierKind::Shift => {
                need_shift = true;
            },
            ModifierKind::Alt => {
                need_alt = true;
            },
            ModifierKind::Unknown => {},
        }
        let is_held = match k {
            ModifierKind::Super => mods.super_key,
            ModifierKind::Ctrl => mods.ctrl,
            ModifierKind::Shift => mods.shift,
            ModifierKind::Alt => mods.alt,
            ModifierKind::Unknown => false,
        };
        all_held = all_held && is_held;
        i = i + 1;
    }
    proof {
        assert(b.modifiers@.take(b.modifiers@.len() as int) =~= b.modifiers@);
    }
    all_held && mods.super_key == need_super && mods.ctrl == need_ctrl && mods.shift == need_shift
        && mods.alt == need_alt
}

/// The first binding that fires on a key press, by its index, or `None`
/// when none does.
pub fn find_keybind_action<A>(bindings: &[KeyBinding<A>], key: &KeyPress, mods: Modifiers) -> (r:
    Option<usize>)
    ensures
        r matches Some(i) ==> i < bindings@.len() && binding_fires(bindings@[i as int], *key, mods)
            && forall|j: int| 0 <= j < i ==> !binding_fires(#[trigger] bindings@[j], *key, mods),
        r is None ==> forall|j: int|
            0 <= j < bindings@.len() ==> !binding_fires(#[trigger] bindings@[j], *key, mods),
{
    let mut i: usize = 0;
    while i < bindings.len()
        invariant
            i <= bindings@.len(),
            forall|j: int| 0 <= j < i ==> !binding_fires(#[trigger] bindings@[j], *key, mods),
        decreases bindings@.len() - i,
    {
        if binding_fires_exec(&bindings[i], key, mods) {
            return Some(i);
        }
        i = i + 1;
    }
    None
}

/// Law: each arrow key sends escape, then `[` (or `O` in application
/// cursor mode), then its own final byte: `A` up, `B` down, `C` right, `D`
/// left; so no two arrow keys send the same bytes.
pub proof fn law_arrow_keys(app_cursor: bool)
    ensures
        ({
            let prefix: u8 = if app_cursor { 0x4fu8 } else { 0x5bu8 };
            &&& key_bytes(true, KeyPress::Named(NamedKey::ArrowUp), app_cursor) == Some(seq![0x1bu8, prefix, 0x41u8])
            &&& key_bytes(true, KeyPress::Named(NamedKey::ArrowDown), app_cursor) == Some(seq![0x1bu8, prefix, 0x42u8])
            &&& key_bytes(true, KeyPress::Named(NamedKey::ArrowRight), app_cursor) == Some(seq![0x1bu8, prefix, 0x43u8])
            &&& key_bytes(true, KeyPress::Named(NamedKey::ArrowLeft), app_cursor) == Some(seq![0x1bu8, prefix, 0x44u8])
        }),
        forall|a: NamedKey, b: NamedKey|
            #![trigger named_key_bytes(a, app_cursor), named_key_bytes(b, app_cursor)]
            is_arrow(a) && is_arrow(b) && a != b ==> named_key_bytes(a, app_cursor) != named_key_bytes(b, app_cursor),
{
    assert forall|a: NamedKey, b: NamedKey|
        #![trigger named_key_bytes(a, app_cursor), named_key_bytes(b, app_cursor)]
        is_arrow(a) && is_arrow(b) && a != b implies named_key_bytes(a, app_cursor) != named_key_bytes(b, app_cursor) by {
        let x = named_key_bytes(a, app_cursor)->0;
        let y = named_key_bytes(b, app_cursor)->0;
        assert(x[2] != y[2]);
    }
}

/// The four arrow keys.
pub open spec fn is_arrow(k: NamedKey) -> bool {
    k == NamedKey::ArrowUp || k == NamedKey::ArrowDown || k == NamedKey::ArrowRight || k == NamedKey::ArrowLeft
}

/// The length, the last byte, and the third and fourth bytes (zero where
/// there are none) of a byte sequence.
pub open spec fn byte_signature(b: Seq<u8>) -> (nat, u8, u8, u8) {
    (b.len(), b.last(), if b.len() > 2 { b[2] } else { 0 }, if b.len() > 3 { b[3] } else { 0 })
}

/// Law: no two named keys send the same bytes to the shell, in either
/// cursor mode: each key is told apart by the program reading them.
pub proof fn law_named_keys_send_distinct_bytes(a: NamedKey, b: NamedKey, app_cursor: bool)
    requires
        a != b,
        named_key_bytes(a, app_cursor) is Some,
        named_key_bytes(b, app_cursor) is Some,
    ensures
        named_key_bytes(a, app_cursor) != named_key_bytes(b, app_cursor),
{
    let x = named_key_bytes(a, app_cursor)->0;
    let y = named_key_bytes(b, app_cursor)->0;
    assert(byte_signature(x) != byte_signature(y));
}

} // verus!
