use minal::keys::{
    find_keybind_action, translate_key_input, KeyBinding, KeyPress, Modifiers, NamedKey,
};

fn named(k: NamedKey) -> KeyPress {
    KeyPress::Named(k)
}

fn binding(key: &str, mods: &[&str], action: u32) -> KeyBinding<u32> {
    KeyBinding {
        key: key.to_string(),
        modifiers: mods.iter().map(|m| m.to_string()).collect(),
        action,
    }
}

#[test]
fn named_keys_send_their_escape_sequences() {
    assert_eq!(translate_key_input(true, &named(NamedKey::Enter), false), Some(b"\r".to_vec()));
    assert_eq!(translate_key_input(true, &named(NamedKey::Backspace), false), Some(vec![0x7f]));
    assert_eq!(translate_key_input(true, &named(NamedKey::Tab), false), Some(b"\t".to_vec()));
    assert_eq!(translate_key_input(true, &named(NamedKey::Escape), false), Some(vec![0x1b]));
    assert_eq!(translate_key_input(true, &named(NamedKey::Home), false), Some(b"\x1b[H".to_vec()));
    assert_eq!(translate_key_input(true, &named(NamedKey::End), false), Some(b"\x1b[F".to_vec()));
    assert_eq!(translate_key_input(true, &named(NamedKey::PageUp), false), Some(b"\x1b[5~".to_vec()));
    assert_eq!(translate_key_input(true, &named(NamedKey::PageDown), false), Some(b"\x1b[6~".to_vec()));
    assert_eq!(translate_key_input(true, &named(NamedKey::Delete), false), Some(b"\x1b[3~".to_vec()));
    assert_eq!(translate_key_input(true, &named(NamedKey::Insert), false), Some(b"\x1b[2~".to_vec()));
    assert_eq!(translate_key_input(true, &named(NamedKey::F1), false), Some(b"\x1bOP".to_vec()));
    assert_eq!(translate_key_input(true, &named(NamedKey::F4), false), Some(b"\x1bOS".to_vec()));
    assert_eq!(translate_key_input(true, &named(NamedKey::F5), false), Some(b"\x1b[15~".to_vec()));
    assert_eq!(translate_key_input(true, &named(NamedKey::F10), false), Some(b"\x1b[21~".to_vec()));
    assert_eq!(translate_key_input(true, &named(NamedKey::F11), false), Some(b"\x1b[23~".to_vec()));
    assert_eq!(translate_key_input(true, &named(NamedKey::F12), false), Some(b"\x1b[24~".to_vec()));
}

#[test]
fn arrows_follow_application_cursor_mode() {
    assert_eq!(translate_key_input(true, &named(NamedKey::ArrowUp), false), Some(b"\x1b[A".to_vec()));
    assert_eq!(translate_key_input(true, &named(NamedKey::ArrowUp), true), Some(b"\x1bOA".to_vec()));
    assert_eq!(translate_key_input(true, &named(NamedKey::ArrowDown), true), Some(b"\x1bOB".to_vec()));
    assert_eq!(translate_key_input(true, &named(NamedKey::ArrowRight), false), Some(b"\x1b[C".to_vec()));
    assert_eq!(translate_key_input(true, &named(NamedKey::ArrowLeft), true), Some(b"\x1bOD".to_vec()));
}

#[test]
fn releases_and_unknown_keys_send_nothing() {
    assert_eq!(translate_key_input(false, &named(NamedKey::Enter), false), None);
    assert_eq!(translate_key_input(true, &named(NamedKey::Other("Space".to_string())), false), None);
    assert_eq!(translate_key_input(true, &KeyPress::Unidentified, false), None);
    assert_eq!(translate_key_input(true, &KeyPress::Character(String::new()), false), None);
}

#[test]
fn character_keys_send_their_utf8_text() {
    assert_eq!(translate_key_input(true, &KeyPress::Character("a".to_string()), false), Some(b"a".to_vec()));
    assert_eq!(
        translate_key_input(true, &KeyPress::Character("é".to_string()), false),
        Some(vec![0xc3, 0xa9])
    );
}

#[test]
fn binding_matches_character_without_case() {
    let bindings = vec![binding("t", &["Super"], 1), binding("T", &["Ctrl", "Shift"], 2)];
    let cmd = Modifiers { super_key: true, ..Modifiers::default() };
    assert_eq!(find_keybind_action(&bindings, &KeyPress::Character("T".to_string()), cmd), Some(0));
    let ctrl_shift = Modifiers { ctrl: true, shift: true, ..Modifiers::default() };
    assert_eq!(find_keybind_action(&bindings, &KeyPress::Character("t".to_string()), ctrl_shift), Some(1));
}

#[test]
fn extra_or_missing_modifiers_block_a_binding() {
    let bindings = vec![binding("c", &["Super"], 1)];
    let none = Modifiers::default();
    assert_eq!(find_keybind_action(&bindings, &KeyPress::Character("c".to_string()), none), None);
    let more = Modifiers { super_key: true, shift: true, ..Modifiers::default() };
    assert_eq!(find_keybind_action(&bindings, &KeyPress::Character("c".to_string()), more), None);
}

#[test]
fn modifier_aliases_and_unknown_names() {
    let bindings = vec![binding("x", &["Bogus"], 1), binding("x", &["Control", "Option"], 2)];
    let mods = Modifiers { ctrl: true, alt: true, ..Modifiers::default() };
    assert_eq!(find_keybind_action(&bindings, &KeyPress::Character("x".to_string()), mods), Some(1));
    assert_eq!(
        find_keybind_action(&bindings, &KeyPress::Character("x".to_string()), Modifiers::default()),
        None
    );
}

#[test]
fn named_keys_match_by_name() {
    let bindings = vec![binding("pageup", &["Shift"], 7), binding("Space", &[], 8)];
    let shift = Modifiers { shift: true, ..Modifiers::default() };
    assert_eq!(find_keybind_action(&bindings, &named(NamedKey::PageUp), shift), Some(0));
    assert_eq!(
        find_keybind_action(&bindings, &named(NamedKey::Other("Space".to_string())), Modifiers::default()),
        Some(1)
    );
    assert_eq!(find_keybind_action(&bindings, &KeyPress::Unidentified, Modifiers::default()), None);
}

#[test]
fn overlong_key_names_never_match() {
    let long = "A".repeat(33);
    let bindings = vec![binding(&long, &[], 1)];
    assert_eq!(
        find_keybind_action(&bindings, &named(NamedKey::Other(long.clone())), Modifiers::default()),
        None
    );
    let ok = "A".repeat(32);
    let bindings = vec![binding(&ok, &[], 1)];
    assert_eq!(find_keybind_action(&bindings, &named(NamedKey::Other(ok.clone())), Modifiers::default()), Some(0));
}

#[test]
fn first_matching_binding_wins() {
    let bindings = vec![binding("w", &["Super"], 1), binding("W", &["Super"], 2)];
    let cmd = Modifiers { super_key: true, ..Modifiers::default() };
    let i = find_keybind_action(&bindings, &KeyPress::Character("w".to_string()), cmd).unwrap();
    assert_eq!(bindings[i].action, 1);
}

#[test]
fn default_split_bindings_are_told_apart_by_shift() {
    let bindings = vec![binding("d", &["Super"], 1), binding("D", &["Super", "Shift"], 2)];
    let cmd = Modifiers { super_key: true, ..Modifiers::default() };
    let cmd_shift = Modifiers { super_key: true, shift: true, ..Modifiers::default() };
    assert_eq!(find_keybind_action(&bindings, &KeyPress::Character("d".to_string()), cmd), Some(0));
    assert_eq!(find_keybind_action(&bindings, &KeyPress::Character("D".to_string()), cmd_shift), Some(1));
}
