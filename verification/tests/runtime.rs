use minal::event::PluginEvent;
use minal::plugin_error::PluginError;
use minal::runtime::{
    hook_export_name, read_string_from_memory, require_completion, unpack_string_ref,
    write_string_to_memory,
};

#[test]
fn hooks_map_to_their_exports() {
    let cmd = PluginEvent::Command { command: "ls".to_string(), working_dir: "/".to_string() };
    let out = PluginEvent::Output { data: "x".to_string() };
    let err = PluginEvent::Error { command: "false".to_string(), exit_code: 1, stderr: String::new() };
    assert_eq!(hook_export_name(&cmd), "minal_on_command");
    assert_eq!(hook_export_name(&out), "minal_on_output");
    assert_eq!(hook_export_name(&err), "minal_on_error");
}

#[test]
fn packed_references_unpack() {
    assert_eq!(unpack_string_ref(0), None);
    assert_eq!(unpack_string_ref((16i64 << 32) | 5), Some((16, 5)));
    assert_eq!(unpack_string_ref(7), Some((0, 7)));
    assert_eq!(unpack_string_ref(-1), Some((0xFFFF_FFFF, 0xFFFF_FFFF)));
}

#[test]
fn write_then_read_round_trips() {
    let mut memory = vec![0u8; 32];
    let (ptr, len) = write_string_to_memory(&mut memory, 4, "héllo").unwrap();
    assert_eq!((ptr, len), (4, 6));
    assert_eq!(&memory[4..10], "héllo".as_bytes());
    assert_eq!(memory[3], 0);
    assert_eq!(memory[10], 0);
    assert_eq!(read_string_from_memory(&memory, ptr, len).unwrap(), "héllo");
}

#[test]
fn write_out_of_bounds_is_refused() {
    let mut memory = vec![0u8; 8];
    match write_string_to_memory(&mut memory, 6, "abc") {
        Err(PluginError::Call(m)) => {
            assert_eq!(m, "minal_alloc returned out-of-bounds pointer: ptr=6, len=3, mem=8")
        }
        other => panic!("unexpected {other:?}"),
    }
    assert_eq!(memory, vec![0u8; 8]);
    assert!(write_string_to_memory(&mut memory, usize::MAX, "a").is_err());
}

#[test]
fn read_out_of_bounds_is_refused() {
    let memory = vec![b'a'; 10];
    match read_string_from_memory(&memory, 8, 5) {
        Err(PluginError::InvalidResponse(m)) => {
            assert_eq!(m, "out-of-bounds read: offset=8, length=5, mem=10")
        }
        other => panic!("unexpected {other:?}"),
    }
    assert!(read_string_from_memory(&memory, usize::MAX, 2).is_err());
    assert_eq!(read_string_from_memory(&memory, 10, 0).unwrap(), "");
}

#[test]
fn invalid_utf8_is_refused() {
    let memory = vec![0xffu8, 0xfe];
    match read_string_from_memory(&memory, 0, 2) {
        Err(PluginError::InvalidResponse(m)) => assert!(m.starts_with("invalid UTF-8: ")),
        other => panic!("unexpected {other:?}"),
    }
}

#[test]
fn completions_are_required() {
    assert_eq!(require_completion(Ok(Some("ls".to_string()))).unwrap(), "ls");
    match require_completion(Ok(None)) {
        Err(PluginError::Call(m)) => assert_eq!(m, "plugin did not return a completion"),
        other => panic!("unexpected {other:?}"),
    }
    match require_completion(Err(PluginError::NotFound("p".to_string()))) {
        Err(PluginError::NotFound(m)) => assert_eq!(m, "p"),
        other => panic!("unexpected {other:?}"),
    }
}
