use minal::event::{command_completed_events, HookRegistry, HookResponse, PluginEvent};

#[test]
fn hook_registry_register_and_lookup() {
    let mut reg = HookRegistry::new();
    reg.register(0, true, false, true);
    reg.register(1, false, true, false);
    reg.register(2, true, true, true);

    let cmd_event = PluginEvent::Command {
        command: "ls".to_string(),
        working_dir: "/tmp".to_string(),
    };
    assert_eq!(reg.subscribers(&cmd_event), &[0, 2]);

    let out_event = PluginEvent::Output {
        data: "hello".to_string(),
    };
    assert_eq!(reg.subscribers(&out_event), &[1, 2]);

    let err_event = PluginEvent::Error {
        command: "false".to_string(),
        exit_code: 1,
        stderr: String::new(),
    };
    assert_eq!(reg.subscribers(&err_event), &[0, 2]);
}

#[test]
fn hook_registry_unregister() {
    let mut reg = HookRegistry::new();
    reg.register(0, true, true, true);
    reg.register(1, true, true, true);
    reg.unregister(0);

    let cmd_event = PluginEvent::Command {
        command: "ls".to_string(),
        working_dir: "/tmp".to_string(),
    };
    assert_eq!(reg.subscribers(&cmd_event), &[1]);
}

#[test]
fn hook_response_defaults() {
    let resp = HookResponse::default();
    assert!(!resp.suppress);
    assert!(resp.modified_command.is_none());
    assert!(resp.message.is_none());
}

#[test]
fn unregister_removes_every_occurrence_and_keeps_order() {
    let mut reg = HookRegistry::new();
    reg.register(3, true, false, false);
    reg.register(1, true, true, false);
    reg.register(3, true, true, true);
    reg.register(2, true, false, true);
    reg.unregister(3);
    assert_eq!(reg.command_hooks, vec![1, 2]);
    assert_eq!(reg.output_hooks, vec![1]);
    assert_eq!(reg.error_hooks, vec![2]);
}

#[test]
fn register_with_no_hooks_changes_nothing() {
    let mut reg = HookRegistry::new();
    reg.register(7, false, false, false);
    assert!(reg.command_hooks.is_empty());
    assert!(reg.output_hooks.is_empty());
    assert!(reg.error_hooks.is_empty());
}

#[test]
fn finished_commands_become_plugin_events() {
    let ok = command_completed_events("ls", 0, "a b");
    assert_eq!(ok.len(), 1);
    match &ok[0] {
        PluginEvent::Command { command, working_dir } => {
            assert_eq!(command, "ls");
            assert_eq!(working_dir, "");
        }
        other => panic!("unexpected {other:?}"),
    }
    let failed = command_completed_events("make", 2, "error: x");
    assert_eq!(failed.len(), 2);
    match &failed[1] {
        PluginEvent::Error { command, exit_code, stderr } => {
            assert_eq!(command, "make");
            assert_eq!(*exit_code, 2);
            assert_eq!(stderr, "error: x");
        }
        other => panic!("unexpected {other:?}"),
    }
}
