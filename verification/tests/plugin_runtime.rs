use minal::event::PluginEvent;
use minal::manager::PluginManager;
use minal::manifest::{HookConfig, PluginManifest, PluginMeta};
use minal::plugin_error::PluginError;
use minal::runtime::PluginInstance;
use wasmtime::{Config, Engine, Module};
use wasmtime_wasi::WasiCtxBuilder;

const ECHO_PLUGIN: &str = r#"
(module
  (memory (export "memory") 1)
  (data (i32.const 16) "{\"name\":\"demo\"}")
  (func (export "minal_alloc") (param i32) (result i32) (i32.const 1024))
  (func (export "minal_info") (result i64)
    (i64.or (i64.shl (i64.const 16) (i64.const 32)) (i64.const 15)))
  (func (export "minal_on_command") (param i32 i32) (result i64)
    (i64.or (i64.shl (i64.extend_i32_u (local.get 0)) (i64.const 32))
            (i64.extend_i32_u (local.get 1))))
  (func (export "minal_on_output") (param i32 i32) (result i64) (i64.const 0))
  (func (export "minal_ai_complete") (param i32 i32) (result i64)
    (i64.or (i64.shl (i64.const 65530) (i64.const 32)) (i64.const 10)))
)
"#;

const TRAPPING_PLUGIN: &str = r#"
(module
  (func (export "minal_init") unreachable)
)
"#;

fn small_engine() -> Engine {
    let mut config = Config::new();
    config.memory_reservation(1 << 20);
    config.memory_guard_size(0);
    config.memory_reservation_for_growth(0);
    Engine::new(&config).expect("engine")
}

fn try_instantiate(wat: &str) -> Result<PluginInstance, PluginError> {
    let engine = small_engine();
    let module = Module::new(&engine, wat).expect("module");
    PluginInstance::instantiate(&engine, &module, WasiCtxBuilder::new().build_p1())
}

fn instantiate(wat: &str) -> PluginInstance {
    try_instantiate(wat).expect("instance")
}

const WRONG_TYPE_PLUGIN: &str = r#"
(module
  (memory (export "memory") 1)
  (func (export "minal_info") (result i32) (i32.const 7))
)
"#;

const UNKNOWN_IMPORT_PLUGIN: &str = r#"
(module
  (import "nowhere" "nothing" (func))
)
"#;

#[test]
fn answer_of_another_type_is_no_answer() {
    let mut p = instantiate(WRONG_TYPE_PLUGIN);
    assert!(matches!(p.call_info(), Ok(None)));
}

#[test]
fn unknown_import_is_an_instantiation_error() {
    match try_instantiate(UNKNOWN_IMPORT_PLUGIN) {
        Err(PluginError::Runtime(m)) => assert!(m.starts_with("failed to instantiate module: ")),
        Err(other) => panic!("unexpected {other:?}"),
        Ok(_) => panic!("instantiated a module with an unknown import"),
    }
}

#[test]
fn module_of_another_engine_is_refused() {
    let module = Module::new(&small_engine(), ECHO_PLUGIN).expect("module");
    match PluginInstance::instantiate(&small_engine(), &module, WasiCtxBuilder::new().build_p1()) {
        Err(PluginError::Runtime(m)) => assert!(m.starts_with("failed to instantiate module: ")),
        Err(other) => panic!("unexpected {other:?}"),
        Ok(_) => panic!("instantiated a module of another engine"),
    }
}

#[test]
fn plugin_without_init_initialises() {
    let mut p = instantiate(ECHO_PLUGIN);
    assert!(p.call_init().is_ok());
    assert!(p.has_export("minal_alloc"));
    assert!(!p.has_export("minal_on_error"));
}

#[test]
fn trapping_init_is_a_call_error() {
    let mut p = instantiate(TRAPPING_PLUGIN);
    match p.call_init() {
        Err(PluginError::Call(m)) => assert!(m.starts_with("minal_init failed: ")),
        other => panic!("unexpected {other:?}"),
    }
}

#[test]
fn info_is_read_from_plugin_memory() {
    let mut p = instantiate(ECHO_PLUGIN);
    assert_eq!(p.call_info().unwrap(), Some("{\"name\":\"demo\"}".to_string()));
}

#[test]
fn hook_receives_the_event_json() {
    let mut p = instantiate(ECHO_PLUGIN);
    let cmd = PluginEvent::Command { command: "ls".to_string(), working_dir: "/".to_string() };
    let json = "{\"type\":\"command\",\"command\":\"ls\"}";
    assert_eq!(p.dispatch_event_json(&cmd, json).unwrap(), Some(json.to_string()));
}

#[test]
fn hook_without_answer_or_export_gives_none() {
    let mut p = instantiate(ECHO_PLUGIN);
    let out = PluginEvent::Output { data: "x".to_string() };
    assert_eq!(p.dispatch_event_json(&out, "{}").unwrap(), None);
    let err = PluginEvent::Error { command: "false".to_string(), exit_code: 1, stderr: String::new() };
    assert_eq!(p.dispatch_event_json(&err, "{}").unwrap(), None);
}

#[test]
fn answer_outside_memory_is_invalid() {
    let mut p = instantiate(ECHO_PLUGIN);
    match p.call_ai_complete("{}") {
        Err(PluginError::InvalidResponse(m)) => {
            assert_eq!(m, "out-of-bounds read: offset=65530, length=10, mem=65536")
        }
        other => panic!("unexpected {other:?}"),
    }
}

#[test]
fn missing_export_gives_none() {
    let mut p = instantiate(ECHO_PLUGIN);
    assert_eq!(p.call_ai_analyze_error("{}").unwrap(), None);
}

#[test]
fn module_without_allocator_cannot_take_input() {
    let mut p = instantiate(
        r#"(module (memory (export "memory") 1)
             (func (export "minal_ai_complete") (param i32 i32) (result i64) (i64.const 0)))"#,
    );
    match p.call_ai_complete("{}") {
        Err(PluginError::Call(m)) => assert_eq!(m, "plugin does not export minal_alloc"),
        other => panic!("unexpected {other:?}"),
    }
}

fn hooked_manifest(name: &str) -> PluginManifest {
    PluginManifest {
        plugin: PluginMeta {
            name: name.to_string(),
            version: "0.1.0".to_string(),
            description: String::new(),
            author: String::new(),
            wasm_path: "plugin.wasm".to_string(),
        },
        hooks: HookConfig { on_command: true, on_output: false, on_error: false },
        ai_provider: None,
    }
}

#[test]
fn manager_calls_each_live_subscriber() {
    let mut mgr: PluginManager<PluginInstance> = PluginManager::new(Vec::new());
    mgr.register_plugin(hooked_manifest("a"), std::path::PathBuf::from("/p/a"), instantiate(ECHO_PLUGIN));
    mgr.register_plugin(hooked_manifest("b"), std::path::PathBuf::from("/p/b"), instantiate(ECHO_PLUGIN));
    let cmd = PluginEvent::Command { command: "ls".to_string(), working_dir: "/".to_string() };
    let json = "{\"type\":\"command\"}";
    let answers = mgr.dispatch_event_json(&cmd, json);
    assert_eq!(answers.len(), 2);
    for a in &answers {
        assert_eq!(a.as_ref().unwrap(), &Some(json.to_string()));
    }
    assert!(mgr.unload_plugin("a").is_ok());
    assert_eq!(mgr.dispatch_event_json(&cmd, json).len(), 1);
    let out = PluginEvent::Output { data: "x".to_string() };
    assert!(mgr.dispatch_event_json(&out, "{}").is_empty());
}
