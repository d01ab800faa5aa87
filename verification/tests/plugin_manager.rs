use minal::event::{HookResponse, PluginEvent};
use minal::manager::PluginManager;
use minal::manifest::{default_wasm_path, AiProviderConfig, HookConfig, PluginManifest, PluginMeta};
use minal::plugin_error::PluginError;
use std::path::PathBuf;

fn manifest(name: &str, version: &str, wasm_path: &str) -> PluginManifest {
    PluginManifest {
        plugin: PluginMeta {
            name: name.to_string(),
            version: version.to_string(),
            description: String::new(),
            author: String::new(),
            wasm_path: wasm_path.to_string(),
        },
        hooks: HookConfig::default(),
        ai_provider: None,
    }
}

#[test]
fn parse_full_manifest() {
    let mut m = manifest("example", "0.1.0", "example.wasm");
    m.plugin.description = "An example plugin".to_string();
    m.plugin.author = "Test Author".to_string();
    m.hooks = HookConfig { on_command: true, on_output: false, on_error: true };
    m.ai_provider = Some(AiProviderConfig { name: "custom-llm".to_string() });
    assert!(m.validate().is_ok());
    assert_eq!(m.plugin.name, "example");
    assert_eq!(m.plugin.version, "0.1.0");
    assert!(m.hooks.on_command);
    assert!(!m.hooks.on_output);
    assert!(m.hooks.on_error);
    assert!(m.is_ai_provider());
    assert_eq!(m.ai_provider.as_ref().map(|a| a.name.as_str()), Some("custom-llm"));
}

#[test]
fn parse_minimal_manifest() {
    let m = manifest("minimal", "1.0.0", &default_wasm_path());
    assert!(m.validate().is_ok());
    assert_eq!(m.plugin.name, "minimal");
    assert_eq!(m.plugin.wasm_path, "plugin.wasm");
    assert!(!m.has_hooks());
    assert!(!m.is_ai_provider());
}

#[test]
fn empty_name_is_rejected() {
    assert!(manifest("", "0.1.0", "plugin.wasm").validate().is_err());
}

#[test]
fn empty_version_is_rejected() {
    assert!(manifest("test", "", "plugin.wasm").validate().is_err());
}

#[test]
fn path_traversal_in_wasm_path_is_rejected() {
    assert!(manifest("evil", "0.1.0", "../../etc/passwd").validate().is_err());
}

#[test]
fn absolute_wasm_path_is_rejected() {
    assert!(manifest("evil", "0.1.0", "/usr/lib/evil.wasm").validate().is_err());
}

#[test]
fn resolve_wasm_path_joins_dir() {
    let m = manifest("test", "0.1.0", "my_plugin.wasm");
    assert!(m.validate().is_ok());
    let path = m.resolve_wasm_path("/plugins/test");
    assert_eq!(path, "/plugins/test/my_plugin.wasm");
}

#[test]
fn resolve_wasm_path_keeps_one_separator() {
    assert_eq!(manifest("t", "1", "a.wasm").resolve_wasm_path("/plugins/t/"), "/plugins/t/a.wasm");
    assert_eq!(manifest("t", "1", "a.wasm").resolve_wasm_path(""), "a.wasm");
    assert_eq!(manifest("t", "1", "sub/a.wasm").resolve_wasm_path("dir"), "dir/sub/a.wasm");
    assert_eq!(manifest("t", "1", "/abs/a.wasm").resolve_wasm_path("/plugins/t"), "/abs/a.wasm");
}

#[test]
fn validation_messages() {
    let msg = |m: PluginManifest| match m.validate() {
        Err(PluginError::ManifestValidation(s)) => s,
        _ => panic!("expected a validation error"),
    };
    assert_eq!(msg(manifest("", "", "")), "plugin.name must not be empty");
    assert_eq!(msg(manifest("a", "", "x")), "plugin.version must not be empty");
    assert_eq!(msg(manifest("a", "1", "")), "plugin.wasm_path must not be empty");
    assert_eq!(msg(manifest("a", "1", "a/../b")), "plugin.wasm_path must not contain '..' (path traversal)");
    assert_eq!(msg(manifest("a", "1", "/a")), "plugin.wasm_path must be a relative path");
    assert!(manifest("a", "1", "a/.b/c.wasm").validate().is_ok());
}

#[test]
fn manager_creation_succeeds() {
    let mgr: PluginManager<u32> = PluginManager::new(Vec::new());
    assert_eq!(mgr.plugin_count(), 0);
}

#[test]
fn unload_nonexistent_fails() {
    let mut mgr: PluginManager<u32> = PluginManager::new(Vec::new());
    let result = mgr.unload_plugin("nonexistent");
    assert!(result.is_err());
}

#[test]
fn manager_lifecycle() {
    let mut mgr: PluginManager<u32> = PluginManager::new(vec!["a".to_string(), "b".to_string()]);
    let mut a = manifest("a", "1", "a.wasm");
    a.hooks = HookConfig { on_command: true, on_output: true, on_error: false };
    let mut b = manifest("b", "1", "b.wasm");
    b.hooks = HookConfig { on_command: true, on_output: false, on_error: false };
    b.ai_provider = Some(AiProviderConfig { name: "llm".to_string() });
    assert!(mgr.check_loadable(&a).is_ok());
    assert_eq!(mgr.register_plugin(a.clone(), PathBuf::from("/p/a"), 10), 0);
    match mgr.check_loadable(&a) {
        Err(PluginError::ManifestValidation(s)) => assert_eq!(s, "plugin 'a' is already loaded"),
        _ => panic!("duplicate must be refused"),
    }
    match mgr.check_loadable(&manifest("c", "1", "c.wasm")) {
        Err(PluginError::ManifestValidation(s)) => assert_eq!(s, "plugin 'c' is not in the allowed_plugins list"),
        _ => panic!("c is not allowed"),
    }
    assert_eq!(mgr.register_plugin(b, PathBuf::from("/p/b"), 20), 1);
    assert_eq!(mgr.plugin_count(), 2);
    assert_eq!(mgr.loaded_plugins(), vec!["a", "b"]);
    assert!(mgr.has_output_hooks());
    assert!(mgr.has_ai_providers());
    let cmd = PluginEvent::Command { command: "ls".to_string(), working_dir: "/".to_string() };
    assert_eq!(mgr.dispatch_targets(&cmd), vec![0, 1]);
    assert_eq!(mgr.plugin_dir("b"), Some(&PathBuf::from("/p/b")));
    assert!(mgr.plugin_dir("zz").is_none());
    assert_eq!(mgr.manifest("a").map(|m| m.plugin.wasm_path.clone()), Some("a.wasm".to_string()));

    match mgr.take_ai_provider("a") {
        Err(PluginError::ManifestValidation(s)) => assert_eq!(s, "plugin 'a' does not declare an ai_provider section"),
        _ => panic!("a has no provider"),
    }
    match mgr.take_ai_provider("b") {
        Ok((name, inst)) => {
            assert_eq!(name, "llm");
            assert_eq!(inst, 20);
        }
        _ => panic!("b provides one"),
    }
    assert!(matches!(mgr.take_ai_provider("b"), Err(PluginError::NotLoaded(_))));
    assert_eq!(mgr.dispatch_targets(&cmd), vec![0]);
    if let Some(x) = mgr.instance_mut(0) {
        *x = 11;
    }
    assert_eq!(mgr.instance_mut(0).map(|x| *x), Some(11));

    assert!(mgr.unload_plugin("a").is_ok());
    assert!(!mgr.has_output_hooks());
    assert_eq!(mgr.plugin_count(), 1);
    assert!(mgr.dispatch_targets(&cmd).is_empty());
    assert!(mgr.check_loadable(&a).is_ok());
    assert!(matches!(mgr.unload_plugin("a"), Err(PluginError::NotFound(_))));
}

#[test]
fn merge_responses_keeps_first_error() {
    let ok = |m: &str| Ok(HookResponse { suppress: false, modified_command: None, message: Some(m.to_string()) });
    let all_ok: Vec<Result<HookResponse, PluginError>> = vec![ok("1"), ok("2")];
    let merged = PluginManager::<u32>::merge_responses(all_ok).expect("no error");
    assert_eq!(merged.len(), 2);
    assert_eq!(merged[1].message.as_deref(), Some("2"));
    let mixed = vec![ok("1"), Err(PluginError::Call("x".to_string())), Err(PluginError::Call("y".to_string()))];
    match PluginManager::<u32>::merge_responses(mixed) {
        Err(PluginError::Call(s)) => assert_eq!(s, "x"),
        _ => panic!("first error expected"),
    }
}
