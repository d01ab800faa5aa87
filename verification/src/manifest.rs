//! Plugin manifest definition.
//!
//! Each plugin is a directory containing a `plugin.toml` manifest and a
//! `.wasm` module.  The manifest describes the plugin metadata, which event
//! hooks it subscribes to, and whether it provides a custom AI provider.

use vstd::prelude::*;

use crate::plugin_error::PluginError;
use crate::text::{concat3, str_to_chars};

verus! {

broadcast use vstd::string::group_string_axioms;

/// Top-level plugin manifest parsed from `plugin.toml`.
#[derive(Debug, Clone)]
pub struct PluginManifest {
    /// Core plugin metadata.
    pub plugin: PluginMeta,
    /// Event hooks this plugin subscribes to.
    pub hooks: HookConfig,
    /// Optional AI provider configuration.
    pub ai_provider: Option<AiProviderConfig>,
}

/// Core plugin metadata.
#[derive(Debug, Clone)]
pub struct PluginMeta {
    /// Unique plugin name (used as identifier).
    pub name: String,
    /// SemVer version string.
    pub version: String,
    /// Human-readable description.
    pub description: String,
    /// Author name or email.
    pub author: String,
    /// Relative path to the WASM module within the plugin directory.
    pub wasm_path: String,
}

/// The WASM module path a manifest gets when it names none.
pub fn default_wasm_path() -> (path: String)
    ensures
        path@ == "plugin.wasm"@,
{
    "plugin.wasm".to_string()
}

/// Which event hooks the plugin subscribes to.
#[derive(Debug, Clone)]
pub struct HookConfig {
    /// Called when a shell command is about to execute.
    pub on_command: bool,
    /// Called when terminal output is received.
    pub on_output: bool,
    /// Called when a command exits with a non-zero status.
    pub on_error: bool,
}

impl Default for HookConfig {
    /// No hooks.
    fn default() -> (c: Self)
        ensures
            !c.on_command,
            !c.on_output,
            !c.on_error,
    {
        HookConfig { on_command: false, on_output: false, on_error: false }
    }
}

/// Configuration for plugins that provide a custom AI backend.
#[derive(Debug, Clone)]
pub struct AiProviderConfig {
    /// Display name for this AI provider.
    pub name: String,
}

/// `s` holds two dots in a row.
pub open spec fn has_parent_ref(s: Seq<char>) -> bool {
    exists|i: int| 0 <= i && i + 1 < s.len() && #[trigger] s[i] == '.' && s[i + 1] == '.'
}

/// `s` begins with a slash.
pub open spec fn is_absolute(s: Seq<char>) -> bool {
    s.len() > 0 && s[0] == '/'
}

/// The message of the first check a manifest fails, if any: the name, the
/// version and the WASM path must not be empty, and the WASM path must not
/// hold `..` nor begin with `/`.
pub open spec fn manifest_problem(m: PluginManifest) -> Option<Seq<char>> {
    if m.plugin.name@.len() == 0 {
        Some("plugin.name must not be empty"@)
    } else if m.plugin.version@.len() == 0 {
        Some("plugin.version must not be empty"@)
    } else if m.plugin.wasm_path@.len() == 0 {
        Some("plugin.wasm_path must not be empty"@)
    } else if has_parent_ref(m.plugin.wasm_path@) {
        Some("plugin.wasm_path must not contain '..' (path traversal)"@)
    } else if is_absolute(m.plugin.wasm_path@) {
        Some("plugin.wasm_path must be a relative path"@)
    } else {
        None
    }
}

/// A relative path `rel` joined to the directory `dir`, as `Path::join` of
/// std does on Unix: an absolute `rel` takes the place of `dir`; else a
/// slash comes between them unless `dir` is empty or already ends in one.
pub open spec fn joined_path(dir: Seq<char>, rel: Seq<char>) -> Seq<char> {
    if is_absolute(rel) {
        rel
    } else if dir.len() == 0 || dir.last() == '/' {
        dir + rel
    } else {
        dir + seq!['/'] + rel
    }
}

/// Law: the module of a valid manifest lies inside the plugin directory.
/// The resolved path is the directory, then at most a slash, then the
/// manifest's `wasm_path`, which is not empty, does not begin at the root
/// and holds no `..` that could climb out.
pub proof fn law_valid_module_path_stays_in_dir(m: PluginManifest, dir: Seq<char>)
    requires
        manifest_problem(m) is None,
    ensures
        joined_path(dir, m.plugin.wasm_path@).subrange(0, dir.len() as int) == dir,
        ({
            let tail = joined_path(dir, m.plugin.wasm_path@).skip(dir.len() as int);
            tail == m.plugin.wasm_path@ || tail == seq!['/'] + m.plugin.wasm_path@
        }),
        m.plugin.wasm_path@.len() > 0,
        !is_absolute(m.plugin.wasm_path@),
        !has_parent_ref(m.plugin.wasm_path@),
{
    let rel = m.plugin.wasm_path@;
    let p = joined_path(dir, rel);
    if dir.len() == 0 || dir.last() == '/' {
        assert(p.subrange(0, dir.len() as int) =~= dir);
        assert(p.skip(dir.len() as int) =~= rel);
    } else {
        assert(p.subrange(0, dir.len() as int) =~= dir);
        assert(p.skip(dir.len() as int) =~= seq!['/'] + rel);
    }
}

/// Whether `s` holds two dots in a row.
fn contains_parent_ref(s: &str) -> (found: bool)
    ensures
        found == has_parent_ref(s@),
{
    let chars = str_to_chars(s);
    let n = chars.len();
    let mut i: usize = 0;
    while i < n
        invariant
            n == chars@.len(),
            chars@ == s@,
            i <= n,
            forall|j: int| 0 <= j < i && j + 1 < n ==> !(#[trigger] chars@[j] == '.' && chars@[j + 1] == '.'),
        decreases n - i,
    {
        if i + 1 < n && chars[i] == '.' && chars[i + 1] == '.' {
            return true;
        }
        i = i + 1;
    }
    false
}

/// Whether `s` begins with a slash.
fn starts_with_slash(s: &str) -> (found: bool)
    ensures
        found == is_absolute(s@),
{
    let chars = str_to_chars(s);
    chars.len() > 0 && chars[0] == '/'
}

impl PluginManifest {
    /// Validate the manifest contents.
    pub fn validate(&self) -> (r: Result<(), PluginError>)
        ensures
            r is Ok <==> manifest_problem(*self) is None,
            r matches Err(e) ==> (e matches PluginError::ManifestValidation(msg) && Some(msg@) == manifest_problem(*self)),
    {
        if self.plugin.name.as_str().is_empty() {
            return Err(PluginError::ManifestValidation("plugin.name must not be empty".to_string()));
        }
        if self.plugin.version.as_str().is_empty() {
            return Err(PluginError::ManifestValidation("plugin.version must not be empty".to_string()));
        }
        if self.plugin.wasm_path.as_str().is_empty() {
            return Err(PluginError::ManifestValidation("plugin.wasm_path must not be empty".to_string()));
        }
        if contains_parent_ref(self.plugin.wasm_path.as_str()) {
            return Err(
                PluginError::ManifestValidation(
                    "plugin.wasm_path must not contain '..' (path traversal)".to_string(),
                ),
            );
        }
        if starts_with_slash(self.plugin.wasm_path.as_str()) {
            return Err(PluginError::ManifestValidation("plugin.wasm_path must be a relative path".to_string()));
        }
        Ok(())
    }

    /// Resolve the absolute path to the WASM module, given the plugin
    /// directory: the manifest's `wasm_path` joined to `plugin_dir` as a
    /// path is joined on Unix (see [`joined_path`]).
    pub fn resolve_wasm_path(&self, plugin_dir: &str) -> (p: String)
        ensures
            p@ == joined_path(plugin_dir@, self.plugin.wasm_path@),
    {
        let rel = self.plugin.wasm_path.as_str();
        if starts_with_slash(rel) {
            return rel.to_string();
        }
        let dir = str_to_chars(plugin_dir);
        if dir.len() == 0 || dir[dir.len() - 1] == '/' {
            let p = concat3(plugin_dir, "", rel);
            proof {
                reveal_strlit("");
                assert(p@ =~= plugin_dir@ + rel@);
            }
            p
        } else {
            let p = concat3(plugin_dir, "/", rel);
            proof {
                reveal_strlit("/");
            }
            p
        }
    }

    /// Returns `true` if this plugin subscribes to any event hooks.
    pub fn has_hooks(&self) -> (any: bool)
        ensures
            any == (self.hooks.on_command || self.hooks.on_output || self.hooks.on_error),
    {
        self.hooks.on_command || self.hooks.on_output || self.hooks.on_error
    }

    /// Returns `true` if this plugin provides a custom AI provider.
    pub fn is_ai_provider(&self) -> (provides: bool)
        ensures
            provides == self.ai_provider is Some,
    {
        self.ai_provider.is_some()
    }
}

} // verus!
