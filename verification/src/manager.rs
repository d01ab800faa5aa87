//! Plugin manager — admits plugins, tracks their lifecycle, and routes
//! events to subscribed hooks.
//!
//! The manager holds one entry per plugin that was ever loaded, with the
//! plugin's instance `I` (a running WASM module on the host side). Entries
//! are never removed: an unloaded plugin keeps its entry without an
//! instance and is no longer registered under its name.

use vstd::prelude::*;

use std::path::PathBuf;

use crate::event::{hooks_for, HookRegistry, HookResponse, PluginEvent};
use crate::manifest::PluginManifest;
use crate::plugin_error::PluginError;
use crate::text::{concat3, str_eq};

verus! {

broadcast use vstd::string::group_string_axioms;

/// The owned file-system path of std.
#[verifier::external_type_specification]
#[verifier::external_body]
pub struct ExPathBuf(PathBuf);

/// Metadata and state of a loaded plugin.
pub struct LoadedPlugin<I> {
    /// Parsed manifest.
    pub manifest: PluginManifest,
    /// Directory containing the plugin.
    pub dir: PathBuf,
    /// Instance (`None` once the plugin was unloaded or its instance was
    /// taken to serve as an AI provider).
    pub instance: Option<I>,
    /// Whether the plugin is registered under its name.
    pub registered: bool,
}

/// Manages the lifecycle of all loaded plugins.
pub struct PluginManager<I> {
    plugins: Vec<LoadedPlugin<I>>,
    hooks: HookRegistry,
    allowed_plugins: Vec<String>,
}

/// Entry `i` is registered under the name `name`.
pub open spec fn registered_as<I>(entries: Seq<LoadedPlugin<I>>, i: int, name: Seq<char>) -> bool {
    0 <= i < entries.len() && entries[i].registered && entries[i].manifest.plugin.name@ == name
}

/// Some entry is registered under `name`.
pub open spec fn name_registered<I>(entries: Seq<LoadedPlugin<I>>, name: Seq<char>) -> bool {
    exists|i: int| registered_as(entries, i, name)
}

/// The entry registered under `name`, if any.
pub open spec fn index_of<I>(entries: Seq<LoadedPlugin<I>>, name: Seq<char>) -> Option<int> {
    if name_registered(entries, name) {
        Some(choose|i: int| registered_as(entries, i, name))
    } else {
        None
    }
}

/// `names` allows a plugin called `name`: the list is empty or names it.
pub open spec fn allows(names: Seq<String>, name: Seq<char>) -> bool {
    names.len() == 0 || exists|i: int| 0 <= i < names.len() && (#[trigger] names[i])@ == name
}

/// The first error among `results`, if any; else every response, in order.
pub open spec fn merged(results: Seq<Result<HookResponse, PluginError>>) -> Result<Seq<HookResponse>, PluginError>
    decreases results.len(),
{
    if results.len() == 0 {
        Ok(Seq::empty())
    } else {
        match merged(results.drop_last()) {
            Err(e) => Err(e),
            Ok(rs) => match results.last() {
                Ok(r) => Ok(rs.push(r)),
                Err(e) => Err(e),
            },
        }
    }
}

impl<I> PluginManager<I> {
    /// The entries, indexed by load order.
    pub closed spec fn entries(self) -> Seq<LoadedPlugin<I>> {
        self.plugins@
    }

    /// The hook registry.
    pub closed spec fn registry(self) -> HookRegistry {
        self.hooks
    }

    /// The names allowed to load (every name when empty).
    pub closed spec fn allowed(self) -> Seq<String> {
        self.allowed_plugins@
    }

    /// No two registered entries share a name, and every hook names an entry.
    pub open spec fn wf(self) -> bool {
        entries_wf(self.entries(), self.registry())
    }

    /// Create a new plugin manager.
    ///
    /// If `allowed_plugins` is non-empty, only plugins with names in the list
    /// will be loaded; all others are rejected.
    pub fn new(allowed_plugins: Vec<String>) -> (m: Self)
        ensures
            m.wf(),
            m.entries().len() == 0,
            m.allowed() == allowed_plugins@,
            m.registry().command_hooks@.len() == 0,
            m.registry().output_hooks@.len() == 0,
            m.registry().error_hooks@.len() == 0,
    {
        PluginManager { plugins: Vec::new(), hooks: HookRegistry::new(), allowed_plugins }
    }

    /// Scans for the entry registered under `name`.
    fn find_index(&self, name: &str) -> (found: Option<usize>)
        requires
            self.wf(),
        ensures
            found matches Some(i) ==> index_of(self.entries(), name@) == Some(i as int),
            found is None ==> index_of(self.entries(), name@) is None,
    {
        let mut i: usize = 0;
        while i < self.plugins.len()
            invariant
                i <= self.plugins@.len(),
                self.wf(),
                forall|j: int| 0 <= j < i ==> !registered_as(self.plugins@, j, name@),
            decreases self.plugins@.len() - i,
        {
            let p = &self.plugins[i];
            if p.registered && str_eq(p.manifest.plugin.name.as_str(), name) {
                assert(registered_as(self.plugins@, i as int, name@));
                return Some(i);
            }
            i = i + 1;
        }
        None
    }

    /// Whether the allow-list admits `name`.
    fn is_allowed(&self, name: &str) -> (ok: bool)
        ensures
            ok == allows(self.allowed(), name@),
    {
        if self.allowed_plugins.len() == 0 {
            return true;
        }
        let mut i: usize = 0;
        while i < self.allowed_plugins.len()
            invariant
                i <= self.allowed_plugins@.len(),
                forall|j: int| 0 <= j < i ==> (#[trigger] self.allowed_plugins@[j])@ != name@,
            decreases self.allowed_plugins@.len() - i,
        {
            if str_eq(self.allowed_plugins[i].as_str(), name) {
                return true;
            }
            i = i + 1;
        }
        false
    }

    /// Checks that a plugin with this manifest may be loaded: its name is
    /// allowed, and no loaded plugin has it.
    pub fn check_loadable(&self, manifest: &PluginManifest) -> (r: Result<(), PluginError>)
        requires
            self.wf(),
        ensures
            r is Ok <==> allows(self.allowed(), manifest.plugin.name@) && !name_registered(
                self.entries(),
                manifest.plugin.name@,
            ),
            r matches Err(e) ==> (e matches PluginError::ManifestValidation(msg) && msg@ == if !allows(
                self.allowed(),
                manifest.plugin.name@,
            ) {
                "plugin '"@ + manifest.plugin.name@ + "' is not in the allowed_plugins list"@
            } else {
                "plugin '"@ + manifest.plugin.name@ + "' is already loaded"@
            }),
    {
        let name = manifest.plugin.name.as_str();
        if !self.is_allowed(name) {
            return Err(
                PluginError::ManifestValidation(concat3("plugin '", name, "' is not in the allowed_plugins list")),
            );
        }
        if self.find_index(name).is_some() {
            return Err(PluginError::ManifestValidation(concat3("plugin '", name, "' is already loaded")));
        }
        Ok(())
    }
}


/// The entry `e` with its instance replaced by `x`.
pub open spec fn with_instance<I>(e: LoadedPlugin<I>, x: Option<I>) -> LoadedPlugin<I> {
    LoadedPlugin { instance: x, ..e }
}

/// No two registered entries share a name, and every hook names an entry.
pub open spec fn entries_wf<I>(entries: Seq<LoadedPlugin<I>>, hooks: HookRegistry) -> bool {
    &&& forall|k: int| 0 <= k < hooks.command_hooks@.len() ==> #[trigger] hooks.command_hooks@[k] < entries.len()
    &&& forall|k: int| 0 <= k < hooks.output_hooks@.len() ==> #[trigger] hooks.output_hooks@[k] < entries.len()
    &&& forall|k: int| 0 <= k < hooks.error_hooks@.len() ==> #[trigger] hooks.error_hooks@[k] < entries.len()
    &&& forall|i: int, j: int|
        #![trigger entries[i], entries[j]]
        0 <= i < entries.len() && 0 <= j < entries.len() && entries[i].registered && entries[j].registered
            && entries[i].manifest.plugin.name@ == entries[j].manifest.plugin.name@ ==> i == j
}

/// Changing the instance of one entry keeps the entries well formed.
proof fn lemma_wf_instance_update<I>(entries: Seq<LoadedPlugin<I>>, hooks: HookRegistry, i: int)
    requires
        entries_wf(entries, hooks),
        0 <= i < entries.len(),
    ensures
        forall|x: Option<I>|
            #[trigger] entries_wf(entries.update(i, with_instance(entries[i], x)), hooks),
{
    assert forall|x: Option<I>|
        #[trigger] entries_wf(entries.update(i, with_instance(entries[i], x)), hooks) by {
        let e2 = entries.update(i, with_instance(entries[i], x));
        assert forall|a: int, b: int|
            #![trigger e2[a], e2[b]]
            0 <= a < e2.len() && 0 <= b < e2.len() && e2[a].registered && e2[b].registered
                && e2[a].manifest.plugin.name@ == e2[b].manifest.plugin.name@ implies a == b by {
            assert(entries[a].registered && entries[b].registered);
            assert(entries[a].manifest == e2[a].manifest);
            assert(entries[b].manifest == e2[b].manifest);
        }
    }
}

/// Filtering keeps a bound that holds of every element.
proof fn lemma_filter_bounded(s: Seq<usize>, pred: spec_fn(usize) -> bool, bound: int)
    requires
        forall|k: int| 0 <= k < s.len() ==> #[trigger] s[k] < bound,
    ensures
        forall|k: int| 0 <= k < s.filter(pred).len() ==> #[trigger] s.filter(pred)[k] < bound,
{
    assert forall|k: int| 0 <= k < s.filter(pred).len() implies #[trigger] s.filter(pred)[k] < bound by {
        let x = s.filter(pred)[k];
        assert(s.filter(pred).contains(x));
        s.lemma_filter_contains_rev(pred, x);
        let j = choose|j: int| 0 <= j < s.len() && s[j] == x;
        assert(s[j] < bound);
    }
}

/// The names under which entries are registered, in load order.
pub open spec fn registered_names<I>(entries: Seq<LoadedPlugin<I>>) -> Seq<Seq<char>>
    decreases entries.len(),
{
    if entries.len() == 0 {
        Seq::empty()
    } else if entries.last().registered {
        registered_names(entries.drop_last()).push(entries.last().manifest.plugin.name@)
    } else {
        registered_names(entries.drop_last())
    }
}

/// The subscribers of `event` whose entry still has an instance, in
/// subscription order.
pub open spec fn live_targets<I>(entries: Seq<LoadedPlugin<I>>, subs: Seq<usize>) -> Seq<usize>
    decreases subs.len(),
{
    if subs.len() == 0 {
        Seq::empty()
    } else if subs.last() < entries.len() && entries[subs.last() as int].instance is Some {
        live_targets(entries, subs.drop_last()).push(subs.last())
    } else {
        live_targets(entries, subs.drop_last())
    }
}

/// Some entry declares an AI provider while an entry with its name is
/// registered.
pub open spec fn any_ai_provider<I>(entries: Seq<LoadedPlugin<I>>) -> bool {
    exists|i: int|
        0 <= i < entries.len() && (#[trigger] entries[i]).manifest.ai_provider is Some && name_registered(
            entries,
            entries[i].manifest.plugin.name@,
        )
}

impl<I> PluginManager<I> {
    /// Adds an admitted plugin with its instance, registers its hooks, and
    /// returns its index. The name must not be registered yet
    /// (see [`PluginManager::check_loadable`]).
    pub fn register_plugin(&mut self, manifest: PluginManifest, dir: PathBuf, instance: I) -> (index: usize)
        requires
            old(self).wf(),
            !name_registered(old(self).entries(), manifest.plugin.name@),
        ensures
            final(self).wf(),
            index == old(self).entries().len(),
            final(self).entries() == old(self).entries().push(
                LoadedPlugin { manifest, dir, instance: Some(instance), registered: true },
            ),
            final(self).registry().command_hooks@ == if manifest.hooks.on_command {
                old(self).registry().command_hooks@.push(index)
            } else {
                old(self).registry().command_hooks@
            },
            final(self).registry().output_hooks@ == if manifest.hooks.on_output {
                old(self).registry().output_hooks@.push(index)
            } else {
                old(self).registry().output_hooks@
            },
            final(self).registry().error_hooks@ == if manifest.hooks.on_error {
                old(self).registry().error_hooks@.push(index)
            } else {
                old(self).registry().error_hooks@
            },
            final(self).allowed() == old(self).allowed(),
    {
        let index = self.plugins.len();
        self.hooks.register(index, manifest.hooks.on_command, manifest.hooks.on_output, manifest.hooks.on_error);
        self.plugins.push(LoadedPlugin { manifest, dir, instance: Some(instance), registered: true });
        proof {
            assert forall|k: int| 0 <= k < self.registry().command_hooks@.len() implies #[trigger] self.registry().command_hooks@[k] < self.entries().len() by {
                if k < old(self).registry().command_hooks@.len() {
                    assert(self.registry().command_hooks@[k] == old(self).registry().command_hooks@[k]);
                }
            }
            assert forall|k: int| 0 <= k < self.registry().output_hooks@.len() implies #[trigger] self.registry().output_hooks@[k] < self.entries().len() by {
                if k < old(self).registry().output_hooks@.len() {
                    assert(self.registry().output_hooks@[k] == old(self).registry().output_hooks@[k]);
                }
            }
            assert forall|k: int| 0 <= k < self.registry().error_hooks@.len() implies #[trigger] self.registry().error_hooks@[k] < self.entries().len() by {
                if k < old(self).registry().error_hooks@.len() {
                    assert(self.registry().error_hooks@[k] == old(self).registry().error_hooks@[k]);
                }
            }
            assert forall|i: int, j: int|
                #![trigger self.plugins@[i], self.plugins@[j]]
                0 <= i < self.plugins@.len() && 0 <= j < self.plugins@.len() && self.plugins@[i].registered
                    && self.plugins@[j].registered && self.plugins@[i].manifest.plugin.name@
                    == self.plugins@[j].manifest.plugin.name@ implies i == j by {
                if i < index && j == index {
                    assert(registered_as(old(self).plugins@, i, manifest.plugin.name@));
                }
                if j < index && i == index {
                    assert(registered_as(old(self).plugins@, j, manifest.plugin.name@));
                }
                if i < index && j < index {
                    assert(old(self).plugins@[i] == self.plugins@[i]);
                    assert(old(self).plugins@[j] == self.plugins@[j]);
                }
            }
        }
        index
    }

    /// Unload a plugin by name.
    ///
    /// The plugin's hooks are unregistered and its instance is dropped.
    pub fn unload_plugin(&mut self, name: &str) -> (r: Result<(), PluginError>)
        requires
            old(self).wf(),
        ensures
            final(self).wf(),
            final(self).allowed() == old(self).allowed(),
            index_of(old(self).entries(), name@) is None ==> {
                &&& r matches Err(e) && e matches PluginError::NotFound(n) && n@ == name@
                &&& final(self).entries() == old(self).entries()
                &&& final(self).registry() == old(self).registry()
            },
            index_of(old(self).entries(), name@) matches Some(i) ==> {
                &&& r is Ok
                &&& final(self).entries() == old(self).entries().update(
                    i,
                    unloaded(old(self).entries()[i]),
                )
                &&& final(self).registry().command_hooks@ == crate::event::without_index(
                    old(self).registry().command_hooks@,
                    i as usize,
                )
                &&& final(self).registry().output_hooks@ == crate::event::without_index(
                    old(self).registry().output_hooks@,
                    i as usize,
                )
                &&& final(self).registry().error_hooks@ == crate::event::without_index(
                    old(self).registry().error_hooks@,
                    i as usize,
                )
            },
    {
        match self.find_index(name) {
            None => Err(PluginError::NotFound(name.to_string())),
            Some(index) => {
                self.hooks.unregister(index);
                let mut entry = self.plugins.remove(index);
                entry.instance = None;
                entry.registered = false;
                self.plugins.insert(index, entry);
                proof {
                    let pred = crate::event::other_than(index);
                    lemma_filter_bounded(old(self).registry().command_hooks@, pred, old(self).entries().len() as int);
                    lemma_filter_bounded(old(self).registry().output_hooks@, pred, old(self).entries().len() as int);
                    lemma_filter_bounded(old(self).registry().error_hooks@, pred, old(self).entries().len() as int);
                    assert(self.plugins@ =~= old(self).plugins@.update(
                        index as int,
                        unloaded(old(self).plugins@[index as int]),
                    ));
                }
                Ok(())
            },
        }
    }

    /// Returns `true` if any loaded plugin subscribes to output events.
    pub fn has_output_hooks(&self) -> (any: bool)
        ensures
            any == (self.registry().output_hooks@.len() > 0),
    {
        self.hooks.output_hooks.len() > 0
    }
}


impl<I> PluginManager<I> {
    /// The subscribers of `event` that still have an instance, in the
    /// order in which their hooks are called.
    pub fn dispatch_targets(&self, event: &PluginEvent) -> (targets: Vec<usize>)
        ensures
            targets@ == live_targets(self.entries(), hooks_for(self.registry(), *event)),
    {
        let subs = self.hooks.subscribers(event);
        let mut targets: Vec<usize> = Vec::new();
        let mut i: usize = 0;
        while i < subs.len()
            invariant
                i <= subs@.len(),
                subs@ == hooks_for(self.hooks, *event),
                targets@ == live_targets(self.plugins@, subs@.take(i as int)),
            decreases subs@.len() - i,
        {
            let index = subs[i];
            assert(subs@.take(i + 1).drop_last() =~= subs@.take(i as int));
            assert(subs@.take(i + 1).last() == index);
            if index < self.plugins.len() && self.plugins[index].instance.is_some() {
                targets.push(index);
            }
            i = i + 1;
        }
        assert(subs@.take(subs@.len() as int) =~= subs@);
        targets
    }

    /// The instance of entry `index`, if it has one.
    pub fn instance_mut(&mut self, index: usize) -> (inst: Option<&mut I>)
        requires
            old(self).wf(),
        ensures
            final(self).wf(),
            inst is Some <==> index < old(self).entries().len() && old(self).entries()[index as int].instance is Some,
            inst matches Some(x) ==> {
                &&& Some(*x) == old(self).entries()[index as int].instance
                &&& final(self).entries() == old(self).entries().update(
                    index as int,
                    with_instance(old(self).entries()[index as int], Some(*final(x))),
                )
            },
            inst is None ==> final(self).entries() == old(self).entries(),
            final(self).registry() == old(self).registry(),
            final(self).allowed() == old(self).allowed(),
    {
        if index < self.plugins.len() {
            proof {
                lemma_wf_instance_update(self.plugins@, self.hooks, index as int);
            }
            let entry = &mut self.plugins[index];
            match &mut entry.instance {
                Some(x) => Some(x),
                None => None,
            }
        } else {
            None
        }
    }

    /// Combines the results of the hooks called for one event: the first
    /// error if any hook failed, else every response in call order.
    pub fn merge_responses(results: Vec<Result<HookResponse, PluginError>>) -> (r: Result<
        Vec<HookResponse>,
        PluginError,
    >)
        ensures
            r matches Ok(v) ==> merged(results@) == Ok::<Seq<HookResponse>, PluginError>(v@),
            r matches Err(e) ==> merged(results@) == Err::<Seq<HookResponse>, PluginError>(e),
    {
        let mut responses: Vec<HookResponse> = Vec::new();
        let mut first_error: Option<PluginError> = None;
        let ghost all = results@;
        for r in it: results
            invariant
                it.seq() == all,
                first_error is None ==> merged(all.take(it.index() as int)) == Ok::<Seq<HookResponse>, PluginError>(
                    responses@,
                ),
                first_error matches Some(e) ==> merged(all.take(it.index() as int)) == Err::<
                    Seq<HookResponse>,
                    PluginError,
                >(e),
        {
            assert(all.take(it.index() + 1).drop_last() =~= all.take(it.index() as int));
            match r {
                Ok(resp) => {
                    if first_error.is_none() {
                        responses.push(resp);
                    }
                },
                Err(e) => {
                    if first_error.is_none() {
                        first_error = Some(e);
                    }
                },
            }
        }
        assert(all.take(all.len() as int) =~= all);
        match first_error {
            Some(e) => Err(e),
            None => Ok(responses),
        }
    }

    /// Take a plugin's instance to serve as an AI provider; returns the
    /// provider's display name and the instance. The plugin keeps its name
    /// but no longer receives hook events.
    pub fn take_ai_provider(&mut self, name: &str) -> (r: Result<(String, I), PluginError>)
        requires
            old(self).wf(),
        ensures
            final(self).wf(),
            final(self).registry() == old(self).registry(),
            final(self).allowed() == old(self).allowed(),
            index_of(old(self).entries(), name@) is None ==> {
                &&& r matches Err(e) && e matches PluginError::NotFound(n) && n@ == name@
                &&& final(self).entries() == old(self).entries()
            },
            index_of(old(self).entries(), name@) matches Some(i) ==> {
                let entry = old(self).entries()[i];
                &&& entry.manifest.ai_provider is None ==> {
                    &&& r matches Err(e) && e matches PluginError::ManifestValidation(m)
                        && m@ == "plugin '"@ + name@ + "' does not declare an ai_provider section"@
                    &&& final(self).entries() == old(self).entries()
                }
                &&& entry.manifest.ai_provider is Some && entry.instance is None ==> {
                    &&& r matches Err(e) && e matches PluginError::NotLoaded(n) && n@ == name@
                    &&& final(self).entries() == old(self).entries()
                }
                &&& entry.manifest.ai_provider is Some && entry.instance is Some ==> {
                    &&& r matches Ok(p) && p.0@ == entry.manifest.ai_provider->0.name@ && Some(p.1)
                        == entry.instance
                    &&& final(self).entries() == old(self).entries().update(
                        i,
                        with_instance(entry, None),
                    )
                }
            },
    {
        match self.find_index(name) {
            None => Err(PluginError::NotFound(name.to_string())),
            Some(index) => {
                let provider_name = match &self.plugins[index].manifest.ai_provider {
                    Some(cfg) => cfg.name.clone(),
                    None => {
                        return Err(
                            PluginError::ManifestValidation(
                                concat3("plugin '", name, "' does not declare an ai_provider section"),
                            ),
                        );
                    },
                };
                if self.plugins[index].instance.is_none() {
                    return Err(PluginError::NotLoaded(name.to_string()));
                }
                proof {
                    lemma_wf_instance_update(self.plugins@, self.hooks, index as int);
                }
                let mut entry = self.plugins.remove(index);
                let mut taken: Option<I> = None;
                std::mem::swap(&mut taken, &mut entry.instance);
                self.plugins.insert(index, entry);
                proof {
                    assert(self.plugins@ =~= old(self).plugins@.update(
                        index as int,
                        with_instance(old(self).plugins@[index as int], None),
                    ));
                }
                match taken {
                    Some(inst) => Ok((provider_name, inst)),
                    None => Err(PluginError::NotLoaded(name.to_string())),
                }
            },
        }
    }

    /// List all loaded plugin names, in load order.
    pub fn loaded_plugins(&self) -> (names: Vec<&str>)
        ensures
            names@.map_values(|s: &str| s@) == registered_names(self.entries()),
    {
        let mut names: Vec<&str> = Vec::new();
        let mut i: usize = 0;
        while i < self.plugins.len()
            invariant
                i <= self.plugins@.len(),
                names@.map_values(|s: &str| s@) == registered_names(self.plugins@.take(i as int)),
            decreases self.plugins@.len() - i,
        {
            assert(self.plugins@.take(i + 1).drop_last() =~= self.plugins@.take(i as int));
            if self.plugins[i].registered {
                let ghost before = names@;
                names.push(self.plugins[i].manifest.plugin.name.as_str());
                assert(names@.map_values(|s: &str| s@) =~= before.map_values(|s: &str| s@).push(
                    self.plugins@[i as int].manifest.plugin.name@,
                ));
            }
            i = i + 1;
        }
        assert(self.plugins@.take(self.plugins@.len() as int) =~= self.plugins@);
        names
    }

    /// Returns the number of loaded plugins.
    pub fn plugin_count(&self) -> (n: usize)
        ensures
            n == registered_names(self.entries()).len(),
    {
        let mut n: usize = 0;
        let mut i: usize = 0;
        while i < self.plugins.len()
            invariant
                i <= self.plugins@.len(),
                n == registered_names(self.plugins@.take(i as int)).len(),
                n <= i,
            decreases self.plugins@.len() - i,
        {
            assert(self.plugins@.take(i + 1).drop_last() =~= self.plugins@.take(i as int));
            if self.plugins[i].registered {
                n = n + 1;
            }
            i = i + 1;
        }
        assert(self.plugins@.take(self.plugins@.len() as int) =~= self.plugins@);
        n
    }

    /// Get the manifest for a loaded plugin.
    pub fn manifest(&self, name: &str) -> (m: Option<&PluginManifest>)
        requires
            self.wf(),
        ensures
            m is Some <==> index_of(self.entries(), name@) is Some,
            m matches Some(x) ==> *x == self.entries()[index_of(self.entries(), name@)->0].manifest,
    {
        match self.find_index(name) {
            Some(i) => Some(&self.plugins[i].manifest),
            None => None,
        }
    }

    /// Get the directory path for a loaded plugin.
    pub fn plugin_dir(&self, name: &str) -> (d: Option<&PathBuf>)
        requires
            self.wf(),
        ensures
            d is Some <==> index_of(self.entries(), name@) is Some,
            d matches Some(p) ==> *p == self.entries()[index_of(self.entries(), name@)->0].dir,
    {
        match self.find_index(name) {
            Some(i) => Some(&self.plugins[i].dir),
            None => None,
        }
    }

    /// Returns `true` if any loaded plugin provides a custom AI provider.
    pub fn has_ai_providers(&self) -> (any: bool)
        requires
            self.wf(),
        ensures
            any == any_ai_provider(self.entries()),
    {
        let mut i: usize = 0;
        while i < self.plugins.len()
            invariant
                i <= self.plugins@.len(),
                self.wf(),
                forall|j: int|
                    0 <= j < i ==> !((#[trigger] self.plugins@[j]).manifest.ai_provider is Some && name_registered(
                        self.plugins@,
                        self.plugins@[j].manifest.plugin.name@,
                    )),
            decreases self.plugins@.len() - i,
        {
            let p = &self.plugins[i];
            if self.find_index(p.manifest.plugin.name.as_str()).is_some() && p.manifest.is_ai_provider() {
                assert(self.plugins@[i as int] == *p);
                return true;
            }
            i = i + 1;
        }
        false
    }
}


/// The entry `e` after its plugin was unloaded.
pub open spec fn unloaded<I>(e: LoadedPlugin<I>) -> LoadedPlugin<I> {
    LoadedPlugin { instance: None, registered: false, ..e }
}

/// Law: once a plugin is unloaded its name is free again — no entry is
/// registered under it, so a plugin of that name may be loaded anew.
pub proof fn law_unload_frees_name<I>(entries: Seq<LoadedPlugin<I>>, hooks: HookRegistry, i: int, name: Seq<char>)
    requires
        entries_wf(entries, hooks),
        registered_as(entries, i, name),
    ensures
        !name_registered(entries.update(i, unloaded(entries[i])), name),
{
    let e2 = entries.update(i, unloaded(entries[i]));
    if name_registered(e2, name) {
        let j = choose|j: int| registered_as(e2, j, name);
        assert(j != i);
        assert(entries[j] == e2[j]);
        assert(entries[i].registered && entries[j].registered);
    }
}

/// Law: a plugin that was just loaded holds its name, so no second plugin
/// of that name is admitted until it is unloaded.
pub proof fn law_loaded_name_is_taken<I>(entries: Seq<LoadedPlugin<I>>, manifest: PluginManifest, dir: PathBuf, instance: I)
    ensures
        name_registered(
            entries.push(LoadedPlugin { manifest, dir, instance: Some(instance), registered: true }),
            manifest.plugin.name@,
        ),
{
    let e2 = entries.push(LoadedPlugin { manifest, dir, instance: Some(instance), registered: true });
    assert(registered_as(e2, entries.len() as int, manifest.plugin.name@));
}

/// Law: events are only ever handed to plugins that still have an instance.
pub proof fn law_targets_are_live<I>(entries: Seq<LoadedPlugin<I>>, subs: Seq<usize>)
    ensures
        forall|k: int|
            0 <= k < live_targets(entries, subs).len() ==> (#[trigger] live_targets(entries, subs)[k]) < entries.len()
                && entries[live_targets(entries, subs)[k] as int].instance is Some,
    decreases subs.len(),
{
    if subs.len() > 0 {
        law_targets_are_live(entries, subs.drop_last());
        let t = live_targets(entries, subs);
        let t0 = live_targets(entries, subs.drop_last());
        assert forall|k: int| 0 <= k < t.len() implies (#[trigger] t[k]) < entries.len() && entries[t[k] as int].instance is Some by {
            if k < t0.len() {
                assert(t[k] == t0[k]);
            }
        }
    }
}

/// Law: a plugin whose instance was taken to serve as an AI provider gets
/// no more events, and asking for it again finds the same entry, now
/// without an instance (so the answer is that it is not loaded).
pub proof fn law_taken_provider_leaves_dispatch<I>(entries: Seq<LoadedPlugin<I>>, hooks: HookRegistry, name: Seq<char>, subs: Seq<usize>)
    requires
        entries_wf(entries, hooks),
        index_of(entries, name) is Some,
    ensures
        ({
            let i = index_of(entries, name)->0;
            let after = entries.update(i, with_instance(entries[i], None));
            &&& forall|k: int| 0 <= k < live_targets(after, subs).len() ==> (#[trigger] live_targets(after, subs)[k]) as int != i
            &&& index_of(after, name) == Some(i)
            &&& after[i].instance is None
            &&& after[i].manifest == entries[i].manifest
        }),
{
    let i = index_of(entries, name)->0;
    let after = entries.update(i, with_instance(entries[i], None));
    assert(registered_as(entries, i, name));
    law_targets_are_live(after, subs);
    assert(registered_as(after, i, name));
    let j = choose|j: int| registered_as(after, j, name);
    assert(registered_as(entries, j, name));
    assert(entries[i].registered && entries[j].registered);
    assert(j == i);
}

} // verus!
