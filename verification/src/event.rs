//! Plugin event types and hook registry.
//!
//! Defines the events that plugins can subscribe to via their manifest.
//! The [`HookRegistry`] tracks which plugins are interested in which events
//! and provides efficient dispatch.

use vstd::prelude::*;

verus! {

broadcast use vstd::string::group_string_axioms;

/// Events that can be dispatched to plugins.
#[derive(Debug, Clone)]
pub enum PluginEvent {
    /// A shell command is about to execute or has been entered.
    Command {
        /// The command string.
        command: String,
        /// Current working directory.
        working_dir: String,
    },
    /// Terminal output was received.
    Output {
        /// The output data (may be partial).
        data: String,
    },
    /// A command exited with a non-zero status.
    Error {
        /// The command that failed.
        command: String,
        /// Exit code of the command.
        exit_code: i32,
        /// Standard error output.
        stderr: String,
    },
}

/// Response from a plugin hook invocation.
#[derive(Debug, Clone)]
pub struct HookResponse {
    /// If `true`, the event should be suppressed (not processed further).
    pub suppress: bool,
    /// Optional modified command (only meaningful for `Command` events).
    pub modified_command: Option<String>,
    /// Optional message to display to the user.
    pub message: Option<String>,
}

impl Default for HookResponse {
    /// A response that suppresses nothing and carries no command or message.
    fn default() -> (r: Self)
        ensures
            !r.suppress,
            r.modified_command is None,
            r.message is None,
    {
        HookResponse { suppress: false, modified_command: None, message: None }
    }
}

/// Tracks which plugin indices are registered for each event type.
#[derive(Debug)]
pub struct HookRegistry {
    /// Plugin indices that subscribe to `on_command`.
    pub command_hooks: Vec<usize>,
    /// Plugin indices that subscribe to `on_output`.
    pub output_hooks: Vec<usize>,
    /// Plugin indices that subscribe to `on_error`.
    pub error_hooks: Vec<usize>,
}

impl Default for HookRegistry {
    /// An empty registry.
    fn default() -> (r: Self)
        ensures
            r.command_hooks@ == Seq::<usize>::empty(),
            r.output_hooks@ == Seq::<usize>::empty(),
            r.error_hooks@ == Seq::<usize>::empty(),
    {
        HookRegistry { command_hooks: Vec::new(), output_hooks: Vec::new(), error_hooks: Vec::new() }
    }
}

/// Holds of the plugin indices other than `index`.
pub open spec fn other_than(index: usize) -> spec_fn(usize) -> bool {
    |i: usize| i != index
}

/// `s` with every occurrence of `index` left out, order kept.
pub open spec fn without_index(s: Seq<usize>, index: usize) -> Seq<usize> {
    s.filter(other_than(index))
}

/// The hook list that receives events of the kind of `event`.
pub open spec fn hooks_for(reg: HookRegistry, event: PluginEvent) -> Seq<usize> {
    match event {
        PluginEvent::Command { .. } => reg.command_hooks@,
        PluginEvent::Output { .. } => reg.output_hooks@,
        PluginEvent::Error { .. } => reg.error_hooks@,
    }
}

/// Keeps the elements of `v` that differ from `index`, in order.
fn retain_other(v: &mut Vec<usize>, index: usize)
    ensures
        final(v)@ == without_index(old(v)@, index),
{
    let old_v = v.clone();
    let mut kept: Vec<usize> = Vec::new();
    let n = old_v.len();
    let mut i: usize = 0;
    while i < n
        invariant
            n == old_v@.len(),
            old_v@ == old(v)@,
            i <= n,
            kept@ == without_index(old_v@.take(i as int), index),
        decreases n - i,
    {
        proof {
            reveal_with_fuel(Seq::<usize>::filter, 1);
        }
        let x = old_v[i];
        if x != index {
            kept.push(x);
        }
        assert(old_v@.take(i + 1).drop_last() =~= old_v@.take(i as int));
        i = i + 1;
    }
    assert(old_v@.take(n as int) =~= old_v@);
    *v = kept;
}

impl HookRegistry {
    /// Create a new empty registry.
    pub fn new() -> (r: Self)
        ensures
            r.command_hooks@ == Seq::<usize>::empty(),
            r.output_hooks@ == Seq::<usize>::empty(),
            r.error_hooks@ == Seq::<usize>::empty(),
    {
        Self::default()
    }

    /// Register a plugin (by index) for its declared hooks.
    pub fn register(&mut self, index: usize, on_command: bool, on_output: bool, on_error: bool)
        ensures
            final(self).command_hooks@ == if on_command {
                old(self).command_hooks@.push(index)
            } else {
                old(self).command_hooks@
            },
            final(self).output_hooks@ == if on_output {
                old(self).output_hooks@.push(index)
            } else {
                old(self).output_hooks@
            },
            final(self).error_hooks@ == if on_error {
                old(self).error_hooks@.push(index)
            } else {
                old(self).error_hooks@
            },
    {
        if on_command {
            self.command_hooks.push(index);
        }
        if on_output {
            self.output_hooks.push(index);
        }
        if on_error {
            self.error_hooks.push(index);
        }
    }

    /// Remove all hook registrations for a plugin index.
    pub fn unregister(&mut self, index: usize)
        ensures
            final(self).command_hooks@ == without_index(old(self).command_hooks@, index),
            final(self).output_hooks@ == without_index(old(self).output_hooks@, index),
            final(self).error_hooks@ == without_index(old(self).error_hooks@, index),
    {
        retain_other(&mut self.command_hooks, index);
        retain_other(&mut self.output_hooks, index);
        retain_other(&mut self.error_hooks, index);
    }

    /// Return the plugin indices that should receive a given event.
    pub fn subscribers(&self, event: &PluginEvent) -> (subs: &[usize])
        ensures
            subs@ == hooks_for(*self, *event),
    {
        match event {
            PluginEvent::Command { .. } => self.command_hooks.as_slice(),
            PluginEvent::Output { .. } => self.output_hooks.as_slice(),
            PluginEvent::Error { .. } => self.error_hooks.as_slice(),
        }
    }
}


/// Law: after a plugin index is unregistered it receives no event, and every
/// other index that was registered for an event still is.
pub proof fn law_unregister_forgets_only_that_index(s: Seq<usize>, index: usize, other: usize)
    requires
        other != index,
    ensures
        !without_index(s, index).contains(index),
        s.contains(other) <==> without_index(s, index).contains(other),
{
    let pred = other_than(index);
    if without_index(s, index).contains(index) {
        let j = choose|j: int| 0 <= j < s.filter(pred).len() && s.filter(pred)[j] == index;
        s.lemma_filter_pred(pred, j);
    }
    if s.contains(other) {
        let j = choose|j: int| 0 <= j < s.len() && s[j] == other;
        s.lemma_filter_contains(pred, j);
    }
    if without_index(s, index).contains(other) {
        s.lemma_filter_contains_rev(pred, other);
    }
}

/// Law: a plugin registered for a hook is the last subscriber of that hook's
/// events, after every earlier subscriber.
pub proof fn law_register_appends(reg: HookRegistry, after: HookRegistry, index: usize, event: PluginEvent)
    requires
        after.command_hooks@ == reg.command_hooks@.push(index),
        after.output_hooks@ == reg.output_hooks@.push(index),
        after.error_hooks@ == reg.error_hooks@.push(index),
    ensures
        hooks_for(after, event) == hooks_for(reg, event).push(index),
        hooks_for(after, event).contains(index),
{
    assert(hooks_for(after, event)[hooks_for(reg, event).len() as int] == index);
}

/// Law: unregistering a plugin index right after registering it, when it
/// was not registered before, leaves the hook list as it was.
pub proof fn law_unregister_undoes_register(s: Seq<usize>, index: usize)
    requires
        !s.contains(index),
    ensures
        without_index(s.push(index), index) == s,
{
    let pred = other_than(index);
    reveal_with_fuel(Seq::<usize>::filter, 1);
    assert(s.push(index).drop_last() =~= s);
    assert(s.push(index).last() == index);
    assert(s.push(index).filter(pred) == s.filter(pred));
    lemma_filter_keeps_all(s, index);
}

proof fn lemma_filter_keeps_all(s: Seq<usize>, index: usize)
    requires
        !s.contains(index),
    ensures
        s.filter(other_than(index)) == s,
    decreases s.len(),
{
    reveal_with_fuel(Seq::<usize>::filter, 1);
    if s.len() > 0 {
        assert(!s.drop_last().contains(index)) by {
            if s.drop_last().contains(index) {
                let j = choose|j: int| 0 <= j < s.drop_last().len() && s.drop_last()[j] == index;
                assert(s[j] == index);
            }
        }
        lemma_filter_keeps_all(s.drop_last(), index);
        assert(s.last() != index) by {
            assert(s[s.len() - 1] == s.last());
        }
        assert(s.drop_last().push(s.last()) =~= s);
    }
}

/// The plugin events of a shell command that finished: the command, then,
/// when it exited with a non-zero status, an error carrying its output.
pub fn command_completed_events(command: &str, exit_code: i32, output: &str) -> (events: Vec<
    PluginEvent,
>)
    ensures
        events@.len() == if exit_code != 0 {
            2int
        } else {
            1int
        },
        events@[0] matches PluginEvent::Command { command: c, working_dir: w } && c@ == command@
            && w@.len() == 0,
        exit_code != 0 ==> (events@[1] matches PluginEvent::Error { command: c, exit_code: x, stderr: s }
            && c@ == command@ && x == exit_code && s@ == output@),
{
    let mut events: Vec<PluginEvent> = Vec::new();
    events.push(PluginEvent::Command { command: command.to_string(), working_dir: String::new() });
    if exit_code != 0 {
        events.push(
            PluginEvent::Error {
                command: command.to_string(),
                exit_code,
                stderr: output.to_string(),
            },
        );
    }
    events
}

} // verus!
