//! Where a key press goes, and which overlay panels are open: the panels
//! take keys before the terminal, and opening one panel closes those it
//! would cover.

use vstd::prelude::*;

use crate::keys::{binding_fires, find_keybind_action, KeyBinding, KeyPress, Modifiers, NamedKey};

verus! {

/// Which overlay panels are open; `None` for a panel the configuration
/// left out.
#[derive(Debug, Clone, Copy, PartialEq, Eq, Structural)]
pub struct PanelVisibility {
    pub chat: Option<bool>,
    pub error: Option<bool>,
    pub agent: Option<bool>,
    pub mcp: Option<bool>,
}

/// A key binding that opens or closes an overlay panel.
#[derive(Debug, Clone, Copy, PartialEq, Eq, Structural)]
pub enum PanelToggle {
    ErrorPanel,
    Chat,
    Agent,
    McpTools,
}

/// The panel is there and open.
pub open spec fn is_open(p: Option<bool>) -> bool {
    p == Some(true)
}

/// The panel closed, if it is there.
pub open spec fn closed(p: Option<bool>) -> Option<bool> {
    match p {
        Some(_) => Some(false),
        None => None,
    }
}

/// The panel flipped, if it is there.
pub open spec fn flipped(p: Option<bool>) -> Option<bool> {
    match p {
        Some(b) => Some(!b),
        None => None,
    }
}

/// The panels after a toggle binding: the error panel closes the chat; the
/// chat closes the error panel; the agent panel closes both; the tools
/// panel closes those three; then the panel itself flips.
pub open spec fn toggled(v: PanelVisibility, t: PanelToggle) -> PanelVisibility {
    match t {
        PanelToggle::ErrorPanel => PanelVisibility { chat: closed(v.chat), error: flipped(v.error), ..v },
        PanelToggle::Chat => PanelVisibility { error: closed(v.error), chat: flipped(v.chat), ..v },
        PanelToggle::Agent => PanelVisibility {
            chat: closed(v.chat),
            error: closed(v.error),
            agent: flipped(v.agent),
            ..v
        },
        PanelToggle::McpTools => PanelVisibility {
            chat: closed(v.chat),
            error: closed(v.error),
            agent: closed(v.agent),
            mcp: flipped(v.mcp),
        },
    }
}

fn close_panel(p: Option<bool>) -> (r: Option<bool>)
    ensures
        r == closed(p),
{
    match p {
        Some(_) => Some(false),
        None => None,
    }
}

fn flip_panel(p: Option<bool>) -> (r: Option<bool>)
    ensures
        r == flipped(p),
{
    match p {
        Some(b) => Some(!b),
        None => None,
    }
}

/// The panels after a toggle binding.
pub fn toggle_panel(v: PanelVisibility, t: PanelToggle) -> (r: PanelVisibility)
    ensures
        r == toggled(v, t),
{
    match t {
        PanelToggle::ErrorPanel => PanelVisibility {
            chat: close_panel(v.chat),
            error: flip_panel(v.error),
            ..v
        },
        PanelToggle::Chat => PanelVisibility {
            error: close_panel(v.error),
            chat: flip_panel(v.chat),
            ..v
        },
        PanelToggle::Agent => PanelVisibility {
            chat: close_panel(v.chat),
            error: close_panel(v.error),
            agent: flip_panel(v.agent),
            ..v
        },
        PanelToggle::McpTools => PanelVisibility {
            chat: close_panel(v.chat),
            error: close_panel(v.error),
            agent: close_panel(v.agent),
            mcp: flip_panel(v.mcp),
        },
    }
}

/// The chat and the error panel are never open together: no toggle opens
/// one of them while the other stays open.
pub proof fn law_chat_and_error_exclusive(v: PanelVisibility, t: PanelToggle)
    requires
        !(is_open(v.chat) && is_open(v.error)),
    ensures
        !(is_open(toggled(v, t).chat) && is_open(toggled(v, t).error)),
{
}

/// Opening the tools panel leaves it the only open panel.
pub proof fn law_tools_panel_stands_alone(v: PanelVisibility)
    requires
        v.mcp == Some(false),
    ensures
        is_open(toggled(v, PanelToggle::McpTools).mcp),
        !is_open(toggled(v, PanelToggle::McpTools).chat),
        !is_open(toggled(v, PanelToggle::McpTools).error),
        !is_open(toggled(v, PanelToggle::McpTools).agent),
{
}

/// What a key does in the error or the tools panel.
#[derive(Debug, Clone, Copy, PartialEq, Eq, Structural)]
pub enum PanelKeyAction {
    Close,
    ScrollUp,
    ScrollDown,
    Ignore,
}

/// Where a key press goes once no key binding took it.
#[derive(Debug, Clone, Copy, PartialEq, Eq, Structural)]
pub enum KeyRoute {
    /// An input method is composing text: the key is dropped.
    Composing,
    /// The error panel takes it.
    ErrorPanel(PanelKeyAction),
    /// The tools panel takes it.
    McpPanel(PanelKeyAction),
    /// The agent panel takes it.
    AgentPanel,
    /// The chat panel takes it.
    ChatPanel,
    /// Tab takes the suggested completion.
    AcceptCompletion,
    /// Escape drops the suggested completion.
    DismissCompletion,
    /// It goes to the shell of the focused pane.
    Terminal,
}

/// What a key does in the error or the tools panel: Escape closes it, the
/// up keys scroll up, the down keys scroll down.
pub open spec fn panel_key(key: KeyPress) -> PanelKeyAction {
    match key {
        KeyPress::Named(NamedKey::Escape) => PanelKeyAction::Close,
        KeyPress::Named(NamedKey::ArrowUp) | KeyPress::Named(NamedKey::PageUp) => PanelKeyAction::ScrollUp,
        KeyPress::Named(NamedKey::ArrowDown) | KeyPress::Named(NamedKey::PageDown) => PanelKeyAction::ScrollDown,
        _ => PanelKeyAction::Ignore,
    }
}

/// Where a key press goes: nowhere while text is being composed, else to
/// the first open panel of error, tools, agent and chat, else Tab and
/// Escape act on a suggested completion, else to the shell.
pub open spec fn key_route(composing: bool, v: PanelVisibility, has_ghost_text: bool, key: KeyPress) -> KeyRoute {
    if composing {
        KeyRoute::Composing
    } else if is_open(v.error) {
        KeyRoute::ErrorPanel(panel_key(key))
    } else if is_open(v.mcp) {
        KeyRoute::McpPanel(panel_key(key))
    } else if is_open(v.agent) {
        KeyRoute::AgentPanel
    } else if is_open(v.chat) {
        KeyRoute::ChatPanel
    } else if has_ghost_text && key == KeyPress::Named(NamedKey::Tab) {
        KeyRoute::AcceptCompletion
    } else if has_ghost_text && key == KeyPress::Named(NamedKey::Escape) {
        KeyRoute::DismissCompletion
    } else {
        KeyRoute::Terminal
    }
}

fn panel_key_action(key: &KeyPress) -> (a: PanelKeyAction)
    ensures
        a == panel_key(*key),
{
    match key {
        KeyPress::Named(NamedKey::Escape) => PanelKeyAction::Close,
        KeyPress::Named(NamedKey::ArrowUp) | KeyPress::Named(NamedKey::PageUp) => PanelKeyAction::ScrollUp,
        KeyPress::Named(NamedKey::ArrowDown) | KeyPress::Named(NamedKey::PageDown) => PanelKeyAction::ScrollDown,
        _ => PanelKeyAction::Ignore,
    }
}

/// Where a key press goes.
pub fn route_key(composing: bool, v: PanelVisibility, has_ghost_text: bool, key: &KeyPress) -> (r:
    KeyRoute)
    ensures
        r == key_route(composing, v, has_ghost_text, *key),
        composing ==> r == KeyRoute::Composing,
        !composing && v.error == Some(true) ==> r is ErrorPanel,
        !composing && v.error != Some(true) && v.mcp == Some(true) ==> r is McpPanel,
        !composing && v.error != Some(true) && v.mcp != Some(true) && v.agent == Some(true) ==> r
            == KeyRoute::AgentPanel,
        !composing && v.error != Some(true) && v.mcp != Some(true) && v.agent != Some(true) && v.chat == Some(
            true,
        ) ==> r == KeyRoute::ChatPanel,
        !composing && v.error != Some(true) && v.mcp != Some(true) && v.agent != Some(true) && v.chat != Some(
            true,
        ) ==> r == (if has_ghost_text && *key == KeyPress::Named(NamedKey::Tab) {
            KeyRoute::AcceptCompletion
        } else if has_ghost_text && *key == KeyPress::Named(NamedKey::Escape) {
            KeyRoute::DismissCompletion
        } else {
            KeyRoute::Terminal
        }),
        !composing && v.error == Some(true) ==> {
            &&& (*key == KeyPress::Named(NamedKey::ArrowDown) || *key == KeyPress::Named(NamedKey::PageDown))
                ==> r == KeyRoute::ErrorPanel(PanelKeyAction::ScrollDown)
            &&& (*key == KeyPress::Named(NamedKey::ArrowUp) || *key == KeyPress::Named(NamedKey::PageUp))
                ==> r == KeyRoute::ErrorPanel(PanelKeyAction::ScrollUp)
            &&& *key == KeyPress::Named(NamedKey::Escape) ==> r == KeyRoute::ErrorPanel(PanelKeyAction::Close)
        },
        !composing && v.error != Some(true) && v.mcp == Some(true) ==> {
            &&& (*key == KeyPress::Named(NamedKey::ArrowDown) || *key == KeyPress::Named(NamedKey::PageDown))
                ==> r == KeyRoute::McpPanel(PanelKeyAction::ScrollDown)
            &&& (*key == KeyPress::Named(NamedKey::ArrowUp) || *key == KeyPress::Named(NamedKey::PageUp))
                ==> r == KeyRoute::McpPanel(PanelKeyAction::ScrollUp)
            &&& *key == KeyPress::Named(NamedKey::Escape) ==> r == KeyRoute::McpPanel(PanelKeyAction::Close)
        },
{
    if composing {
        KeyRoute::Composing
    } else if v.error == Some(true) {
        KeyRoute::ErrorPanel(panel_key_action(key))
    } else if v.mcp == Some(true) {
        KeyRoute::McpPanel(panel_key_action(key))
    } else if v.agent == Some(true) {
        KeyRoute::AgentPanel
    } else if v.chat == Some(true) {
        KeyRoute::ChatPanel
    } else if has_ghost_text && matches!(key, KeyPress::Named(NamedKey::Tab)) {
        KeyRoute::AcceptCompletion
    } else if has_ghost_text && matches!(key, KeyPress::Named(NamedKey::Escape)) {
        KeyRoute::DismissCompletion
    } else {
        KeyRoute::Terminal
    }
}

/// What a key press leads to: nothing (it was a release, or an input
/// method is composing), the action of a key binding (by its index), or
/// where the key goes when no binding takes it.
#[derive(Debug, Clone, Copy, PartialEq, Eq, Structural)]
pub enum KeyDecision {
    Ignore,
    Binding(usize),
    Route(KeyRoute),
}

/// Decides where a key goes. A release, or a press while an input method
/// is composing, is ignored; else the first key binding that fires on it
/// takes it; else it is routed to a panel, the completion or the shell.
pub fn decide_key<A>(
    bindings: &[KeyBinding<A>],
    key: &KeyPress,
    mods: Modifiers,
    pressed: bool,
    composing: bool,
    v: PanelVisibility,
    has_ghost_text: bool,
) -> (d: KeyDecision)
    ensures
        !pressed || composing ==> d == KeyDecision::Ignore,
        pressed && !composing ==> match d {
            KeyDecision::Binding(i) => i < bindings@.len() && binding_fires(bindings@[i as int], *key, mods)
                && forall|j: int| 0 <= j < i ==> !binding_fires(#[trigger] bindings@[j], *key, mods),
            KeyDecision::Route(route) => route == key_route(false, v, has_ghost_text, *key) && forall|j: int|
                0 <= j < bindings@.len() ==> !binding_fires(#[trigger] bindings@[j], *key, mods),
            KeyDecision::Ignore => false,
        },
{
    if !pressed || composing {
        return KeyDecision::Ignore;
    }
    match find_keybind_action(bindings, key, mods) {
        Some(i) => KeyDecision::Binding(i),
        None => KeyDecision::Route(route_key(false, v, has_ghost_text, key)),
    }
}

/// Law: in the error and the tools panel the scroll keys go both ways:
/// the down arrow and Page Down scroll down, the up arrow and Page Up
/// scroll up, and Escape closes the panel.
pub proof fn law_panel_scroll_keys()
    ensures
        panel_key(KeyPress::Named(NamedKey::ArrowDown)) == PanelKeyAction::ScrollDown,
        panel_key(KeyPress::Named(NamedKey::PageDown)) == PanelKeyAction::ScrollDown,
        panel_key(KeyPress::Named(NamedKey::ArrowUp)) == PanelKeyAction::ScrollUp,
        panel_key(KeyPress::Named(NamedKey::PageUp)) == PanelKeyAction::ScrollUp,
        panel_key(KeyPress::Named(NamedKey::Escape)) == PanelKeyAction::Close,
        panel_key(KeyPress::Named(NamedKey::ArrowDown)) != panel_key(KeyPress::Named(NamedKey::ArrowUp)),
{
}

/// Law: while the error panel is open it takes every key, and what a key
/// does there does not depend on the other panels or on a suggested
/// completion; the down arrow scrolls it down.
pub proof fn law_error_panel_takes_keys(v: PanelVisibility, has_ghost_text: bool, key: KeyPress)
    requires
        v.error == Some(true),
    ensures
        key_route(false, v, has_ghost_text, key) == KeyRoute::ErrorPanel(panel_key(key)),
        key_route(false, v, has_ghost_text, KeyPress::Named(NamedKey::ArrowDown)) == KeyRoute::ErrorPanel(
            PanelKeyAction::ScrollDown,
        ),
{
}

} // verus!
