use minal::keys::{KeyBinding, KeyPress, Modifiers, NamedKey};
use minal::routing::{
    decide_key, route_key, toggle_panel, KeyDecision, KeyRoute, PanelKeyAction, PanelToggle, PanelVisibility,
};

fn all_closed() -> PanelVisibility {
    PanelVisibility { chat: Some(false), error: Some(false), agent: Some(false), mcp: Some(false) }
}

#[test]
fn toggling_chat_closes_the_error_panel() {
    let v = PanelVisibility { error: Some(true), ..all_closed() };
    let v = toggle_panel(v, PanelToggle::Chat);
    assert_eq!(v.chat, Some(true));
    assert_eq!(v.error, Some(false));
}

#[test]
fn toggling_error_panel_closes_chat() {
    let v = PanelVisibility { chat: Some(true), agent: Some(true), ..all_closed() };
    let v = toggle_panel(v, PanelToggle::ErrorPanel);
    assert_eq!(v.error, Some(true));
    assert_eq!(v.chat, Some(false));
    assert_eq!(v.agent, Some(true));
}

#[test]
fn agent_and_tools_panels_close_the_others() {
    let v = PanelVisibility { chat: Some(true), ..all_closed() };
    let v = toggle_panel(v, PanelToggle::Agent);
    assert_eq!(v, PanelVisibility { agent: Some(true), ..all_closed() });
    let v = toggle_panel(v, PanelToggle::McpTools);
    assert_eq!(v, PanelVisibility { mcp: Some(true), ..all_closed() });
    let v = toggle_panel(v, PanelToggle::McpTools);
    assert_eq!(v, all_closed());
}

#[test]
fn absent_panels_stay_absent() {
    let v = PanelVisibility { chat: None, error: None, agent: None, mcp: None };
    assert_eq!(toggle_panel(v, PanelToggle::Chat), v);
}

#[test]
fn panels_take_keys_in_order() {
    let esc = KeyPress::Named(NamedKey::Escape);
    assert_eq!(route_key(true, all_closed(), false, &esc), KeyRoute::Composing);
    let v = PanelVisibility { error: Some(true), mcp: Some(true), ..all_closed() };
    assert_eq!(route_key(false, v, false, &esc), KeyRoute::ErrorPanel(PanelKeyAction::Close));
    let v = PanelVisibility { mcp: Some(true), agent: Some(true), ..all_closed() };
    assert_eq!(
        route_key(false, v, false, &KeyPress::Named(NamedKey::PageDown)),
        KeyRoute::McpPanel(PanelKeyAction::ScrollDown)
    );
    let v = PanelVisibility { agent: Some(true), chat: Some(true), ..all_closed() };
    assert_eq!(route_key(false, v, false, &esc), KeyRoute::AgentPanel);
    let v = PanelVisibility { chat: Some(true), ..all_closed() };
    assert_eq!(route_key(false, v, true, &esc), KeyRoute::ChatPanel);
}

#[test]
fn panel_keys() {
    let v = PanelVisibility { error: Some(true), ..all_closed() };
    assert_eq!(
        route_key(false, v, false, &KeyPress::Named(NamedKey::ArrowUp)),
        KeyRoute::ErrorPanel(PanelKeyAction::ScrollUp)
    );
    assert_eq!(
        route_key(false, v, false, &KeyPress::Character("x".to_string())),
        KeyRoute::ErrorPanel(PanelKeyAction::Ignore)
    );
}

#[test]
fn completion_keys_and_the_terminal() {
    let tab = KeyPress::Named(NamedKey::Tab);
    let esc = KeyPress::Named(NamedKey::Escape);
    assert_eq!(route_key(false, all_closed(), true, &tab), KeyRoute::AcceptCompletion);
    assert_eq!(route_key(false, all_closed(), true, &esc), KeyRoute::DismissCompletion);
    assert_eq!(route_key(false, all_closed(), false, &tab), KeyRoute::Terminal);
    assert_eq!(route_key(false, all_closed(), true, &KeyPress::Character("a".to_string())), KeyRoute::Terminal);
}

fn ctrl() -> Modifiers {
    Modifiers { shift: false, ctrl: true, alt: false, super_key: false }
}

#[test]
fn key_bindings_come_before_panels_and_the_shell() {
    let bindings = vec![KeyBinding { key: "t".to_string(), modifiers: vec!["Ctrl".to_string()], action: 7u8 }];
    let t = KeyPress::Character("t".to_string());
    let v = PanelVisibility { chat: Some(true), ..all_closed() };
    assert_eq!(decide_key(&bindings, &t, ctrl(), true, false, v, false), KeyDecision::Binding(0));
    assert_eq!(decide_key(&bindings, &t, ctrl(), false, false, v, false), KeyDecision::Ignore);
    assert_eq!(decide_key(&bindings, &t, ctrl(), true, true, v, false), KeyDecision::Ignore);
    let plain = Modifiers { ctrl: false, ..ctrl() };
    assert_eq!(decide_key(&bindings, &t, plain, true, false, v, false), KeyDecision::Route(KeyRoute::ChatPanel));
    assert_eq!(
        decide_key(&bindings, &t, plain, true, false, all_closed(), false),
        KeyDecision::Route(KeyRoute::Terminal)
    );
}
