use minal::agent::{
    command_outcome, file_written_outcome, result_outcome,
    agent_key_action, agent_panel_step, danger_warning, status_text, step_result_text,
    step_status_text, AgentKeyAction, AgentStatus, DangerLevel, StepStatus,
};
use minal::keys::{KeyPress, Modifiers, NamedKey};

fn named(k: NamedKey) -> KeyPress {
    KeyPress::Named(k)
}

fn ch(s: &str) -> KeyPress {
    KeyPress::Character(s.to_string())
}

#[test]
fn status_text_idle() {
    assert_eq!(status_text(AgentStatus::Idle), "Idle");
}

#[test]
fn status_texts() {
    assert_eq!(status_text(AgentStatus::Planning), "Planning...");
    assert_eq!(status_text(AgentStatus::AwaitingApproval), "Awaiting Approval");
    assert_eq!(status_text(AgentStatus::Executing), "Executing...");
    assert_eq!(status_text(AgentStatus::WaitingForUser), "Waiting for Input");
    assert_eq!(status_text(AgentStatus::Completed), "Completed");
    assert_eq!(status_text(AgentStatus::Failed), "Failed");
    assert_eq!(status_text(AgentStatus::Cancelled), "Cancelled");
}

#[test]
fn step_statuses_render_by_name() {
    assert_eq!(step_status_text(StepStatus::AwaitingApproval), "AwaitingApproval");
    assert_eq!(step_status_text(StepStatus::Skipped), "Skipped");
}

#[test]
fn danger_warnings() {
    assert_eq!(danger_warning(false, DangerLevel::Dangerous), None);
    assert_eq!(danger_warning(true, DangerLevel::Dangerous), Some("Highly destructive command".to_string()));
    assert_eq!(danger_warning(true, DangerLevel::Warning), Some("Potentially dangerous command".to_string()));
    assert_eq!(danger_warning(true, DangerLevel::Safe), None);
}

#[test]
fn result_text_prefers_output() {
    assert_eq!(step_result_text("ok", Some("bad")), "ok");
    assert_eq!(step_result_text("", Some("bad")), "bad");
    assert_eq!(step_result_text("", None), "");
}

#[test]
fn panel_step_collects_everything() {
    let step = agent_panel_step(
        2,
        "RunCommand",
        "Run `rm -rf build`".to_string(),
        StepStatus::Completed,
        true,
        DangerLevel::Warning,
        Some(("", Some("exit 1"))),
    );
    assert_eq!(step.index, 2);
    assert_eq!(step.action_type, "RunCommand");
    assert_eq!(step.status, "Completed");
    assert!(step.is_dangerous);
    assert_eq!(step.result_output, Some("exit 1".to_string()));
    assert_eq!(step.danger_warning, Some("Potentially dangerous command".to_string()));
    let pending = agent_panel_step(0, "ReadFile", String::new(), StepStatus::Pending, false, DangerLevel::Safe, None);
    assert_eq!(pending.result_output, None);
    assert_eq!(pending.danger_warning, None);
}

#[test]
fn escape_closes_a_settled_task_and_cancels_a_running_one() {
    let m = Modifiers::default();
    for s in [AgentStatus::Idle, AgentStatus::Completed, AgentStatus::Failed, AgentStatus::Cancelled] {
        assert_eq!(agent_key_action(s, &named(NamedKey::Escape), m), AgentKeyAction::Close);
    }
    for s in [AgentStatus::Planning, AgentStatus::AwaitingApproval, AgentStatus::Executing, AgentStatus::WaitingForUser] {
        assert_eq!(agent_key_action(s, &named(NamedKey::Escape), m), AgentKeyAction::Cancel);
    }
}

#[test]
fn enter_depends_on_the_task_state() {
    let m = Modifiers::default();
    assert_eq!(agent_key_action(AgentStatus::Idle, &named(NamedKey::Enter), m), AgentKeyAction::SubmitTask);
    assert_eq!(agent_key_action(AgentStatus::AwaitingApproval, &named(NamedKey::Enter), m), AgentKeyAction::ApproveStep);
    assert_eq!(agent_key_action(AgentStatus::WaitingForUser, &named(NamedKey::Enter), m), AgentKeyAction::SubmitAnswer);
    assert_eq!(agent_key_action(AgentStatus::Executing, &named(NamedKey::Enter), m), AgentKeyAction::Ignore);
}

#[test]
fn s_skips_only_when_awaiting_approval() {
    let m = Modifiers::default();
    assert_eq!(agent_key_action(AgentStatus::AwaitingApproval, &ch("s"), m), AgentKeyAction::SkipStep);
    let ctrl = Modifiers { ctrl: true, ..Modifiers::default() };
    assert_eq!(agent_key_action(AgentStatus::AwaitingApproval, &ch("s"), ctrl), AgentKeyAction::Ignore);
    assert_eq!(agent_key_action(AgentStatus::Idle, &ch("s"), m), AgentKeyAction::InsertText("s".to_string()));
}

#[test]
fn editing_keys_reach_the_input_only_when_it_takes_input() {
    let m = Modifiers::default();
    assert_eq!(agent_key_action(AgentStatus::Idle, &named(NamedKey::Backspace), m), AgentKeyAction::Backspace);
    assert_eq!(agent_key_action(AgentStatus::WaitingForUser, &named(NamedKey::ArrowLeft), m), AgentKeyAction::CursorLeft);
    assert_eq!(agent_key_action(AgentStatus::Idle, &named(NamedKey::ArrowRight), m), AgentKeyAction::CursorRight);
    assert_eq!(agent_key_action(AgentStatus::Executing, &named(NamedKey::Backspace), m), AgentKeyAction::Ignore);
    assert_eq!(agent_key_action(AgentStatus::Executing, &ch("x"), m), AgentKeyAction::Ignore);
    let cmd = Modifiers { super_key: true, ..Modifiers::default() };
    assert_eq!(agent_key_action(AgentStatus::Idle, &ch("x"), cmd), AgentKeyAction::Ignore);
    assert_eq!(agent_key_action(AgentStatus::Executing, &named(NamedKey::ArrowUp), m), AgentKeyAction::ScrollUp);
    assert_eq!(agent_key_action(AgentStatus::Executing, &named(NamedKey::ArrowDown), m), AgentKeyAction::ScrollDown);
    assert_eq!(agent_key_action(AgentStatus::Idle, &named(NamedKey::Tab), m), AgentKeyAction::Ignore);
    assert_eq!(agent_key_action(AgentStatus::Idle, &KeyPress::Unidentified, m), AgentKeyAction::Ignore);
}

#[test]
fn command_outcomes() {
    let ok = command_outcome("out", "warn", 0);
    assert_eq!(ok.output, "out");
    assert_eq!(ok.exit_code, Some(0));
    assert!(ok.error.is_none());
    let quiet = command_outcome("", "warn", 0);
    assert_eq!(quiet.output, "warn");
    let failed = command_outcome("out", "boom", 2);
    assert_eq!(failed.output, "out\nboom");
    assert_eq!(failed.exit_code, Some(2));
    assert_eq!(failed.error, Some("boom".to_string()));
    let silent_fail = command_outcome("out", "", 1);
    assert!(silent_fail.error.is_none());
}

#[test]
fn result_and_file_outcomes() {
    let read = result_outcome(Ok("content".to_string()));
    assert_eq!(read.output, "content");
    assert_eq!(read.exit_code, Some(0));
    let failed = result_outcome(Err("no such file".to_string()));
    assert_eq!(failed.output, "");
    assert_eq!(failed.exit_code, Some(1));
    assert_eq!(failed.error, Some("no such file".to_string()));
    let written = file_written_outcome("/tmp/a.txt", Ok(()));
    assert_eq!(written.output, "File written: /tmp/a.txt");
    let refused = file_written_outcome("/tmp/a.txt", Err("denied".to_string()));
    assert_eq!(refused.error, Some("denied".to_string()));
}
