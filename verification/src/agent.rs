//! The agent panel's view of an agent task: how its state and steps are
//! shown, and what a key does while the panel has focus.

use vstd::prelude::*;

use crate::agent_panel::AgentPanelStep;
use crate::keys::{KeyPress, Modifiers, NamedKey};
use crate::text::{concat3, str_eq};

verus! {

broadcast use vstd::string::group_string_axioms;

/// Where an agent task stands.
#[derive(Debug, Clone, Copy, PartialEq, Eq, Structural)]
pub enum AgentStatus {
    Idle,
    Planning,
    AwaitingApproval,
    Executing,
    WaitingForUser,
    Completed,
    Failed,
    Cancelled,
}

/// The human-readable text of a task status.
pub open spec fn status_label(s: AgentStatus) -> Seq<char> {
    match s {
        AgentStatus::Idle => "Idle"@,
        AgentStatus::Planning => "Planning..."@,
        AgentStatus::AwaitingApproval => "Awaiting Approval"@,
        AgentStatus::Executing => "Executing..."@,
        AgentStatus::WaitingForUser => "Waiting for Input"@,
        AgentStatus::Completed => "Completed"@,
        AgentStatus::Failed => "Failed"@,
        AgentStatus::Cancelled => "Cancelled"@,
    }
}

/// The human-readable text of a task status.
pub fn status_text(s: AgentStatus) -> (text: &'static str)
    ensures
        text@ == status_label(s),
{
    match s {
        AgentStatus::Idle => "Idle",
        AgentStatus::Planning => "Planning...",
        AgentStatus::AwaitingApproval => "Awaiting Approval",
        AgentStatus::Executing => "Executing...",
        AgentStatus::WaitingForUser => "Waiting for Input",
        AgentStatus::Completed => "Completed",
        AgentStatus::Failed => "Failed",
        AgentStatus::Cancelled => "Cancelled",
    }
}

/// Where a step of a plan stands.
#[derive(Debug, Clone, Copy, PartialEq, Eq, Structural)]
pub enum StepStatus {
    Pending,
    AwaitingApproval,
    Approved,
    Running,
    Completed,
    Failed,
    Skipped,
}

/// The name a step status is rendered under.
pub open spec fn step_status_label(s: StepStatus) -> Seq<char> {
    match s {
        StepStatus::Pending => "Pending"@,
        StepStatus::AwaitingApproval => "AwaitingApproval"@,
        StepStatus::Approved => "Approved"@,
        StepStatus::Running => "Running"@,
        StepStatus::Completed => "Completed"@,
        StepStatus::Failed => "Failed"@,
        StepStatus::Skipped => "Skipped"@,
    }
}

/// The name a step status is rendered under.
pub fn step_status_text(s: StepStatus) -> (text: &'static str)
    ensures
        text@ == step_status_label(s),
{
    match s {
        StepStatus::Pending => "Pending",
        StepStatus::AwaitingApproval => "AwaitingApproval",
        StepStatus::Approved => "Approved",
        StepStatus::Running => "Running",
        StepStatus::Completed => "Completed",
        StepStatus::Failed => "Failed",
        StepStatus::Skipped => "Skipped",
    }
}

/// How harmful a command is judged to be.
#[derive(Debug, Clone, Copy, PartialEq, Eq, Structural)]
pub enum DangerLevel {
    Safe,
    Warning,
    Dangerous,
}

/// The warning shown with a step: only for a step flagged as dangerous,
/// and then by how harmful its command is.
pub open spec fn danger_warning_text(is_dangerous: bool, level: DangerLevel) -> Option<Seq<char>> {
    if !is_dangerous {
        None
    } else {
        match level {
            DangerLevel::Dangerous => Some("Highly destructive command"@),
            DangerLevel::Warning => Some("Potentially dangerous command"@),
            DangerLevel::Safe => None,
        }
    }
}

/// The warning shown with a step.
pub fn danger_warning(is_dangerous: bool, level: DangerLevel) -> (w: Option<String>)
    ensures
        w matches Some(t) ==> danger_warning_text(is_dangerous, level) == Some(t@),
        w is None ==> danger_warning_text(is_dangerous, level) is None,
{
    if !is_dangerous {
        return None;
    }
    match level {
        DangerLevel::Dangerous => Some("Highly destructive command".to_string()),
        DangerLevel::Warning => Some("Potentially dangerous command".to_string()),
        DangerLevel::Safe => None,
    }
}

/// What a finished step shows: its output, or its error message when the
/// output is empty (nothing when there is neither).
pub open spec fn result_text(output: Seq<char>, error: Option<Seq<char>>) -> Seq<char> {
    if output.len() == 0 {
        match error {
            Some(e) => e,
            None => Seq::empty(),
        }
    } else {
        output
    }
}

/// What a finished step shows.
pub fn step_result_text(output: &str, error: Option<&str>) -> (t: String)
    ensures
        t@ == result_text(
            output@,
            match error {
                Some(e) => Some(e@),
                None => None,
            },
        ),
{
    if output.is_empty() {
        match error {
            Some(e) => e.to_string(),
            None => String::new(),
        }
    } else {
        output.to_string()
    }
}

/// The render data of one step of a plan.
pub fn agent_panel_step(
    index: usize,
    action_type: &str,
    description: String,
    status: StepStatus,
    is_dangerous: bool,
    level: DangerLevel,
    result: Option<(&str, Option<&str>)>,
) -> (step: AgentPanelStep)
    ensures
        step.index == index,
        step.action_type@ == action_type@,
        step.description@ == description@,
        step.status@ == step_status_label(status),
        step.is_dangerous == is_dangerous,
        match result {
            Some((out, err)) => step.result_output matches Some(t) && t@ == result_text(
                out@,
                match err {
                    Some(e) => Some(e@),
                    None => None,
                },
            ),
            None => step.result_output is None,
        },
        match danger_warning_text(is_dangerous, level) {
            Some(w) => step.danger_warning matches Some(t) && t@ == w,
            None => step.danger_warning is None,
        },
{
    let result_output = match result {
        Some((out, err)) => Some(step_result_text(out, err)),
        None => None,
    };
    AgentPanelStep {
        index,
        action_type: action_type.to_string(),
        description,
        status: step_status_text(status).to_string(),
        is_dangerous,
        result_output,
        danger_warning: danger_warning(is_dangerous, level),
    }
}

/// What a key does in the agent panel.
#[derive(Debug, Clone, PartialEq, Eq)]
pub enum AgentKeyAction {
    /// Close the panel.
    Close,
    /// Cancel the running task.
    Cancel,
    /// Start a task from the input.
    SubmitTask,
    /// Approve the step that waits for approval.
    ApproveStep,
    /// Answer the agent's question with the input.
    SubmitAnswer,
    /// Skip the step that waits for approval, then see whether the next one
    /// may run without asking.
    SkipStep,
    ScrollUp,
    ScrollDown,
    Backspace,
    CursorLeft,
    CursorRight,
    /// Type these characters, one after the other.
    InsertText(String),
    /// Nothing.
    Ignore,
}

/// The input line takes keys while no task runs or the agent waits for an
/// answer.
pub open spec fn accepts_input(s: AgentStatus) -> bool {
    s == AgentStatus::Idle || s == AgentStatus::WaitingForUser
}

/// A task in one of these states is over (or never started).
pub open spec fn is_settled(s: AgentStatus) -> bool {
    s == AgentStatus::Idle || s == AgentStatus::Completed || s == AgentStatus::Failed || s
        == AgentStatus::Cancelled
}

/// What a key does in the agent panel, by the state of the task: Escape
/// closes the panel once the task is over and cancels it before; Enter
/// starts a task, approves a step or answers a question; `s` skips a step
/// that waits for approval; the editing keys and typing reach the input
/// only while it takes keys, and never with Ctrl or Super held.
pub open spec fn agent_key(status: AgentStatus, key: KeyPress, mods: Modifiers) -> AgentKeyAction {
    match key {
        KeyPress::Named(k) => match k {
            NamedKey::Escape => if is_settled(status) {
                AgentKeyAction::Close
            } else {
                AgentKeyAction::Cancel
            },
            NamedKey::Enter => if status == AgentStatus::Idle {
                AgentKeyAction::SubmitTask
            } else if status == AgentStatus::AwaitingApproval {
                AgentKeyAction::ApproveStep
            } else if status == AgentStatus::WaitingForUser {
                AgentKeyAction::SubmitAnswer
            } else {
                AgentKeyAction::Ignore
            },
            NamedKey::ArrowUp => AgentKeyAction::ScrollUp,
            NamedKey::ArrowDown => AgentKeyAction::ScrollDown,
            NamedKey::Backspace => if accepts_input(status) {
                AgentKeyAction::Backspace
            } else {
                AgentKeyAction::Ignore
            },
            NamedKey::ArrowLeft => if accepts_input(status) {
                AgentKeyAction::CursorLeft
            } else {
                AgentKeyAction::Ignore
            },
            NamedKey::ArrowRight => if accepts_input(status) {
                AgentKeyAction::CursorRight
            } else {
                AgentKeyAction::Ignore
            },
            _ => AgentKeyAction::Ignore,
        },
        KeyPress::Character(text) => if text@ == "s"@ && status == AgentStatus::AwaitingApproval
            && !mods.ctrl && !mods.super_key {
            AgentKeyAction::SkipStep
        } else if accepts_input(status) && !mods.ctrl && !mods.super_key {
            AgentKeyAction::InsertText(text)
        } else {
            AgentKeyAction::Ignore
        },
        KeyPress::Unidentified => AgentKeyAction::Ignore,
    }
}

/// What a key does in the agent panel.
pub fn agent_key_action(status: AgentStatus, key: &KeyPress, mods: Modifiers) -> (a:
    AgentKeyAction)
    ensures
        a == agent_key(status, *key, mods),
        *key == KeyPress::Named(NamedKey::ArrowUp) ==> a == AgentKeyAction::ScrollUp,
        *key == KeyPress::Named(NamedKey::ArrowDown) ==> a == AgentKeyAction::ScrollDown,
        *key == KeyPress::Named(NamedKey::Backspace) && (status == AgentStatus::Idle || status
            == AgentStatus::WaitingForUser) ==> a == AgentKeyAction::Backspace,
        *key == KeyPress::Named(NamedKey::ArrowLeft) && (status == AgentStatus::Idle || status
            == AgentStatus::WaitingForUser) ==> a == AgentKeyAction::CursorLeft,
        *key == KeyPress::Named(NamedKey::ArrowRight) && (status == AgentStatus::Idle || status
            == AgentStatus::WaitingForUser) ==> a == AgentKeyAction::CursorRight,
        *key == KeyPress::Named(NamedKey::Enter) ==> a == (if status == AgentStatus::Idle {
            AgentKeyAction::SubmitTask
        } else if status == AgentStatus::AwaitingApproval {
            AgentKeyAction::ApproveStep
        } else if status == AgentStatus::WaitingForUser {
            AgentKeyAction::SubmitAnswer
        } else {
            AgentKeyAction::Ignore
        }),
{
    let takes_input = status == AgentStatus::Idle || status == AgentStatus::WaitingForUser;
    match key {
        KeyPress::Named(k) => match k {
            NamedKey::Escape => {
                if status == AgentStatus::Idle || status == AgentStatus::Completed || status
                    == AgentStatus::Failed || status == AgentStatus::Cancelled {
                    AgentKeyAction::Close
                } else {
                    AgentKeyAction::Cancel
                }
            },
            NamedKey::Enter => {
                if status == AgentStatus::Idle {
                    AgentKeyAction::SubmitTask
                } else if status == AgentStatus::AwaitingApproval {
                    AgentKeyAction::ApproveStep
                } else if status == AgentStatus::WaitingForUser {
                    AgentKeyAction::SubmitAnswer
                } else {
                    AgentKeyAction::Ignore
                }
            },
            NamedKey::ArrowUp => AgentKeyAction::ScrollUp,
            NamedKey::ArrowDown => AgentKeyAction::ScrollDown,
            NamedKey::Backspace => if takes_input {
                AgentKeyAction::Backspace
            } else {
                AgentKeyAction::Ignore
            },
            NamedKey::ArrowLeft => if takes_input {
                AgentKeyAction::CursorLeft
            } else {
                AgentKeyAction::Ignore
            },
            NamedKey::ArrowRight => if takes_input {
                AgentKeyAction::CursorRight
            } else {
                AgentKeyAction::Ignore
            },
            _ => AgentKeyAction::Ignore,
        },
        KeyPress::Character(text) => {
            let plain = !mods.ctrl && !mods.super_key;
            if str_eq(text.as_str(), "s") && status == AgentStatus::AwaitingApproval && plain {
                AgentKeyAction::SkipStep
            } else if takes_input && plain {
                AgentKeyAction::InsertText(text.clone())
            } else {
                AgentKeyAction::Ignore
            }
        },
        KeyPress::Unidentified => AgentKeyAction::Ignore,
    }
}

/// The outcome of one executed step, as the agent is told of it.
#[derive(Debug, Clone)]
pub struct StepOutcome {
    pub output: String,
    pub exit_code: Option<i32>,
    pub error: Option<String>,
}

/// The outcome of a shell command the agent ran: on success its output
/// (its error output when it printed nothing else), on failure both
/// outputs on two lines and the error output as the error, if any.
pub fn command_outcome(stdout: &str, stderr: &str, exit_code: i32) -> (o: StepOutcome)
    ensures
        o.output@ == if exit_code == 0 {
            if stdout@.len() == 0 {
                stderr@
            } else {
                stdout@
            }
        } else {
            stdout@ + "\n"@ + stderr@
        },
        o.exit_code == Some(exit_code),
        exit_code != 0 && stderr@.len() > 0 ==> (o.error matches Some(e) && e@ == stderr@),
        !(exit_code != 0 && stderr@.len() > 0) ==> o.error is None,
{
    let output = if exit_code == 0 {
        if stdout.is_empty() {
            stderr.to_string()
        } else {
            stdout.to_string()
        }
    } else {
        concat3(stdout, "\n", stderr)
    };
    let error = if exit_code != 0 && !stderr.is_empty() {
        Some(stderr.to_string())
    } else {
        None
    };
    StepOutcome { output, exit_code: Some(exit_code), error }
}

/// The outcome of a step whose work either produced `output` or failed
/// with a message: exit code 0 and no error, or no output, exit code 1 and
/// the message.
pub fn result_outcome(r: Result<String, String>) -> (o: StepOutcome)
    ensures
        match r {
            Ok(out) => o.output@ == out@ && o.exit_code == Some(0i32) && o.error is None,
            Err(e) => o.output@.len() == 0 && o.exit_code == Some(1i32) && (o.error matches Some(
                m,
            ) && m@ == e@),
        },
{
    match r {
        Ok(output) => StepOutcome { output, exit_code: Some(0), error: None },
        Err(e) => StepOutcome { output: String::new(), exit_code: Some(1), error: Some(e) },
    }
}

/// The outcome of a file the agent wrote: `File written: ` and its path, or
/// the failure.
pub fn file_written_outcome(path: &str, r: Result<(), String>) -> (o: StepOutcome)
    ensures
        match r {
            Ok(()) => o.output@ == "File written: "@ + path@ && o.exit_code == Some(0i32)
                && o.error is None,
            Err(e) => o.output@.len() == 0 && o.exit_code == Some(1i32) && (o.error matches Some(
                m,
            ) && m@ == e@),
        },
{
    proof {
        reveal_strlit("");
    }
    match r {
        Ok(()) => StepOutcome {
            output: concat3("File written: ", path, ""),
            exit_code: Some(0),
            error: None,
        },
        Err(e) => StepOutcome { output: String::new(), exit_code: Some(1), error: Some(e) },
    }
}

} // verus!
