//! Render data of the agent panel, and how step and task statuses are shown.

use vstd::prelude::*;

use crate::text::str_eq;

verus! {

/// Render data for a single agent step passed from the main thread.
#[derive(Debug, Clone)]
pub struct AgentPanelStep {
    /// Zero-based index of this step.
    pub index: usize,
    /// Human-readable action type label (e.g. "RunCommand", "ReadFile").
    pub action_type: String,
    /// Human-readable description of the action.
    pub description: String,
    /// Step status string (e.g. "Pending", "Running", "Completed").
    pub status: String,
    /// Whether this action was flagged as dangerous.
    pub is_dangerous: bool,
    /// Result output after execution, if available.
    pub result_output: Option<String>,
    /// Danger warning message, if applicable.
    pub danger_warning: Option<String>,
}

/// The palette entry a step's status icon is drawn in.
#[derive(Debug, Clone, Copy, PartialEq, Eq, Structural)]
pub enum StepStatusColor {
    Pending,
    Running,
    Done,
    Fail,
    Skip,
}

/// The palette entry of the status shown in the panel header.
#[derive(Debug, Clone, Copy, PartialEq, Eq, Structural)]
pub enum HeaderStatusColor {
    Idle,
    Planning,
    Executing,
    Approval,
    Completed,
    Failed,
}

/// The icon and colour of a step status: `~` pending or awaiting approval,
/// `>` running, `v` completed, `x` failed, `-` skipped, `?` otherwise.
pub open spec fn status_icon_spec(status: Seq<char>) -> (char, StepStatusColor) {
    if status == "Pending"@ || status == "AwaitingApproval"@ {
        ('~', StepStatusColor::Pending)
    } else if status == "Running"@ || status == "Executing..."@ {
        ('>', StepStatusColor::Running)
    } else if status == "Completed"@ {
        ('v', StepStatusColor::Done)
    } else if status == "Failed"@ {
        ('x', StepStatusColor::Fail)
    } else if status == "Skipped"@ {
        ('-', StepStatusColor::Skip)
    } else {
        ('?', StepStatusColor::Pending)
    }
}

/// Returns the status icon character and color for a step status string.
pub fn status_icon(status: &str) -> (icon: (char, StepStatusColor))
    ensures
        icon == status_icon_spec(status@),
{
    if str_eq(status, "Pending") || str_eq(status, "AwaitingApproval") {
        ('~', StepStatusColor::Pending)
    } else if str_eq(status, "Running") || str_eq(status, "Executing...") {
        ('>', StepStatusColor::Running)
    } else if str_eq(status, "Completed") {
        ('v', StepStatusColor::Done)
    } else if str_eq(status, "Failed") {
        ('x', StepStatusColor::Fail)
    } else if str_eq(status, "Skipped") {
        ('-', StepStatusColor::Skip)
    } else {
        ('?', StepStatusColor::Pending)
    }
}

/// The header colour of a task status text.
pub open spec fn header_status_color_spec(status: Seq<char>) -> HeaderStatusColor {
    if status == "Planning..."@ {
        HeaderStatusColor::Planning
    } else if status == "Executing..."@ {
        HeaderStatusColor::Executing
    } else if status == "Awaiting Approval"@ {
        HeaderStatusColor::Approval
    } else if status == "Completed"@ {
        HeaderStatusColor::Completed
    } else if status == "Failed"@ || status == "Cancelled"@ {
        HeaderStatusColor::Failed
    } else {
        HeaderStatusColor::Idle
    }
}

/// Returns the panel-header status color for the given status text.
pub fn header_status_color(status: &str) -> (color: HeaderStatusColor)
    ensures
        color == header_status_color_spec(status@),
{
    if str_eq(status, "Planning...") {
        HeaderStatusColor::Planning
    } else if str_eq(status, "Executing...") {
        HeaderStatusColor::Executing
    } else if str_eq(status, "Awaiting Approval") {
        HeaderStatusColor::Approval
    } else if str_eq(status, "Completed") {
        HeaderStatusColor::Completed
    } else if str_eq(status, "Failed") || str_eq(status, "Cancelled") {
        HeaderStatusColor::Failed
    } else {
        HeaderStatusColor::Idle
    }
}

} // verus!
