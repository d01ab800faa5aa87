use minal::agent_panel::{header_status_color, status_icon, AgentPanelStep, HeaderStatusColor, StepStatusColor};
use minal::error_panel::{category_color, CategoryColor, ErrorPanelEntry};
use minal::mcp_panel::{mcp_panel_entries, mcp_tools_description, McpPanelEntry, McpTool};

#[test]
fn agent_panel_step_clone() {
    let step = AgentPanelStep {
        index: 0,
        action_type: "RunCommand".to_string(),
        description: "ls -la".to_string(),
        status: "Pending".to_string(),
        is_dangerous: false,
        result_output: None,
        danger_warning: None,
    };
    let cloned = step.clone();
    assert_eq!(cloned.index, 0);
    assert_eq!(cloned.action_type, "RunCommand");
    assert_eq!(cloned.status, "Pending");
    assert!(!cloned.is_dangerous);
}

#[test]
fn agent_panel_step_with_result() {
    let step = AgentPanelStep {
        index: 1,
        action_type: "ReadFile".to_string(),
        description: "Read: /etc/hosts".to_string(),
        status: "Completed".to_string(),
        is_dangerous: false,
        result_output: Some("127.0.0.1 localhost".to_string()),
        danger_warning: None,
    };
    assert!(step.result_output.is_some());
}

#[test]
fn agent_panel_step_dangerous() {
    let step = AgentPanelStep {
        index: 2,
        action_type: "RunCommand".to_string(),
        description: "Run: rm -rf /tmp".to_string(),
        status: "AwaitingApproval".to_string(),
        is_dangerous: true,
        result_output: None,
        danger_warning: Some("Destructive command detected".to_string()),
    };
    assert!(step.is_dangerous);
    assert!(step.danger_warning.is_some());
}

#[test]
fn status_icon_pending() {
    let (icon, _) = status_icon("Pending");
    assert_eq!(icon, '~');
}

#[test]
fn status_icon_completed() {
    let (icon, _) = status_icon("Completed");
    assert_eq!(icon, 'v');
}

#[test]
fn status_icon_failed() {
    let (icon, _) = status_icon("Failed");
    assert_eq!(icon, 'x');
}

#[test]
fn status_icon_other_cases() {
    assert_eq!(status_icon("AwaitingApproval"), ('~', StepStatusColor::Pending));
    assert_eq!(status_icon("Executing..."), ('>', StepStatusColor::Running));
    assert_eq!(status_icon("Skipped"), ('-', StepStatusColor::Skip));
    assert_eq!(status_icon("pending"), ('?', StepStatusColor::Pending));
}

#[test]
fn header_status_color_planning() {
    let color = header_status_color("Planning...");
    assert_eq!(color, HeaderStatusColor::Planning);
}

#[test]
fn header_status_color_idle() {
    let color = header_status_color("Idle");
    assert_eq!(color, HeaderStatusColor::Idle);
}

#[test]
fn header_status_color_failed_and_cancelled() {
    assert_eq!(header_status_color("Failed"), HeaderStatusColor::Failed);
    assert_eq!(header_status_color("Cancelled"), HeaderStatusColor::Failed);
    assert_eq!(header_status_color("Awaiting Approval"), HeaderStatusColor::Approval);
}

#[test]
fn category_color_build() {
    assert_eq!(category_color("Build"), CategoryColor::Build);
    assert_eq!(category_color("build"), CategoryColor::Build);
    assert_eq!(category_color("BUILD"), CategoryColor::Build);
}

#[test]
fn category_color_test() {
    assert_eq!(category_color("Test"), CategoryColor::Test);
    assert_eq!(category_color("test"), CategoryColor::Test);
}

#[test]
fn category_color_runtime() {
    assert_eq!(category_color("Runtime"), CategoryColor::Runtime);
}

#[test]
fn category_color_permission() {
    assert_eq!(category_color("Permission"), CategoryColor::Permission);
}

#[test]
fn category_color_not_found() {
    assert_eq!(category_color("Not Found"), CategoryColor::NotFound);
    assert_eq!(category_color("notfound"), CategoryColor::NotFound);
    assert_eq!(category_color("not_found"), CategoryColor::NotFound);
}

#[test]
fn category_color_network() {
    assert_eq!(category_color("Network"), CategoryColor::Network);
}

#[test]
fn category_color_unknown_fallback() {
    assert_eq!(category_color("SomethingElse"), CategoryColor::Unknown);
    assert_eq!(category_color(""), CategoryColor::Unknown);
}

#[test]
fn error_panel_entry_clone() {
    let entry = ErrorPanelEntry {
        category: "Build".to_string(),
        command: "cargo build".to_string(),
        summary: "compilation failed".to_string(),
        explanation: Some("Missing import".to_string()),
        suggestions: vec!["cargo fix".to_string()],
    };
    let cloned = entry.clone();
    assert_eq!(cloned.category, "Build");
    assert_eq!(cloned.command, "cargo build");
    assert_eq!(cloned.summary, "compilation failed");
    assert_eq!(cloned.explanation, Some("Missing import".to_string()));
    assert_eq!(cloned.suggestions, vec!["cargo fix".to_string()]);
}

#[test]
fn error_panel_entry_no_explanation() {
    let entry = ErrorPanelEntry {
        category: "Runtime".to_string(),
        command: "./app".to_string(),
        summary: "segfault".to_string(),
        explanation: None,
        suggestions: Vec::new(),
    };
    assert!(entry.explanation.is_none());
    assert!(entry.suggestions.is_empty());
}

#[test]
fn mcp_panel_entry_clone() {
    let entry = McpPanelEntry {
        server_name: "filesystem".to_string(),
        tool_name: "read_file".to_string(),
        description: "Read the contents of a file".to_string(),
    };
    let cloned = entry.clone();
    assert_eq!(cloned.server_name, "filesystem");
    assert_eq!(cloned.tool_name, "read_file");
}

#[test]
fn mcp_tools_are_described_by_server() {
    let tools = vec![
        McpTool { server: "fs".to_string(), name: "read".to_string(), description: Some("Read a file".to_string()) },
        McpTool { server: "fs".to_string(), name: "write".to_string(), description: None },
        McpTool { server: "git".to_string(), name: "log".to_string(), description: Some("History".to_string()) },
    ];
    assert_eq!(
        mcp_tools_description(&tools),
        Some(
            "Server: fs\n  - read : Read a file\n  - write : No description\nServer: git\n  - log : History\n"
                .to_string()
        )
    );
    assert_eq!(mcp_tools_description(&[]), None);
    let entries = mcp_panel_entries(&tools);
    assert_eq!(entries.len(), 3);
    assert_eq!(entries[1].tool_name, "write");
    assert_eq!(entries[1].description, "");
    assert_eq!(entries[2].server_name, "git");
}
