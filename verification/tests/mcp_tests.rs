use enteract::mcp::{
    approval_request_message, extract_quoted_text, generate_execution_plan, get_cursor_position,
    get_screen_info, must_ask_approval, resolve_approval, should_emit_log, virtual_key_code,
    ApprovalOutcome, ClickAndTypeTool, ClickTool, DangerLevel, FindTextTool, LogLevel,
    ScreenshotTool, SessionStatus, ToolKind,
};

fn names(v: &[&str]) -> Vec<String> {
    v.iter().map(|s| s.to_string()).collect()
}

#[test]
fn tool_catalog() {
    assert_eq!(ToolKind::all().len(), 12);
    assert_eq!(ClickTool.kind().name(), "click");
    assert!(ClickTool.kind().requires_approval());
    assert_eq!(ScreenshotTool.kind().name(), "take_screenshot");
    assert!(!ScreenshotTool.kind().requires_approval());
    assert_eq!(FindTextTool.kind().danger_level(), DangerLevel::Low);
    assert_eq!(ClickAndTypeTool.kind().danger_level(), DangerLevel::Medium);
    assert_eq!(ToolKind::from_name("key_press"), Some(ToolKind::KeyPress));
    assert_eq!(ToolKind::from_name("rm -rf"), None);
    for k in ToolKind::all() {
        assert_eq!(ToolKind::from_name(k.name()), Some(k));
    }
}

#[test]
fn quoted_text() {
    assert_eq!(extract_quoted_text("click \"Submit\" now"), Some("Submit".to_string()));
    assert_eq!(extract_quoted_text("press 'OK' please"), Some("OK".to_string()));
    assert_eq!(extract_quoted_text("only \"one quote and 'two'"), Some("two".to_string()));
    assert_eq!(extract_quoted_text("none here"), None);
    assert_eq!(extract_quoted_text("\"\""), Some(String::new()));
}

#[test]
fn plan_for_find_and_click() {
    let tools = names(&["find_text", "click", "take_screenshot"]);
    let p = generate_execution_plan("s1", "Find the text \"Login\" and Click it", &tools);
    assert_eq!(p.steps.len(), 2);
    assert_eq!(p.steps[0].tool_name, "find_text");
    assert_eq!(p.steps[0].description, "Find text 'Login' on screen");
    assert_eq!(p.steps[0].text_param.as_deref(), Some("Login"));
    assert_eq!(p.steps[1].tool_name, "click");
    assert_eq!(p.steps[1].depends_on.as_deref(), Some(p.steps[0].step_id.as_str()));
    assert_eq!(p.overall_risk, DangerLevel::Medium);
    assert!(p.requires_approval);
    assert_eq!(p.session_id, "s1");
}

#[test]
fn plan_defaults_and_missing_tools() {
    let p = generate_execution_plan("s", "find text and take a SCREENSHOT", &names(&["find_text", "take_screenshot"]));
    assert_eq!(p.steps.len(), 2);
    assert_eq!(p.steps[0].text_param.as_deref(), Some("Submit"));
    assert_eq!(p.steps[1].tool_name, "take_screenshot");
    assert_eq!(p.overall_risk, DangerLevel::Low);
    assert!(!p.requires_approval);
    let q = generate_execution_plan("s", "click", &names(&["find_text"]));
    assert!(q.steps.is_empty());
    assert_eq!(q.overall_risk, DangerLevel::Low);
    let r = generate_execution_plan("s", "click", &names(&["click"]));
    assert_eq!(r.steps.len(), 1);
    assert!(r.steps[0].depends_on.is_none());
}

#[test]
fn approvals() {
    assert!(!must_ask_approval(false, DangerLevel::Critical));
    assert!(!must_ask_approval(true, DangerLevel::Low));
    assert!(must_ask_approval(true, DangerLevel::High));
    assert_eq!(approval_request_message("click", DangerLevel::Medium), "Requesting approval for tool: click (medium risk)");
    let a = resolve_approval(ApprovalOutcome::Responded(false));
    assert_eq!(a.result, Ok(false));
    assert_eq!(a.new_status, Some(SessionStatus::Active));
    assert_eq!(a.log_message, "Tool approval response: DENIED");
    let t = resolve_approval(ApprovalOutcome::TimedOut);
    assert_eq!(t.result, Err("Approval request timed out".to_string()));
    assert!(t.clear_pending);
    assert_eq!(t.log_level, LogLevel::Warning);
    let c = resolve_approval(ApprovalOutcome::ChannelClosed);
    assert!(!c.clear_pending);
    assert!(should_emit_log(LogLevel::Error));
    assert!(!should_emit_log(LogLevel::Debug));
}

#[test]
fn key_codes() {
    assert_eq!(virtual_key_code("Enter"), Ok(0x0D));
    assert_eq!(virtual_key_code("esc"), Ok(0x1B));
    assert_eq!(virtual_key_code("F12"), Ok(0x7B));
    assert_eq!(virtual_key_code("windows"), Ok(0x5B));
    assert_eq!(virtual_key_code("a"), Ok(0x41));
    assert_eq!(virtual_key_code("Z"), Ok(0x5A));
    assert_eq!(virtual_key_code("1"), Err("Unsupported key: 1".to_string()));
    assert_eq!(virtual_key_code("pageup"), Err("Unsupported key: pageup".to_string()));
}

#[test]
fn fallback_screen_values() {
    assert_eq!(get_cursor_position(), Ok((800, 600)));
    assert_eq!(get_screen_info(), Ok((1920, 1080)));
}

use enteract::mcp::{denied_result, MCPSessionConfig, McpSession};
use enteract::mcp::{ToolInfo, McpSessionInfo};

fn config(require: bool, logging: bool) -> MCPSessionConfig {
    MCPSessionConfig {
        require_approval: require,
        session_timeout_seconds: 300,
        enable_logging: logging,
        server_name: "enteract-ai-mcp".to_string(),
        server_version: "1.0.0".to_string(),
    }
}

#[test]
fn session_approval_flow() {
    let mut s = McpSession::new(config(true, true));
    assert_eq!(s.status, SessionStatus::Initializing);
    assert_eq!(s.tools.len(), 12);
    s.initialize();
    assert_eq!(s.status, SessionStatus::Active);
    assert_eq!(s.log_entries[0].message, "MCP session initialized");
    assert!(s.begin_approval("scroll", DangerLevel::Low).is_none());
    let id = s.begin_approval("click", DangerLevel::Medium).unwrap();
    assert_eq!(s.status, SessionStatus::WaitingForApproval);
    assert_eq!(s.approvals_pending(), 1);
    assert_eq!(s.log_entries.last().unwrap().message, "Requesting approval for tool: click (medium risk)");
    assert_eq!(s.complete_approval(&id, "click", ApprovalOutcome::Responded(true)), Ok(true));
    assert_eq!(s.status, SessionStatus::Active);
    assert_eq!(s.approvals_pending(), 0);
    assert_eq!(s.log_entries.last().unwrap().message, "Tool approval response: APPROVED");
}

#[test]
fn session_response_delivery_and_cleanup() {
    let mut s = McpSession::new(config(true, false));
    assert_eq!(s.handle_approval_response().unwrap_err(), "No pending approvals");
    let a = s.begin_approval("type", DangerLevel::Medium).unwrap();
    let _b = s.begin_approval("key_press", DangerLevel::High).unwrap();
    assert_eq!(s.handle_approval_response().unwrap(), a);
    assert_eq!(s.approvals_pending(), 1);
    assert!(s.log_entries.is_empty());
    assert_eq!(
        s.complete_approval("missing", "key_press", ApprovalOutcome::ChannelClosed),
        Err("Approval response channel closed".to_string())
    );
    assert_eq!(s.approvals_pending(), 1);
    s.cleanup();
    assert_eq!(s.approvals_pending(), 0);
    assert_eq!(s.status, SessionStatus::Completed);
}

#[test]
fn session_tool_lookup() {
    let mut s = McpSession::new(config(false, true));
    assert_eq!(s.start_tool_call("debug_ocr", "{}"), Ok(ToolKind::DebugOcr));
    assert_eq!(s.start_tool_call("launch", "{}"), Err("Unknown tool: launch".to_string()));
    assert_eq!(s.log_entries.len(), 3);
    assert_eq!(s.log_entries[0].message, "Executing tool: debug_ocr with params: {}");
    assert_eq!(s.log_entries[2].level, LogLevel::Error);
    let d = denied_result("click");
    assert!(!d.success);
    assert_eq!(d.error.as_deref(), Some("User denied approval"));
}

#[test]
fn session_info_lists_tools() {
    let mut s = McpSession::new(config(true, true));
    let id = s.begin_approval("click", DangerLevel::Medium).unwrap();
    let info: McpSessionInfo = s.get_info();
    assert_eq!(info.id, s.id);
    assert_eq!(info.created_at, s.created_at);
    assert_eq!(info.status, SessionStatus::WaitingForApproval);
    assert_eq!(info.approvals_pending, 1);
    assert_eq!(info.config.server_name, "enteract-ai-mcp");
    assert_eq!(info.tools_available.len(), 12);
    let click: &ToolInfo = info.tools_available.iter().find(|t| t.name == "click").unwrap();
    assert_eq!(click.description, "Perform a mouse click at specified coordinates or current cursor position");
    assert_eq!(click.danger_level, DangerLevel::Medium);
    assert!(click.requires_approval);
    let shot = info.tools_available.iter().find(|t| t.name == "take_screenshot").unwrap();
    assert!(!shot.requires_approval);
    assert_eq!(s.get_available_tools().len(), 12);
    let _ = s.complete_approval(&id, "click", ApprovalOutcome::TimedOut);
    assert_eq!(s.get_info().approvals_pending, 0);
}
