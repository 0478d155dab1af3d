use enteract::mcp::ToolKind;
use enteract::ollama::{
    apply_tool_outcome, build_context_string, build_mcp_prompt, build_mcp_system_prompt, build_prompt_with_context,
    detect_gpu_layers, detect_tool_call, gpu_options, ChatContextMessage, GpuSummary, ToolCallOutcome,
    MCP_PROMPT_HEAD, MCP_PROMPT_TAIL,
};
use enteract::text::replace_str;
use enteract::transcript::{clean_whisper_output, lenient_transcript_text_ok, transcript_text_ok};

fn m(role: &str, content: &str) -> ChatContextMessage {
    ChatContextMessage { role: role.to_string(), content: content.to_string() }
}

#[test]
fn prompt_without_context_is_unchanged() {
    assert_eq!(build_prompt_with_context("Hi".to_string(), None), "Hi");
    assert_eq!(build_prompt_with_context("Hi".to_string(), Some(vec![])), "Hi");
}

#[test]
fn prompt_with_history() {
    let ctx = vec![m("user", "a"), m("assistant", "b"), m("system", "c"), m("tool", "d")];
    let p = build_prompt_with_context("Now".to_string(), Some(ctx));
    assert_eq!(
        p,
        "## Conversation History:\n\n**User:** a\n\n**Assistant:** b\n\n**System:** c\n\n**tool:** d\n\n## Current Request:\n\nNow"
    );
}

#[test]
fn context_string_capitalizes_roles() {
    let s = build_context_string(vec![m("user", "hello"), m("assistant", "there"), m("X", "y")]);
    assert_eq!(s, "User**: hello\n\nAssistant**: there\n\nX**: y\n\n");
}

fn gpu(vendor: &str, name: &str, mb: Option<u64>) -> GpuSummary {
    GpuSummary { name: name.to_string(), vendor: vendor.to_string(), memory_mb: mb, driver_version: None }
}

#[test]
fn gpu_layers_by_memory() {
    assert_eq!(detect_gpu_layers(&Ok(vec![gpu("NVIDIA", "RTX 4090", Some(24576))])), 99);
    assert_eq!(detect_gpu_layers(&Ok(vec![gpu("NVIDIA", "RTX 3060", Some(12288))])), 60);
    assert_eq!(detect_gpu_layers(&Ok(vec![gpu("NVIDIA", "old", Some(2048))])), 0);
    assert_eq!(detect_gpu_layers(&Ok(vec![gpu("AMD", "Radeon RX 7900", Some(20000))])), 40);
    assert_eq!(detect_gpu_layers(&Ok(vec![gpu("AMD", "Instinct", Some(20000))])), 0);
    assert_eq!(detect_gpu_layers(&Ok(vec![gpu("Intel", "Arc", Some(16000)), gpu("NVIDIA", "x", Some(8000))])), 40);
    assert_eq!(detect_gpu_layers(&Ok(vec![gpu("NVIDIA", "x", None), gpu("NVIDIA", "y", Some(6000))])), 30);
    assert_eq!(detect_gpu_layers(&Err("no gpu".to_string())), 0);
}

#[test]
fn system_prompt_without_session() {
    assert_eq!(build_mcp_system_prompt(None), "You are a helpful AI assistant.");
}

#[test]
fn system_prompt_lists_tools_with_risk() {
    let tools = vec![ToolKind::Click, ToolKind::GetScreenInfo];
    let p = build_mcp_system_prompt(Some(&tools));
    let expected = format!(
        "{}Available computer control tools:\n- click: Perform a mouse click at specified coordinates or current cursor position (Risk: Medium)\n- get_screen_info: Get screen information (width, height, scale factor) (Risk: Low)\n{}",
        MCP_PROMPT_HEAD, MCP_PROMPT_TAIL
    );
    assert_eq!(p, expected);
    assert!(p.contains("TOOL_CALL: click {\"x\": 100, \"y\": 200} - Click at coordinates"));
}

#[test]
fn mcp_prompt_names_the_session() {
    let p = build_mcp_prompt("SYS\n", None, Some("s1"), "open it".to_string());
    assert_eq!(
        p,
        "SYS\nContext: You have access to computer control tools through MCP session s1. You can click, type, scroll, take screenshots, and more. Use tools when helpful to assist the user.\n\nUser Request: open it"
    );
    let q = build_mcp_prompt("SYS\n", Some(vec![m("user", "a")]), None, "open it".to_string());
    assert_eq!(q, "## Conversation History:\n\n**User:** a\n\n## Current Request:\n\nopen it");
    let r = build_mcp_prompt("SYS\n", Some(vec![m("user", "a")]), Some("s2"), "go".to_string());
    assert!(r.starts_with("SYS\nUser**: a\n\nContext: You have access"));
}

#[test]
fn tool_call_is_found() {
    let c = detect_tool_call("Sure. TOOL_CALL: click {\"x\": 5, \"y\": 6} done").unwrap();
    assert_eq!(c.call, "TOOL_CALL: click {\"x\": 5, \"y\": 6}");
    assert_eq!(c.tool_name, "click");
    assert_eq!(c.params, "{\"x\": 5, \"y\": 6}");
    assert!(detect_tool_call("no call here").is_none());
    assert!(detect_tool_call("TOOL_CALL: click").is_none());
}

#[test]
fn tool_outcome_replaces_the_call() {
    let text = "A TOOL_CALL: take_screenshot {} B TOOL_CALL: take_screenshot {}";
    let c = detect_tool_call(text).unwrap();
    let ok = ToolCallOutcome::Executed { success: true, message: None, error: None };
    assert_eq!(
        apply_tool_outcome(text, &c, &ok),
        "A ✅ Tool executed successfully: Success B ✅ Tool executed successfully: Success"
    );
    let bad = ToolCallOutcome::Executed { success: false, message: None, error: Some("denied".to_string()) };
    assert_eq!(apply_tool_outcome(text, &c, &bad), "A ❌ Tool execution failed: denied B ❌ Tool execution failed: denied");
    let err = ToolCallOutcome::Failed("gone".to_string());
    assert_eq!(apply_tool_outcome("x TOOL_CALL: take_screenshot {}", &c, &err), "x ❌ Tool execution error: gone");
}

#[test]
fn replace_scans_left_to_right() {
    assert_eq!(replace_str("aaa", "aa", "b"), "ba");
    assert_eq!(replace_str("abcabc", "bc", ""), "aa");
    assert_eq!(replace_str("xyz", "q", "r"), "xyz");
    assert_eq!(replace_str("", "q", "r"), "");
}

#[test]
fn gpu_options_only_with_layers() {
    assert_eq!(gpu_options(35), Some((35, 4)));
    assert_eq!(gpu_options(0), None);
    assert_eq!(gpu_options(-1), None);
}

#[test]
fn whisper_tags_become_words() {
    assert_eq!(clean_whisper_output("  hello   [MUSIC]  world "), "hello (music) world");
    assert_eq!(clean_whisper_output("[BLANK_AUDIO] yes"), "yes");
    assert_eq!(clean_whisper_output("[MUSIC PLAYING]"), "(music)");
    assert_eq!(clean_whisper_output(" [BLANK_AUDIO] "), "[BLANK_AUDIO]");
    assert_eq!(clean_whisper_output("[BANG][swoosh]"), "(sound)(swoosh)");
    assert_eq!(clean_whisper_output(""), "");
}

#[test]
fn strict_transcript_check() {
    assert!(transcript_text_ok("Hello there, how are you?"));
    assert!(transcript_text_ok("a b c d"));
    assert!(!transcript_text_ok("x"));
    assert!(!transcript_text_ok("(music)"));
    assert!(!transcript_text_ok("Music playing"));
    assert!(!transcript_text_ok("Um"));
    assert!(!transcript_text_ok("  the  "));
    assert!(!transcript_text_ok("yes yes yes yes yes"));
    assert!(transcript_text_ok("yes yes no no"));
    assert!(!transcript_text_ok("1234 5678"));
    assert!(!transcript_text_ok("ok _eot_"));
}

#[test]
fn lenient_transcript_check() {
    assert!(lenient_transcript_text_ok("hi"));
    assert!(!lenient_transcript_text_ok("x"));
    assert!(!lenient_transcript_text_ok("Thanks for watching!"));
    assert!(!lenient_transcript_text_ok("please SUBSCRIBE"));
    assert!(!lenient_transcript_text_ok("go go go go go"));
    assert!(lenient_transcript_text_ok("go go go stop now"));
    assert!(lenient_transcript_text_ok("(music)"));
}

#[test]
fn tool_call_forms() {
    let c = detect_tool_call("TOOL_CALL: {\"x\": 1} then TOOL_CALL:key_press{\"key\": \"Enter\"}").unwrap();
    assert_eq!(c.call, "TOOL_CALL:key_press{\"key\": \"Enter\"}");
    assert_eq!(c.tool_name, "key_press");
    let n = detect_tool_call("TOOL_CALL:\n  type  {\"a\": {\"b\": 1}} end").unwrap();
    assert_eq!(n.call, "TOOL_CALL:\n  type  {\"a\": {\"b\": 1}");
    assert_eq!(n.params, "{\"a\": {\"b\": 1}");
    assert!(detect_tool_call("TOOL_CALL: click {\"x\": 1").is_none());
    assert!(detect_tool_call("TOOL_CALL: click-now {}").is_none());
}

#[test]
fn tool_names_are_word_characters() {
    let c = detect_tool_call("TOOL_CALL: cafe\u{301}_2 {}").unwrap();
    assert_eq!(c.tool_name, "cafe\u{301}_2");
    assert!(detect_tool_call("TOOL_CALL: x\u{b2} {}").is_none());
}
