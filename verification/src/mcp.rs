//! The computer-use tools offered to a model, how risky each is, when a user
//! must approve one, the keyword plan drawn from a request, and the mapping
//! of key names to Windows virtual-key codes.

use vstd::prelude::*;
use crate::clock::rfc3339_now;
use crate::ids::new_uuid_v4;
use crate::text::{
    chars_of, contains_str, find_char, has_substring, lowercase, push_str, str_eq,
    string_from_chars, to_lowercase, to_owned_string,
};

verus! {

/// How much harm a tool can do.
#[derive(Debug, Clone, Copy, PartialEq, Eq, Structural)]
pub enum DangerLevel {
    Low,
    Medium,
    High,
    Critical,
}

/// The order of danger levels, from 1 (low) to 4 (critical).
pub open spec fn danger_rank(d: DangerLevel) -> int {
    match d {
        DangerLevel::Low => 1,
        DangerLevel::Medium => 2,
        DangerLevel::High => 3,
        DangerLevel::Critical => 4,
    }
}

/// Whether a tool of this danger needs the user's approval: all but low ones do.
pub open spec fn needs_approval(d: DangerLevel) -> bool {
    d != DangerLevel::Low
}

/// Whether a tool of this danger needs the user's approval.
pub fn requires_approval(d: DangerLevel) -> (b: bool)
    ensures
        b == needs_approval(d),
{
    match d {
        DangerLevel::Low => false,
        _ => true,
    }
}

/// Where a session stands.
#[derive(Debug, Clone, Copy, PartialEq, Eq, Structural)]
pub enum SessionStatus {
    Initializing,
    Active,
    WaitingForApproval,
    Completed,
}

/// How a session behaves.
#[derive(Debug, Clone)]
pub struct MCPSessionConfig {
    pub require_approval: bool,
    pub session_timeout_seconds: u64,
    pub enable_logging: bool,
    pub server_name: String,
    pub server_version: String,
}

// ---------------------------------------------------------------------------
// Tools
// ---------------------------------------------------------------------------

/// The tools a session offers.
#[derive(Debug, Clone, Copy, PartialEq, Eq, Structural)]
pub enum ToolKind {
    Click,
    Type,
    Scroll,
    KeyPress,
    GetCursorPosition,
    GetScreenInfo,
    TakeScreenshot,
    FindText,
    ClickAt,
    DebugOcr,
    ClickOnText,
    ClickAndType,
}

/// The name under which a tool is called.
pub open spec fn tool_name(k: ToolKind) -> Seq<char> {
    match k {
        ToolKind::Click => "click"@,
        ToolKind::Type => "type"@,
        ToolKind::Scroll => "scroll"@,
        ToolKind::KeyPress => "key_press"@,
        ToolKind::GetCursorPosition => "get_cursor_position"@,
        ToolKind::GetScreenInfo => "get_screen_info"@,
        ToolKind::TakeScreenshot => "take_screenshot"@,
        ToolKind::FindText => "find_text"@,
        ToolKind::ClickAt => "click_at"@,
        ToolKind::DebugOcr => "debug_ocr"@,
        ToolKind::ClickOnText => "click_on_text"@,
        ToolKind::ClickAndType => "click_and_type"@,
    }
}

/// How much harm a tool can do.
pub open spec fn tool_danger(k: ToolKind) -> DangerLevel {
    match k {
        ToolKind::Click => DangerLevel::Medium,
        ToolKind::Type => DangerLevel::Medium,
        ToolKind::KeyPress => DangerLevel::Medium,
        ToolKind::ClickAt => DangerLevel::Medium,
        ToolKind::ClickOnText => DangerLevel::Medium,
        ToolKind::ClickAndType => DangerLevel::Medium,
        _ => DangerLevel::Low,
    }
}

/// What a tool does, as shown to the model and the user.
pub open spec fn tool_description(k: ToolKind) -> Seq<char> {
    match k {
        ToolKind::Click => "Perform a mouse click at specified coordinates or current cursor position"@,
        ToolKind::Type => "Type text at the current cursor/focus position"@,
        ToolKind::Scroll => "Scroll in a specified direction"@,
        ToolKind::KeyPress => "Press a key or key combination"@,
        ToolKind::GetCursorPosition => "Get the current mouse cursor position"@,
        ToolKind::GetScreenInfo => "Get screen information (width, height, scale factor)"@,
        ToolKind::TakeScreenshot => "Take a screenshot of the screen or a region"@,
        ToolKind::FindText => "Find text on screen using OCR and return its location and confidence"@,
        ToolKind::ClickAt => "Click at specific coordinates on screen"@,
        ToolKind::DebugOcr => "Take a screenshot and show all detected text with locations, confidence scores, and priorities for debugging OCR"@,
        ToolKind::ClickOnText => "Find text on screen using OCR and click on it (compound tool)"@,
        ToolKind::ClickAndType => "Find text on screen (like a textbox label), click on it, and then type text into the focused element"@,
    }
}

/// Every tool, in the order a session registers them.
pub open spec fn all_tools() -> Seq<ToolKind> {
    seq![
        ToolKind::Click,
        ToolKind::Type,
        ToolKind::Scroll,
        ToolKind::KeyPress,
        ToolKind::GetCursorPosition,
        ToolKind::GetScreenInfo,
        ToolKind::TakeScreenshot,
        ToolKind::FindText,
        ToolKind::ClickAt,
        ToolKind::DebugOcr,
        ToolKind::ClickOnText,
        ToolKind::ClickAndType,
    ]
}

impl ToolKind {
    /// The name under which the tool is called.
    pub fn name(&self) -> (s: &'static str)
        ensures
            s@ == tool_name(*self),
    {
        match self {
            ToolKind::Click => "click",
            ToolKind::Type => "type",
            ToolKind::Scroll => "scroll",
            ToolKind::KeyPress => "key_press",
            ToolKind::GetCursorPosition => "get_cursor_position",
            ToolKind::GetScreenInfo => "get_screen_info",
            ToolKind::TakeScreenshot => "take_screenshot",
            ToolKind::FindText => "find_text",
            ToolKind::ClickAt => "click_at",
            ToolKind::DebugOcr => "debug_ocr",
            ToolKind::ClickOnText => "click_on_text",
            ToolKind::ClickAndType => "click_and_type",
        }
    }

    /// What the tool does, as shown to the model and the user.
    pub fn description(&self) -> (s: &'static str)
        ensures
            s@ == tool_description(*self),
    {
        match self {
            ToolKind::Click => "Perform a mouse click at specified coordinates or current cursor position",
            ToolKind::Type => "Type text at the current cursor/focus position",
            ToolKind::Scroll => "Scroll in a specified direction",
            ToolKind::KeyPress => "Press a key or key combination",
            ToolKind::GetCursorPosition => "Get the current mouse cursor position",
            ToolKind::GetScreenInfo => "Get screen information (width, height, scale factor)",
            ToolKind::TakeScreenshot => "Take a screenshot of the screen or a region",
            ToolKind::FindText => "Find text on screen using OCR and return its location and confidence",
            ToolKind::ClickAt => "Click at specific coordinates on screen",
            ToolKind::DebugOcr => "Take a screenshot and show all detected text with locations, confidence scores, and priorities for debugging OCR",
            ToolKind::ClickOnText => "Find text on screen using OCR and click on it (compound tool)",
            ToolKind::ClickAndType => "Find text on screen (like a textbox label), click on it, and then type text into the focused element",
        }
    }

    /// How much harm the tool can do.
    pub fn danger_level(&self) -> (d: DangerLevel)
        ensures
            d == tool_danger(*self),
    {
        match self {
            ToolKind::Click => DangerLevel::Medium,
            ToolKind::Type => DangerLevel::Medium,
            ToolKind::KeyPress => DangerLevel::Medium,
            ToolKind::ClickAt => DangerLevel::Medium,
            ToolKind::ClickOnText => DangerLevel::Medium,
            ToolKind::ClickAndType => DangerLevel::Medium,
            _ => DangerLevel::Low,
        }
    }

    /// Whether calling the tool needs the user's approval.
    pub fn requires_approval(&self) -> (b: bool)
        ensures
            b == needs_approval(tool_danger(*self)),
    {
        requires_approval(self.danger_level())
    }

    /// The tool called `name`, if there is one.
    pub fn from_name(name: &str) -> (r: Option<ToolKind>)
        ensures
            match r {
                Some(k) => tool_name(k) == name@,
                None => forall|k: ToolKind| tool_name(k) != name@,
            },
    {
        let tools = ToolKind::all();
        let mut i: usize = 0;
        while i < tools.len()
            invariant
                i <= tools.len(),
                tools@ == all_tools(),
                forall|q: int| 0 <= q < i ==> tool_name(#[trigger] tools@[q]) != name@,
            decreases tools.len() - i,
        {
            let k = tools[i];
            if str_eq(k.name(), name) {
                return Some(k);
            }
            i = i + 1;
        }
        proof {
            assert forall|k: ToolKind| tool_name(k) != name@ by {
                let q: int = match k {
                    ToolKind::Click => 0,
                    ToolKind::Type => 1,
                    ToolKind::Scroll => 2,
                    ToolKind::KeyPress => 3,
                    ToolKind::GetCursorPosition => 4,
                    ToolKind::GetScreenInfo => 5,
                    ToolKind::TakeScreenshot => 6,
                    ToolKind::FindText => 7,
                    ToolKind::ClickAt => 8,
                    ToolKind::DebugOcr => 9,
                    ToolKind::ClickOnText => 10,
                    ToolKind::ClickAndType => 11,
                };
                assert(tools@[q] == k);
            }
        }
        None
    }

    /// Every tool, in the order a session registers them.
    pub fn all() -> (v: Vec<ToolKind>)
        ensures
            v@ == all_tools(),
    {
        let v = vec![
            ToolKind::Click,
            ToolKind::Type,
            ToolKind::Scroll,
            ToolKind::KeyPress,
            ToolKind::GetCursorPosition,
            ToolKind::GetScreenInfo,
            ToolKind::TakeScreenshot,
            ToolKind::FindText,
            ToolKind::ClickAt,
            ToolKind::DebugOcr,
            ToolKind::ClickOnText,
            ToolKind::ClickAndType,
        ];
        assert(v@ =~= all_tools());
        v
    }
}

/// Clicks with the mouse.
#[derive(Debug, Clone, Copy)]
pub struct ClickTool;

/// Types text.
#[derive(Debug, Clone, Copy)]
pub struct TypeTool;

/// Scrolls.
#[derive(Debug, Clone, Copy)]
pub struct ScrollTool;

/// Presses keys.
#[derive(Debug, Clone, Copy)]
pub struct KeyPressTool;

/// Reads where the mouse cursor is.
#[derive(Debug, Clone, Copy)]
pub struct GetCursorPositionTool;

/// Reads the screen's size.
#[derive(Debug, Clone, Copy)]
pub struct GetScreenInfoTool;

/// Takes a screenshot.
#[derive(Debug, Clone, Copy)]
pub struct ScreenshotTool;

/// Finds text on the screen.
#[derive(Debug, Clone, Copy)]
pub struct FindTextTool;

/// Clicks at given coordinates.
#[derive(Debug, Clone, Copy)]
pub struct ClickAtTool;

/// Shows what text recognition sees.
#[derive(Debug, Clone, Copy)]
pub struct DebugOcrTool;

/// Finds text on the screen and clicks it.
#[derive(Debug, Clone, Copy)]
pub struct ClickOnTextTool;

/// Finds text on the screen, clicks it and types.
#[derive(Debug, Clone, Copy)]
pub struct ClickAndTypeTool;

impl ClickTool {
    /// Which tool this is.
    pub fn kind(&self) -> (k: ToolKind)
        ensures
            k == ToolKind::Click,
    {
        ToolKind::Click
    }
}

impl TypeTool {
    /// Which tool this is.
    pub fn kind(&self) -> (k: ToolKind)
        ensures
            k == ToolKind::Type,
    {
        ToolKind::Type
    }
}

impl ScrollTool {
    /// Which tool this is.
    pub fn kind(&self) -> (k: ToolKind)
        ensures
            k == ToolKind::Scroll,
    {
        ToolKind::Scroll
    }
}

impl KeyPressTool {
    /// Which tool this is.
    pub fn kind(&self) -> (k: ToolKind)
        ensures
            k == ToolKind::KeyPress,
    {
        ToolKind::KeyPress
    }
}

impl GetCursorPositionTool {
    /// Which tool this is.
    pub fn kind(&self) -> (k: ToolKind)
        ensures
            k == ToolKind::GetCursorPosition,
    {
        ToolKind::GetCursorPosition
    }
}

impl GetScreenInfoTool {
    /// Which tool this is.
    pub fn kind(&self) -> (k: ToolKind)
        ensures
            k == ToolKind::GetScreenInfo,
    {
        ToolKind::GetScreenInfo
    }
}

impl ScreenshotTool {
    /// Which tool this is.
    pub fn kind(&self) -> (k: ToolKind)
        ensures
            k == ToolKind::TakeScreenshot,
    {
        ToolKind::TakeScreenshot
    }
}

impl FindTextTool {
    /// Which tool this is.
    pub fn kind(&self) -> (k: ToolKind)
        ensures
            k == ToolKind::FindText,
    {
        ToolKind::FindText
    }
}

impl ClickAtTool {
    /// Which tool this is.
    pub fn kind(&self) -> (k: ToolKind)
        ensures
            k == ToolKind::ClickAt,
    {
        ToolKind::ClickAt
    }
}

impl DebugOcrTool {
    /// Which tool this is.
    pub fn kind(&self) -> (k: ToolKind)
        ensures
            k == ToolKind::DebugOcr,
    {
        ToolKind::DebugOcr
    }
}

impl ClickOnTextTool {
    /// Which tool this is.
    pub fn kind(&self) -> (k: ToolKind)
        ensures
            k == ToolKind::ClickOnText,
    {
        ToolKind::ClickOnText
    }
}

impl ClickAndTypeTool {
    /// Which tool this is.
    pub fn kind(&self) -> (k: ToolKind)
        ensures
            k == ToolKind::ClickAndType,
    {
        ToolKind::ClickAndType
    }
}

/// Where the cursor is taken to be where it cannot be read: (800, 600).
pub fn get_cursor_position() -> (r: Result<(i32, i32), String>)
    ensures
        r == Ok::<(i32, i32), String>((800i32, 600i32)),
{
    Ok((800, 600))
}

/// The screen's size where it cannot be read: 1920 by 1080.
pub fn get_screen_info() -> (r: Result<(u32, u32), String>)
    ensures
        r == Ok::<(u32, u32), String>((1920u32, 1080u32)),
{
    Ok((1920, 1080))
}

// ---------------------------------------------------------------------------
// Approval
// ---------------------------------------------------------------------------

/// How important a session log entry is.
#[derive(Debug, Clone, Copy, PartialEq, Eq, Structural)]
pub enum LogLevel {
    Info,
    Warning,
    Error,
    Debug,
}

/// Whether a log entry is also sent to the user interface: information and errors are.
pub fn should_emit_log(level: LogLevel) -> (b: bool)
    ensures
        b == (level == LogLevel::Info || level == LogLevel::Error),
{
    match level {
        LogLevel::Info => true,
        LogLevel::Error => true,
        _ => false,
    }
}

/// Whether a call must wait for the user: the session asks for approvals and
/// the tool is more than low risk.
pub fn must_ask_approval(require_approval: bool, danger: DangerLevel) -> (b: bool)
    ensures
        b == (require_approval && needs_approval(danger)),
{
    require_approval && requires_approval(danger)
}

/// The words for a danger level.
pub open spec fn risk_words(d: DangerLevel) -> Seq<char> {
    match d {
        DangerLevel::Low => "low risk"@,
        DangerLevel::Medium => "medium risk"@,
        DangerLevel::High => "high risk"@,
        DangerLevel::Critical => "critical risk"@,
    }
}

/// The words for a danger level.
pub fn risk_label(d: DangerLevel) -> (s: &'static str)
    ensures
        s@ == risk_words(d),
{
    match d {
        DangerLevel::Low => "low risk",
        DangerLevel::Medium => "medium risk",
        DangerLevel::High => "high risk",
        DangerLevel::Critical => "critical risk",
    }
}

/// The log message of an approval request.
pub fn approval_request_message(tool_name: &str, d: DangerLevel) -> (s: String)
    ensures
        s@ == "Requesting approval for tool: "@ + tool_name@ + " ("@ + risk_words(d) + ")"@,
{
    let mut s = to_owned_string("Requesting approval for tool: ");
    push_str(&mut s, tool_name);
    push_str(&mut s, " (");
    push_str(&mut s, risk_label(d));
    push_str(&mut s, ")");
    s
}

/// How the wait for the user's answer ended.
#[derive(Debug, Clone, Copy, PartialEq, Eq, Structural)]
pub enum ApprovalOutcome {
    /// The user answered.
    Responded(bool),
    /// The answer can no longer come.
    ChannelClosed,
    /// The session's timeout passed first.
    TimedOut,
}

/// What the session does once the wait has ended.
#[derive(Debug)]
pub struct ApprovalResolution {
    /// Whether the call may proceed, or why the approval failed.
    pub result: Result<bool, String>,
    /// Whether the pending request is dropped.
    pub clear_pending: bool,
    /// The status the session moves to, if it moves.
    pub new_status: Option<SessionStatus>,
    pub log_level: LogLevel,
    pub log_message: String,
}

/// The level and message that the session logs when the wait for an approval
/// has ended.
pub open spec fn approval_log(outcome: ApprovalOutcome) -> (LogLevel, Seq<char>) {
    match outcome {
        ApprovalOutcome::Responded(a) => (LogLevel::Info, "Tool approval response: "@ + if a {
            "APPROVED"@
        } else {
            "DENIED"@
        }),
        ApprovalOutcome::ChannelClosed => (LogLevel::Error, "Approval response channel closed"@),
        ApprovalOutcome::TimedOut => (LogLevel::Warning, "Tool approval timed out"@),
    }
}

/// What the session does once the wait for an approval has ended: an answer
/// is the result and makes the session active again; a closed channel and a
/// timeout are errors, and a timeout also drops the pending request.
pub fn resolve_approval(outcome: ApprovalOutcome) -> (r: ApprovalResolution)
    ensures
        match outcome {
            ApprovalOutcome::Responded(a) => {
                &&& r.result == Ok::<bool, String>(a)
                &&& r.clear_pending
                &&& r.new_status == Some(SessionStatus::Active)
                &&& r.log_level == LogLevel::Info
                &&& r.log_message@ == "Tool approval response: "@ + if a {
                    "APPROVED"@
                } else {
                    "DENIED"@
                }
            },
            ApprovalOutcome::ChannelClosed => {
                &&& r.result matches Err(m) && m@ == "Approval response channel closed"@
                &&& !r.clear_pending
                &&& r.new_status is None
                &&& r.log_level == LogLevel::Error
                &&& r.log_message@ == "Approval response channel closed"@
            },
            ApprovalOutcome::TimedOut => {
                &&& r.result matches Err(m) && m@ == "Approval request timed out"@
                &&& r.clear_pending
                &&& r.new_status is None
                &&& r.log_level == LogLevel::Warning
                &&& r.log_message@ == "Tool approval timed out"@
            },
        },
{
    match outcome {
        ApprovalOutcome::Responded(a) => {
            let mut m = to_owned_string("Tool approval response: ");
            push_str(
                &mut m,
                if a {
                    "APPROVED"
                } else {
                    "DENIED"
                },
            );
            ApprovalResolution {
                result: Ok(a),
                clear_pending: true,
                new_status: Some(SessionStatus::Active),
                log_level: LogLevel::Info,
                log_message: m,
            }
        },
        ApprovalOutcome::ChannelClosed => ApprovalResolution {
            result: Err(to_owned_string("Approval response channel closed")),
            clear_pending: false,
            new_status: None,
            log_level: LogLevel::Error,
            log_message: to_owned_string("Approval response channel closed"),
        },
        ApprovalOutcome::TimedOut => ApprovalResolution {
            result: Err(to_owned_string("Approval request timed out")),
            clear_pending: true,
            new_status: None,
            log_level: LogLevel::Warning,
            log_message: to_owned_string("Tool approval timed out"),
        },
    }
}

// ---------------------------------------------------------------------------
// Plans
// ---------------------------------------------------------------------------

/// The first position of `c` in `s` (`-1` where there is none).
pub open spec fn first_pos(s: Seq<char>, c: char) -> int {
    if s.contains(c) {
        choose|i: int| crate::text::first_index_of(s, c, i)
    } else {
        -1
    }
}

/// The text between the first two occurrences of `q` in `s`.
pub open spec fn quoted_by(s: Seq<char>, q: char) -> Option<Seq<char>> {
    if s.contains(q) {
        let rest = s.skip(first_pos(s, q) + 1);
        if rest.contains(q) {
            Some(rest.take(first_pos(rest, q)))
        } else {
            None
        }
    } else {
        None
    }
}

/// The text in double quotes in a request, else the text in single quotes.
pub open spec fn quoted_text(s: Seq<char>) -> Option<Seq<char>> {
    match quoted_by(s, '"') {
        Some(t) => Some(t),
        None => quoted_by(s, '\''),
    }
}

proof fn lemma_first_pos(s: Seq<char>, c: char, i: int)
    requires
        crate::text::first_index_of(s, c, i),
    ensures
        first_pos(s, c) == i,
{
    assert(s.contains(c)) by {
        assert(s[i] == c);
    }
    let j = choose|j: int| crate::text::first_index_of(s, c, j);
    assert(crate::text::first_index_of(s, c, j));
    if j < i {
        assert(s[j] != c);
    }
    if i < j {
        assert(s[i] != c);
    }
}

fn quoted_by_chars(v: &Vec<char>, q: char) -> (r: Option<Vec<char>>)
    ensures
        match r {
            Some(t) => quoted_by(v@, q) == Some(t@),
            None => quoted_by(v@, q) is None,
        },
{
    let start = match find_char(v, q) {
        None => {
            return None;
        },
        Some(i) => i,
    };
    proof {
        lemma_first_pos(v@, q, start as int);
    }
    let n: usize = v.len();
    assert(start < n);
    let mut rest: Vec<char> = Vec::new();
    let mut k: usize = start + 1;
    while k < v.len()
        invariant
            start + 1 <= k <= v.len(),
            rest@ == v@.subrange(start + 1, k as int),
        decreases v.len() - k,
    {
        rest.push(v[k]);
        assert(v@.subrange(start + 1, k + 1) =~= v@.subrange(start + 1, k as int).push(v@[k as int]));
        k = k + 1;
    }
    assert(rest@ =~= v@.skip(start + 1));
    let end = match find_char(&rest, q) {
        None => {
            return None;
        },
        Some(j) => j,
    };
    proof {
        lemma_first_pos(rest@, q, end as int);
    }
    let mut t: Vec<char> = Vec::new();
    let mut m: usize = 0;
    while m < end
        invariant
            m <= end < rest.len(),
            t@ == rest@.take(m as int),
        decreases end - m,
    {
        t.push(rest[m]);
        assert(rest@.take(m + 1) =~= rest@.take(m as int).push(rest@[m as int]));
        m = m + 1;
    }
    Some(t)
}

/// The text in the first pair of double quotes of a request, else in the
/// first pair of single quotes.
pub fn extract_quoted_text(text: &str) -> (r: Option<String>)
    ensures
        match r {
            Some(t) => quoted_text(text@) == Some(t@),
            None => quoted_text(text@) is None,
        },
{
    let v = chars_of(text);
    match quoted_by_chars(&v, '"') {
        Some(t) => Some(string_from_chars(t.as_slice())),
        None => match quoted_by_chars(&v, '\'') {
            Some(t) => Some(string_from_chars(t.as_slice())),
            None => None,
        },
    }
}

/// One call of a plan.
#[derive(Debug)]
pub struct ToolStep {
    pub step_id: String,
    pub tool_name: String,
    pub description: String,
    /// The `text` parameter, where the call has one.
    pub text_param: Option<String>,
    /// The step whose result this one uses.
    pub depends_on: Option<String>,
    pub danger_level: DangerLevel,
    pub estimated_duration_ms: Option<u64>,
}

/// The calls planned for a request.
#[derive(Debug)]
pub struct ToolExecutionPlan {
    pub session_id: String,
    pub plan_id: String,
    pub user_request: String,
    pub steps: Vec<ToolStep>,
    pub overall_risk: DangerLevel,
    pub requires_approval: bool,
    pub created_at: String,
}

/// Whether a request asks to find text with an available `find_text` tool.
pub open spec fn plans_find(low: Seq<char>, tools: Seq<Seq<char>>) -> bool {
    has_substring(low, "find"@) && has_substring(low, "text"@) && tools.contains("find_text"@)
}

/// Whether a request asks to click with an available `click` tool.
pub open spec fn plans_click(low: Seq<char>, tools: Seq<Seq<char>>) -> bool {
    has_substring(low, "click"@) && tools.contains("click"@)
}

/// Whether a request asks for a screenshot with an available `take_screenshot` tool.
pub open spec fn plans_screenshot(low: Seq<char>, tools: Seq<Seq<char>>) -> bool {
    has_substring(low, "screenshot"@) && tools.contains("take_screenshot"@)
}

/// The text a find step looks for: the quoted text of the request, else `Submit`.
pub open spec fn find_target(request: Seq<char>) -> Seq<char> {
    match quoted_text(request) {
        Some(t) => t,
        None => "Submit"@,
    }
}

/// Whether `s` is the find step for `request`.
pub open spec fn is_find_step(s: ToolStep, request: Seq<char>) -> bool {
    &&& s.tool_name@ == "find_text"@
    &&& s.description@ == "Find text '"@ + find_target(request) + "' on screen"@
    &&& s.text_param matches Some(t) && t@ == find_target(request)
    &&& s.depends_on is None
    &&& s.danger_level == DangerLevel::Low
    &&& s.estimated_duration_ms == Some(2000u64)
}

/// Whether `s` is a click step that depends on step id `after`.
pub open spec fn is_click_step(s: ToolStep, after: Option<Seq<char>>) -> bool {
    &&& s.tool_name@ == "click"@
    &&& s.description@ == "Click on the found text location"@
    &&& s.text_param is None
    &&& match after {
        Some(id) => s.depends_on matches Some(d) && d@ == id,
        None => s.depends_on is None,
    }
    &&& s.danger_level == DangerLevel::Medium
    &&& s.estimated_duration_ms == Some(500u64)
}

/// Whether `s` is the screenshot step.
pub open spec fn is_screenshot_step(s: ToolStep) -> bool {
    &&& s.tool_name@ == "take_screenshot"@
    &&& s.description@ == "Take a screenshot"@
    &&& s.text_param is None
    &&& s.depends_on is None
    &&& s.danger_level == DangerLevel::Low
    &&& s.estimated_duration_ms == Some(1000u64)
}

/// Whether `steps` is the plan for `request` with the tools named `tools`: a
/// find step where the request mentions finding text, a click step (after the
/// find step, where there is one) where it mentions clicking, and a
/// screenshot step where it mentions a screenshot, each only where its tool is
/// available.
pub open spec fn planned(steps: Seq<ToolStep>, request: Seq<char>, tools: Seq<Seq<char>>) -> bool {
    let low = lowercase(request);
    let f = plans_find(low, tools);
    let c = plans_click(low, tools);
    let n = if f { 1int } else { 0int };
    let m = n + if c { 1int } else { 0int };
    &&& steps.len() == m + if plans_screenshot(low, tools) { 1int } else { 0int }
    &&& f ==> is_find_step(steps[0], request)
    &&& c ==> is_click_step(steps[n], if f { Some(steps[0].step_id@) } else { None })
    &&& plans_screenshot(low, tools) ==> is_screenshot_step(steps[m])
}

fn find_step(request: &str) -> (s: ToolStep)
    ensures
        is_find_step(s, request@),
{
    let target = match extract_quoted_text(request) {
        Some(t) => t,
        None => to_owned_string("Submit"),
    };
    let mut description = to_owned_string("Find text '");
    push_str(&mut description, target.as_str());
    push_str(&mut description, "' on screen");
    ToolStep {
        step_id: new_uuid_v4(),
        tool_name: to_owned_string("find_text"),
        description,
        text_param: Some(target),
        depends_on: None,
        danger_level: DangerLevel::Low,
        estimated_duration_ms: Some(2000),
    }
}

/// Plans the calls for a request from its keywords: `find` and `text`, `click`
/// and `screenshot`, looked up in the lower-cased request. The plan is as risky
/// as its riskiest step and needs approval where some step does.
pub fn generate_execution_plan(session_id: &str, user_request: &str, available_tools: &Vec<String>) -> (p:
    ToolExecutionPlan)
    ensures
        p.session_id@ == session_id@,
        p.user_request@ == user_request@,
        planned(p.steps@, user_request@, crate::chunking::string_views(available_tools@)),
        p.overall_risk == if plans_click(
            lowercase(user_request@),
            crate::chunking::string_views(available_tools@),
        ) {
            DangerLevel::Medium
        } else {
            DangerLevel::Low
        },
        p.requires_approval == plans_click(
            lowercase(user_request@),
            crate::chunking::string_views(available_tools@),
        ),
{
    let ghost tools = crate::chunking::string_views(available_tools@);
    let low_s = to_lowercase(user_request);
    let low = low_s.as_str();
    let want_find = contains_str(low, "find") && contains_str(low, "text")
        && crate::files::list_contains(available_tools, "find_text");
    let want_click = contains_str(low, "click") && crate::files::list_contains(
        available_tools,
        "click",
    );
    let want_shot = contains_str(low, "screenshot") && crate::files::list_contains(
        available_tools,
        "take_screenshot",
    );
    let mut steps: Vec<ToolStep> = Vec::new();
    let mut last_id: Option<String> = None;
    if want_find {
        let s = find_step(user_request);
        last_id = Some(to_owned_string(s.step_id.as_str()));
        steps.push(s);
    }
    let ghost n = steps@.len();
    if want_click {
        let s = ToolStep {
            step_id: new_uuid_v4(),
            tool_name: to_owned_string("click"),
            description: to_owned_string("Click on the found text location"),
            text_param: None,
            depends_on: last_id,
            danger_level: DangerLevel::Medium,
            estimated_duration_ms: Some(500),
        };
        steps.push(s);
    }
    let ghost m = steps@.len();
    if want_shot {
        let s = ToolStep {
            step_id: new_uuid_v4(),
            tool_name: to_owned_string("take_screenshot"),
            description: to_owned_string("Take a screenshot"),
            text_param: None,
            depends_on: None,
            danger_level: DangerLevel::Low,
            estimated_duration_ms: Some(1000),
        };
        steps.push(s);
    }
    ToolExecutionPlan {
        session_id: to_owned_string(session_id),
        plan_id: new_uuid_v4(),
        user_request: to_owned_string(user_request),
        steps,
        overall_risk: if want_click {
            DangerLevel::Medium
        } else {
            DangerLevel::Low
        },
        requires_approval: want_click,
        created_at: rfc3339_now(),
    }
}

// ---------------------------------------------------------------------------
// Keys
// ---------------------------------------------------------------------------

/// The Windows virtual-key code of a key name (already lower case).
pub open spec fn named_key_code(k: Seq<char>) -> Option<u32> {
    if k == "return"@ || k == "enter"@ {
        Some(13u32)
    } else if k == "delete"@ || k == "del"@ {
        Some(46u32)
    } else if k == "backspace"@ || k == "back"@ {
        Some(8u32)
    } else if k == "tab"@ {
        Some(9u32)
    } else if k == "escape"@ || k == "esc"@ {
        Some(27u32)
    } else if k == "space"@ {
        Some(32u32)
    } else if k == "left"@ || k == "leftarrow"@ {
        Some(37u32)
    } else if k == "right"@ || k == "rightarrow"@ {
        Some(39u32)
    } else if k == "up"@ || k == "uparrow"@ {
        Some(38u32)
    } else if k == "down"@ || k == "downarrow"@ {
        Some(40u32)
    } else if k == "ctrl"@ || k == "control"@ {
        Some(17u32)
    } else if k == "alt"@ {
        Some(18u32)
    } else if k == "shift"@ {
        Some(16u32)
    } else if k == "meta"@ || k == "win"@ || k == "windows"@ {
        Some(91u32)
    } else if k == "f1"@ {
        Some(112u32)
    } else if k == "f2"@ {
        Some(113u32)
    } else if k == "f3"@ {
        Some(114u32)
    } else if k == "f4"@ {
        Some(115u32)
    } else if k == "f5"@ {
        Some(116u32)
    } else if k == "f6"@ {
        Some(117u32)
    } else if k == "f7"@ {
        Some(118u32)
    } else if k == "f8"@ {
        Some(119u32)
    } else if k == "f9"@ {
        Some(120u32)
    } else if k == "f10"@ {
        Some(121u32)
    } else if k == "f11"@ {
        Some(122u32)
    } else if k == "f12"@ {
        Some(123u32)
    } else {
        None
    }
}

fn named_key(k: &str) -> (r: Option<u32>)
    ensures
        r == named_key_code(k@),
{
    if str_eq(k, "return") || str_eq(k, "enter") {
        Some(13u32)
    } else if str_eq(k, "delete") || str_eq(k, "del") {
        Some(46u32)
    } else if str_eq(k, "backspace") || str_eq(k, "back") {
        Some(8u32)
    } else if str_eq(k, "tab") {
        Some(9u32)
    } else if str_eq(k, "escape") || str_eq(k, "esc") {
        Some(27u32)
    } else if str_eq(k, "space") {
        Some(32u32)
    } else if str_eq(k, "left") || str_eq(k, "leftarrow") {
        Some(37u32)
    } else if str_eq(k, "right") || str_eq(k, "rightarrow") {
        Some(39u32)
    } else if str_eq(k, "up") || str_eq(k, "uparrow") {
        Some(38u32)
    } else if str_eq(k, "down") || str_eq(k, "downarrow") {
        Some(40u32)
    } else if str_eq(k, "ctrl") || str_eq(k, "control") {
        Some(17u32)
    } else if str_eq(k, "alt") {
        Some(18u32)
    } else if str_eq(k, "shift") {
        Some(16u32)
    } else if str_eq(k, "meta") || str_eq(k, "win") || str_eq(k, "windows") {
        Some(91u32)
    } else if str_eq(k, "f1") {
        Some(112u32)
    } else if str_eq(k, "f2") {
        Some(113u32)
    } else if str_eq(k, "f3") {
        Some(114u32)
    } else if str_eq(k, "f4") {
        Some(115u32)
    } else if str_eq(k, "f5") {
        Some(116u32)
    } else if str_eq(k, "f6") {
        Some(117u32)
    } else if str_eq(k, "f7") {
        Some(118u32)
    } else if str_eq(k, "f8") {
        Some(119u32)
    } else if str_eq(k, "f9") {
        Some(120u32)
    } else if str_eq(k, "f10") {
        Some(121u32)
    } else if str_eq(k, "f11") {
        Some(122u32)
    } else if str_eq(k, "f12") {
        Some(123u32)
    } else {
        None
    }
}

/// Whether `c` is an ASCII letter.
pub open spec fn ascii_letter(c: char) -> bool {
    ('a' <= c && c <= 'z') || ('A' <= c && c <= 'Z')
}

/// The Windows virtual-key code of a key: a key name (in any case) such as
/// `enter`, `esc`, `f5` or `ctrl`, or a single ASCII letter, whose code is
/// that of its upper-case form.
pub open spec fn key_code(key: Seq<char>) -> Option<u32> {
    match named_key_code(lowercase(key)) {
        Some(c) => Some(c),
        None => if crate::chunking::blen(key) == 1 && ascii_letter(key[0]) {
            Some(crate::ollama::ascii_upper(key[0]) as u32)
        } else {
            None
        },
    }
}

/// The Windows virtual-key code of a key, or the error for a key that has none.
pub fn virtual_key_code(key: &str) -> (r: Result<u32, String>)
    ensures
        match key_code(key@) {
            Some(c) => r == Ok::<u32, String>(c),
            None => r matches Err(m) && m@ == "Unsupported key: "@ + key@,
        },
{
    let low = to_lowercase(key);
    match named_key(low.as_str()) {
        Some(c) => {
            return Ok(c);
        },
        None => {},
    }
    if crate::chunking::byte_len(key) == 1 {
        let v = chars_of(key);
        proof {
            vstd::utf8::encode_utf8_first_scalar(key@);
        }
        assert(v@.len() >= 1);
        let c = v[0];
        let upper = if 'a' <= c && c <= 'z' {
            let code: u32 = c as u32;
            let b: u8 = (code - 32) as u8;
            b as char
        } else {
            c
        };
        if ('a' <= c && c <= 'z') || ('A' <= c && c <= 'Z') {
            assert(upper == crate::ollama::ascii_upper(c));
            return Ok(upper as u32);
        }
    }
    let mut m = to_owned_string("Unsupported key: ");
    push_str(&mut m, key);
    Err(m)
}

// ---------------------------------------------------------------------------
// Laws
// ---------------------------------------------------------------------------

/// Every key name of the table, written in any case, gives its Windows
/// virtual-key code (Enter 0x0D, Delete 0x2E, Backspace 0x08, Tab 0x09,
/// Escape 0x1B, Space 0x20, the arrows 0x25 to 0x28, Ctrl 0x11, Alt 0x12,
/// Shift 0x10, the Windows key 0x5B, F1 to F12 0x70 to 0x7B); none of them is
/// unsupported.
pub proof fn law_named_keys_have_codes(key: Seq<char>)
    ensures
        lowercase(key) == "return"@ ==> key_code(key) == Some(13u32),
        lowercase(key) == "enter"@ ==> key_code(key) == Some(13u32),
        lowercase(key) == "delete"@ ==> key_code(key) == Some(46u32),
        lowercase(key) == "del"@ ==> key_code(key) == Some(46u32),
        lowercase(key) == "backspace"@ ==> key_code(key) == Some(8u32),
        lowercase(key) == "back"@ ==> key_code(key) == Some(8u32),
        lowercase(key) == "tab"@ ==> key_code(key) == Some(9u32),
        lowercase(key) == "escape"@ ==> key_code(key) == Some(27u32),
        lowercase(key) == "esc"@ ==> key_code(key) == Some(27u32),
        lowercase(key) == "space"@ ==> key_code(key) == Some(32u32),
        lowercase(key) == "left"@ ==> key_code(key) == Some(37u32),
        lowercase(key) == "leftarrow"@ ==> key_code(key) == Some(37u32),
        lowercase(key) == "right"@ ==> key_code(key) == Some(39u32),
        lowercase(key) == "rightarrow"@ ==> key_code(key) == Some(39u32),
        lowercase(key) == "up"@ ==> key_code(key) == Some(38u32),
        lowercase(key) == "uparrow"@ ==> key_code(key) == Some(38u32),
        lowercase(key) == "down"@ ==> key_code(key) == Some(40u32),
        lowercase(key) == "downarrow"@ ==> key_code(key) == Some(40u32),
        lowercase(key) == "ctrl"@ ==> key_code(key) == Some(17u32),
        lowercase(key) == "control"@ ==> key_code(key) == Some(17u32),
        lowercase(key) == "alt"@ ==> key_code(key) == Some(18u32),
        lowercase(key) == "shift"@ ==> key_code(key) == Some(16u32),
        lowercase(key) == "meta"@ ==> key_code(key) == Some(91u32),
        lowercase(key) == "win"@ ==> key_code(key) == Some(91u32),
        lowercase(key) == "windows"@ ==> key_code(key) == Some(91u32),
        lowercase(key) == "f1"@ ==> key_code(key) == Some(112u32),
        lowercase(key) == "f2"@ ==> key_code(key) == Some(113u32),
        lowercase(key) == "f3"@ ==> key_code(key) == Some(114u32),
        lowercase(key) == "f4"@ ==> key_code(key) == Some(115u32),
        lowercase(key) == "f5"@ ==> key_code(key) == Some(116u32),
        lowercase(key) == "f6"@ ==> key_code(key) == Some(117u32),
        lowercase(key) == "f7"@ ==> key_code(key) == Some(118u32),
        lowercase(key) == "f8"@ ==> key_code(key) == Some(119u32),
        lowercase(key) == "f9"@ ==> key_code(key) == Some(120u32),
        lowercase(key) == "f10"@ ==> key_code(key) == Some(121u32),
        lowercase(key) == "f11"@ ==> key_code(key) == Some(122u32),
        lowercase(key) == "f12"@ ==> key_code(key) == Some(123u32),
{
    reveal_strlit("return");
    reveal_strlit("enter");
    reveal_strlit("delete");
    reveal_strlit("del");
    reveal_strlit("backspace");
    reveal_strlit("back");
    reveal_strlit("tab");
    reveal_strlit("escape");
    reveal_strlit("esc");
    reveal_strlit("space");
    reveal_strlit("left");
    reveal_strlit("leftarrow");
    reveal_strlit("right");
    reveal_strlit("rightarrow");
    reveal_strlit("up");
    reveal_strlit("uparrow");
    reveal_strlit("down");
    reveal_strlit("downarrow");
    reveal_strlit("ctrl");
    reveal_strlit("control");
    reveal_strlit("alt");
    reveal_strlit("shift");
    reveal_strlit("meta");
    reveal_strlit("win");
    reveal_strlit("windows");
    reveal_strlit("f1");
    reveal_strlit("f2");
    reveal_strlit("f3");
    reveal_strlit("f4");
    reveal_strlit("f5");
    reveal_strlit("f6");
    reveal_strlit("f7");
    reveal_strlit("f8");
    reveal_strlit("f9");
    reveal_strlit("f10");
    reveal_strlit("f11");
    reveal_strlit("f12");
    if lowercase(key) == "return"@ {
    }
    if lowercase(key) == "enter"@ {
        assert("enter"@.len() != "return"@.len());
    }
    if lowercase(key) == "delete"@ {
        assert("delete"@[0] != "return"@[0]);
        assert("delete"@.len() != "enter"@.len());
    }
    if lowercase(key) == "del"@ {
        assert("del"@.len() != "return"@.len());
        assert("del"@.len() != "enter"@.len());
        assert("del"@.len() != "delete"@.len());
    }
    if lowercase(key) == "backspace"@ {
        assert("backspace"@.len() != "return"@.len());
        assert("backspace"@.len() != "enter"@.len());
        assert("backspace"@.len() != "delete"@.len());
        assert("backspace"@.len() != "del"@.len());
    }
    if lowercase(key) == "back"@ {
        assert("back"@.len() != "return"@.len());
        assert("back"@.len() != "enter"@.len());
        assert("back"@.len() != "delete"@.len());
        assert("back"@.len() != "del"@.len());
        assert("back"@.len() != "backspace"@.len());
    }
    if lowercase(key) == "tab"@ {
        assert("tab"@.len() != "return"@.len());
        assert("tab"@.len() != "enter"@.len());
        assert("tab"@.len() != "delete"@.len());
        assert("tab"@[0] != "del"@[0]);
        assert("tab"@.len() != "backspace"@.len());
        assert("tab"@.len() != "back"@.len());
    }
    if lowercase(key) == "escape"@ {
        assert("escape"@[0] != "return"@[0]);
        assert("escape"@.len() != "enter"@.len());
        assert("escape"@[0] != "delete"@[0]);
        assert("escape"@.len() != "del"@.len());
        assert("escape"@.len() != "backspace"@.len());
        assert("escape"@.len() != "back"@.len());
        assert("escape"@.len() != "tab"@.len());
    }
    if lowercase(key) == "esc"@ {
        assert("esc"@.len() != "return"@.len());
        assert("esc"@.len() != "enter"@.len());
        assert("esc"@.len() != "delete"@.len());
        assert("esc"@[0] != "del"@[0]);
        assert("esc"@.len() != "backspace"@.len());
        assert("esc"@.len() != "back"@.len());
        assert("esc"@[0] != "tab"@[0]);
        assert("esc"@.len() != "escape"@.len());
    }
    if lowercase(key) == "space"@ {
        assert("space"@.len() != "return"@.len());
        assert("space"@[0] != "enter"@[0]);
        assert("space"@.len() != "delete"@.len());
        assert("space"@.len() != "del"@.len());
        assert("space"@.len() != "backspace"@.len());
        assert("space"@.len() != "back"@.len());
        assert("space"@.len() != "tab"@.len());
        assert("space"@.len() != "escape"@.len());
        assert("space"@.len() != "esc"@.len());
    }
    if lowercase(key) == "left"@ {
        assert("left"@.len() != "return"@.len());
        assert("left"@.len() != "enter"@.len());
        assert("left"@.len() != "delete"@.len());
        assert("left"@.len() != "del"@.len());
        assert("left"@.len() != "backspace"@.len());
        assert("left"@[0] != "back"@[0]);
        assert("left"@.len() != "tab"@.len());
        assert("left"@.len() != "escape"@.len());
        assert("left"@.len() != "esc"@.len());
        assert("left"@.len() != "space"@.len());
    }
    if lowercase(key) == "leftarrow"@ {
        assert("leftarrow"@.len() != "return"@.len());
        assert("leftarrow"@.len() != "enter"@.len());
        assert("leftarrow"@.len() != "delete"@.len());
        assert("leftarrow"@.len() != "del"@.len());
        assert("leftarrow"@[0] != "backspace"@[0]);
        assert("leftarrow"@.len() != "back"@.len());
        assert("leftarrow"@.len() != "tab"@.len());
        assert("leftarrow"@.len() != "escape"@.len());
        assert("leftarrow"@.len() != "esc"@.len());
        assert("leftarrow"@.len() != "space"@.len());
        assert("leftarrow"@.len() != "left"@.len());
    }
    if lowercase(key) == "right"@ {
        assert("right"@.len() != "return"@.len());
        assert("right"@[0] != "enter"@[0]);
        assert("right"@.len() != "delete"@.len());
        assert("right"@.len() != "del"@.len());
        assert("right"@.len() != "backspace"@.len());
        assert("right"@.len() != "back"@.len());
        assert("right"@.len() != "tab"@.len());
        assert("right"@.len() != "escape"@.len());
        assert("right"@.len() != "esc"@.len());
        assert("right"@[0] != "space"@[0]);
        assert("right"@.len() != "left"@.len());
        assert("right"@.len() != "leftarrow"@.len());
    }
    if lowercase(key) == "rightarrow"@ {
        assert("rightarrow"@.len() != "return"@.len());
        assert("rightarrow"@.len() != "enter"@.len());
        assert("rightarrow"@.len() != "delete"@.len());
        assert("rightarrow"@.len() != "del"@.len());
        assert("rightarrow"@.len() != "backspace"@.len());
        assert("rightarrow"@.len() != "back"@.len());
        assert("rightarrow"@.len() != "tab"@.len());
        assert("rightarrow"@.len() != "escape"@.len());
        assert("rightarrow"@.len() != "esc"@.len());
        assert("rightarrow"@.len() != "space"@.len());
        assert("rightarrow"@.len() != "left"@.len());
        assert("rightarrow"@.len() != "leftarrow"@.len());
        assert("rightarrow"@.len() != "right"@.len());
    }
    if lowercase(key) == "up"@ {
        assert("up"@.len() != "return"@.len());
        assert("up"@.len() != "enter"@.len());
        assert("up"@.len() != "delete"@.len());
        assert("up"@.len() != "del"@.len());
        assert("up"@.len() != "backspace"@.len());
        assert("up"@.len() != "back"@.len());
        assert("up"@.len() != "tab"@.len());
        assert("up"@.len() != "escape"@.len());
        assert("up"@.len() != "esc"@.len());
        assert("up"@.len() != "space"@.len());
        assert("up"@.len() != "left"@.len());
        assert("up"@.len() != "leftarrow"@.len());
        assert("up"@.len() != "right"@.len());
        assert("up"@.len() != "rightarrow"@.len());
    }
    if lowercase(key) == "uparrow"@ {
        assert("uparrow"@.len() != "return"@.len());
        assert("uparrow"@.len() != "enter"@.len());
        assert("uparrow"@.len() != "delete"@.len());
        assert("uparrow"@.len() != "del"@.len());
        assert("uparrow"@.len() != "backspace"@.len());
        assert("uparrow"@.len() != "back"@.len());
        assert("uparrow"@.len() != "tab"@.len());
        assert("uparrow"@.len() != "escape"@.len());
        assert("uparrow"@.len() != "esc"@.len());
        assert("uparrow"@.len() != "space"@.len());
        assert("uparrow"@.len() != "left"@.len());
        assert("uparrow"@.len() != "leftarrow"@.len());
        assert("uparrow"@.len() != "right"@.len());
        assert("uparrow"@.len() != "rightarrow"@.len());
        assert("uparrow"@.len() != "up"@.len());
    }
    if lowercase(key) == "down"@ {
        assert("down"@.len() != "return"@.len());
        assert("down"@.len() != "enter"@.len());
        assert("down"@.len() != "delete"@.len());
        assert("down"@.len() != "del"@.len());
        assert("down"@.len() != "backspace"@.len());
        assert("down"@[0] != "back"@[0]);
        assert("down"@.len() != "tab"@.len());
        assert("down"@.len() != "escape"@.len());
        assert("down"@.len() != "esc"@.len());
        assert("down"@.len() != "space"@.len());
        assert("down"@[0] != "left"@[0]);
        assert("down"@.len() != "leftarrow"@.len());
        assert("down"@.len() != "right"@.len());
        assert("down"@.len() != "rightarrow"@.len());
        assert("down"@.len() != "up"@.len());
        assert("down"@.len() != "uparrow"@.len());
    }
    if lowercase(key) == "downarrow"@ {
        assert("downarrow"@.len() != "return"@.len());
        assert("downarrow"@.len() != "enter"@.len());
        assert("downarrow"@.len() != "delete"@.len());
        assert("downarrow"@.len() != "del"@.len());
        assert("downarrow"@[0] != "backspace"@[0]);
        assert("downarrow"@.len() != "back"@.len());
        assert("downarrow"@.len() != "tab"@.len());
        assert("downarrow"@.len() != "escape"@.len());
        assert("downarrow"@.len() != "esc"@.len());
        assert("downarrow"@.len() != "space"@.len());
        assert("downarrow"@.len() != "left"@.len());
        assert("downarrow"@[0] != "leftarrow"@[0]);
        assert("downarrow"@.len() != "right"@.len());
        assert("downarrow"@.len() != "rightarrow"@.len());
        assert("downarrow"@.len() != "up"@.len());
        assert("downarrow"@.len() != "uparrow"@.len());
        assert("downarrow"@.len() != "down"@.len());
    }
    if lowercase(key) == "ctrl"@ {
        assert("ctrl"@.len() != "return"@.len());
        assert("ctrl"@.len() != "enter"@.len());
        assert("ctrl"@.len() != "delete"@.len());
        assert("ctrl"@.len() != "del"@.len());
        assert("ctrl"@.len() != "backspace"@.len());
        assert("ctrl"@[0] != "back"@[0]);
        assert("ctrl"@.len() != "tab"@.len());
        assert("ctrl"@.len() != "escape"@.len());
        assert("ctrl"@.len() != "esc"@.len());
        assert("ctrl"@.len() != "space"@.len());
        assert("ctrl"@[0] != "left"@[0]);
        assert("ctrl"@.len() != "leftarrow"@.len());
        assert("ctrl"@.len() != "right"@.len());
        assert("ctrl"@.len() != "rightarrow"@.len());
        assert("ctrl"@.len() != "up"@.len());
        assert("ctrl"@.len() != "uparrow"@.len());
        assert("ctrl"@[0] != "down"@[0]);
        assert("ctrl"@.len() != "downarrow"@.len());
    }
    if lowercase(key) == "control"@ {
        assert("control"@.len() != "return"@.len());
        assert("control"@.len() != "enter"@.len());
        assert("control"@.len() != "delete"@.len());
        assert("control"@.len() != "del"@.len());
        assert("control"@.len() != "backspace"@.len());
        assert("control"@.len() != "back"@.len());
        assert("control"@.len() != "tab"@.len());
        assert("control"@.len() != "escape"@.len());
        assert("control"@.len() != "esc"@.len());
        assert("control"@.len() != "space"@.len());
        assert("control"@.len() != "left"@.len());
        assert("control"@.len() != "leftarrow"@.len());
        assert("control"@.len() != "right"@.len());
        assert("control"@.len() != "rightarrow"@.len());
        assert("control"@.len() != "up"@.len());
        assert("control"@[0] != "uparrow"@[0]);
        assert("control"@.len() != "down"@.len());
        assert("control"@.len() != "downarrow"@.len());
        assert("control"@.len() != "ctrl"@.len());
    }
    if lowercase(key) == "alt"@ {
        assert("alt"@.len() != "return"@.len());
        assert("alt"@.len() != "enter"@.len());
        assert("alt"@.len() != "delete"@.len());
        assert("alt"@[0] != "del"@[0]);
        assert("alt"@.len() != "backspace"@.len());
        assert("alt"@.len() != "back"@.len());
        assert("alt"@[0] != "tab"@[0]);
        assert("alt"@.len() != "escape"@.len());
        assert("alt"@[0] != "esc"@[0]);
        assert("alt"@.len() != "space"@.len());
        assert("alt"@.len() != "left"@.len());
        assert("alt"@.len() != "leftarrow"@.len());
        assert("alt"@.len() != "right"@.len());
        assert("alt"@.len() != "rightarrow"@.len());
        assert("alt"@.len() != "up"@.len());
        assert("alt"@.len() != "uparrow"@.len());
        assert("alt"@.len() != "down"@.len());
        assert("alt"@.len() != "downarrow"@.len());
        assert("alt"@.len() != "ctrl"@.len());
        assert("alt"@.len() != "control"@.len());
    }
    if lowercase(key) == "shift"@ {
        assert("shift"@.len() != "return"@.len());
        assert("shift"@[0] != "enter"@[0]);
        assert("shift"@.len() != "delete"@.len());
        assert("shift"@.len() != "del"@.len());
        assert("shift"@.len() != "backspace"@.len());
        assert("shift"@.len() != "back"@.len());
        assert("shift"@.len() != "tab"@.len());
        assert("shift"@.len() != "escape"@.len());
        assert("shift"@.len() != "esc"@.len());
        assert("shift"@[1] != "space"@[1]);
        assert("shift"@.len() != "left"@.len());
        assert("shift"@.len() != "leftarrow"@.len());
        assert("shift"@[0] != "right"@[0]);
        assert("shift"@.len() != "rightarrow"@.len());
        assert("shift"@.len() != "up"@.len());
        assert("shift"@.len() != "uparrow"@.len());
        assert("shift"@.len() != "down"@.len());
        assert("shift"@.len() != "downarrow"@.len());
        assert("shift"@.len() != "ctrl"@.len());
        assert("shift"@.len() != "control"@.len());
        assert("shift"@.len() != "alt"@.len());
    }
    if lowercase(key) == "meta"@ {
        assert("meta"@.len() != "return"@.len());
        assert("meta"@.len() != "enter"@.len());
        assert("meta"@.len() != "delete"@.len());
        assert("meta"@.len() != "del"@.len());
        assert("meta"@.len() != "backspace"@.len());
        assert("meta"@[0] != "back"@[0]);
        assert("meta"@.len() != "tab"@.len());
        assert("meta"@.len() != "escape"@.len());
        assert("meta"@.len() != "esc"@.len());
        assert("meta"@.len() != "space"@.len());
        assert("meta"@[0] != "left"@[0]);
        assert("meta"@.len() != "leftarrow"@.len());
        assert("meta"@.len() != "right"@.len());
        assert("meta"@.len() != "rightarrow"@.len());
        assert("meta"@.len() != "up"@.len());
        assert("meta"@.len() != "uparrow"@.len());
        assert("meta"@[0] != "down"@[0]);
        assert("meta"@.len() != "downarrow"@.len());
        assert("meta"@[0] != "ctrl"@[0]);
        assert("meta"@.len() != "control"@.len());
        assert("meta"@.len() != "alt"@.len());
        assert("meta"@.len() != "shift"@.len());
    }
    if lowercase(key) == "win"@ {
        assert("win"@.len() != "return"@.len());
        assert("win"@.len() != "enter"@.len());
        assert("win"@.len() != "delete"@.len());
        assert("win"@[0] != "del"@[0]);
        assert("win"@.len() != "backspace"@.len());
        assert("win"@.len() != "back"@.len());
        assert("win"@[0] != "tab"@[0]);
        assert("win"@.len() != "escape"@.len());
        assert("win"@[0] != "esc"@[0]);
        assert("win"@.len() != "space"@.len());
        assert("win"@.len() != "left"@.len());
        assert("win"@.len() != "leftarrow"@.len());
        assert("win"@.len() != "right"@.len());
        assert("win"@.len() != "rightarrow"@.len());
        assert("win"@.len() != "up"@.len());
        assert("win"@.len() != "uparrow"@.len());
        assert("win"@.len() != "down"@.len());
        assert("win"@.len() != "downarrow"@.len());
        assert("win"@.len() != "ctrl"@.len());
        assert("win"@.len() != "control"@.len());
        assert("win"@[0] != "alt"@[0]);
        assert("win"@.len() != "shift"@.len());
        assert("win"@.len() != "meta"@.len());
    }
    if lowercase(key) == "windows"@ {
        assert("windows"@.len() != "return"@.len());
        assert("windows"@.len() != "enter"@.len());
        assert("windows"@.len() != "delete"@.len());
        assert("windows"@.len() != "del"@.len());
        assert("windows"@.len() != "backspace"@.len());
        assert("windows"@.len() != "back"@.len());
        assert("windows"@.len() != "tab"@.len());
        assert("windows"@.len() != "escape"@.len());
        assert("windows"@.len() != "esc"@.len());
        assert("windows"@.len() != "space"@.len());
        assert("windows"@.len() != "left"@.len());
        assert("windows"@.len() != "leftarrow"@.len());
        assert("windows"@.len() != "right"@.len());
        assert("windows"@.len() != "rightarrow"@.len());
        assert("windows"@.len() != "up"@.len());
        assert("windows"@[0] != "uparrow"@[0]);
        assert("windows"@.len() != "down"@.len());
        assert("windows"@.len() != "downarrow"@.len());
        assert("windows"@.len() != "ctrl"@.len());
        assert("windows"@[0] != "control"@[0]);
        assert("windows"@.len() != "alt"@.len());
        assert("windows"@.len() != "shift"@.len());
        assert("windows"@.len() != "meta"@.len());
        assert("windows"@.len() != "win"@.len());
    }
    if lowercase(key) == "f1"@ {
        assert("f1"@.len() != "return"@.len());
        assert("f1"@.len() != "enter"@.len());
        assert("f1"@.len() != "delete"@.len());
        assert("f1"@.len() != "del"@.len());
        assert("f1"@.len() != "backspace"@.len());
        assert("f1"@.len() != "back"@.len());
        assert("f1"@.len() != "tab"@.len());
        assert("f1"@.len() != "escape"@.len());
        assert("f1"@.len() != "esc"@.len());
        assert("f1"@.len() != "space"@.len());
        assert("f1"@.len() != "left"@.len());
        assert("f1"@.len() != "leftarrow"@.len());
        assert("f1"@.len() != "right"@.len());
        assert("f1"@.len() != "rightarrow"@.len());
        assert("f1"@[0] != "up"@[0]);
        assert("f1"@.len() != "uparrow"@.len());
        assert("f1"@.len() != "down"@.len());
        assert("f1"@.len() != "downarrow"@.len());
        assert("f1"@.len() != "ctrl"@.len());
        assert("f1"@.len() != "control"@.len());
        assert("f1"@.len() != "alt"@.len());
        assert("f1"@.len() != "shift"@.len());
        assert("f1"@.len() != "meta"@.len());
        assert("f1"@.len() != "win"@.len());
        assert("f1"@.len() != "windows"@.len());
    }
    if lowercase(key) == "f2"@ {
        assert("f2"@.len() != "return"@.len());
        assert("f2"@.len() != "enter"@.len());
        assert("f2"@.len() != "delete"@.len());
        assert("f2"@.len() != "del"@.len());
        assert("f2"@.len() != "backspace"@.len());
        assert("f2"@.len() != "back"@.len());
        assert("f2"@.len() != "tab"@.len());
        assert("f2"@.len() != "escape"@.len());
        assert("f2"@.len() != "esc"@.len());
        assert("f2"@.len() != "space"@.len());
        assert("f2"@.len() != "left"@.len());
        assert("f2"@.len() != "leftarrow"@.len());
        assert("f2"@.len() != "right"@.len());
        assert("f2"@.len() != "rightarrow"@.len());
        assert("f2"@[0] != "up"@[0]);
        assert("f2"@.len() != "uparrow"@.len());
        assert("f2"@.len() != "down"@.len());
        assert("f2"@.len() != "downarrow"@.len());
        assert("f2"@.len() != "ctrl"@.len());
        assert("f2"@.len() != "control"@.len());
        assert("f2"@.len() != "alt"@.len());
        assert("f2"@.len() != "shift"@.len());
        assert("f2"@.len() != "meta"@.len());
        assert("f2"@.len() != "win"@.len());
        assert("f2"@.len() != "windows"@.len());
        assert("f2"@[1] != "f1"@[1]);
    }
    if lowercase(key) == "f3"@ {
        assert("f3"@.len() != "return"@.len());
        assert("f3"@.len() != "enter"@.len());
        assert("f3"@.len() != "delete"@.len());
        assert("f3"@.len() != "del"@.len());
        assert("f3"@.len() != "backspace"@.len());
        assert("f3"@.len() != "back"@.len());
        assert("f3"@.len() != "tab"@.len());
        assert("f3"@.len() != "escape"@.len());
        assert("f3"@.len() != "esc"@.len());
        assert("f3"@.len() != "space"@.len());
        assert("f3"@.len() != "left"@.len());
        assert("f3"@.len() != "leftarrow"@.len());
        assert("f3"@.len() != "right"@.len());
        assert("f3"@.len() != "rightarrow"@.len());
        assert("f3"@[0] != "up"@[0]);
        assert("f3"@.len() != "uparrow"@.len());
        assert("f3"@.len() != "down"@.len());
        assert("f3"@.len() != "downarrow"@.len());
        assert("f3"@.len() != "ctrl"@.len());
        assert("f3"@.len() != "control"@.len());
        assert("f3"@.len() != "alt"@.len());
        assert("f3"@.len() != "shift"@.len());
        assert("f3"@.len() != "meta"@.len());
        assert("f3"@.len() != "win"@.len());
        assert("f3"@.len() != "windows"@.len());
        assert("f3"@[1] != "f1"@[1]);
        assert("f3"@[1] != "f2"@[1]);
    }
    if lowercase(key) == "f4"@ {
        assert("f4"@.len() != "return"@.len());
        assert("f4"@.len() != "enter"@.len());
        assert("f4"@.len() != "delete"@.len());
        assert("f4"@.len() != "del"@.len());
        assert("f4"@.len() != "backspace"@.len());
        assert("f4"@.len() != "back"@.len());
        assert("f4"@.len() != "tab"@.len());
        assert("f4"@.len() != "escape"@.len());
        assert("f4"@.len() != "esc"@.len());
        assert("f4"@.len() != "space"@.len());
        assert("f4"@.len() != "left"@.len());
        assert("f4"@.len() != "leftarrow"@.len());
        assert("f4"@.len() != "right"@.len());
        assert("f4"@.len() != "rightarrow"@.len());
        assert("f4"@[0] != "up"@[0]);
        assert("f4"@.len() != "uparrow"@.len());
        assert("f4"@.len() != "down"@.len());
        assert("f4"@.len() != "downarrow"@.len());
        assert("f4"@.len() != "ctrl"@.len());
        assert("f4"@.len() != "control"@.len());
        assert("f4"@.len() != "alt"@.len());
        assert("f4"@.len() != "shift"@.len());
        assert("f4"@.len() != "meta"@.len());
        assert("f4"@.len() != "win"@.len());
        assert("f4"@.len() != "windows"@.len());
        assert("f4"@[1] != "f1"@[1]);
        assert("f4"@[1] != "f2"@[1]);
        assert("f4"@[1] != "f3"@[1]);
    }
    if lowercase(key) == "f5"@ {
        assert("f5"@.len() != "return"@.len());
        assert("f5"@.len() != "enter"@.len());
        assert("f5"@.len() != "delete"@.len());
        assert("f5"@.len() != "del"@.len());
        assert("f5"@.len() != "backspace"@.len());
        assert("f5"@.len() != "back"@.len());
        assert("f5"@.len() != "tab"@.len());
        assert("f5"@.len() != "escape"@.len());
        assert("f5"@.len() != "esc"@.len());
        assert("f5"@.len() != "space"@.len());
        assert("f5"@.len() != "left"@.len());
        assert("f5"@.len() != "leftarrow"@.len());
        assert("f5"@.len() != "right"@.len());
        assert("f5"@.len() != "rightarrow"@.len());
        assert("f5"@[0] != "up"@[0]);
        assert("f5"@.len() != "uparrow"@.len());
        assert("f5"@.len() != "down"@.len());
        assert("f5"@.len() != "downarrow"@.len());
        assert("f5"@.len() != "ctrl"@.len());
        assert("f5"@.len() != "control"@.len());
        assert("f5"@.len() != "alt"@.len());
        assert("f5"@.len() != "shift"@.len());
        assert("f5"@.len() != "meta"@.len());
        assert("f5"@.len() != "win"@.len());
        assert("f5"@.len() != "windows"@.len());
        assert("f5"@[1] != "f1"@[1]);
        assert("f5"@[1] != "f2"@[1]);
        assert("f5"@[1] != "f3"@[1]);
        assert("f5"@[1] != "f4"@[1]);
    }
    if lowercase(key) == "f6"@ {
        assert("f6"@.len() != "return"@.len());
        assert("f6"@.len() != "enter"@.len());
        assert("f6"@.len() != "delete"@.len());
        assert("f6"@.len() != "del"@.len());
        assert("f6"@.len() != "backspace"@.len());
        assert("f6"@.len() != "back"@.len());
        assert("f6"@.len() != "tab"@.len());
        assert("f6"@.len() != "escape"@.len());
        assert("f6"@.len() != "esc"@.len());
        assert("f6"@.len() != "space"@.len());
        assert("f6"@.len() != "left"@.len());
        assert("f6"@.len() != "leftarrow"@.len());
        assert("f6"@.len() != "right"@.len());
        assert("f6"@.len() != "rightarrow"@.len());
        assert("f6"@[0] != "up"@[0]);
        assert("f6"@.len() != "uparrow"@.len());
        assert("f6"@.len() != "down"@.len());
        assert("f6"@.len() != "downarrow"@.len());
        assert("f6"@.len() != "ctrl"@.len());
        assert("f6"@.len() != "control"@.len());
        assert("f6"@.len() != "alt"@.len());
        assert("f6"@.len() != "shift"@.len());
        assert("f6"@.len() != "meta"@.len());
        assert("f6"@.len() != "win"@.len());
        assert("f6"@.len() != "windows"@.len());
        assert("f6"@[1] != "f1"@[1]);
        assert("f6"@[1] != "f2"@[1]);
        assert("f6"@[1] != "f3"@[1]);
        assert("f6"@[1] != "f4"@[1]);
        assert("f6"@[1] != "f5"@[1]);
    }
    if lowercase(key) == "f7"@ {
        assert("f7"@.len() != "return"@.len());
        assert("f7"@.len() != "enter"@.len());
        assert("f7"@.len() != "delete"@.len());
        assert("f7"@.len() != "del"@.len());
        assert("f7"@.len() != "backspace"@.len());
        assert("f7"@.len() != "back"@.len());
        assert("f7"@.len() != "tab"@.len());
        assert("f7"@.len() != "escape"@.len());
        assert("f7"@.len() != "esc"@.len());
        assert("f7"@.len() != "space"@.len());
        assert("f7"@.len() != "left"@.len());
        assert("f7"@.len() != "leftarrow"@.len());
        assert("f7"@.len() != "right"@.len());
        assert("f7"@.len() != "rightarrow"@.len());
        assert("f7"@[0] != "up"@[0]);
        assert("f7"@.len() != "uparrow"@.len());
        assert("f7"@.len() != "down"@.len());
        assert("f7"@.len() != "downarrow"@.len());
        assert("f7"@.len() != "ctrl"@.len());
        assert("f7"@.len() != "control"@.len());
        assert("f7"@.len() != "alt"@.len());
        assert("f7"@.len() != "shift"@.len());
        assert("f7"@.len() != "meta"@.len());
        assert("f7"@.len() != "win"@.len());
        assert("f7"@.len() != "windows"@.len());
        assert("f7"@[1] != "f1"@[1]);
        assert("f7"@[1] != "f2"@[1]);
        assert("f7"@[1] != "f3"@[1]);
        assert("f7"@[1] != "f4"@[1]);
        assert("f7"@[1] != "f5"@[1]);
        assert("f7"@[1] != "f6"@[1]);
    }
    if lowercase(key) == "f8"@ {
        assert("f8"@.len() != "return"@.len());
        assert("f8"@.len() != "enter"@.len());
        assert("f8"@.len() != "delete"@.len());
        assert("f8"@.len() != "del"@.len());
        assert("f8"@.len() != "backspace"@.len());
        assert("f8"@.len() != "back"@.len());
        assert("f8"@.len() != "tab"@.len());
        assert("f8"@.len() != "escape"@.len());
        assert("f8"@.len() != "esc"@.len());
        assert("f8"@.len() != "space"@.len());
        assert("f8"@.len() != "left"@.len());
        assert("f8"@.len() != "leftarrow"@.len());
        assert("f8"@.len() != "right"@.len());
        assert("f8"@.len() != "rightarrow"@.len());
        assert("f8"@[0] != "up"@[0]);
        assert("f8"@.len() != "uparrow"@.len());
        assert("f8"@.len() != "down"@.len());
        assert("f8"@.len() != "downarrow"@.len());
        assert("f8"@.len() != "ctrl"@.len());
        assert("f8"@.len() != "control"@.len());
        assert("f8"@.len() != "alt"@.len());
        assert("f8"@.len() != "shift"@.len());
        assert("f8"@.len() != "meta"@.len());
        assert("f8"@.len() != "win"@.len());
        assert("f8"@.len() != "windows"@.len());
        assert("f8"@[1] != "f1"@[1]);
        assert("f8"@[1] != "f2"@[1]);
        assert("f8"@[1] != "f3"@[1]);
        assert("f8"@[1] != "f4"@[1]);
        assert("f8"@[1] != "f5"@[1]);
        assert("f8"@[1] != "f6"@[1]);
        assert("f8"@[1] != "f7"@[1]);
    }
    if lowercase(key) == "f9"@ {
        assert("f9"@.len() != "return"@.len());
        assert("f9"@.len() != "enter"@.len());
        assert("f9"@.len() != "delete"@.len());
        assert("f9"@.len() != "del"@.len());
        assert("f9"@.len() != "backspace"@.len());
        assert("f9"@.len() != "back"@.len());
        assert("f9"@.len() != "tab"@.len());
        assert("f9"@.len() != "escape"@.len());
        assert("f9"@.len() != "esc"@.len());
        assert("f9"@.len() != "space"@.len());
        assert("f9"@.len() != "left"@.len());
        assert("f9"@.len() != "leftarrow"@.len());
        assert("f9"@.len() != "right"@.len());
        assert("f9"@.len() != "rightarrow"@.len());
        assert("f9"@[0] != "up"@[0]);
        assert("f9"@.len() != "uparrow"@.len());
        assert("f9"@.len() != "down"@.len());
        assert("f9"@.len() != "downarrow"@.len());
        assert("f9"@.len() != "ctrl"@.len());
        assert("f9"@.len() != "control"@.len());
        assert("f9"@.len() != "alt"@.len());
        assert("f9"@.len() != "shift"@.len());
        assert("f9"@.len() != "meta"@.len());
        assert("f9"@.len() != "win"@.len());
        assert("f9"@.len() != "windows"@.len());
        assert("f9"@[1] != "f1"@[1]);
        assert("f9"@[1] != "f2"@[1]);
        assert("f9"@[1] != "f3"@[1]);
        assert("f9"@[1] != "f4"@[1]);
        assert("f9"@[1] != "f5"@[1]);
        assert("f9"@[1] != "f6"@[1]);
        assert("f9"@[1] != "f7"@[1]);
        assert("f9"@[1] != "f8"@[1]);
    }
    if lowercase(key) == "f10"@ {
        assert("f10"@.len() != "return"@.len());
        assert("f10"@.len() != "enter"@.len());
        assert("f10"@.len() != "delete"@.len());
        assert("f10"@[0] != "del"@[0]);
        assert("f10"@.len() != "backspace"@.len());
        assert("f10"@.len() != "back"@.len());
        assert("f10"@[0] != "tab"@[0]);
        assert("f10"@.len() != "escape"@.len());
        assert("f10"@[0] != "esc"@[0]);
        assert("f10"@.len() != "space"@.len());
        assert("f10"@.len() != "left"@.len());
        assert("f10"@.len() != "leftarrow"@.len());
        assert("f10"@.len() != "right"@.len());
        assert("f10"@.len() != "rightarrow"@.len());
        assert("f10"@.len() != "up"@.len());
        assert("f10"@.len() != "uparrow"@.len());
        assert("f10"@.len() != "down"@.len());
        assert("f10"@.len() != "downarrow"@.len());
        assert("f10"@.len() != "ctrl"@.len());
        assert("f10"@.len() != "control"@.len());
        assert("f10"@[0] != "alt"@[0]);
        assert("f10"@.len() != "shift"@.len());
        assert("f10"@.len() != "meta"@.len());
        assert("f10"@[0] != "win"@[0]);
        assert("f10"@.len() != "windows"@.len());
        assert("f10"@.len() != "f1"@.len());
        assert("f10"@.len() != "f2"@.len());
        assert("f10"@.len() != "f3"@.len());
        assert("f10"@.len() != "f4"@.len());
        assert("f10"@.len() != "f5"@.len());
        assert("f10"@.len() != "f6"@.len());
        assert("f10"@.len() != "f7"@.len());
        assert("f10"@.len() != "f8"@.len());
        assert("f10"@.len() != "f9"@.len());
    }
    if lowercase(key) == "f11"@ {
        assert("f11"@.len() != "return"@.len());
        assert("f11"@.len() != "enter"@.len());
        assert("f11"@.len() != "delete"@.len());
        assert("f11"@[0] != "del"@[0]);
        assert("f11"@.len() != "backspace"@.len());
        assert("f11"@.len() != "back"@.len());
        assert("f11"@[0] != "tab"@[0]);
        assert("f11"@.len() != "escape"@.len());
        assert("f11"@[0] != "esc"@[0]);
        assert("f11"@.len() != "space"@.len());
        assert("f11"@.len() != "left"@.len());
        assert("f11"@.len() != "leftarrow"@.len());
        assert("f11"@.len() != "right"@.len());
        assert("f11"@.len() != "rightarrow"@.len());
        assert("f11"@.len() != "up"@.len());
        assert("f11"@.len() != "uparrow"@.len());
        assert("f11"@.len() != "down"@.len());
        assert("f11"@.len() != "downarrow"@.len());
        assert("f11"@.len() != "ctrl"@.len());
        assert("f11"@.len() != "control"@.len());
        assert("f11"@[0] != "alt"@[0]);
        assert("f11"@.len() != "shift"@.len());
        assert("f11"@.len() != "meta"@.len());
        assert("f11"@[0] != "win"@[0]);
        assert("f11"@.len() != "windows"@.len());
        assert("f11"@.len() != "f1"@.len());
        assert("f11"@.len() != "f2"@.len());
        assert("f11"@.len() != "f3"@.len());
        assert("f11"@.len() != "f4"@.len());
        assert("f11"@.len() != "f5"@.len());
        assert("f11"@.len() != "f6"@.len());
        assert("f11"@.len() != "f7"@.len());
        assert("f11"@.len() != "f8"@.len());
        assert("f11"@.len() != "f9"@.len());
        assert("f11"@[2] != "f10"@[2]);
    }
    if lowercase(key) == "f12"@ {
        assert("f12"@.len() != "return"@.len());
        assert("f12"@.len() != "enter"@.len());
        assert("f12"@.len() != "delete"@.len());
        assert("f12"@[0] != "del"@[0]);
        assert("f12"@.len() != "backspace"@.len());
        assert("f12"@.len() != "back"@.len());
        assert("f12"@[0] != "tab"@[0]);
        assert("f12"@.len() != "escape"@.len());
        assert("f12"@[0] != "esc"@[0]);
        assert("f12"@.len() != "space"@.len());
        assert("f12"@.len() != "left"@.len());
        assert("f12"@.len() != "leftarrow"@.len());
        assert("f12"@.len() != "right"@.len());
        assert("f12"@.len() != "rightarrow"@.len());
        assert("f12"@.len() != "up"@.len());
        assert("f12"@.len() != "uparrow"@.len());
        assert("f12"@.len() != "down"@.len());
        assert("f12"@.len() != "downarrow"@.len());
        assert("f12"@.len() != "ctrl"@.len());
        assert("f12"@.len() != "control"@.len());
        assert("f12"@[0] != "alt"@[0]);
        assert("f12"@.len() != "shift"@.len());
        assert("f12"@.len() != "meta"@.len());
        assert("f12"@[0] != "win"@[0]);
        assert("f12"@.len() != "windows"@.len());
        assert("f12"@.len() != "f1"@.len());
        assert("f12"@.len() != "f2"@.len());
        assert("f12"@.len() != "f3"@.len());
        assert("f12"@.len() != "f4"@.len());
        assert("f12"@.len() != "f5"@.len());
        assert("f12"@.len() != "f6"@.len());
        assert("f12"@.len() != "f7"@.len());
        assert("f12"@.len() != "f8"@.len());
        assert("f12"@.len() != "f9"@.len());
        assert("f12"@[2] != "f10"@[2]);
        assert("f12"@[2] != "f11"@[2]);
    }
}


/// A plan needs approval exactly when one of its steps is more than low risk,
/// and its overall risk is the highest risk among its steps.
pub proof fn law_plan_risk_matches_steps(
    steps: Seq<ToolStep>,
    request: Seq<char>,
    tools: Seq<Seq<char>>,
)
    requires
        planned(steps, request, tools),
    ensures
        plans_click(lowercase(request), tools) <==> exists|i: int|
            0 <= i < steps.len() && #[trigger] needs_approval(steps[i].danger_level),
        forall|i: int|
            0 <= i < steps.len() ==> danger_rank(#[trigger] steps[i].danger_level) <= danger_rank(
                if plans_click(lowercase(request), tools) {
                    DangerLevel::Medium
                } else {
                    DangerLevel::Low
                },
            ),
{
    let low = lowercase(request);
    let f = plans_find(low, tools);
    let c = plans_click(low, tools);
    let n = if f { 1int } else { 0int };
    if c {
        assert(needs_approval(steps[n].danger_level));
    }
    assert forall|i: int| 0 <= i < steps.len() implies (#[trigger] steps[i].danger_level == DangerLevel::Medium
        ==> c) && (steps[i].danger_level == DangerLevel::Low || steps[i].danger_level
        == DangerLevel::Medium) by {
        if f && i == 0 {
        } else if c && i == n {
        } else {
            assert(is_screenshot_step(steps[i]));
        }
    }
}


/// No two tools share a name, so a tool is found again by its name.
pub proof fn law_tool_names_distinct(a: ToolKind, b: ToolKind)
    ensures
        tool_name(a) == tool_name(b) ==> a == b,
{
    reveal_strlit("click");
    reveal_strlit("type");
    reveal_strlit("scroll");
    reveal_strlit("key_press");
    reveal_strlit("get_cursor_position");
    reveal_strlit("get_screen_info");
    reveal_strlit("take_screenshot");
    reveal_strlit("find_text");
    reveal_strlit("click_at");
    reveal_strlit("debug_ocr");
    reveal_strlit("click_on_text");
    reveal_strlit("click_and_type");
    if tool_name(a) == tool_name(b) && a != b {
        assert(tool_name(a).len() == tool_name(b).len());
        assert(tool_name(a)[0] == tool_name(b)[0]);
        assert(tool_name(a)[tool_name(a).len() - 1] == tool_name(b)[tool_name(b).len() - 1]);
        assert(false);
    }
}

/// A tool needs approval exactly when it is more than low risk; the tools that
/// do are those that click, type or press keys.
pub proof fn law_tool_approval(k: ToolKind)
    ensures
        needs_approval(tool_danger(k)) <==> (k == ToolKind::Click || k == ToolKind::Type || k
            == ToolKind::KeyPress || k == ToolKind::ClickAt || k == ToolKind::ClickOnText || k
            == ToolKind::ClickAndType),
{
}

// ---------------------------------------------------------------------------
// Sessions
// ---------------------------------------------------------------------------

/// One entry of a session's log.
#[derive(Debug)]
pub struct McpLogEntry {
    pub session_id: String,
    pub timestamp: String,
    pub level: LogLevel,
    pub message: String,
    pub tool_name: Option<String>,
}

/// A computer-use session: its settings, status, the approvals it waits for,
/// its log and its tools.
#[derive(Debug)]
pub struct McpSession {
    pub id: String,
    pub config: MCPSessionConfig,
    pub created_at: String,
    pub status: SessionStatus,
    /// The ids of the approval requests not answered yet, oldest first.
    pub pending_approvals: Vec<String>,
    pub log_entries: Vec<McpLogEntry>,
    pub tools: Vec<ToolKind>,
}

/// Whether `after` is `before` with one more log entry of this level, message
/// and tool, where the session logs at all (else nothing changed).
pub open spec fn logged(
    before: McpSession,
    after: McpSession,
    level: LogLevel,
    message: Seq<char>,
    tool: Option<Seq<char>>,
) -> bool {
    &&& after.id == before.id
    &&& after.config == before.config
    &&& after.created_at == before.created_at
    &&& after.status == before.status
    &&& after.pending_approvals@ == before.pending_approvals@
    &&& after.tools@ == before.tools@
    &&& if before.config.enable_logging {
        &&& after.log_entries@.len() == before.log_entries@.len() + 1
        &&& after.log_entries@.take(before.log_entries@.len() as int) == before.log_entries@
        &&& after.log_entries@.last().level == level
        &&& after.log_entries@.last().message@ == message
        &&& after.log_entries@.last().session_id@ == before.id@
        &&& match (after.log_entries@.last().tool_name, tool) {
            (Some(a), Some(b)) => a@ == b,
            (None, None) => true,
            _ => false,
        }
    } else {
        after.log_entries@ == before.log_entries@
    }
}

/// The string views of a list of ids.
pub open spec fn id_views(v: Seq<String>) -> Seq<Seq<char>> {
    v.map_values(|s: String| s@)
}

fn copy_opt(s: &Option<String>) -> (r: Option<String>)
    ensures
        match (r, *s) {
            (Some(a), Some(b)) => a@ == b@,
            (None, None) => true,
            _ => false,
        },
{
    match s {
        Some(x) => Some(to_owned_string(x.as_str())),
        None => None,
    }
}

impl McpSession {
    /// A new session with every tool, waiting to be initialized.
    pub fn new(config: MCPSessionConfig) -> (s: Self)
        ensures
            s.config == config,
            s.status == SessionStatus::Initializing,
            s.pending_approvals@.len() == 0,
            s.log_entries@.len() == 0,
            s.tools@ == all_tools(),
    {
        McpSession {
            id: new_uuid_v4(),
            config,
            created_at: rfc3339_now(),
            status: SessionStatus::Initializing,
            pending_approvals: Vec::new(),
            log_entries: Vec::new(),
            tools: ToolKind::all(),
        }
    }

    /// Logs a message where the session keeps a log; returns whether the entry
    /// is also to be shown to the user interface.
    pub fn log(&mut self, level: LogLevel, message: &str, tool_name: &Option<String>) -> (shown: bool)
        ensures
            logged(
                *old(self),
                *final(self),
                level,
                message@,
                match *tool_name {
                    Some(t) => Some(t@),
                    None => None,
                },
            ),
            shown == (old(self).config.enable_logging && (level == LogLevel::Info || level
                == LogLevel::Error)),
    {
        if !self.config.enable_logging {
            return false;
        }
        let entry = McpLogEntry {
            session_id: to_owned_string(self.id.as_str()),
            timestamp: rfc3339_now(),
            level,
            message: to_owned_string(message),
            tool_name: copy_opt(tool_name),
        };
        let ghost before = self.log_entries@;
        self.log_entries.push(entry);
        assert(self.log_entries@.take(before.len() as int) =~= before);
        should_emit_log(level)
    }

    /// Makes the session active.
    pub fn initialize(&mut self)
        ensures
            final(self).status == SessionStatus::Active,
            logged(
                McpSession { status: SessionStatus::Active, ..*old(self) },
                *final(self),
                LogLevel::Info,
                "MCP session initialized"@,
                None,
            ),
    {
        self.status = SessionStatus::Active;
        self.log(LogLevel::Info, "MCP session initialized", &None);
    }

    /// Starts waiting for the user's approval of a tool call where one is
    /// needed, under the returned request id; `None` where the call may go
    /// ahead at once.
    pub fn begin_approval(&mut self, tool_name: &str, danger: DangerLevel) -> (r: Option<String>)
        ensures
            r is None <==> !(old(self).config.require_approval && needs_approval(danger)),
            r is None ==> *final(self) == *old(self),
            r matches Some(id) ==> {
                let waiting = McpSession {
                    status: SessionStatus::WaitingForApproval,
                    pending_approvals: final(self).pending_approvals,
                    ..*old(self)
                };
                &&& id_views(final(self).pending_approvals@) == id_views(old(self).pending_approvals@).push(
                    id@,
                )
                &&& logged(
                    waiting,
                    *final(self),
                    LogLevel::Info,
                    "Requesting approval for tool: "@ + tool_name@ + " ("@ + risk_words(danger) + ")"@,
                    Some(tool_name@),
                )
            },
    {
        if !must_ask_approval(self.config.require_approval, danger) {
            return None;
        }
        self.status = SessionStatus::WaitingForApproval;
        let id = new_uuid_v4();
        let ghost before = self.pending_approvals@;
        self.pending_approvals.push(to_owned_string(id.as_str()));
        assert(id_views(self.pending_approvals@) =~= id_views(before).push(id@));
        let message = approval_request_message(tool_name, danger);
        self.log(LogLevel::Info, message.as_str(), &Some(to_owned_string(tool_name)));
        Some(id)
    }

    fn remove_pending(&mut self, approval_id: &str)
        ensures
            id_views(final(self).pending_approvals@) == id_views(old(self).pending_approvals@).filter(
                |s: Seq<char>| s != approval_id@,
            ),
            final(self).status == old(self).status,
            final(self).log_entries@ == old(self).log_entries@,
            final(self).id == old(self).id,
            final(self).config == old(self).config,
            final(self).created_at == old(self).created_at,
            final(self).tools@ == old(self).tools@,
    {
        let ghost orig = id_views(self.pending_approvals@);
        let ghost f = |s: Seq<char>| s != approval_id@;
        let mut rest: Vec<String> = Vec::new();
        std::mem::swap(&mut rest, &mut self.pending_approvals);
        let ghost o = rest@;
        let n: usize = rest.len();
        let mut k: usize = 0;
        while rest.len() > 0
            invariant
                k <= o.len() == n,
                f == (|s: Seq<char>| s != approval_id@),
                orig == id_views(o),
                rest@ == o.skip(k as int),
                id_views(self.pending_approvals@) == id_views(o.take(k as int)).filter(f),
                self.status == old(self).status,
                self.log_entries@ == old(self).log_entries@,
                self.id == old(self).id,
                self.config == old(self).config,
                self.created_at == old(self).created_at,
                self.tools@ == old(self).tools@,
            decreases rest.len(),
        {
            let x = rest.remove(0);
            proof {
                reveal_with_fuel(Seq::filter, 1);
                assert(id_views(o.take(k + 1)).drop_last() =~= id_views(o.take(k as int)));
                assert(id_views(o.take(k + 1)).last() == x@);
            }
            if !str_eq(x.as_str(), approval_id) {
                let ghost prev = id_views(self.pending_approvals@);
                self.pending_approvals.push(x);
                assert(id_views(self.pending_approvals@) =~= prev.push(x@));
            }
            assert(rest@ =~= o.skip(k + 1));
            k = k + 1;
        }
        assert(o.take(k as int) =~= o);
    }

    /// Ends the wait for approval `approval_id` of a call of `tool_name`:
    /// applies the resolution of the outcome to the pending requests, the
    /// status and the log, and gives the call's result.
    pub fn complete_approval(&mut self, approval_id: &str, tool_name: &str, outcome: ApprovalOutcome) -> (r:
        Result<bool, String>)
        ensures
            ({
                let res = match outcome {
                    ApprovalOutcome::Responded(a) => Ok::<bool, Seq<char>>(a),
                    ApprovalOutcome::ChannelClosed => Err("Approval response channel closed"@),
                    ApprovalOutcome::TimedOut => Err("Approval request timed out"@),
                };
                match (r, res) {
                    (Ok(a), Ok(b)) => a == b,
                    (Err(a), Err(b)) => a@ == b,
                    _ => false,
                }
            }),
            outcome is ChannelClosed ==> id_views(final(self).pending_approvals@) == id_views(
                old(self).pending_approvals@,
            ),
            !(outcome is ChannelClosed) ==> id_views(final(self).pending_approvals@) == id_views(
                old(self).pending_approvals@,
            ).filter(|s: Seq<char>| s != approval_id@),
            final(self).status == if outcome is Responded {
                SessionStatus::Active
            } else {
                old(self).status
            },
            final(self).id == old(self).id,
            final(self).config == old(self).config,
            logged(
                McpSession {
                    status: final(self).status,
                    pending_approvals: final(self).pending_approvals,
                    ..*old(self)
                },
                *final(self),
                approval_log(outcome).0,
                approval_log(outcome).1,
                Some(tool_name@),
            ),
    {
        let res = resolve_approval(outcome);
        if res.clear_pending {
            self.remove_pending(approval_id);
        }
        match res.new_status {
            Some(st) => {
                self.status = st;
            },
            None => {},
        }
        self.log(res.log_level, res.log_message.as_str(), &Some(to_owned_string(tool_name)));
        res.result
    }

    /// Takes the oldest pending approval request, to deliver the user's answer
    /// to it; an error where none is pending.
    pub fn handle_approval_response(&mut self) -> (r: Result<String, String>)
        ensures
            old(self).pending_approvals@.len() == 0 ==> (r matches Err(m) && m@ == "No pending approvals"@
                && final(self).pending_approvals@ == old(self).pending_approvals@),
            old(self).pending_approvals@.len() > 0 ==> (r matches Ok(id) && id == old(
                self,
            ).pending_approvals@[0] && final(self).pending_approvals@ == old(
                self,
            ).pending_approvals@.drop_first()),
            final(self).status == old(self).status,
            final(self).log_entries@ == old(self).log_entries@,
    {
        if self.pending_approvals.len() == 0 {
            return Err(to_owned_string("No pending approvals"));
        }
        let id = self.pending_approvals.remove(0);
        assert(self.pending_approvals@ =~= old(self).pending_approvals@.drop_first());
        Ok(id)
    }

    /// How many approval requests are pending.
    pub fn approvals_pending(&self) -> (n: usize)
        ensures
            n == self.pending_approvals@.len(),
    {
        self.pending_approvals.len()
    }

    /// Looks up the tool a call names, logging the call; an unknown tool is an
    /// error, also logged.
    pub fn start_tool_call(&mut self, name: &str, params_text: &str) -> (r: Result<ToolKind, String>)
        ensures
            match r {
                Ok(k) => tool_name(k) == name@,
                Err(m) => m@ == "Unknown tool: "@ + name@ && forall|k: ToolKind|
                    tool_name(k) != name@,
            },
            final(self).status == old(self).status,
            final(self).pending_approvals@ == old(self).pending_approvals@,
    {
        let mut m = to_owned_string("Executing tool: ");
        push_str(&mut m, name);
        push_str(&mut m, " with params: ");
        push_str(&mut m, params_text);
        self.log(LogLevel::Info, m.as_str(), &Some(to_owned_string(name)));
        match ToolKind::from_name(name) {
            Some(k) => Ok(k),
            None => {
                let mut e = to_owned_string("Unknown tool: ");
                push_str(&mut e, name);
                self.log(LogLevel::Error, e.as_str(), &Some(to_owned_string(name)));
                Err(e)
            },
        }
    }

    /// Ends the session: no approval stays pending and the session is completed.
    pub fn cleanup(&mut self)
        ensures
            final(self).pending_approvals@.len() == 0,
            final(self).status == SessionStatus::Completed,
            logged(
                *old(self),
                McpSession {
                    status: old(self).status,
                    pending_approvals: old(self).pending_approvals,
                    ..*final(self)
                },
                LogLevel::Info,
                "Cleaning up session"@,
                None,
            ),
    {
        self.log(LogLevel::Info, "Cleaning up session", &None);
        self.pending_approvals.clear();
        self.status = SessionStatus::Completed;
    }
}


/// What a session tells about one of its tools.
#[derive(Debug)]
pub struct ToolInfo {
    pub name: String,
    pub description: String,
    pub danger_level: DangerLevel,
    pub requires_approval: bool,
}

/// Whether `i` describes the tool `k`.
pub open spec fn describes(i: ToolInfo, k: ToolKind) -> bool {
    &&& i.name@ == tool_name(k)
    &&& i.description@ == tool_description(k)
    &&& i.danger_level == tool_danger(k)
    &&& i.requires_approval == needs_approval(tool_danger(k))
}

/// What a session tells about itself.
#[derive(Debug)]
pub struct McpSessionInfo {
    pub id: String,
    pub created_at: String,
    pub config: MCPSessionConfig,
    pub tools_available: Vec<ToolInfo>,
    pub status: SessionStatus,
    pub approvals_pending: usize,
}

/// Whether two configurations hold the same settings.
pub open spec fn same_config(a: MCPSessionConfig, b: MCPSessionConfig) -> bool {
    &&& a.require_approval == b.require_approval
    &&& a.session_timeout_seconds == b.session_timeout_seconds
    &&& a.enable_logging == b.enable_logging
    &&& a.server_name@ == b.server_name@
    &&& a.server_version@ == b.server_version@
}

fn copy_config(c: &MCPSessionConfig) -> (r: MCPSessionConfig)
    ensures
        same_config(r, *c),
{
    MCPSessionConfig {
        require_approval: c.require_approval,
        session_timeout_seconds: c.session_timeout_seconds,
        enable_logging: c.enable_logging,
        server_name: to_owned_string(c.server_name.as_str()),
        server_version: to_owned_string(c.server_version.as_str()),
    }
}

impl McpSession {
    /// The session's tools, in the order it holds them.
    pub fn get_available_tools(&self) -> (r: Vec<ToolInfo>)
        ensures
            r@.len() == self.tools@.len(),
            forall|i: int| 0 <= i < r@.len() ==> describes(#[trigger] r@[i], self.tools@[i]),
    {
        let mut r: Vec<ToolInfo> = Vec::new();
        let mut i: usize = 0;
        while i < self.tools.len()
            invariant
                i <= self.tools@.len(),
                r@.len() == i,
                forall|j: int| 0 <= j < i ==> describes(#[trigger] r@[j], self.tools@[j]),
            decreases self.tools@.len() - i,
        {
            let k = self.tools[i];
            r.push(
                ToolInfo {
                    name: to_owned_string(k.name()),
                    description: to_owned_string(k.description()),
                    danger_level: k.danger_level(),
                    requires_approval: k.requires_approval(),
                },
            );
            i = i + 1;
        }
        r
    }

    /// The session's id, start time, settings, tools, status and the number
    /// of approval requests it waits for.
    pub fn get_info(&self) -> (r: McpSessionInfo)
        ensures
            r.id@ == self.id@,
            r.created_at@ == self.created_at@,
            same_config(r.config, self.config),
            r.status == self.status,
            r.approvals_pending == self.pending_approvals@.len(),
            r.tools_available@.len() == self.tools@.len(),
            forall|i: int|
                0 <= i < r.tools_available@.len() ==> describes(
                    #[trigger] r.tools_available@[i],
                    self.tools@[i],
                ),
    {
        McpSessionInfo {
            id: to_owned_string(self.id.as_str()),
            created_at: to_owned_string(self.created_at.as_str()),
            config: copy_config(&self.config),
            tools_available: self.get_available_tools(),
            status: self.status,
            approvals_pending: self.pending_approvals.len(),
        }
    }
}

/// The outcome of a call the user refused.
#[derive(Debug)]
pub struct DeniedCall {
    pub success: bool,
    pub error: Option<String>,
    pub execution_time_ms: u64,
    pub tool_name: String,
}

/// The result reported for a call the user refused.
pub fn denied_result(tool_name: &str) -> (r: DeniedCall)
    ensures
        !r.success,
        r.error matches Some(e) && e@ == "User denied approval"@,
        r.execution_time_ms == 0,
        r.tool_name@ == tool_name@,
{
    DeniedCall {
        success: false,
        error: Some(to_owned_string("User denied approval")),
        execution_time_ms: 0,
        tool_name: to_owned_string(tool_name),
    }
}

/// Answering or timing out the approval request that was added last, under an
/// id no earlier request has, leaves the pending requests as they were before
/// it was made.
pub proof fn law_approval_round_trip(before: Seq<Seq<char>>, id: Seq<char>)
    requires
        !before.contains(id),
    ensures
        before.push(id).filter(|s: Seq<char>| s != id) == before,
    decreases before.len(),
{
    let f = |s: Seq<char>| s != id;
    reveal_with_fuel(Seq::filter, 1);
    assert(before.push(id).drop_last() =~= before);
    assert(before.push(id).filter(f) == before.filter(f));
    lemma_filter_keeps_all(before, id);
}

proof fn lemma_filter_keeps_all(v: Seq<Seq<char>>, id: Seq<char>)
    requires
        !v.contains(id),
    ensures
        v.filter(|s: Seq<char>| s != id) == v,
    decreases v.len(),
{
    let f = |s: Seq<char>| s != id;
    reveal_with_fuel(Seq::filter, 1);
    if v.len() > 0 {
        assert(!v.drop_last().contains(id)) by {
            if v.drop_last().contains(id) {
                let k = choose|k: int| 0 <= k < v.drop_last().len() && v.drop_last()[k] == id;
                assert(v[k] == id);
            }
        }
        lemma_filter_keeps_all(v.drop_last(), id);
        assert(v.last() != id) by {
            assert(v[v.len() - 1] == v.last());
        }
        assert(v.drop_last().push(v.last()) =~= v);
    }
}

} // verus!
