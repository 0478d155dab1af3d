//! The records exchanged with a local Ollama server, the prompts built from a
//! chat's history, and the choice of how many model layers to place on a GPU.

use vstd::prelude::*;
use crate::mcp::{tool_description, tool_name, DangerLevel, ToolKind};
use crate::text::{chars_of, char_is_word, contains_str, has_substring, is_whitespace_char, is_ws, occurs_at, push_char, unicode_is_word, push_str, replace_all, replace_str, str_eq, to_owned_string};

verus! {

/// A model that the server has.
#[derive(Debug)]
pub struct OllamaModel {
    pub name: String,
    pub modified_at: String,
    pub size: u64,
    pub digest: String,
    pub details: Option<ModelDetails>,
}

/// What the server says about a model's build.
#[derive(Debug)]
pub struct ModelDetails {
    pub format: String,
    pub family: String,
    pub families: Option<Vec<String>>,
    pub parameter_size: String,
    pub quantization_level: String,
}

/// The server's list of models.
#[derive(Debug)]
pub struct OllamaModelsResponse {
    pub models: Vec<OllamaModel>,
}

/// Whether the server answers, and its version.
#[derive(Debug)]
pub struct OllamaStatus {
    pub status: String,
    pub version: Option<String>,
}

/// A request to download a model.
#[derive(Debug)]
pub struct PullRequest {
    pub name: String,
    pub insecure: Option<bool>,
    pub stream: Option<bool>,
}

/// One earlier message of a chat, sent along as context.
#[derive(Debug, Clone)]
pub struct ChatContextMessage {
    pub role: String,
    pub content: String,
}

/// One line of a generation answer.
#[derive(Debug)]
pub struct GenerateResponse {
    pub model: String,
    pub created_at: String,
    pub response: String,
    pub done: bool,
    pub context: Option<Vec<i32>>,
    pub total_duration: Option<u64>,
    pub load_duration: Option<u64>,
    pub prompt_eval_count: Option<u32>,
    pub prompt_eval_duration: Option<u64>,
    pub eval_count: Option<u32>,
    pub eval_duration: Option<u64>,
}

// ---------------------------------------------------------------------------
// Prompts
// ---------------------------------------------------------------------------

/// How one context message is written into a prompt.
pub open spec fn history_line(role: Seq<char>, content: Seq<char>) -> Seq<char> {
    if role == "user"@ {
        "**User:** "@ + content + "\n\n"@
    } else if role == "assistant"@ {
        "**Assistant:** "@ + content + "\n\n"@
    } else if role == "system"@ {
        "**System:** "@ + content + "\n\n"@
    } else {
        "**"@ + role + ":** "@ + content + "\n\n"@
    }
}

/// The context messages written one after another.
pub open spec fn history_text(ms: Seq<ChatContextMessage>) -> Seq<char>
    decreases ms.len(),
{
    if ms.len() == 0 {
        Seq::empty()
    } else {
        history_text(ms.drop_last()) + history_line(ms.last().role@, ms.last().content@)
    }
}

/// The prompt sent for `prompt` with the given chat context: the prompt alone
/// where there is no context, else the history followed by the request.
pub open spec fn prompt_with_context(prompt: Seq<char>, ctx: Option<Seq<ChatContextMessage>>) -> Seq<
    char,
> {
    match ctx {
        Some(ms) => if ms.len() > 0 {
            "## Conversation History:\n\n"@ + history_text(ms) + "## Current Request:\n\n"@ + prompt
        } else {
            prompt
        },
        None => prompt,
    }
}

fn append_history_line(out: &mut String, m: &ChatContextMessage)
    ensures
        final(out)@ == old(out)@ + history_line(m.role@, m.content@),
{
    let role = m.role.as_str();
    let content = m.content.as_str();
    if str_eq(role, "user") {
        push_str(out, "**User:** ");
    } else if str_eq(role, "assistant") {
        push_str(out, "**Assistant:** ");
    } else if str_eq(role, "system") {
        push_str(out, "**System:** ");
    } else {
        push_str(out, "**");
        push_str(out, role);
        push_str(out, ":** ");
    }
    push_str(out, content);
    push_str(out, "\n\n");
}

/// The prompt for `current_prompt` with the chat history in `context`.
pub fn build_prompt_with_context(current_prompt: String, context: Option<Vec<ChatContextMessage>>) -> (r:
    String)
    ensures
        r@ == prompt_with_context(
            current_prompt@,
            match context {
                Some(v) => Some(v@),
                None => None,
            },
        ),
{
    match context {
        Some(messages) => {
            if messages.len() == 0 {
                return current_prompt;
            }
            let mut full = to_owned_string("## Conversation History:\n\n");
            let ghost head = full@;
            let mut i: usize = 0;
            while i < messages.len()
                invariant
                    i <= messages.len(),
                    full@ == head + history_text(messages@.take(i as int)),
                decreases messages.len() - i,
            {
                assert(messages@.take(i + 1).drop_last() =~= messages@.take(i as int));
                append_history_line(&mut full, &messages[i]);
                i = i + 1;
            }
            assert(messages@.take(i as int) =~= messages@);
            push_str(&mut full, "## Current Request:\n\n");
            push_str(&mut full, current_prompt.as_str());
            full
        },
        None => current_prompt,
    }
}

/// The character with an ASCII lower-case letter made upper case.
pub open spec fn ascii_upper(c: char) -> char {
    if 'a' <= c && c <= 'z' {
        ((c as u32) - 32) as char
    } else {
        c
    }
}

/// How one message is written into a context summary: the role with its first
/// letter upper case, `**: `, the content and a blank line.
pub open spec fn context_line(role: Seq<char>, content: Seq<char>) -> Seq<char> {
    seq![ascii_upper(role[0])] + role.drop_first() + "**: "@ + content + "\n\n"@
}

/// The context messages written one after another as summary lines.
pub open spec fn context_text(ms: Seq<ChatContextMessage>) -> Seq<char>
    decreases ms.len(),
{
    if ms.len() == 0 {
        Seq::empty()
    } else {
        context_text(ms.drop_last()) + context_line(ms.last().role@, ms.last().content@)
    }
}

/// Whether a role can be written into a summary: it is not empty and its first
/// character is ASCII.
pub open spec fn summary_role(role: Seq<char>) -> bool {
    role.len() > 0 && (role[0] as u32) < 128
}

/// The summary of a chat's context messages.
pub fn build_context_string(context: Vec<ChatContextMessage>) -> (r: String)
    requires
        forall|i: int| 0 <= i < context@.len() ==> summary_role((#[trigger] context@[i]).role@),
    ensures
        r@ == context_text(context@),
{
    let mut out = String::new();
    let mut i: usize = 0;
    while i < context.len()
        invariant
            i <= context.len(),
            forall|k: int| 0 <= k < context@.len() ==> summary_role((#[trigger] context@[k]).role@),
            out@ == context_text(context@.take(i as int)),
        decreases context.len() - i,
    {
        assert(context@.take(i + 1).drop_last() =~= context@.take(i as int));
        let m = &context[i];
        assert(summary_role(context@[i as int].role@));
        let role = chars_of(m.role.as_str());
        let first = role[0];
        let up = if 'a' <= first && first <= 'z' {
            let code: u32 = first as u32;
            let b: u8 = (code - 32) as u8;
            b as char
        } else {
            first
        };
        assert(up == ascii_upper(role@[0]));
        let ghost before = out@;
        push_char(&mut out, up);
        let mut k: usize = 1;
        while k < role.len()
            invariant
                1 <= k <= role.len(),
                out@ == before + seq![up] + role@.subrange(1, k as int),
            decreases role.len() - k,
        {
            push_char(&mut out, role[k]);
            assert(role@.subrange(1, k + 1) =~= role@.subrange(1, k as int).push(role@[k as int]));
            k = k + 1;
        }
        assert(role@.subrange(1, role@.len() as int) =~= role@.drop_first());
        push_str(&mut out, "**: ");
        push_str(&mut out, m.content.as_str());
        push_str(&mut out, "\n\n");
        assert(out@ =~= before + context_line(m.role@, m.content@));
        i = i + 1;
    }
    assert(context@.take(i as int) =~= context@);
    out
}

// ---------------------------------------------------------------------------
// GPU layers
// ---------------------------------------------------------------------------

/// What the model server is told about a graphics card.
#[derive(Debug, Clone)]
pub struct GpuSummary {
    pub name: String,
    /// The vendor as the system reports it, such as `NVIDIA` or `AMD`.
    pub vendor: String,
    pub memory_mb: Option<u64>,
    pub driver_version: Option<String>,
}

/// The layers placed on an NVIDIA card with `mb` megabytes of memory.
pub open spec fn nvidia_layers(mb: u64) -> i32 {
    if mb >= 24000 {
        99
    } else if mb >= 16000 {
        80
    } else if mb >= 12000 {
        60
    } else if mb >= 10000 {
        50
    } else if mb >= 8000 {
        40
    } else if mb >= 6000 {
        30
    } else if mb >= 4000 {
        20
    } else {
        0
    }
}

/// The layers placed on an AMD Radeon card with `mb` megabytes of memory.
pub open spec fn amd_layers(mb: u64) -> i32 {
    if mb >= 16000 {
        40
    } else if mb >= 8000 {
        20
    } else {
        0
    }
}

/// The layer count a card decides, if it decides one: an NVIDIA card or an AMD
/// Radeon card whose memory is known.
pub open spec fn card_layers(g: GpuSummary) -> Option<i32> {
    match g.memory_mb {
        Some(mb) => if g.vendor@ == "NVIDIA"@ {
            Some(nvidia_layers(mb))
        } else if g.vendor@ == "AMD"@ && has_substring(g.name@, "Radeon"@) {
            Some(amd_layers(mb))
        } else {
            None
        },
        None => None,
    }
}

/// The layer count of the first card that decides one, else zero.
pub open spec fn layers_for(gpus: Seq<GpuSummary>) -> i32
    decreases gpus.len(),
{
    if gpus.len() == 0 {
        0
    } else {
        match card_layers(gpus[0]) {
            Some(n) => n,
            None => layers_for(gpus.drop_first()),
        }
    }
}

fn card_layer_count(g: &GpuSummary) -> (r: Option<i32>)
    ensures
        r == card_layers(*g),
{
    match g.memory_mb {
        Some(mb) => {
            if str_eq(g.vendor.as_str(), "NVIDIA") {
                let n: i32 = if mb >= 24000 {
                    99
                } else if mb >= 16000 {
                    80
                } else if mb >= 12000 {
                    60
                } else if mb >= 10000 {
                    50
                } else if mb >= 8000 {
                    40
                } else if mb >= 6000 {
                    30
                } else if mb >= 4000 {
                    20
                } else {
                    0
                };
                Some(n)
            } else if str_eq(g.vendor.as_str(), "AMD") && contains_str(g.name.as_str(), "Radeon") {
                let n: i32 = if mb >= 16000 {
                    40
                } else if mb >= 8000 {
                    20
                } else {
                    0
                };
                Some(n)
            } else {
                None
            }
        },
        None => None,
    }
}

/// How many model layers to place on a GPU, given what the system reports of
/// its cards (zero where the cards could not be listed).
pub fn detect_gpu_layers(gpus: &Result<Vec<GpuSummary>, String>) -> (r: i32)
    ensures
        r == match gpus {
            Ok(v) => layers_for(v@),
            Err(_) => 0,
        },
{
    match gpus {
        Err(_) => 0,
        Ok(v) => {
            let mut i: usize = 0;
            assert(v@.skip(0) =~= v@);
            while i < v.len()
                invariant
                    i <= v.len(),
                    layers_for(v@) == layers_for(v@.skip(i as int)),
                    match gpus {
                        Ok(w) => w@ == v@,
                        Err(_) => false,
                    },
                decreases v.len() - i,
            {
                assert(v@.skip(i as int).drop_first() =~= v@.skip(i + 1));
                assert(v@.skip(i as int)[0] == v@[i as int]);
                match card_layer_count(&v[i]) {
                    Some(n) => {
                        assert(layers_for(v@.skip(i as int)) == n);
                        return n;
                    },
                    None => {},
                }
                i = i + 1;
            }
            0
        },
    }
}

/// The layers for a list whose first card is an NVIDIA card with known memory
/// follow its memory: 99 from 24000 MB, 80 from 16000, 60 from 12000, 50
/// from 10000, 40 from 8000, 30 from 6000, 20 from 4000, none below; so a
/// card with at least 4000 MB gets layers, and more memory never gets fewer.
pub proof fn law_nvidia_layers_follow_memory(gpus: Seq<GpuSummary>, other: GpuSummary)
    requires
        gpus.len() > 0,
        gpus[0].vendor@ == "NVIDIA"@,
        gpus[0].memory_mb is Some,
    ensures
        ({
            let mb = gpus[0].memory_mb->0;
            let n = layers_for(gpus);
            &&& mb >= 24000 ==> n == 99
            &&& 16000 <= mb < 24000 ==> n == 80
            &&& 12000 <= mb < 16000 ==> n == 60
            &&& 10000 <= mb < 12000 ==> n == 50
            &&& 8000 <= mb < 10000 ==> n == 40
            &&& 6000 <= mb < 8000 ==> n == 30
            &&& 4000 <= mb < 6000 ==> n == 20
            &&& mb < 4000 ==> n == 0
            &&& (mb >= 4000 <==> n > 0)
            &&& (other.vendor@ == "NVIDIA"@ && other.memory_mb is Some && mb <= other.memory_mb->0 ==> n
                <= layers_for(seq![other]))
        }),
{
    let mb = gpus[0].memory_mb->0;
    assert(card_layers(gpus[0]) == Some(nvidia_layers(mb)));
    if other.vendor@ == "NVIDIA"@ && other.memory_mb is Some {
        let m2 = other.memory_mb->0;
        assert(seq![other][0] == other);
        assert(card_layers(other) == Some(nvidia_layers(m2)));
        assert(layers_for(seq![other]) == nvidia_layers(m2));
    }
}

/// The layers for a list whose first card is an AMD Radeon card with known
/// memory: 40 from 16000 MB, 20 from 8000, none below; and a list whose first
/// card is neither NVIDIA nor AMD Radeon, or has unknown memory, gets the
/// layers of the cards after it.
pub proof fn law_other_cards_layers(gpus: Seq<GpuSummary>)
    requires
        gpus.len() > 0,
    ensures
        gpus[0].vendor@ == "AMD"@ && has_substring(gpus[0].name@, "Radeon"@) && gpus[0].memory_mb is Some
            ==> ({
            let mb = gpus[0].memory_mb->0;
            let n = layers_for(gpus);
            &&& mb >= 16000 ==> n == 40
            &&& 8000 <= mb < 16000 ==> n == 20
            &&& mb < 8000 ==> n == 0
        }),
        gpus[0].memory_mb is None || (gpus[0].vendor@ != "NVIDIA"@ && !(gpus[0].vendor@ == "AMD"@
            && has_substring(gpus[0].name@, "Radeon"@))) ==> layers_for(gpus) == layers_for(
            gpus.drop_first(),
        ),
{
    reveal_strlit("NVIDIA");
    reveal_strlit("AMD");
    assert("AMD"@.len() != "NVIDIA"@.len());
    if gpus[0].vendor@ == "AMD"@ && has_substring(gpus[0].name@, "Radeon"@) && gpus[0].memory_mb is Some {
        assert(gpus[0].vendor@ != "NVIDIA"@);
        assert(card_layers(gpus[0]) == Some(amd_layers(gpus[0].memory_mb->0)));
    }
}

// ---------------------------------------------------------------------------
// Prompts with computer-use tools
// ---------------------------------------------------------------------------

/// The opening of the system prompt of a session with tools.
pub const MCP_PROMPT_HEAD: &'static str = "You are an AI assistant with computer control capabilities. ";

/// The instructions that follow the list of tools in that prompt.
pub const MCP_PROMPT_TAIL: &'static str = "\n\nWhen you need to use computer control tools, format your requests as:\nTOOL_CALL: tool_name {\"param1\": \"value1\", \"param2\": \"value2\"}\n\nAvailable tool calls:\n- TOOL_CALL: click {\"x\": 100, \"y\": 200} - Click at coordinates\n- TOOL_CALL: type {\"text\": \"hello world\"} - Type text\n- TOOL_CALL: scroll {\"direction\": \"up\", \"amount\": 3} - Scroll\n- TOOL_CALL: key_press {\"key\": \"Enter\"} - Press a key\n- TOOL_CALL: take_screenshot {} - Take a screenshot\n- TOOL_CALL: get_cursor_position {} - Get cursor position\n- TOOL_CALL: get_screen_info {} - Get screen information\n\nAlways explain what you're doing and ask for permission for risky actions.";

/// A danger level as `{:?}` writes it.
pub open spec fn danger_name(d: DangerLevel) -> Seq<char> {
    match d {
        DangerLevel::Low => "Low"@,
        DangerLevel::Medium => "Medium"@,
        DangerLevel::High => "High"@,
        DangerLevel::Critical => "Critical"@,
    }
}

fn danger_label(d: DangerLevel) -> (s: &'static str)
    ensures
        s@ == danger_name(d),
{
    match d {
        DangerLevel::Low => "Low",
        DangerLevel::Medium => "Medium",
        DangerLevel::High => "High",
        DangerLevel::Critical => "Critical",
    }
}

/// The list of tools in a system prompt, one line each.
pub open spec fn tool_lines(ts: Seq<ToolKind>) -> Seq<char>
    decreases ts.len(),
{
    if ts.len() == 0 {
        Seq::empty()
    } else {
        tool_lines(ts.drop_last()) + "- "@ + tool_name(ts.last()) + ": "@ + tool_description(ts.last())
            + " (Risk: "@ + danger_name(crate::mcp::tool_danger(ts.last())) + ")\n"@
    }
}

/// The system prompt: for a session with tools, the tools and how to call
/// them; without one, a plain assistant.
pub open spec fn mcp_system_prompt(tools: Option<Seq<ToolKind>>) -> Seq<char> {
    match tools {
        Some(ts) => MCP_PROMPT_HEAD@ + "Available computer control tools:\n"@ + tool_lines(ts) + MCP_PROMPT_TAIL@,
        None => "You are a helpful AI assistant."@,
    }
}

/// The system prompt for a session with the given tools (listed in the order
/// given), or for no session.
pub fn build_mcp_system_prompt(tools: Option<&Vec<ToolKind>>) -> (r: String)
    ensures
        r@ == mcp_system_prompt(
            match tools {
                Some(v) => Some(v@),
                None => None,
            },
        ),
{
    match tools {
        None => to_owned_string("You are a helpful AI assistant."),
        Some(ts) => {
            let mut r = to_owned_string(MCP_PROMPT_HEAD);
            push_str(&mut r, "Available computer control tools:\n");
            let ghost head = r@;
            let mut i: usize = 0;
            while i < ts.len()
                invariant
                    i <= ts.len(),
                    r@ == head + tool_lines(ts@.take(i as int)),
                decreases ts.len() - i,
            {
                let k = ts[i];
                assert(ts@.take(i + 1).drop_last() =~= ts@.take(i as int));
                assert(ts@.take(i + 1).last() == k);
                push_str(&mut r, "- ");
                push_str(&mut r, k.name());
                push_str(&mut r, ": ");
                push_str(&mut r, k.description());
                push_str(&mut r, " (Risk: ");
                push_str(&mut r, danger_label(k.danger_level()));
                push_str(&mut r, ")\n");
                assert(r@ =~= head + tool_lines(ts@.take(i + 1)));
                i = i + 1;
            }
            assert(ts@.take(i as int) =~= ts@);
            push_str(&mut r, MCP_PROMPT_TAIL);
            r
        },
    }
}

/// The prompt sent in a session with tools: the system prompt, the context
/// summary, a note naming the session, and the request; without a session,
/// the prompt with its chat history.
pub open spec fn mcp_prompt(
    system: Seq<char>,
    ctx: Option<Seq<ChatContextMessage>>,
    session: Option<Seq<char>>,
    prompt: Seq<char>,
) -> Seq<char> {
    match session {
        Some(id) => system + (match ctx {
            Some(ms) => context_text(ms),
            None => Seq::empty(),
        }) + "Context: You have access to computer control tools through MCP session "@ + id
            + ". You can click, type, scroll, take screenshots, and more. Use tools when helpful to assist the user.\n\nUser Request: "@
            + prompt,
        None => prompt_with_context(prompt, ctx),
    }
}

/// The prompt sent for a request in a session with tools, or without one.
pub fn build_mcp_prompt(
    system_prompt: &str,
    context: Option<Vec<ChatContextMessage>>,
    mcp_session_id: Option<&str>,
    prompt: String,
) -> (r: String)
    requires
        mcp_session_id is Some ==> match context {
            Some(v) => forall|i: int| 0 <= i < v@.len() ==> summary_role((#[trigger] v@[i]).role@),
            None => true,
        },
    ensures
        r@ == mcp_prompt(
            system_prompt@,
            match context {
                Some(v) => Some(v@),
                None => None,
            },
            match mcp_session_id {
                Some(id) => Some(id@),
                None => None,
            },
            prompt@,
        ),
{
    match mcp_session_id {
        None => build_prompt_with_context(prompt, context),
        Some(id) => {
            let mut r = to_owned_string(system_prompt);
            match context {
                Some(ctx) => {
                    let c = build_context_string(ctx);
                    push_str(&mut r, c.as_str());
                },
                None => {},
            }
            push_str(&mut r, "Context: You have access to computer control tools through MCP session ");
            push_str(&mut r, id);
            push_str(
                &mut r,
                ". You can click, type, scroll, take screenshots, and more. Use tools when helpful to assist the user.\n\nUser Request: ",
            );
            push_str(&mut r, prompt.as_str());
            r
        },
    }
}

// ---------------------------------------------------------------------------
// Tool calls in answers
// ---------------------------------------------------------------------------

/// The text that opens a tool call.
pub open spec fn tool_call_marker() -> Seq<char> {
    seq!['T', 'O', 'O', 'L', '_', 'C', 'A', 'L', 'L', ':']
}

/// A character of a tool's name: a Unicode word character (a letter, a mark,
/// a decimal digit or connector punctuation such as `_`).
pub open spec fn is_name_char(c: char) -> bool {
    unicode_is_word(c)
}

/// The first position at or after `j` that holds no white space.
pub open spec fn skip_ws(s: Seq<char>, j: int) -> int
    decreases s.len() - j,
{
    if 0 <= j < s.len() && is_ws(s[j]) {
        skip_ws(s, j + 1)
    } else {
        j
    }
}

/// The first position at or after `j` that holds no name character.
pub open spec fn skip_name(s: Seq<char>, j: int) -> int
    decreases s.len() - j,
{
    if 0 <= j < s.len() && is_name_char(s[j]) {
        skip_name(s, j + 1)
    } else {
        j
    }
}

/// The first `}` at or after `j`.
pub open spec fn next_close(s: Seq<char>, j: int) -> Option<int>
    decreases s.len() - j,
{
    if 0 <= j < s.len() {
        if s[j] == '}' {
            Some(j)
        } else {
            next_close(s, j + 1)
        }
    } else {
        None
    }
}

/// The tool call that begins at `i`: the marker, white space, a name of at
/// least one character, white space, and a parameter object from `{` to the
/// first `}` after it. Gives the start and end of the name, the start of the
/// object and the end of the call.
pub open spec fn call_at(s: Seq<char>, i: int) -> Option<(int, int, int, int)> {
    let m = tool_call_marker();
    if 0 <= i && i + m.len() <= s.len() && s.subrange(i, i + m.len()) == m {
        let a = skip_ws(s, i + m.len());
        let b = skip_name(s, a);
        let c = skip_ws(s, b);
        if a < b && c < s.len() && s[c] == '{' {
            match next_close(s, c + 1) {
                Some(e) => Some((a, b, c, e + 1)),
                None => None,
            }
        } else {
            None
        }
    } else {
        None
    }
}

/// The first tool call that begins at or after `i`: the whole call, the
/// tool's name and the parameter object.
pub open spec fn first_call_from(s: Seq<char>, i: int) -> Option<(Seq<char>, Seq<char>, Seq<char>)>
    decreases s.len() - i,
{
    if 0 <= i < s.len() {
        match call_at(s, i) {
            Some((a, b, c, e)) => Some((s.subrange(i, e), s.subrange(a, b), s.subrange(c, e))),
            None => first_call_from(s, i + 1),
        }
    } else {
        None
    }
}

/// The first tool call in a text, in the format the prompts ask for:
/// `TOOL_CALL:`, a tool name and a parameter object up to its first `}`.
pub open spec fn tool_call_match(text: Seq<char>) -> Option<(Seq<char>, Seq<char>, Seq<char>)> {
    first_call_from(text, 0)
}

/// `skip_ws` on the characters `v`.
fn skip_ws_at(v: &Vec<char>, j: usize) -> (k: usize)
    requires
        j <= v.len(),
    ensures
        k == skip_ws(v@, j as int),
        j <= k <= v.len(),
{
    let mut k = j;
    while k < v.len() && is_whitespace_char(v[k])
        invariant
            j <= k <= v.len(),
            skip_ws(v@, k as int) == skip_ws(v@, j as int),
        decreases v.len() - k,
    {
        k = k + 1;
    }
    k
}

/// `skip_name` on the characters `v`.
fn skip_name_at(v: &Vec<char>, j: usize) -> (k: usize)
    requires
        j <= v.len(),
    ensures
        k == skip_name(v@, j as int),
        j <= k <= v.len(),
{
    let mut k = j;
    while k < v.len() && char_is_word(v[k])
        invariant
            j <= k <= v.len(),
            skip_name(v@, k as int) == skip_name(v@, j as int),
        decreases v.len() - k,
    {
        k = k + 1;
    }
    k
}

/// `next_close` on the characters `v`.
fn next_close_at(v: &Vec<char>, j: usize) -> (r: Option<usize>)
    requires
        j <= v.len(),
    ensures
        match r {
            Some(e) => next_close(v@, j as int) == Some(e as int) && j <= e < v.len(),
            None => next_close(v@, j as int) is None,
        },
{
    let mut k = j;
    while k < v.len()
        invariant
            j <= k <= v.len(),
            next_close(v@, k as int) == next_close(v@, j as int),
        decreases v.len() - k,
    {
        if v[k] == '}' {
            return Some(k);
        }
        k = k + 1;
    }
    None
}

/// `call_at` on the characters `v`; `marker` holds the tool-call marker.
fn call_at_pos(v: &Vec<char>, marker: &Vec<char>, i: usize) -> (r: Option<(usize, usize, usize, usize)>)
    requires
        i < v.len(),
        marker@ == tool_call_marker(),
    ensures
        r is None <==> call_at(v@, i as int) is None,
        r matches Some((a, b, c, e)) ==> call_at(v@, i as int) == Some((a as int, b as int, c as int, e as int)),
        r matches Some((a, b, c, e)) ==> i + 10 <= a && a < b && b <= c && c < e && e <= v.len(),
{
    if v.len() - i < marker.len() || !occurs_at(v, marker, i) {
        return None;
    }
    let a = skip_ws_at(v, i + 10);
    let b = skip_name_at(v, a);
    let c = skip_ws_at(v, b);
    if a < b && c < v.len() && v[c] == '{' {
        match next_close_at(v, c + 1) {
            Some(e) => Some((a, b, c, e + 1)),
            None => None,
        }
    } else {
        None
    }
}

/// The characters of `v` from `a` up to `b`, as a string.
fn string_of_range(v: &Vec<char>, a: usize, b: usize) -> (s: String)
    requires
        a <= b <= v.len(),
    ensures
        s@ == v@.subrange(a as int, b as int),
{
    let mut s = String::new();
    let mut k = a;
    while k < b
        invariant
            a <= k <= b <= v.len(),
            s@ == v@.subrange(a as int, k as int),
        decreases b - k,
    {
        push_char(&mut s, v[k]);
        assert(v@.subrange(a as int, k + 1) == v@.subrange(a as int, k as int).push(v@[k as int]));
        k = k + 1;
    }
    s
}

/// The first tool call in a text: the whole call, the tool's name and the
/// parameter object.
fn find_tool_call(text: &str) -> (r: Option<(String, String, String)>)
    ensures
        match r {
            Some((w, n, p)) => tool_call_match(text@) == Some((w@, n@, p@)) && w@.len() > 0,
            None => tool_call_match(text@) is None,
        },
{
    let v = chars_of(text);
    let marker: Vec<char> = vec!['T', 'O', 'O', 'L', '_', 'C', 'A', 'L', 'L', ':'];
    assert(marker@ == tool_call_marker());
    let mut i: usize = 0;
    while i < v.len()
        invariant
            i <= v.len(),
            v@ == text@,
            marker@ == tool_call_marker(),
            first_call_from(v@, i as int) == first_call_from(v@, 0),
        decreases v.len() - i,
    {
        match call_at_pos(&v, &marker, i) {
            Some((a, b, c, e)) => {
                let w = string_of_range(&v, i, e);
                let n = string_of_range(&v, a, b);
                let p = string_of_range(&v, c, e);
                return Some((w, n, p));
            },
            None => {},
        }
        i = i + 1;
    }
    None
}

/// A tool call found in an answer.
#[derive(Debug)]
pub struct ToolCallText {
    /// The whole call as it stands in the answer.
    pub call: String,
    pub tool_name: String,
    /// The parameter object, as JSON text.
    pub params: String,
}

/// The first tool call in an answer, if there is one.
pub fn detect_tool_call(response_text: &str) -> (r: Option<ToolCallText>)
    ensures
        match r {
            Some(c) => tool_call_match(response_text@) == Some((c.call@, c.tool_name@, c.params@))
                && c.call@.len() > 0,
            None => tool_call_match(response_text@) is None,
        },
{
    match find_tool_call(response_text) {
        None => None,
        Some((call, tool_name, params)) => Some(ToolCallText { call, tool_name, params }),
    }
}

/// What running a tool call came to.
#[derive(Debug)]
pub enum ToolCallOutcome {
    /// The tool ran; its message or error, where it gave one.
    Executed { success: bool, message: Option<String>, error: Option<String> },
    /// The tool could not be run.
    Failed(String),
}

/// The text that replaces a tool call in the answer.
pub open spec fn outcome_text(o: ToolCallOutcome) -> Seq<char> {
    match o {
        ToolCallOutcome::Executed { success, message, error } => if success {
            "✅ Tool executed successfully: "@ + match message {
                Some(m) => m@,
                None => "Success"@,
            }
        } else {
            "❌ Tool execution failed: "@ + match error {
                Some(e) => e@,
                None => "Unknown error"@,
            }
        },
        ToolCallOutcome::Failed(e) => "❌ Tool execution error: "@ + e@,
    }
}

/// The answer with each occurrence of the tool call replaced by what the call came to.
pub fn apply_tool_outcome(response_text: &str, call: &ToolCallText, outcome: &ToolCallOutcome) -> (r: String)
    requires
        call.call@.len() > 0,
    ensures
        r@ == replace_all(response_text@, call.call@, outcome_text(*outcome)),
{
    let text = match outcome {
        ToolCallOutcome::Executed { success, message, error } => {
            if *success {
                let mut t = to_owned_string("✅ Tool executed successfully: ");
                match message {
                    Some(m) => push_str(&mut t, m.as_str()),
                    None => push_str(&mut t, "Success"),
                }
                t
            } else {
                let mut t = to_owned_string("❌ Tool execution failed: ");
                match error {
                    Some(e) => push_str(&mut t, e.as_str()),
                    None => push_str(&mut t, "Unknown error"),
                }
                t
            }
        },
        ToolCallOutcome::Failed(e) => {
            let mut t = to_owned_string("❌ Tool execution error: ");
            push_str(&mut t, e.as_str());
            t
        },
    };
    replace_str(response_text, call.call.as_str(), text.as_str())
}

/// The generation options: where layers go on the GPU, their count and four
/// threads.
pub fn gpu_options(layers: i32) -> (r: Option<(i32, i32)>)
    ensures
        layers > 0 ==> r == Some((layers, 4i32)),
        layers <= 0 ==> r is None,
{
    if layers > 0 {
        Some((layers, 4))
    } else {
        None
    }
}

} // verus!
