//! Agent loop decisions: the prompts sent to the language model and the
//! checks on its answer. The model only chooses targets and modes; a mode
//! outside the whitelist is refused.
use vstd::prelude::*;
use crate::provider::DecisionRequest;
use crate::skill::{context_text, skills_to_context, Registry};
use crate::text::{
    contains_text, find_char, first_pos, join, join_with, last_pos, lemma_first_pos, lemma_last_pos,
    rfind_char, trim, trim_end_matches, trim_end_pat, trim_start_matches, trim_start_pat, trim_ws,
};

verus! {

/// Settings of the agent loop.
#[derive(Debug, Clone)]
pub struct AgentConfig {
    /// Decision period (seconds), at least 1.
    pub tick_secs: u64,
    /// State input file (a built-in default state when absent).
    pub state_file: Option<String>,
    /// Decision output file (JSON).
    pub decision_file: String,
    /// Mode whitelist: the model's mode must be one of these.
    pub allowed_modes: Vec<String>,
    /// Hooks run before a decision (`sh -c`, failures only warned).
    pub hooks_before: Vec<String>,
    /// Hooks run after a decision.
    pub hooks_after: Vec<String>,
    /// Tool names of loaded extensions (shown in the decision context).
    pub extension_tools: Vec<String>,
}

/// Strings by their views.
pub open spec fn views(v: Seq<String>) -> Seq<Seq<char>> {
    v.map_values(|s: String| s@)
}

impl Default for AgentConfig {
    fn default() -> (c: AgentConfig)
        ensures
            c.tick_secs == 1,
            c.state_file is None,
            c.decision_file@ == "/var/lib/taihao-os/pi-agent/decision.json"@,
            views(c.allowed_modes@) == crate::rt_config::standard_modes(),
            c.hooks_before@.len() == 0,
            c.hooks_after@.len() == 0,
            c.extension_tools@.len() == 0,
    {
        AgentConfig {
            tick_secs: 1,
            state_file: None,
            decision_file: String::from_str("/var/lib/taihao-os/pi-agent/decision.json"),
            allowed_modes: crate::rt_config::default_modes(),
            hooks_before: Vec::new(),
            hooks_after: Vec::new(),
            extension_tools: Vec::new(),
        }
    }
}

/// A decision handed down (target and mode).
#[derive(Debug, Clone)]
pub struct Decision {
    pub timestamp: u64,
    pub mode: String,
    pub target: Option<String>,
    pub rationale: String,
}

/// Product of one decision round.
#[derive(Debug)]
pub struct TickResult {
    pub decision: Option<Decision>,
    pub llm_error: Option<String>,
}

/// The extension part of the context: empty without tools.
pub open spec fn extension_context(tools: Seq<Seq<char>>) -> Seq<char> {
    if tools.len() == 0 {
        Seq::empty()
    } else {
        "可用扩展工具（经 Extension·MCP 桥调用，需在桥白名单内）: "@ + join(tools, " / "@) + "\n"@
    }
}

/// The system prompt: role, skill context, extension tools and the safety rules
/// with the mode whitelist.
pub open spec fn system_prompt(skill_ctx: Seq<char>, tools: Seq<Seq<char>>, modes: Seq<Seq<char>>) -> Seq<char> {
    "你是设备端智能决策层 Pi Agent。\n只能从可用 SKILL 中选用能力，不得凭空创造动作。\n"@ + skill_ctx + " "@
        + extension_context(tools) + " "@
        + "安全准则：\n- 你只输出目标与模式，不直接控制任何硬件\n- 紧急情况优先选择 emergency_stop / emergency_surface / emergency_avoidance\n- mode 只允许以下白名单: "@
        + join(modes, " / "@) + "\n- 输出必须是合法 JSON，字段: mode, target, rationale"@
}

/// Builds the system prompt.
pub fn build_system_prompt(registry: &Registry, agent_cfg: &AgentConfig) -> (r: String)
    ensures
        r@ == system_prompt(
            context_text(registry.skills@),
            views(agent_cfg.extension_tools@),
            views(agent_cfg.allowed_modes@),
        ),
{
    let ext = if agent_cfg.extension_tools.len() == 0 {
        proof {
            reveal_strlit("");
            assert(""@ =~= Seq::<char>::empty());
        }
        String::new()
    } else {
        String::from_str("可用扩展工具（经 Extension·MCP 桥调用，需在桥白名单内）: ").concat(
            join_with(&agent_cfg.extension_tools, " / ").as_str(),
        ).concat("\n")
    };
    let r = String::from_str("你是设备端智能决策层 Pi Agent。\n只能从可用 SKILL 中选用能力，不得凭空创造动作。\n")
        .concat(skills_to_context(registry).as_str())
        .concat(" ")
        .concat(ext.as_str())
        .concat(" ")
        .concat("安全准则：\n- 你只输出目标与模式，不直接控制任何硬件\n- 紧急情况优先选择 emergency_stop / emergency_surface / emergency_avoidance\n- mode 只允许以下白名单: ")
        .concat(join_with(&agent_cfg.allowed_modes, " / ").as_str())
        .concat("\n- 输出必须是合法 JSON，字段: mode, target, rationale");
    r
}

/// The user prompt: the current state and the request for a decision.
pub open spec fn user_prompt(state: Seq<char>, modes: Seq<Seq<char>>) -> Seq<char> {
    "当前设备状态:\n"@ + state + "\n\n请输出决策（JSON）：mode 从 "@ + join(modes, " / "@)
        + " 中选择，target 为目标参数，rationale 为一句中文理由。"@
}

pub fn build_user_prompt(state: &str, agent_cfg: &AgentConfig) -> (r: String)
    ensures
        r@ == user_prompt(state@, views(agent_cfg.allowed_modes@)),
{
    String::from_str("当前设备状态:\n").concat(state).concat("\n\n请输出决策（JSON）：mode 从 ").concat(
        join_with(&agent_cfg.allowed_modes, " / ").as_str(),
    ).concat(" 中选择，target 为目标参数，rationale 为一句中文理由。")
}

/// The answer without surrounding whitespace and code fences.
pub open spec fn unfenced(raw: Seq<char>) -> Seq<char> {
    trim_ws(
        trim_end_pat(trim_start_pat(trim_start_pat(trim_ws(raw), "```json"@), "```"@), "```"@),
    )
}

/// The JSON object text in the answer: from the first `{` to the last `}`
/// (empty where the last `}` stands just before the first `{`). An answer
/// without both braces, or whose last `}` stands further before its first
/// `{`, holds no object.
pub open spec fn json_object_of(raw: Seq<char>) -> Result<Seq<char>, Seq<char>> {
    let c = unfenced(raw);
    let s = first_pos(c, '{');
    let e = last_pos(c, '}');
    if s < 0 || e < 0 || e + 1 < s {
        Err("输出无 JSON 对象"@)
    } else {
        Ok(c.subrange(s, e + 1))
    }
}

/// Strips code fences and cuts the text from the first `{` to the last `}`.
pub fn extract_json_object(raw: &str) -> (r: Result<String, String>)
    ensures
        r matches Ok(t) ==> json_object_of(raw@) == Ok::<Seq<char>, Seq<char>>(t@),
        r matches Err(e) ==> json_object_of(raw@) == Err::<Seq<char>, Seq<char>>(e@),
{
    let a = trim(raw);
    let b = trim_start_matches(a, "```json");
    let c = trim_start_matches(b, "```");
    let d = trim_end_matches(c, "```");
    let cleaned = trim(d);
    let start = match find_char(cleaned, '{') {
        Some(i) => i,
        None => return Err(String::from_str("输出无 JSON 对象")),
    };
    let end = match rfind_char(cleaned, '}') {
        Some(i) => i,
        None => return Err(String::from_str("输出无 JSON 对象")),
    };
    let n = cleaned.unicode_len();
    proof {
        lemma_first_pos(cleaned@, '{');
        lemma_last_pos(cleaned@, '}');
    }
    if end + 1 < start {
        return Err(String::from_str("输出无 JSON 对象"));
    }
    Ok(String::from_str(cleaned.substring_char(start, end + 1)))
}

/// The result of `str::to_lowercase` on a text.
pub uninterp spec fn lowercase(s: Seq<char>) -> Seq<char>;

/// Unicode lower-casing (`str::to_lowercase`); the contract names the result,
/// a function of the text alone.
#[verifier::external_body]
fn to_lowercase(s: &str) -> (r: String)
    ensures
        r@ == lowercase(s@),
{
    s.to_lowercase()
}

/// The normalised mode of an answer: trimmed, lower-cased.
pub open spec fn normalized_mode(mode: Seq<char>) -> Seq<char> {
    lowercase(trim_ws(mode))
}

/// Accepts the fields of a parsed answer at time `now` (seconds): the mode,
/// trimmed and lower-cased, must be in the whitelist.
pub fn accept_decision(
    mode: &str,
    target: Option<String>,
    rationale: String,
    agent_cfg: &AgentConfig,
    now: u64,
) -> (r: Result<Decision, String>)
    ensures
        r is Ok <==> views(agent_cfg.allowed_modes@).contains(normalized_mode(mode@)),
        r matches Ok(d) ==> d.timestamp == now && d.mode@ == normalized_mode(mode@) && d.target
            == target && d.rationale == rationale,
        r matches Err(e) ==> e@ == "mode 不在白名单: "@ + normalized_mode(mode@),
{
    let m = to_lowercase(trim(mode));
    if !contains_text(agent_cfg.allowed_modes.as_slice(), m.as_str()) {
        return Err(String::from_str("mode 不在白名单: ").concat(m.as_str()));
    }
    Ok(Decision { timestamp: now, mode: m, target, rationale })
}

/// The state text of a round: a built-in default without a state file, the
/// trimmed file content, or a note on the read error (`read` is `None` without
/// a state file, else what reading it gave).
pub fn state_text(read: Option<Result<String, String>>) -> (r: String)
    ensures
        read is None ==> r@ == "默认状态：无状态输入文件，模式 idle"@,
        read matches Some(Ok(s)) ==> r@ == trim_ws(s@),
        read matches Some(Err(e)) ==> r@ == "状态读取失败: "@ + e@ + "（使用默认状态 idle）"@,
{
    match read {
        None => String::from_str("默认状态：无状态输入文件，模式 idle"),
        Some(Ok(s)) => String::from_str(trim(s.as_str())),
        Some(Err(e)) => String::from_str("状态读取失败: ").concat(e.as_str()).concat("（使用默认状态 idle）"),
    }
}

/// The decision request of a round: the system prompt and the user prompt for
/// the state text.
pub fn decision_request(registry: &Registry, agent_cfg: &AgentConfig, state: &str) -> (r: DecisionRequest)
    ensures
        r.system@ == system_prompt(
            context_text(registry.skills@),
            views(agent_cfg.extension_tools@),
            views(agent_cfg.allowed_modes@),
        ),
        r.user@ == user_prompt(state@, views(agent_cfg.allowed_modes@)),
{
    DecisionRequest { system: build_system_prompt(registry, agent_cfg), user: build_user_prompt(state, agent_cfg) }
}

} // verus!
