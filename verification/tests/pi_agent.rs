use base64::Engine;
use ed25519_dalek::Signer;

use taihao::agent::{
    accept_decision, build_system_prompt, build_user_prompt, decision_request, extract_json_object,
    state_text, AgentConfig, Decision,
};
use taihao::agent_config::{usable_signing_key, Config, HookToml};
use taihao::agent_runtime::{
    decode_public_key, ensure_echo, health_body, plan_tick, skill_name_of, tick_report, ChatMessage, Hooks,
    IntentSender, PublicKey, Skill as RuntimeSkill, SkillRegistry, StubProvider, completion_from_reply, finish_tick,
    intent_to_send,
};
use taihao::extension::{check_meta, ExtensionMeta, ExtensionSet, ExtensionTool};
use taihao::paths;
use taihao::provider::{chat_completions_url, first_choice, ChatResponse, Choice, Message, ProviderConfig};
use taihao::skill::{
    assemble_skill, assert_frontmatter_safe, skills_to_context, skills_to_json, split_frontmatter, validate, Registry,
    SecurityLevel, SkillMeta,
};

fn test_cfg() -> AgentConfig {
    AgentConfig {
        tick_secs: 1,
        state_file: None,
        decision_file: "/tmp/pi-agent-test/decision.json".to_string(),
        allowed_modes: vec!["idle".to_string(), "emergency_stop".to_string()],
        hooks_before: vec![],
        hooks_after: vec![],
        extension_tools: vec![],
    }
}

/// The answer parsing of one decision round: cut the JSON object, read its
/// fields, and let the library accept the mode.
fn parse_decision(raw: &str, cfg: &AgentConfig) -> Result<Decision, String> {
    let obj = extract_json_object(raw)?;
    let v: serde_json::Value = serde_json::from_str(&obj).map_err(|e| format!("JSON 解析失败: {}", e))?;
    let mode = match v.get("mode").and_then(|m| m.as_str()) {
        Some(m) => m.to_string(),
        None => return Err("JSON 解析失败: missing field `mode`".to_string()),
    };
    let target = v.get("target").and_then(|t| t.as_str()).map(|t| t.to_string());
    let rationale = v.get("rationale").and_then(|t| t.as_str()).unwrap_or("").to_string();
    accept_decision(&mode, target, rationale, cfg, 0)
}

fn meta(name: &str) -> SkillMeta {
    SkillMeta {
        name: name.to_string(),
        version: "0.1.0".to_string(),
        security_level: SecurityLevel::L2,
        description: "x".to_string(),
        author: String::new(),
    }
}

fn runtime_skill(name: &str, signature: &str) -> RuntimeSkill {
    RuntimeSkill {
        name: name.to_string(),
        version: "1.0.0".to_string(),
        description: "d".to_string(),
        signature: signature.to_string(),
        entrypoint: "run".to_string(),
        input_schema: String::new(),
    }
}

fn signing_key() -> ed25519_dalek::SigningKey {
    ed25519_dalek::SigningKey::from_bytes(&[7u8; 32])
}

fn public_key() -> PublicKey {
    PublicKey { bytes: signing_key().verifying_key().to_bytes() }
}

fn signed_skill(name: &str) -> RuntimeSkill {
    let sig = signing_key().sign(format!("{}:1.0.0:run", name).as_bytes());
    let b64 = base64::engine::general_purpose::STANDARD.encode(sig.to_bytes());
    runtime_skill(name, &b64)
}

#[test]
fn prompt_includes_extension_tools() {
    let mut cfg = test_cfg();
    cfg.extension_tools = vec!["device_status".to_string()];
    let registry = Registry { skills: vec![], skipped: vec![] };
    let prompt = build_system_prompt(&registry, &cfg);
    assert!(prompt.contains("device_status"));
    assert!(prompt.contains("Extension·MCP 桥"));
}

#[test]
fn prompt_lists_modes_and_state() {
    let cfg = test_cfg();
    let registry = Registry { skills: vec![], skipped: vec![] };
    let prompt = build_system_prompt(&registry, &cfg);
    assert!(prompt.contains("mode 只允许以下白名单: idle / emergency_stop"));
    assert!(!prompt.contains("可用扩展工具"));
    let user = build_user_prompt("深度 3m", &cfg);
    assert_eq!(
        user,
        "当前设备状态:\n深度 3m\n\n请输出决策（JSON）：mode 从 idle / emergency_stop 中选择，target 为目标参数，rationale 为一句中文理由。"
    );
}

#[test]
fn parse_plain_json() {
    let cfg = test_cfg();
    let d = parse_decision(r#"{"mode": "idle", "target": null, "rationale": "无异常"}"#, &cfg).unwrap();
    assert_eq!(d.mode, "idle");
}

#[test]
fn parse_fenced_json() {
    let cfg = test_cfg();
    let raw = "```json\n{\"mode\": \"emergency_stop\", \"rationale\": \"避障\"}\n```";
    let d = parse_decision(raw, &cfg).unwrap();
    assert_eq!(d.mode, "emergency_stop");
}

#[test]
fn reject_unknown_mode() {
    let cfg = test_cfg();
    assert!(parse_decision(r#"{"mode": "launch_missile"}"#, &cfg).is_err());
}

#[test]
fn reject_not_json() {
    let cfg = test_cfg();
    assert!(parse_decision("抱歉，我无法回答", &cfg).is_err());
}

#[test]
fn accept_decision_normalises_mode() {
    let cfg = test_cfg();
    let d = accept_decision("  IDLE ", Some("dock".to_string()), "r".to_string(), &cfg, 42).unwrap();
    assert_eq!((d.mode.as_str(), d.timestamp), ("idle", 42));
    assert_eq!(d.target.as_deref(), Some("dock"));
    assert_eq!(accept_decision("fly", None, String::new(), &cfg, 1).unwrap_err(), "mode 不在白名单: fly");
}

#[test]
fn json_object_cut() {
    assert_eq!(extract_json_object("note {\"a\":{\"b\":1}} end").unwrap(), "{\"a\":{\"b\":1}}");
    assert_eq!(extract_json_object("no object").unwrap_err(), "输出无 JSON 对象");
    assert_eq!(extract_json_object("}{").unwrap(), "");
    assert_eq!(extract_json_object("} x {").unwrap_err(), "输出无 JSON 对象");
    assert_eq!(extract_json_object("```json\n{\"mode\":\"idle\"}\n```").unwrap(), "{\"mode\":\"idle\"}");
}

#[test]
fn url_join_no_double_slash() {
    let cfg = ProviderConfig {
        base_url: "http://localhost:8000/v1/".to_string(),
        model: "m".to_string(),
        api_key_env: "K".to_string(),
        timeout_secs: 1,
    };
    let url = chat_completions_url(&cfg);
    assert_eq!(url, "http://localhost:8000/v1/chat/completions");
}

#[test]
fn first_choice_of_reply() {
    let resp = ChatResponse { choices: vec![Choice { message: Message { content: "{}".to_string() } }] };
    assert_eq!(first_choice(&resp).unwrap(), "{}");
    let empty = ChatResponse { choices: vec![] };
    assert_eq!(first_choice(&empty).unwrap_err(), "LLM 响应无 choices");
}

#[test]
fn parse_valid_skill() {
    let content = "---\nname: emergency-avoidance\nversion: 0.1.0\nsecurity_level: L1\ndescription: 紧急避险\nauthor: taihao-team\n---\n\n# 正文";
    let (fm, body) = split_frontmatter(content).unwrap();
    assert_eq!(body.trim(), "# 正文");
    let meta: serde_yaml::Value = serde_yaml::from_str(&fm).unwrap();
    assert_eq!(meta["name"].as_str(), Some("emergency-avoidance"));
    assert_eq!(meta["security_level"].as_str(), Some("L1"));
    assert_frontmatter_safe(&fm).unwrap();
}

#[test]
fn parse_invalid_skill_missing_delimiter() {
    assert!(split_frontmatter("no frontmatter").is_err());
    assert!(split_frontmatter("---\nname: x").is_err());
}

#[test]
fn reject_bad_name() {
    let m = SkillMeta {
        name: "Bad Name!".to_string(),
        version: "0.1.0".to_string(),
        security_level: SecurityLevel::L2,
        description: "x".to_string(),
        author: String::new(),
    };
    assert!(validate(&m).is_err());
}

#[test]
fn reject_unknown_field() {
    let fm = "name: a\nversion: 0.1.0\nsecurity_level: L1\ndescription: x\ninjected: true";
    assert!(assert_frontmatter_safe(fm).is_err());
}

#[test]
fn skill_assembly_and_context() {
    assert!(validate(&meta("good-name")).is_ok());
    assert!(validate(&meta("")).is_err());
    let s = assemble_skill(meta("path-planning"), "  # 正文 \n", "/etc/skills/p.md".to_string()).unwrap();
    assert_eq!(s.body, "# 正文");
    let registry = Registry { skills: vec![s], skipped: vec![] };
    assert_eq!(registry.len(), 1);
    assert!(registry.find("path-planning").is_some());
    assert!(registry.find("other").is_none());
    assert!(skills_to_context(&registry).contains("path-planning"));
    assert_eq!(SecurityLevel::L3.as_str(), "L3");
}

#[test]
fn hooks_split_before_after() {
    let mut cfg = Config::default();
    cfg.hooks = vec![
        HookToml { when: "before".to_string(), command: "echo pre".to_string() },
        HookToml { when: "after".to_string(), command: "echo post".to_string() },
        HookToml { when: "unknown".to_string(), command: "echo skip".to_string() },
    ];
    let (agent, _, _) = cfg.to_runtime();
    assert_eq!(agent.hooks_before, vec!["echo pre".to_string()]);
    assert_eq!(agent.hooks_after, vec!["echo post".to_string()]);
}

#[test]
fn to_runtime_defaults() {
    let cfg = Config::default();
    let (agent, provider, dirs) = cfg.to_runtime();
    assert_eq!(agent.tick_secs, 1);
    assert_eq!(agent.decision_file, "/var/lib/taihao-os/pi-agent/decision.json");
    assert_eq!(agent.allowed_modes.len(), 6);
    assert!(agent.extension_tools.is_empty());
    assert_eq!(provider.api_key_env, "OPENAI_API_KEY");
    assert_eq!(provider.base_url, "http://127.0.0.1:8000/v1");
    assert_eq!(provider.model, "taihao-default");
    assert_eq!(provider.timeout_secs, 10);
    assert_eq!(dirs, vec!["/usr/share/taihao-os/skills".to_string(), "/etc/taihao-os/skills".to_string()]);
    let mut named = Config::default();
    named.skill_dirs = vec!["/tmp/skills".to_string()];
    named.provider.api_key_env = Some("MY_KEY".to_string());
    let (_, p2, d2) = named.to_runtime();
    assert_eq!(d2, vec!["/tmp/skills".to_string()]);
    assert_eq!(p2.api_key_env, "MY_KEY");
}

#[test]
fn to_runtime_tick_at_least_one_second() {
    let mut cfg = Config::default();
    cfg.agent.tick_secs = 0;
    assert_eq!(cfg.to_runtime().0.tick_secs, 1);
    cfg.agent.tick_secs = 7;
    assert_eq!(cfg.to_runtime().0.tick_secs, 7);
}

#[test]
fn signing_key_selection() {
    let cfg = Config::default();
    assert_eq!(cfg.signing_key_env_name(), "TAIHAO_SKILL_SIGNING_KEY");
    assert_eq!(usable_signing_key(None), None);
    assert_eq!(usable_signing_key(Some(String::new())), None);
    assert_eq!(usable_signing_key(Some("secret".to_string())), Some("secret".to_string()));
}

#[test]
fn agent_config_default() {
    let c = AgentConfig::default();
    assert_eq!(c.tick_secs, 1);
    assert_eq!(c.allowed_modes[5], "emergency_avoidance");
}

#[test]
fn extensions_sorted_and_tools_listed() {
    let ext = |name: &str, tools: &[&str]| ExtensionMeta {
        name: name.to_string(),
        tools: tools.iter().map(|t| ExtensionTool { name: t.to_string() }).collect(),
    };
    let set = ExtensionSet::from_loaded(vec![ext("zeta", &["z1"]), ext("my-ext", &["device_status", "report"])]);
    assert_eq!(set.extensions[0].name, "my-ext");
    assert_eq!(set.tool_names(), vec!["device_status".to_string(), "report".to_string(), "z1".to_string()]);
    assert_eq!(check_meta(ext("", &[])).unwrap_err(), "name 缺失");
    assert!(check_meta(ext("ok", &[])).is_ok());
}

#[test]
fn skill_registry_insert_get_list() {
    let mut reg = SkillRegistry::new();
    assert!(reg.get("a").is_none());
    reg.insert(runtime_skill("a", ""));
    reg.insert(runtime_skill("b", ""));
    let mut replaced = runtime_skill("a", "");
    replaced.version = "2.0.0".to_string();
    reg.insert(replaced);
    assert_eq!(reg.get("a").unwrap().version, "2.0.0");
    assert_eq!(reg.list().len(), 2);
    assert!(reg.contains("b"));
}

#[test]
fn echo_fallback_keeps_loaded_skill() {
    let mut reg = SkillRegistry::new();
    ensure_echo(&mut reg);
    assert_eq!(reg.get("echo").unwrap().version, "0.1.0");
    let mut reg2 = SkillRegistry::new();
    reg2.insert(runtime_skill("echo", "sig"));
    ensure_echo(&mut reg2);
    assert_eq!(reg2.get("echo").unwrap().signature, "sig");
}

#[test]
fn signature_verification() {
    let reg = SkillRegistry::new();
    let key = public_key();
    let good = signed_skill("path-planning");
    assert!(reg.verify(&good, &key));
    let mut tampered = good.clone();
    tampered.entrypoint = "rm".to_string();
    assert!(!reg.verify(&tampered, &key));
    assert!(!reg.verify(&runtime_skill("x", "not base64!"), &key));
    assert!(!reg.verify(&runtime_skill("x", "AAAA"), &key));
}

#[test]
fn public_key_decoding() {
    let key = public_key();
    let b64 = base64::engine::general_purpose::STANDARD.encode(key.bytes);
    assert_eq!(decode_public_key(&b64).unwrap().bytes, key.bytes);
    assert_eq!(decode_public_key("***").unwrap_err(), "TAIHAO_SKILL_PUBKEY 不是合法 base64");
    assert_eq!(decode_public_key("AAAA").unwrap_err(), "TAIHAO_SKILL_PUBKEY 长度应为 32 字节");
}

#[test]
fn tick_plan_and_report() {
    let key = public_key();
    let mut reg = SkillRegistry::new();
    reg.insert(signed_skill("survey"));
    reg.insert(runtime_skill("rogue", "AAAA"));
    assert_eq!(skill_name_of("skill:  survey now"), "survey");
    assert_eq!(skill_name_of("skill:skill:rogue"), "rogue");
    assert_eq!(skill_name_of("tick#3"), "echo");
    assert_eq!(skill_name_of("skill:"), "");
    let p = plan_tick(&reg, &key, "skill:survey");
    assert!(p.approved);
    assert!(!plan_tick(&reg, &key, "skill:rogue").approved);
    assert!(plan_tick(&reg, &key, "tick#1").approved);
    assert_eq!(tick_report("ack", &p, 3), "ack [skill=survey,decision=approved,intents=3]");
    assert_eq!(health_body(12), "{\"ok\":true,\"intents\":12}\n");
}

#[test]
fn stub_provider_acknowledges_last_user_message() {
    let p = StubProvider::new("stub");
    assert_eq!(p.name(), "stub");
    let msgs = vec![
        ChatMessage { role: "user".to_string(), content: "first".to_string() },
        ChatMessage { role: "user".to_string(), content: "x".repeat(70) },
        ChatMessage { role: "assistant".to_string(), content: "ignored".to_string() },
    ];
    let r = p.complete(&msgs);
    assert_eq!(r.content, format!("[stub stub] ack: {}", "x".repeat(60)));
    assert_eq!(r.usage, vec![("prompt_tokens".to_string(), 1), ("completion_tokens".to_string(), 1)]);
    assert_eq!(p.complete(&[]).content, "[stub] empty");
}

#[test]
fn hooks_and_intent_counter() {
    let mut h = Hooks::new();
    h.register_pre("log pre");
    h.register_post("log post");
    h.register_pre("second");
    assert_eq!(h.pre(), &vec!["log pre".to_string(), "second".to_string()]);
    assert_eq!(h.post(), &vec!["log post".to_string()]);
    let mut s = IntentSender::new("/run/taihao-os/comm-center.sock");
    assert_eq!(s.count(), 0);
    s.record_sent();
    s.record_sent();
    assert_eq!(s.count(), 2);
    assert_eq!(s.sock_path(), "/run/taihao-os/comm-center.sock");
}

#[test]
fn intent_sent_when_approved_counted_when_written() {
    let key = public_key();
    let mut reg = SkillRegistry::new();
    reg.insert(signed_skill("survey"));
    reg.insert(runtime_skill("rogue", "AAAA"));
    let approved = plan_tick(&reg, &key, "skill:survey");
    let denied = plan_tick(&reg, &key, "skill:rogue");
    assert_eq!(intent_to_send(&approved), Some("survey".to_string()));
    assert_eq!(intent_to_send(&denied), None);
    let mut s = IntentSender::new("/run/taihao-os/comm-center.sock");
    assert_eq!(finish_tick(&mut s, "ack", &approved, true), "ack [skill=survey,decision=approved,intents=1]");
    assert_eq!(finish_tick(&mut s, "ack", &approved, false), "ack [skill=survey,decision=approved,intents=1]");
    assert_eq!(finish_tick(&mut s, "no", &denied, false), "no [skill=rogue,decision=denied,intents=1]");
    assert_eq!(s.count(), 1);
    assert_eq!(s.sock_path(), "/run/taihao-os/comm-center.sock");
}

#[test]
fn completion_from_openai_reply() {
    let r = completion_from_reply(&vec!["first".to_string(), "second".to_string()], Some(3), None, Some(7));
    assert_eq!(r.content, "first");
    assert_eq!(r.usage, vec![("prompt_tokens".to_string(), 3), ("total_tokens".to_string(), 7)]);
    let empty = completion_from_reply(&vec![], None, Some(2), None);
    assert_eq!(empty.content, "");
    assert_eq!(empty.usage, vec![("completion_tokens".to_string(), 2)]);
}

#[test]
fn common_paths() {
    assert_eq!(paths::config_dir(), "/etc/taihao-os");
    assert_eq!(paths::skills_system(), "/usr/share/taihao-os/skills");
    assert_eq!(paths::skills_vendor(), "/etc/taihao-os/skills");
    assert_eq!(paths::state(), "/var/lib/taihao-os");
    assert_eq!(paths::logs(), "/var/log/taihao-os");
}

#[test]
fn registry_sorted_and_listed_as_json() {
    let a = assemble_skill(meta("zone-partition"), "b", "/s/z.md".to_string()).unwrap();
    let b = assemble_skill(meta("fault-recovery"), "b", "/s/f.md".to_string()).unwrap();
    let registry = Registry::from_loaded(vec![a, b], vec![("/s/x.md".to_string(), "bad".to_string())]);
    assert_eq!(registry.skills[0].meta.name, "fault-recovery");
    assert_eq!(registry.skipped.len(), 1);
    let json = skills_to_json(&registry);
    assert!(json.starts_with("{\n  \"skills\": [\n    {\n"));
    assert!(json.contains("\"name\": \"fault-recovery\""));
    assert!(json.contains("\"security_level\": \"L2\""));
    assert!(json.find("fault-recovery").unwrap() < json.find("zone-partition").unwrap());
}

#[test]
fn state_and_request_of_a_round() {
    assert_eq!(state_text(None), "默认状态：无状态输入文件，模式 idle");
    assert_eq!(state_text(Some(Ok("  depth 3m \n".to_string()))), "depth 3m");
    assert_eq!(state_text(Some(Err("missing".to_string()))), "状态读取失败: missing（使用默认状态 idle）");
    let cfg = test_cfg();
    let registry = Registry { skills: vec![], skipped: vec![] };
    let req = decision_request(&registry, &cfg, "s");
    assert_eq!(req.system, build_system_prompt(&registry, &cfg));
    assert_eq!(req.user, build_user_prompt("s", &cfg));
}

#[test]
fn equal_names_keep_loading_order() {
    let ext = |name: &str, tool: &str| ExtensionMeta {
        name: name.to_string(),
        tools: vec![ExtensionTool { name: tool.to_string() }],
    };
    let set = ExtensionSet::from_loaded(vec![ext("b", "first"), ext("a", "x"), ext("b", "second"), ext("b", "third")]);
    assert_eq!(
        set.tool_names(),
        vec!["x".to_string(), "first".to_string(), "second".to_string(), "third".to_string()]
    );
    let s1 = assemble_skill(meta("same"), "one", "/1".to_string()).unwrap();
    let s2 = assemble_skill(meta("same"), "two", "/2".to_string()).unwrap();
    let s0 = assemble_skill(meta("early"), "zero", "/0".to_string()).unwrap();
    let registry = Registry::from_loaded(vec![s1, s2, s0], vec![]);
    let paths: Vec<&str> = registry.skills.iter().map(|s| s.path.as_str()).collect();
    assert_eq!(paths, vec!["/0", "/1", "/2"]);
}

#[test]
fn example_skill_package_accepted() {
    let content = "---\nname: emergency-avoidance\nversion: 0.1.0\nsecurity_level: L1\ndescription: |\n  紧急避险 SKILL：感知碰撞 / 缠绕 / 低电 / 严重传感器异常时\n  立即触发保护动作（停机 / 悬停 / 脱离作业区 / 上浮）。\nauthor: taihao-team\n---\n\n# 紧急避险 (Emergency Avoidance)\r\n\r\n正文\n";
    let (fm, body) = split_frontmatter(content).unwrap();
    assert!(fm.starts_with("name: emergency-avoidance\n"));
    assert!(fm.ends_with("author: taihao-team"));
    assert_eq!(body, "\n# 紧急避险 (Emergency Avoidance)\n\n正文");
    assert_frontmatter_safe(&fm).unwrap();
    let nested = "name: a\nversion: 0.1.0\nsecurity_level: L1\ndescription:\n  nested: map";
    assert_eq!(assert_frontmatter_safe(nested).unwrap_err(), "frontmatter 字段 description 必须是字符串");
    assert_eq!(assert_frontmatter_safe("- a\n- b").unwrap_err(), "frontmatter 必须是映射");
    assert_eq!(split_frontmatter("x\n---\n").unwrap_err(), "缺少 frontmatter 起始定界符 ---");
    assert_eq!(split_frontmatter("---\na: b\n").unwrap_err(), "缺少 frontmatter 结束定界符 ---");
}
