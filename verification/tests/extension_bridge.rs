use taihao::audit::AuditDecision;
use taihao::bridge::{filter_params, member_value, shell_escape, validate, ParamValue, RpcParams, RpcRequest};
use taihao::bridge_config::Config;
use taihao::bridge_service::{dispatch, handle_call, MethodReply, Whitelist};

fn text(k: &str, v: &str) -> (String, ParamValue) {
    (k.to_string(), ParamValue::Text(v.to_string()))
}

#[test]
fn validate_rejects_bad_version() {
    let req = RpcRequest {
        jsonrpc: "1.0".to_string(),
        id: "1".to_string(),
        method: "x".to_string(),
        params: None,
    };
    assert!(validate(&req).is_err());
}

#[test]
fn validate_messages() {
    let bad = RpcRequest { jsonrpc: "1.0".to_string(), id: "1".to_string(), method: "x".to_string(), params: None };
    assert_eq!(validate(&bad), Err("jsonrpc 必须为 2.0".to_string()));
    let empty = RpcRequest { jsonrpc: "2.0".to_string(), id: "1".to_string(), method: String::new(), params: None };
    assert_eq!(validate(&empty), Err("method 不能为空".to_string()));
    let good = RpcRequest { jsonrpc: "2.0".to_string(), id: "1".to_string(), method: "tools/call".to_string(), params: None };
    assert_eq!(validate(&good), Ok(()));
}

#[test]
fn filter_params_only_whitelist() {
    let params: RpcParams = Some(vec![text("allowed", "yes"), text("sneaky", "no")]);
    let filtered = filter_params(&["allowed".to_string()], &params);
    assert_eq!(filtered.len(), 1);
    assert_eq!(filtered.get("allowed").unwrap(), "yes");
}

#[test]
fn filter_params_renders_json_and_ignores_non_objects() {
    let params: RpcParams = Some(vec![
        ("n".to_string(), ParamValue::Json("42".to_string())),
        text("s", "x"),
        text("n", "later"),
    ]);
    let filtered = filter_params(&["n".to_string(), "missing".to_string()], &params);
    assert_eq!(filtered.len(), 1);
    assert_eq!(filtered.get("n").unwrap(), "42");
    assert!(!filtered.contains_key("s"));
    let none = filter_params(&["n".to_string()], &None);
    assert_eq!(none.len(), 0);
    assert_eq!(member_value(&vec![text("a", "1")], "b"), None);
}

#[test]
fn shell_escape_quotes() {
    assert_eq!(shell_escape("a'b"), "a'\\''b");
}

#[test]
fn shell_escape_plain_text_unchanged() {
    assert_eq!(shell_escape("plain text"), "plain text");
    assert_eq!(shell_escape("''"), "'\\'''\\''");
}

#[test]
fn defaults_have_tools() {
    let cfg = Config::default();
    assert!(cfg.find_tool("device_status").is_some());
    assert!(cfg.find_tool("hack").is_none());
}

#[test]
fn default_bridge_config_values() {
    let cfg = Config::default();
    assert_eq!(cfg.tools.len(), 2);
    assert_eq!(cfg.poll_ms, 200);
    assert_eq!(cfg.find_tool("report").unwrap().args, vec!["message".to_string()]);
    assert_eq!(cfg.request_dir, "/var/lib/taihao-os/extension-bridge/requests");
}

#[test]
fn whitelisted_method_dispatched_and_audited() {
    let wl = Whitelist::new();
    assert!(wl.allow("system.status"));
    let (audit, reply) = handle_call(&wl, "system.heartbeat", &None);
    assert_eq!(audit.decision, AuditDecision::Allow);
    assert_eq!(audit.actor, "extension-bridge-client");
    assert_eq!(audit.target, "json-rpc");
    assert!(audit.reason.is_none());
    assert!(matches!(reply, Ok(MethodReply::Heartbeat)));
}

#[test]
fn method_outside_whitelist_refused() {
    let wl = Whitelist::new();
    let (audit, reply) = handle_call(&wl, "system.shutdown", &None);
    assert_eq!(audit.decision, AuditDecision::Deny);
    assert_eq!(audit.action, "system.shutdown");
    assert_eq!(audit.reason.as_deref(), Some("method not whitelisted"));
    let err = reply.unwrap_err();
    assert_eq!(err.code, -32601);
    assert_eq!(err.message, "白名单拒绝: system.shutdown");
}

#[test]
fn intent_submit_echoes_intent_id() {
    let params: RpcParams = Some(vec![("intent_id".to_string(), ParamValue::Json("7".to_string()))]);
    match dispatch("intent.submit", &params) {
        Ok(MethodReply::IntentQueued(id)) => assert!(matches!(id, Some(ParamValue::Json(t)) if t == "7")),
        _ => panic!("expected a queued intent"),
    }
    let named: RpcParams = Some(vec![("intent_id".to_string(), ParamValue::Text("abc".to_string()))]);
    match dispatch("intent.submit", &named) {
        Ok(MethodReply::IntentQueued(id)) => assert!(matches!(id, Some(ParamValue::Text(t)) if t == "abc")),
        _ => panic!("expected a queued intent"),
    }
    match dispatch("intent.submit", &None) {
        Ok(MethodReply::IntentQueued(id)) => assert!(id.is_none()),
        _ => panic!("expected a queued intent"),
    }
    let err = dispatch("nope", &None).unwrap_err();
    assert_eq!(err.message, "Method not found or not whitelisted: nope");
}

#[test]
fn bridge_health_body() {
    let wl = Whitelist::new();
    assert_eq!(wl.health_body(), "{\"whitelisted_methods\":4,\"service\":\"extension-bridge\"}\n");
}
