use taihao::audit::AuditDecision;
use taihao::hal_config::{Config, Paths};
use taihao::hal_driver::{args_from, call_mock, disallowed_args};
use taihao::hal_gateway::call;
use taihao::hal_service::{handle_request, mock_hal, DeviceWhitelist, HalRequest};

fn test_cfg() -> Config {
    let mut cfg = Config::default();
    cfg.audit_log = "/tmp/hal-gateway-test/audit.log".to_string();
    cfg
}

fn request(device: &str, operation: &str) -> HalRequest {
    HalRequest {
        id: "r1".to_string(),
        actor: "skill:test".to_string(),
        device: device.to_string(),
        operation: operation.to_string(),
        params_json: "{\"k\":1}".to_string(),
    }
}

#[test]
fn default_has_core_tools() {
    let cfg = Config::default();
    assert!(cfg.find_tool("thruster_set").is_some());
    assert!(cfg.find_tool("thruster_emergency_stop").is_some());
    assert!(cfg.find_tool("nope").is_none());
}

#[test]
fn default_hal_config_values() {
    let cfg = Config::default();
    assert_eq!(cfg.tools.len(), 4);
    assert_eq!(cfg.audit_log, "/var/log/taihao-os/hal-audit.log");
    assert_eq!(cfg.find_tool("sensor_read").unwrap().level, "L3");
    assert_eq!(cfg.find_tool("thruster_set").unwrap().args, vec!["power".to_string(), "channel".to_string()]);
    let p = Paths::from_config(&cfg);
    assert_eq!(p.audit_log, cfg.audit_log);
}

#[test]
fn mock_executes() {
    let r = call_mock("mock", "thruster_set", &args_from(&[("power", "80")]));
    assert!(r.ok);
    assert!(r.detail.contains("thruster_set"));
}

#[test]
fn mock_payload_is_serialised_json() {
    let r = call_mock("pwm", "pwm_set", &args_from(&[("duty", "50"), ("channel", "1")]));
    assert!(r.ok);
    assert_eq!(
        r.detail,
        "{\"args\":{\"channel\":\"1\",\"duty\":\"50\"},\"driver\":\"pwm\",\"ok\":true,\"tool\":\"pwm_set\"}"
    );
}

#[test]
fn unknown_driver_rejected() {
    let r = call_mock("quantum", "thruster_set", &args_from(&[]));
    assert!(!r.ok);
    assert_eq!(r.detail, "未知驱动类型: quantum");
}

#[test]
fn disallowed_args_detected() {
    let allow = vec!["power".to_string()];
    let provided = args_from(&[("power", "1"), ("hack", "x")]);
    assert_eq!(disallowed_args(&allow, &provided), vec!["hack".to_string()]);
}

#[test]
fn args_from_later_pair_wins_and_keys_sorted() {
    let m = args_from(&[("b", "1"), ("a", "2"), ("b", "3")]);
    assert_eq!(m.len(), 2);
    assert_eq!(m.get("b").unwrap(), "3");
    assert_eq!(m.keys(), vec!["a".to_string(), "b".to_string()]);
}

#[test]
fn allowed_tool_executes_and_audits() {
    let cfg = test_cfg();
    let (out, entry) = call(&cfg, "skill:emergency-avoidance", "thruster_emergency_stop", &args_from(&[]), 7);
    assert!(out.allowed);
    assert!(out.result.unwrap().ok);
    assert_eq!(entry.tool, "thruster_emergency_stop");
    assert!(entry.allowed);
    assert_eq!(entry.timestamp, 7);
}

#[test]
fn unknown_tool_denied_and_audited() {
    let cfg = test_cfg();
    let (out, entry) = call(&cfg, "skill:fault-recovery", "motor_detonate", &args_from(&[]), 7);
    assert!(!out.allowed);
    assert!(out.denied_reason.unwrap().contains("白名单"));
    assert!(!entry.allowed);
    assert_eq!(entry.result, "tool not in whitelist");
}

#[test]
fn disallowed_arg_denied() {
    let cfg = test_cfg();
    let (out, entry) = call(&cfg, "skill:test", "thruster_set", &args_from(&[("power", "90"), ("hidden", "1")]), 7);
    assert!(!out.allowed);
    assert!(out.denied_reason.unwrap().contains("hidden"));
    assert_eq!(entry.result, "args not allowed: [\"hidden\"]");
    assert!(out.result.is_none());
}

#[test]
fn audit_keeps_caller() {
    let cfg = test_cfg();
    let (_, entry) = call(&cfg, "skill:zone-partition", "sensor_read", &args_from(&[("sensor", "distance")]), 7);
    assert_eq!(entry.caller, "skill:zone-partition");
    assert_eq!(entry.args.get("sensor").unwrap(), "distance");
}

#[test]
fn device_whitelist_builtin() {
    let mut wl = DeviceWhitelist::new();
    assert_eq!(wl.len(), 0);
    wl.builtin();
    assert_eq!(wl.len(), 6);
    assert!(wl.check("spi0", "read"));
    assert!(wl.check("pwm0", "set_freq"));
    assert!(wl.check("can0", "recv"));
    assert!(!wl.check("can0", "read"));
    assert!(!wl.check("usb0", "read"));
    assert_eq!(wl.health_body(), "{\"whitelisted_devices\":6}\n");
}

#[test]
fn device_whitelist_insert_replaces() {
    let mut wl = DeviceWhitelist::new();
    wl.insert("spi0".to_string(), vec!["read".to_string()]);
    wl.insert("spi0".to_string(), vec!["write".to_string()]);
    assert_eq!(wl.len(), 1);
    assert!(!wl.check("spi0", "read"));
    assert!(wl.check("spi0", "write"));
    wl.builtin();
    assert!(wl.check("spi0", "read"));
    assert_eq!(wl.len(), 6);
}

#[test]
fn whitelisted_request_answered_by_mock() {
    let mut wl = DeviceWhitelist::new();
    wl.builtin();
    let (audit, resp) = handle_request(&wl, &request("i2c0", "read"));
    assert_eq!(audit.decision, AuditDecision::Allow);
    assert_eq!(audit.action, "i2c0:read");
    assert_eq!(audit.target, "i2c0");
    assert_eq!(audit.actor, "skill:test");
    assert!(resp.ok);
    assert_eq!(resp.id, "r1");
    assert_eq!(resp.payload_json.as_deref(), Some("{\"reg\":66,\"value\":171}"));
    let echo = mock_hal(&request("uart0", "write"));
    assert_eq!(echo.payload_json.as_deref(), Some("{\"echo\":{\"k\":1}}"));
}

#[test]
fn unlisted_request_refused_and_audited() {
    let mut wl = DeviceWhitelist::new();
    wl.builtin();
    let (audit, resp) = handle_request(&wl, &request("gpio0", "erase"));
    assert_eq!(audit.decision, AuditDecision::Deny);
    assert_eq!(audit.reason.as_deref(), Some("未在白名单"));
    assert!(!resp.ok);
    assert!(resp.payload_json.is_none());
    assert_eq!(resp.error.as_deref(), Some("白名单拒绝: gpio0 / erase"));
}
