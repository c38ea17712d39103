use std::cell::RefCell;
use std::collections::VecDeque;
use std::time::Duration;

use taihao::comm_config::{Config, RouteDef};
use taihao::dispatcher::{keeps_receiving, Dispatcher, RouteAction};
use taihao::health::{decimal_text, json_http_response};
use taihao::numparse::{parse_bounded, parse_u16};
use taihao::link_stats::{parse_broker_url, route_target, BusTarget, EnvelopeKind, LinkState, LinkStats};
use taihao::links::{
    frame, mqtt_topic, parse_events_body, parse_mesh_datagram, unframe_message, HealthState, Link,
    SseHttpLink, WsAdapter,
};

/// A link for the tests: a fixed name, scripted send results and queued messages.
struct ScriptedLink {
    name: String,
    send_ok: bool,
    recv_fails: bool,
    inbox: RefCell<VecDeque<(String, String)>>,
    sent: RefCell<Vec<(String, String)>>,
}

impl ScriptedLink {
    fn new(name: &str, send_ok: bool) -> ScriptedLink {
        ScriptedLink {
            name: name.to_string(),
            send_ok,
            recv_fails: false,
            inbox: RefCell::new(VecDeque::new()),
            sent: RefCell::new(Vec::new()),
        }
    }
}

impl Link for ScriptedLink {
    fn name(&self) -> String {
        self.name.clone()
    }

    fn healthy(&self) -> bool {
        true
    }

    fn send(&self, topic: &str, payload: &str) -> Result<(), String> {
        self.sent.borrow_mut().push((topic.to_string(), payload.to_string()));
        if self.send_ok {
            Ok(())
        } else {
            Err("connection refused".to_string())
        }
    }

    fn recv(&self, _timeout_ms: u64) -> Result<Option<(String, String)>, String> {
        if self.recv_fails {
            return Err("unreachable".to_string());
        }
        Ok(self.inbox.borrow_mut().pop_front())
    }
}

fn test_config() -> Config {
    let mut cfg = Config::default();
    cfg.fail_threshold = 2;
    cfg
}

fn unreachable_remote() -> ScriptedLink {
    let mut l = ScriptedLink::new("remote-sse", false);
    l.recv_fails = true;
    l
}

#[test]
fn defaults() {
    let cfg = Config::default();
    assert_eq!(cfg.remote_proto, "sse_http");
    assert_eq!(cfg.fail_threshold, 3);
}

#[test]
fn default_config_values() {
    let cfg = Config::default();
    assert_eq!(cfg.remote_endpoint, "http://127.0.0.1:9000");
    assert_eq!(cfg.topic_prefix, "taihao/");
    assert_eq!(cfg.mesh_port, 41800);
    assert_eq!(cfg.health_check_secs, 5);
    assert_eq!(cfg.status_report_secs, 10);
}

#[test]
fn find_route_takes_first_prefix_match() {
    let mut cfg = Config::default();
    cfg.routes = vec![
        RouteDef { topic: "task".to_string(), action: "builtin:report".to_string() },
        RouteDef { topic: "ota".to_string(), action: "script:/usr/bin/taihao-ota".to_string() },
        RouteDef { topic: "task/9".to_string(), action: "script:never".to_string() },
    ];
    assert_eq!(cfg.find_route("task/123").unwrap().action, "builtin:report");
    assert_eq!(cfg.find_route("task/9").unwrap().action, "builtin:report");
    assert_eq!(cfg.find_route("ota/1").unwrap().action, "script:/usr/bin/taihao-ota");
    assert!(cfg.find_route("unknown").is_none());
}

#[test]
fn health_state_tracks_failures() {
    let mut h = HealthState::new(true);
    assert!(h.is_enabled());
    h.record_failure();
    h.record_failure();
    assert_eq!(h.failures(), 2);
    h.record_success();
    assert_eq!(h.failures(), 0);
}

#[test]
fn health_state_enable_flag() {
    let mut h = HealthState::new(false);
    assert!(!h.is_enabled());
    h.record_failure();
    h.set_enabled(true);
    assert!(h.is_enabled());
    assert_eq!(h.failures(), 1);
}

#[test]
fn failover_switches_to_mesh_after_threshold() {
    let remote = unreachable_remote();
    let mesh = ScriptedLink::new("mesh", true);
    let mut d = Dispatcher::new(remote, mesh, test_config());
    assert!(d.current_primary_is_remote);
    for _ in 0..2 {
        let _ = d.send("status", "{}");
    }
    assert!(d.maybe_failover());
    assert!(!d.current_primary_is_remote);
}

#[test]
fn no_failover_below_threshold() {
    let remote = unreachable_remote();
    let mesh = ScriptedLink::new("mesh", true);
    let mut d = Dispatcher::new(remote, mesh, test_config());
    let _ = d.send("status", "{}");
    assert!(!d.maybe_failover());
}

#[test]
fn failback_to_remote_after_mesh_failures() {
    let remote = ScriptedLink::new("remote-sse", true);
    let mesh = ScriptedLink::new("mesh", false);
    let mut d = Dispatcher::new(remote, mesh, test_config());
    d.current_primary_is_remote = false;
    assert_eq!(d.send("status", "{}"), Err("connection refused".to_string()));
    assert!(!d.maybe_failover());
    let _ = d.send("status", "{}");
    assert_eq!(d.backup_health.failures(), 2);
    assert!(d.maybe_failover());
    assert!(d.current_primary_is_remote);
}

#[test]
fn send_goes_to_active_link_and_success_resets() {
    let remote = ScriptedLink::new("remote-sse", true);
    let mesh = ScriptedLink::new("mesh", true);
    let mut d = Dispatcher::new(remote, mesh, test_config());
    d.record_outcome(true, false);
    assert_eq!(d.primary_health.failures(), 1);
    assert_eq!(d.send("status", "{\"v\":1}"), Ok(()));
    assert_eq!(d.primary_health.failures(), 0);
    assert_eq!(d.primary.sent.borrow().len(), 1);
    assert_eq!(d.backup.sent.borrow().len(), 0);
    assert_eq!(d.active_link().name(), "remote-sse");
}

#[test]
fn primary_counter_follows_the_active_link_not_its_name() {
    let ws = ScriptedLink::new("ws", false);
    let mqtt = ScriptedLink::new("mqtt", false);
    let mut d = Dispatcher::new(ws, mqtt, test_config());
    assert!(d.send("status", "{}").is_err());
    assert!(d.send("status", "{}").is_err());
    assert_eq!(d.primary_health.failures(), 2);
    assert_eq!(d.backup_health.failures(), 0);
    assert!(d.maybe_failover());
    assert!(!d.current_primary_is_remote);
    assert!(d.send("status", "{}").is_err());
    assert_eq!(d.backup_health.failures(), 1);
    assert_eq!(d.primary_health.failures(), 2);
    assert_eq!(d.backup.sent.borrow().len(), 1);
}

#[test]
fn remote_endpoint_override() {
    let mut cfg = Config::default();
    let before = cfg.remote_endpoint.clone();
    assert_eq!(cfg.override_endpoint(None), None);
    assert_eq!(cfg.override_endpoint(Some(String::new())), None);
    assert_eq!(cfg.remote_endpoint, before);
    assert_eq!(
        cfg.override_endpoint(Some("http://10.0.0.9:9000".to_string())),
        Some("REMOTE_ENDPOINT 环境变量覆盖 remote_endpoint: http://10.0.0.9:9000".to_string())
    );
    assert_eq!(cfg.remote_endpoint, "http://10.0.0.9:9000");
}

#[test]
fn poll_round_charges_each_link_by_position() {
    let mut ws = ScriptedLink::new("ws", true);
    ws.recv_fails = true;
    let mqtt = ScriptedLink::new("mqtt", true);
    mqtt.inbox.borrow_mut().push_back(("t".to_string(), "p".to_string()));
    let mut d = Dispatcher::new(ws, mqtt, test_config());
    assert_eq!(d.poll_links(), Some(("t".to_string(), "p".to_string())));
    assert_eq!(d.primary_health.failures(), 1);
    assert_eq!(d.backup_health.failures(), 0);
}

#[test]
fn receive_loop_decision() {
    assert!(keeps_receiving(false, 1, false));
    assert!(!keeps_receiving(true, 1, false));
    assert!(!keeps_receiving(false, 1, true));
    assert!(!keeps_receiving(false, u64::MAX, false));
}

#[test]
fn zero_threshold_counts_as_one() {
    let remote = unreachable_remote();
    let mesh = ScriptedLink::new("mesh", true);
    let mut cfg = Config::default();
    cfg.fail_threshold = 0;
    let mut d = Dispatcher::new(remote, mesh, cfg);
    let _ = d.send("status", "{}");
    assert!(d.maybe_failover());
}

#[test]
fn route_builtin_report() {
    let d = Dispatcher::new(unreachable_remote(), ScriptedLink::new("mesh", true), test_config());
    match d.plan_route("task/1", "{\"a\":1}") {
        Ok(RouteAction::Report(t)) => assert_eq!(t, "report:{\"a\":1}"),
        _ => panic!("expected a report"),
    }
    assert!(d.plan_route("unknown", "{}").is_err());
}

#[test]
fn route_script_quotes_payload() {
    let mut cfg = test_config();
    cfg.routes = vec![RouteDef { topic: "echo".to_string(), action: "script:echo".to_string() }];
    let d = Dispatcher::new(unreachable_remote(), ScriptedLink::new("mesh", true), cfg);
    match d.plan_route("echo/1", "it's") {
        Ok(RouteAction::Script(c)) => assert_eq!(c, "echo 'it'\\''s'"),
        _ => panic!("expected a script"),
    }
}

#[test]
fn route_unknown_action_refused() {
    let mut cfg = test_config();
    cfg.routes = vec![RouteDef { topic: "x".to_string(), action: "launch".to_string() }];
    let d = Dispatcher::new(unreachable_remote(), ScriptedLink::new("mesh", true), cfg);
    match d.plan_route("x/1", "{}") {
        Err(e) => assert_eq!(e, "未知动作: launch"),
        _ => panic!("expected a refusal"),
    }
    match d.plan_route("nothing", "{}") {
        Err(e) => assert_eq!(e, "无路由匹配: nothing"),
        _ => panic!("expected a refusal"),
    }
}

#[test]
fn recv_picks_any_link_message() {
    let remote = unreachable_remote();
    let mesh = ScriptedLink::new("mesh", true);
    mesh.inbox.borrow_mut().push_back(("status".to_string(), "ok".to_string()));
    let mut d = Dispatcher::new(remote, mesh, test_config());
    let msg = d.recv(Duration::from_millis(3000));
    assert!(msg.is_some());
    assert_eq!(msg.unwrap(), ("status".to_string(), "ok".to_string()));
    assert_eq!(d.primary_health.failures(), 1);
}

#[test]
fn recv_timeout_returns_none() {
    let remote = unreachable_remote();
    let mesh = ScriptedLink::new("mesh", true);
    let mut d = Dispatcher::new(remote, mesh, test_config());
    assert_eq!(d.recv(Duration::from_millis(200)), None);
    assert!(!d.current_primary_is_remote);
}

#[test]
fn recv_zero_timeout_still_polls_both_links() {
    let remote = unreachable_remote();
    let mesh = ScriptedLink::new("mesh", true);
    mesh.inbox.borrow_mut().push_back(("a".to_string(), "1".to_string()));
    let mut d = Dispatcher::new(remote, mesh, test_config());
    assert_eq!(d.recv(Duration::from_millis(0)), Some(("a".to_string(), "1".to_string())));
    assert_eq!(d.recv(Duration::from_millis(0)), None);
    assert_eq!(d.primary_health.failures(), 2);
    assert!(!d.current_primary_is_remote);
}

#[test]
fn poll_round_primary_message_skips_backup() {
    let remote = ScriptedLink::new("remote-sse", true);
    remote.inbox.borrow_mut().push_back(("r".to_string(), "1".to_string()));
    let mesh = ScriptedLink::new("mesh", true);
    mesh.inbox.borrow_mut().push_back(("m".to_string(), "2".to_string()));
    let mut d = Dispatcher::new(remote, mesh, test_config());
    assert_eq!(d.poll_links(), Some(("r".to_string(), "1".to_string())));
    assert_eq!(d.backup.inbox.borrow().len(), 1);
    assert_eq!(d.poll_links(), Some(("m".to_string(), "2".to_string())));
}

#[test]
fn poll_round_without_message_fails_over() {
    let remote = unreachable_remote();
    let mesh = ScriptedLink::new("mesh", true);
    let mut d = Dispatcher::new(remote, mesh, test_config());
    assert_eq!(d.poll_links(), None);
    assert!(d.current_primary_is_remote);
    assert_eq!(d.poll_links(), None);
    assert!(!d.current_primary_is_remote);
}

#[test]
fn frame_roundtrip_hello_world() {
    let text = frame("hello", "world");
    assert_eq!(text, "hello\nworld");
    assert_eq!(parse_mesh_datagram(&text), ("hello".to_string(), "world".to_string()));
    assert_eq!(parse_mesh_datagram("no newline"), ("raw".to_string(), "no newline".to_string()));
    assert_eq!(unframe_message("a\nb\nc", "x"), ("a".to_string(), "b\nc".to_string()));
}

#[test]
fn events_body_parsing() {
    assert_eq!(parse_events_body("  \n "), None);
    assert_eq!(parse_events_body("event\nok"), Some(("event".to_string(), "ok".to_string())));
    assert_eq!(parse_events_body("plain"), Some(("event".to_string(), "plain".to_string())));
}

#[test]
fn link_urls_and_topics() {
    let l = SseHttpLink::new("http://host:9000//".to_string(), "taihao/".to_string());
    assert_eq!(l.name_, "remote-sse");
    assert_eq!(l.report_url("status"), "http://host:9000/report/status");
    assert_eq!(l.events_url(), "http://host:9000/events/taihao");
    let w = WsAdapter::new("ws://h/ws", "p/");
    assert_eq!(w.name_, "remote-ws");
    assert_eq!(mqtt_topic("fleet/a/", "status"), "fleet/a/status");
}

#[test]
fn link_stats_switch_counted_once() {
    let mut s = LinkStats::default();
    s.mark_primary_failure();
    assert_eq!(s.primary.state, LinkState::Up);
    assert_eq!(s.auto_switches, 0);
    s.mark_primary_failure();
    assert_eq!(s.primary.state, LinkState::Down);
    assert_eq!(s.auto_switches, 1);
    s.mark_primary_failure();
    assert_eq!(s.auto_switches, 1);
    assert_eq!(s.failures, 3);
    s.mark_primary_ok();
    assert_eq!(s.primary.state, LinkState::Up);
    assert_eq!(s.primary.consecutive_failures, 0);
}

#[test]
fn link_stats_secondary_and_counters() {
    let mut s = LinkStats::default();
    s.mark_secondary_failure();
    assert_eq!(s.secondary.state, LinkState::Up);
    assert_eq!(s.failures, 0);
    s.mark_secondary_failure();
    assert_eq!(s.secondary.state, LinkState::Down);
    assert_eq!(s.failures, 1);
    s.mark_secondary_ok();
    assert_eq!(s.secondary.state, LinkState::Up);
    s.record_rx();
    s.record_tx();
    s.record_tx();
    assert_eq!((s.rx_msgs, s.tx_msgs), (1, 2));
}

#[test]
fn link_stats_snapshot_json() {
    let mut s = LinkStats::default();
    s.record_rx();
    s.mark_primary_failure();
    s.mark_primary_failure();
    assert_eq!(
        s.snapshot(),
        "{\"auto_switches\":1,\"backup\":\"up\",\"failures\":2,\"primary\":\"down\",\"rx_msgs\":1,\"secondary\":\"up\",\"tx_msgs\":0}"
    );
    assert!(s.ws_frame().starts_with("data: {\"auto_switches\":1"));
    assert!(s.sse_reply().contains("event: state\ndata: {"));
    assert_eq!(LinkState::Down.as_str(), "down");
}

#[test]
fn envelope_routing() {
    assert_eq!(route_target(EnvelopeKind::Intent), Some(BusTarget::RtLoop));
    assert_eq!(route_target(EnvelopeKind::HalCall), Some(BusTarget::HalGateway));
    assert_eq!(route_target(EnvelopeKind::Audit), None);
    assert_eq!(route_target(EnvelopeKind::StateReport), None);
}

#[test]
fn broker_url_parsing() {
    assert_eq!(parse_broker_url("mqtt://10.0.0.2:1884"), ("10.0.0.2".to_string(), 1884));
    assert_eq!(parse_broker_url("tcp://broker"), ("broker".to_string(), 1883));
    assert_eq!(parse_broker_url("broker:notaport"), ("broker".to_string(), 1883));
    assert_eq!(parse_broker_url("broker:+42"), ("broker".to_string(), 42));
    assert_eq!(parse_broker_url("broker:70000"), ("broker".to_string(), 1883));
}

#[test]
fn decimal_and_http_reply() {
    assert_eq!(decimal_text(0), "0");
    assert_eq!(decimal_text(1234567890), "1234567890");
    assert_eq!(decimal_text(u64::MAX), u64::MAX.to_string());
    assert_eq!(parse_bounded(&decimal_text(98765), u64::MAX), Some(98765));
    assert_eq!(parse_u16(&decimal_text(65535)), Some(65535));
    assert_eq!(parse_u16(&decimal_text(65536)), None);
    let r = json_http_response("{\"a\":\"é\"}\n");
    assert_eq!(
        r,
        "HTTP/1.1 200 OK\r\nContent-Type: application/json\r\nContent-Length: 11\r\nConnection: close\r\n\r\n{\"a\":\"é\"}\n"
    );
}

#[test]
fn status_json_pretty() {
    let d = Dispatcher::new(unreachable_remote(), ScriptedLink::new("mesh", true), test_config());
    assert_eq!(
        d.status_json(),
        "{\n  \"active_primary\": \"remote\",\n  \"fail_threshold\": 2,\n  \"mesh_failures\": 0,\n  \"remote_failures\": 0\n}"
    );
}
