use taihao::control::{is_emergency, map_mode};
use taihao::rt_config::{Config, Paths};
use taihao::rt_service::{heartbeat_due, period_us, LoopState};

#[test]
fn defaults_are_sane() {
    let cfg = Config::default();
    assert_eq!(cfg.frequency_hz, 50);
    assert!(cfg.allowed_modes.contains(&"emergency_stop".to_string()));
}

#[test]
fn default_rt_paths() {
    let cfg = Config::default();
    let p = Paths::from_config(&cfg);
    assert_eq!(p.decision, "/var/lib/taihao-os/pi-agent/decision.json");
    assert_eq!(p.actuator, "/var/lib/taihao-os/rt-loop/actuator.json");
    assert_eq!(p.loop_state, "/var/lib/taihao-os/rt-loop/loop-state.json");
    assert!(p.state.is_none());
    assert_eq!(cfg.allowed_modes.len(), 6);
}

#[test]
fn emergency_stop_halts() {
    let cmd = map_mode("emergency_stop", None);
    assert_eq!(cmd.thruster_power, 0);
    assert_eq!(cmd.thruster_direction, "halt");
}

#[test]
fn emergency_surface_buoyancy() {
    let cmd = map_mode("emergency_surface", None);
    assert_eq!(cmd.buoyancy_delta, 60);
}

#[test]
fn unknown_mode_falls_to_idle() {
    let cmd = map_mode("hacked_mode", None);
    assert_eq!(cmd, map_mode("idle", None));
}

#[test]
fn mode_table_rows() {
    let a = map_mode("emergency_avoidance", Some("north"));
    assert_eq!((a.thruster_power, a.thruster_direction.as_str(), a.buoyancy_delta), (30, "veer", 0));
    let r = map_mode("return", None);
    assert_eq!((r.thruster_power, r.thruster_direction.as_str(), r.buoyancy_delta), (70, "reverse", 10));
    let s = map_mode("survey", Some("zone-3"));
    assert_eq!((s.thruster_power, s.thruster_direction.as_str(), s.buoyancy_delta), (50, "forward", 0));
    assert_eq!(map_mode("survey", None), s);
}

#[test]
fn emergency_flag() {
    assert!(is_emergency("emergency_stop"));
    assert!(!is_emergency("survey"));
}

#[test]
fn loop_counters_and_health() {
    let mut s = LoopState::new();
    s.record_cycle(120);
    s.record_cycle(95);
    s.record_intent();
    assert_eq!((s.cycles, s.intents_processed, s.last_period_us), (2, 1, 95));
    assert_eq!(s.health_body(50), "{\"cycles\":2,\"intents\":1,\"hz\":50}\n");
}

#[test]
fn loop_period_and_heartbeat() {
    assert_eq!(period_us(50), 20_000);
    assert_eq!(period_us(3), 333_333);
    assert!(heartbeat_due(250, 50));
    assert!(!heartbeat_due(251, 50));
    assert!(heartbeat_due(0, 7));
}
