//! Real-time loop configuration (`/etc/taihao-os/rt-loop.toml`).
//!
//! The loop runs at 10 to 100 Hz; it reads the agent's decision file (targets
//! and modes at most once per second) and maps modes to actuator commands.
use vstd::prelude::*;

verus! {

/// Settings of the real-time loop.
#[derive(Debug, Clone)]
pub struct Config {
    /// Loop frequency (Hz), 10 to 100, 50 by default.
    pub frequency_hz: u64,
    /// The agent's decision file (JSON: mode/target).
    pub decision_file: String,
    /// State input file (built-in mock state when absent).
    pub state_file: Option<String>,
    /// Actuator output file (JSON).
    pub actuator_file: String,
    /// Control cycle state file (JSON).
    pub loop_state_file: String,
    /// Allowed modes (others count as illegal and fall back to idle).
    pub allowed_modes: Vec<String>,
}

pub fn default_freq() -> (r: u64)
    ensures
        r == 50,
{
    50
}

pub fn default_decision() -> (r: String)
    ensures
        r@ == "/var/lib/taihao-os/pi-agent/decision.json"@,
{
    String::from_str("/var/lib/taihao-os/pi-agent/decision.json")
}

pub fn default_actuator() -> (r: String)
    ensures
        r@ == "/var/lib/taihao-os/rt-loop/actuator.json"@,
{
    String::from_str("/var/lib/taihao-os/rt-loop/actuator.json")
}

pub fn default_loop_state() -> (r: String)
    ensures
        r@ == "/var/lib/taihao-os/rt-loop/loop-state.json"@,
{
    String::from_str("/var/lib/taihao-os/rt-loop/loop-state.json")
}

/// The six decision modes.
pub open spec fn standard_modes() -> Seq<Seq<char>> {
    seq![
        "idle"@,
        "survey"@,
        "return"@,
        "emergency_stop"@,
        "emergency_surface"@,
        "emergency_avoidance"@,
    ]
}

/// The six decision modes, in this order.
pub fn default_modes() -> (r: Vec<String>)
    ensures
        r@.map_values(|s: String| s@) == standard_modes(),
{
    let mut v: Vec<String> = Vec::new();
    v.push(String::from_str("idle"));
    v.push(String::from_str("survey"));
    v.push(String::from_str("return"));
    v.push(String::from_str("emergency_stop"));
    v.push(String::from_str("emergency_surface"));
    v.push(String::from_str("emergency_avoidance"));
    proof {
        assert(v@.map_values(|s: String| s@) =~= standard_modes());
    }
    v
}

impl Default for Config {
    fn default() -> (c: Config)
        ensures
            c.frequency_hz == 50,
            c.decision_file@ == "/var/lib/taihao-os/pi-agent/decision.json"@,
            c.state_file is None,
            c.actuator_file@ == "/var/lib/taihao-os/rt-loop/actuator.json"@,
            c.loop_state_file@ == "/var/lib/taihao-os/rt-loop/loop-state.json"@,
            c.allowed_modes@.map_values(|s: String| s@) == standard_modes(),
    {
        Config {
            frequency_hz: default_freq(),
            decision_file: default_decision(),
            state_file: None,
            actuator_file: default_actuator(),
            loop_state_file: default_loop_state(),
            allowed_modes: default_modes(),
        }
    }
}

/// Paths used by the running loop.
pub struct Paths {
    pub decision: String,
    pub actuator: String,
    pub loop_state: String,
    pub state: Option<String>,
}

impl Paths {
    /// The paths named by a configuration.
    pub fn from_config(c: &Config) -> (p: Paths)
        ensures
            p.decision@ == c.decision_file@,
            p.actuator@ == c.actuator_file@,
            p.loop_state@ == c.loop_state_file@,
            p.state is None <==> c.state_file is None,
            p.state matches Some(s) ==> c.state_file matches Some(t) && s@ == t@,
    {
        Paths {
            decision: c.decision_file.clone(),
            actuator: c.actuator_file.clone(),
            loop_state: c.loop_state_file.clone(),
            state: match &c.state_file {
                Some(s) => Some(s.clone()),
                None => None,
            },
        }
    }
}

} // verus!
