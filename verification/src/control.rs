//! Mode to actuator command mapping of the real-time loop.
//!
//! Emergency modes (`emergency_*`) take effect in the current cycle; the table
//! is a hard-coded boundary that does not change with the language model's
//! output, and every unknown mode maps to idle.
use vstd::prelude::*;
use crate::text::{has_prefix, starts_with, text_eq};

verus! {

/// A decision handed down by the agent.
#[derive(Debug, Clone)]
pub struct Decision {
    pub timestamp: u64,
    pub mode: String,
    pub target: Option<String>,
    pub rationale: String,
}

/// Actuator command: thruster power and direction, buoyancy change.
#[derive(Debug, Clone)]
pub struct ActuatorCmd {
    pub thruster_power: u8,
    pub thruster_direction: String,
    pub buoyancy_delta: i8,
}

impl PartialEq for ActuatorCmd {
    fn eq(&self, other: &Self) -> (r: bool) {
        self.thruster_power == other.thruster_power && self.thruster_direction
            == other.thruster_direction && self.buoyancy_delta == other.buoyancy_delta
    }
}

impl vstd::std_specs::cmp::PartialEqSpecImpl for ActuatorCmd {
    open spec fn obeys_eq_spec() -> bool {
        true
    }

    open spec fn eq_spec(&self, other: &Self) -> bool {
        self.thruster_power == other.thruster_power && self.thruster_direction@
            == other.thruster_direction@ && self.buoyancy_delta == other.buoyancy_delta
    }
}

/// The command table: (power, direction, buoyancy change) for each mode.
pub open spec fn command_for(mode: Seq<char>) -> (u8, Seq<char>, i8) {
    if mode == "emergency_stop"@ {
        (0, "halt"@, 0)
    } else if mode == "emergency_surface"@ {
        (0, "halt"@, 60)
    } else if mode == "emergency_avoidance"@ {
        (30, "veer"@, 0)
    } else if mode == "return"@ {
        (70, "reverse"@, 10)
    } else if mode == "survey"@ {
        (50, "forward"@, 0)
    } else {
        (0, "idle"@, 0)
    }
}

fn cmd(power: u8, direction: &str, buoyancy: i8) -> (c: ActuatorCmd)
    ensures
        c.thruster_power == power,
        c.thruster_direction@ == direction@,
        c.buoyancy_delta == buoyancy,
{
    ActuatorCmd {
        thruster_power: power,
        thruster_direction: String::from_str(direction),
        buoyancy_delta: buoyancy,
    }
}

/// Maps a mode to its actuator command; the target does not change it.
pub fn map_mode(mode: &str, target: Option<&str>) -> (c: ActuatorCmd)
    ensures
        (c.thruster_power, c.thruster_direction@, c.buoyancy_delta) == command_for(mode@),
{
    if text_eq(mode, "emergency_stop") {
        cmd(0, "halt", 0)
    } else if text_eq(mode, "emergency_surface") {
        cmd(0, "halt", 60)
    } else if text_eq(mode, "emergency_avoidance") {
        cmd(30, "veer", 0)
    } else if text_eq(mode, "return") {
        cmd(70, "reverse", 10)
    } else if text_eq(mode, "survey") {
        cmd(50, "forward", 0)
    } else {
        cmd(0, "idle", 0)
    }
}

/// Emergency modes take effect at once.
pub open spec fn emergency(mode: Seq<char>) -> bool {
    has_prefix(mode, "emergency_"@)
}

pub fn is_emergency(mode: &str) -> (r: bool)
    ensures
        r == emergency(mode@),
{
    starts_with(mode, "emergency_")
}

} // verus!
