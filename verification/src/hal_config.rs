//! HAL gateway configuration (`/etc/taihao-os/hal-gateway.toml`).
//!
//! The whitelist is a hard boundary: unregistered tools are always refused, and
//! the parameter names of a registered tool are whitelisted too.
use vstd::prelude::*;
use crate::text::{index_of_text, lemma_index_of_text, text_eq};

verus! {

/// A registered tool.
#[derive(Debug, Clone)]
pub struct ToolDef {
    /// Tool name (the identifier a SKILL calls).
    pub name: String,
    /// Driver kind (`mock` by default; spidev / i2c / pwm / serial / can / v4l2 are
    /// slots for real drivers).
    pub driver: String,
    /// Allowed parameter names (whitelist; others are refused).
    pub args: Vec<String>,
    /// Security level: L1 emergency protection, L2 regular control, L3 queries.
    pub level: String,
}

pub fn default_driver() -> (r: String)
    ensures
        r@ == "mock"@,
{
    String::from_str("mock")
}

pub fn default_level() -> (r: String)
    ensures
        r@ == "L2"@,
{
    String::from_str("L2")
}

/// Settings of the HAL gateway.
#[derive(Debug, Clone)]
pub struct Config {
    /// Audit log path.
    pub audit_log: String,
    /// Service mode: request directory (JSON file protocol).
    pub request_dir: String,
    /// Service mode: response directory.
    pub response_dir: String,
    /// Service mode: poll interval (milliseconds).
    pub poll_ms: u64,
    /// Tool whitelist.
    pub tools: Vec<ToolDef>,
}

pub fn default_audit_log() -> (r: String)
    ensures
        r@ == "/var/log/taihao-os/hal-audit.log"@,
{
    String::from_str("/var/log/taihao-os/hal-audit.log")
}

pub fn default_request_dir() -> (r: String)
    ensures
        r@ == "/var/lib/taihao-os/hal-gateway/requests"@,
{
    String::from_str("/var/lib/taihao-os/hal-gateway/requests")
}

pub fn default_response_dir() -> (r: String)
    ensures
        r@ == "/var/lib/taihao-os/hal-gateway/responses"@,
{
    String::from_str("/var/lib/taihao-os/hal-gateway/responses")
}

pub fn default_poll_ms() -> (r: u64)
    ensures
        r == 200,
{
    200
}

/// Names of the tools, in order.
pub open spec fn tool_names(tools: Seq<ToolDef>) -> Seq<Seq<char>> {
    tools.map_values(|t: ToolDef| t.name@)
}

/// Names of some strings.
pub open spec fn texts(v: Seq<String>) -> Seq<Seq<char>> {
    v.map_values(|s: String| s@)
}

fn tool(name: &str, args: Vec<String>, level: &str) -> (t: ToolDef)
    ensures
        t.name@ == name@,
        t.driver@ == "mock"@,
        t.args == args,
        t.level@ == level@,
{
    ToolDef {
        name: String::from_str(name),
        driver: String::from_str("mock"),
        args,
        level: String::from_str(level),
    }
}

impl Default for Config {
    fn default() -> (c: Config)
        ensures
            c.audit_log@ == "/var/log/taihao-os/hal-audit.log"@,
            c.request_dir@ == "/var/lib/taihao-os/hal-gateway/requests"@,
            c.response_dir@ == "/var/lib/taihao-os/hal-gateway/responses"@,
            c.poll_ms == 200,
            tool_names(c.tools@) == seq![
                "thruster_set"@,
                "thruster_emergency_stop"@,
                "buoyancy_set"@,
                "sensor_read"@,
            ],
            forall|i: int| 0 <= i < c.tools@.len() ==> (#[trigger] c.tools@[i]).driver@ == "mock"@,
            texts(c.tools@[0].args@) == seq!["power"@, "channel"@],
            c.tools@[1].args@.len() == 0,
            texts(c.tools@[2].args@) == seq!["volume"@],
            texts(c.tools@[3].args@) == seq!["sensor"@],
            c.tools@[0].level@ == "L2"@,
            c.tools@[1].level@ == "L1"@,
            c.tools@[2].level@ == "L1"@,
            c.tools@[3].level@ == "L3"@,
    {
        let mut a0: Vec<String> = Vec::new();
        a0.push(String::from_str("power"));
        a0.push(String::from_str("channel"));
        let mut a2: Vec<String> = Vec::new();
        a2.push(String::from_str("volume"));
        let mut a3: Vec<String> = Vec::new();
        a3.push(String::from_str("sensor"));
        let mut tools: Vec<ToolDef> = Vec::new();
        tools.push(tool("thruster_set", a0, "L2"));
        tools.push(tool("thruster_emergency_stop", Vec::new(), "L1"));
        tools.push(tool("buoyancy_set", a2, "L1"));
        tools.push(tool("sensor_read", a3, "L3"));
        let c = Config {
            audit_log: default_audit_log(),
            request_dir: default_request_dir(),
            response_dir: default_response_dir(),
            poll_ms: default_poll_ms(),
            tools,
        };
        proof {
            assert(tool_names(c.tools@) =~= seq![
                "thruster_set"@,
                "thruster_emergency_stop"@,
                "buoyancy_set"@,
                "sensor_read"@,
            ]);
            assert(texts(c.tools@[0].args@) =~= seq!["power"@, "channel"@]);
            assert(texts(c.tools@[2].args@) =~= seq!["volume"@]);
            assert(texts(c.tools@[3].args@) =~= seq!["sensor"@]);
        }
        c
    }
}

impl Config {
    /// The first registered tool called `name`.
    pub fn find_tool(&self, name: &str) -> (r: Option<&ToolDef>)
        ensures
            r is None <==> index_of_text(tool_names(self.tools@), name@) < 0,
            r matches Some(t) ==> *t == self.tools@[index_of_text(tool_names(self.tools@), name@)],
    {
        let ghost names = tool_names(self.tools@);
        let n = self.tools.len();
        let mut i: usize = 0;
        while i < n
            invariant
                n == self.tools@.len(),
                names == tool_names(self.tools@),
                i <= n,
                forall|j: int| 0 <= j < i ==> names[j] != name@,
            decreases n - i,
        {
            if text_eq(self.tools[i].name.as_str(), name) {
                proof {
                    lemma_index_of_text(names, name@, i as int);
                }
                return Some(&self.tools[i]);
            }
            i = i + 1;
        }
        proof {
            lemma_index_of_text(names, name@, -1);
        }
        None
    }
}

/// Runtime paths of the gateway.
pub struct Paths {
    pub audit_log: String,
    pub request_dir: String,
    pub response_dir: String,
}

impl Paths {
    /// The paths named by a configuration.
    pub fn from_config(c: &Config) -> (p: Paths)
        ensures
            p.audit_log@ == c.audit_log@,
            p.request_dir@ == c.request_dir@,
            p.response_dir@ == c.response_dir@,
    {
        Paths {
            audit_log: c.audit_log.clone(),
            request_dir: c.request_dir.clone(),
            response_dir: c.response_dir.clone(),
        }
    }
}

} // verus!
