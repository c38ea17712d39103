//! Extension bridge configuration (`/etc/taihao-os/extension-bridge.toml`).
//!
//! The tool whitelist is a hard boundary: clients may only call registered
//! tools, each bound to one extension command, with whitelisted parameters.
use vstd::prelude::*;
use crate::text::{index_of_text, lemma_index_of_text, text_eq};

verus! {

/// A registered tool.
#[derive(Debug, Clone)]
pub struct ToolDef {
    /// Tool name (JSON-RPC method, or `params.name` of `tools/call`).
    pub name: String,
    /// Extension command (run with `sh -c`; parameters injected by whitelist).
    pub command: String,
    /// Parameter names that may be injected.
    pub args: Vec<String>,
    /// Security level: L1 most privileged, L3 read-only queries.
    pub level: String,
}

pub fn default_level() -> (r: String)
    ensures
        r@ == "L2"@,
{
    String::from_str("L2")
}

/// Settings of the extension bridge.
#[derive(Debug, Clone)]
pub struct Config {
    /// Request directory (JSON-RPC file protocol).
    pub request_dir: String,
    /// Response directory.
    pub response_dir: String,
    /// Poll interval (milliseconds).
    pub poll_ms: u64,
    /// Tool whitelist.
    pub tools: Vec<ToolDef>,
}

pub fn default_request_dir() -> (r: String)
    ensures
        r@ == "/var/lib/taihao-os/extension-bridge/requests"@,
{
    String::from_str("/var/lib/taihao-os/extension-bridge/requests")
}

pub fn default_response_dir() -> (r: String)
    ensures
        r@ == "/var/lib/taihao-os/extension-bridge/responses"@,
{
    String::from_str("/var/lib/taihao-os/extension-bridge/responses")
}

pub fn default_poll_ms() -> (r: u64)
    ensures
        r == 200,
{
    200
}

/// Names of the tools, in order.
pub open spec fn tool_names(tools: Seq<ToolDef>) -> Seq<Seq<char>> {
    tools.map_values(|t: ToolDef| t.name@)
}

impl Default for Config {
    fn default() -> (c: Config)
        ensures
            c.request_dir@ == "/var/lib/taihao-os/extension-bridge/requests"@,
            c.response_dir@ == "/var/lib/taihao-os/extension-bridge/responses"@,
            c.poll_ms == 200,
            c.tools@.len() == 2,
            c.tools@[0].name@ == "device_status"@,
            c.tools@[0].command@ == "cat /var/lib/taihao-os/rt-loop/loop-state.json"@,
            c.tools@[0].args@.len() == 0,
            c.tools@[0].level@ == "L3"@,
            c.tools@[1].name@ == "report"@,
            c.tools@[1].command@ == "echo report"@,
            c.tools@[1].args@.len() == 1,
            c.tools@[1].args@[0]@ == "message"@,
            c.tools@[1].level@ == "L2"@,
    {
        let mut tools: Vec<ToolDef> = Vec::new();
        tools.push(
            ToolDef {
                name: String::from_str("device_status"),
                command: String::from_str("cat /var/lib/taihao-os/rt-loop/loop-state.json"),
                args: Vec::new(),
                level: String::from_str("L3"),
            },
        );
        let mut args: Vec<String> = Vec::new();
        args.push(String::from_str("message"));
        tools.push(
            ToolDef {
                name: String::from_str("report"),
                command: String::from_str("echo report"),
                args,
                level: String::from_str("L2"),
            },
        );
        Config {
            request_dir: default_request_dir(),
            response_dir: default_response_dir(),
            poll_ms: default_poll_ms(),
            tools,
        }
    }
}

impl Config {
    /// The first registered tool called `name`.
    pub fn find_tool(&self, name: &str) -> (r: Option<&ToolDef>)
        ensures
            r is None <==> index_of_text(tool_names(self.tools@), name@) < 0,
            r matches Some(t) ==> *t == self.tools@[index_of_text(tool_names(self.tools@), name@)],
    {
        let ghost names = tool_names(self.tools@);
        let n = self.tools.len();
        let mut i: usize = 0;
        while i < n
            invariant
                n == self.tools@.len(),
                names == tool_names(self.tools@),
                i <= n,
                forall|j: int| 0 <= j < i ==> names[j] != name@,
            decreases n - i,
        {
            if text_eq(self.tools[i].name.as_str(), name) {
                proof {
                    lemma_index_of_text(names, name@, i as int);
                }
                return Some(&self.tools[i]);
            }
            i = i + 1;
        }
        proof {
            lemma_index_of_text(names, name@, -1);
        }
        None
    }
}

} // verus!
