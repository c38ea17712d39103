//! HAL gateway core: the only entry point of hardware calls.
//!
//! 1. Whitelist: the tool must be registered and every parameter name must be
//!    in the tool's whitelist.
//! 2. Audit: every call, refused calls included, yields an audit entry.
//! 3. Caller: the caller's identity is kept in the audit entry.
use vstd::prelude::*;
use crate::argmap::ArgMap;
use crate::hal_config::{tool_names, texts, Config, ToolDef};
use crate::hal_driver::{call_mock, disallowed_args, keys_outside, known_drivers, mock_payload_text, DriverResult};
use crate::text::index_of_text;

verus! {

/// Audit record of one HAL call.
#[derive(Debug)]
pub struct AuditEntry {
    pub timestamp: u64,
    pub caller: String,
    pub tool: String,
    pub args: ArgMap,
    pub allowed: bool,
    pub result: String,
}

/// Outcome of a HAL call.
#[derive(Debug, Clone)]
pub struct CallOutcome {
    pub allowed: bool,
    pub denied_reason: Option<String>,
    pub result: Option<DriverResult>,
}

/// The text `format!("{:?}", v)` gives for a `Vec<String>` holding these strings.
pub uninterp spec fn debug_list_text(items: Seq<Seq<char>>) -> Seq<char>;

/// Debug rendering of a list of strings (`format!("{:?}", items)`); the
/// contract only names the text, which depends on the strings alone.
#[verifier::external_body]
fn debug_list(items: &Vec<String>) -> (s: String)
    ensures
        s@ == debug_list_text(items@.map_values(|x: String| x@)),
{
    format!("{:?}", items)
}

/// The whitelist verdict for a call: the tool is registered and no parameter
/// name lies outside its whitelist.
pub open spec fn call_permitted(cfg: Config, tool: Seq<char>, args: ArgMap) -> bool {
    let i = index_of_text(tool_names(cfg.tools@), tool);
    i >= 0 && keys_outside(args.key_list(), texts(cfg.tools@[i].args@)).len() == 0
}

/// Carries out one HAL call at time `now` (seconds): checks the whitelist, runs
/// the driver of a permitted call, and returns the outcome together with the
/// audit entry to append.
pub fn call(cfg: &Config, caller: &str, tool: &str, args: &ArgMap, now: u64) -> (r: (
    CallOutcome,
    AuditEntry,
))
    ensures
        r.0.allowed == call_permitted(*cfg, tool@, *args),
        r.1.timestamp == now,
        r.1.caller@ == caller@,
        r.1.tool@ == tool@,
        r.1.args@ == args@,
        !r.0.allowed ==> r.0.result is None && !r.1.allowed && r.0.denied_reason is Some,
        r.0.allowed ==> (r.0.denied_reason is None && (r.0.result matches Some(d) && d.ok
            == r.1.allowed && d.detail@ == r.1.result@)),
        index_of_text(tool_names(cfg.tools@), tool@) < 0 ==> (r.1.result@ == "tool not in whitelist"@
            && (r.0.denied_reason matches Some(m) && m@ == "工具不在白名单: "@ + tool@)),
        ({
            let i = index_of_text(tool_names(cfg.tools@), tool@);
            let bad = keys_outside(args.key_list(), texts(cfg.tools@[i].args@));
            i >= 0 && bad.len() > 0 ==> (r.1.result@ == "args not allowed: "@ + debug_list_text(bad)
                && (r.0.denied_reason matches Some(m) && m@ == "参数不在白名单: "@
                + debug_list_text(bad)))
        }),
        ({
            let i = index_of_text(tool_names(cfg.tools@), tool@);
            let d = cfg.tools@[i].driver@;
            r.0.allowed ==> (r.1.allowed == known_drivers().contains(d) && (r.1.allowed
                ==> r.1.result@ == mock_payload_text(d, tool@, *args)) && (!r.1.allowed
                ==> r.1.result@ == "未知驱动类型: "@ + d))
        }),
{
    let def: &ToolDef = match cfg.find_tool(tool) {
        Some(d) => d,
        None => {
            let entry = AuditEntry {
                timestamp: now,
                caller: String::from_str(caller),
                tool: String::from_str(tool),
                args: args.clone(),
                allowed: false,
                result: String::from_str("tool not in whitelist"),
            };
            let outcome = CallOutcome {
                allowed: false,
                denied_reason: Some(String::from_str("工具不在白名单: ").concat(tool)),
                result: None,
            };
            return (outcome, entry);
        },
    };
    let disallowed = disallowed_args(def.args.as_slice(), args);
    if disallowed.len() > 0 {
        let shown = debug_list(&disallowed);
        let entry = AuditEntry {
            timestamp: now,
            caller: String::from_str(caller),
            tool: String::from_str(tool),
            args: args.clone(),
            allowed: false,
            result: String::from_str("args not allowed: ").concat(shown.as_str()),
        };
        let outcome = CallOutcome {
            allowed: false,
            denied_reason: Some(String::from_str("参数不在白名单: ").concat(shown.as_str())),
            result: None,
        };
        return (outcome, entry);
    }
    let result = call_mock(def.driver.as_str(), tool, args);
    let entry = AuditEntry {
        timestamp: now,
        caller: String::from_str(caller),
        tool: String::from_str(tool),
        args: args.clone(),
        allowed: result.ok,
        result: result.detail.clone(),
    };
    (CallOutcome { allowed: true, denied_reason: None, result: Some(result) }, entry)
}

} // verus!
