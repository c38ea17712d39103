//! Method whitelist and request handling of the extension bridge's JSON-RPC
//! service: every request is audited; methods outside the whitelist are refused.
use vstd::prelude::*;
use crate::audit::{audit_decision, AuditDecision, AuditRecord};
use crate::bridge::{member_index, param_view, ParamValue, RpcParams};
use crate::health::{decimal, decimal_text};
use crate::text::{contains_text, text_eq};

verus! {

/// Methods that clients may call.
pub struct Whitelist {
    pub methods: Vec<String>,
}

/// The built-in method whitelist.
pub open spec fn builtin_methods() -> Seq<Seq<char>> {
    seq!["system.status"@, "system.list_skills"@, "system.heartbeat"@, "intent.submit"@]
}

impl Whitelist {
    pub fn new() -> (w: Whitelist)
        ensures
            w.methods@.map_values(|s: String| s@) == builtin_methods(),
    {
        let mut methods: Vec<String> = Vec::new();
        methods.push(String::from_str("system.status"));
        methods.push(String::from_str("system.list_skills"));
        methods.push(String::from_str("system.heartbeat"));
        methods.push(String::from_str("intent.submit"));
        proof {
            assert(methods@.map_values(|s: String| s@) =~= builtin_methods());
        }
        Whitelist { methods }
    }

    /// The health probe's JSON body: the number of whitelisted methods.
    pub fn health_body(&self) -> (r: String)
        ensures
            r@ == "{\"whitelisted_methods\":"@ + decimal(self.methods@.len())
                + ",\"service\":\"extension-bridge\"}\n"@,
    {
        String::from_str("{\"whitelisted_methods\":").concat(decimal_text(self.methods.len() as u64).as_str())
            .concat(",\"service\":\"extension-bridge\"}\n")
    }

    /// The method is whitelisted.
    pub fn allow(&self, method: &str) -> (r: bool)
        ensures
            r == self.methods@.map_values(|s: String| s@).contains(method@),
    {
        contains_text(self.methods.as_slice(), method)
    }
}

/// Result of a whitelisted method.
#[derive(Debug, Clone)]
pub enum MethodReply {
    /// `system.heartbeat`: ok with the current time.
    Heartbeat,
    /// `system.status`: service name and version.
    Status,
    /// `system.list_skills`: the built-in skill names.
    ListSkills,
    /// `intent.submit`: queued, with `params.intent_id` as the request
    /// carried it (`None` when there is no such member).
    IntentQueued(Option<ParamValue>),
}

/// A JSON-RPC error object.
#[derive(Debug, Clone)]
pub struct RpcFailure {
    pub code: i32,
    pub message: String,
}

/// Member `intent_id` (by its views) when `params` is an object holding it.
pub open spec fn intent_id_of(params: RpcParams) -> Option<(bool, Seq<char>)> {
    match params {
        Some(members) => {
            let i = member_index(members@, "intent_id"@);
            if i < 0 {
                None
            } else {
                Some(param_view(members@[i].1))
            }
        },
        None => None,
    }
}

/// The answer that `dispatch` gives for `method` and `params`.
pub open spec fn dispatched(method: Seq<char>, params: RpcParams, r: Result<MethodReply, RpcFailure>) -> bool {
    &&& (method == "system.heartbeat"@ <==> r matches Ok(MethodReply::Heartbeat))
    &&& (method == "system.status"@ <==> r matches Ok(MethodReply::Status))
    &&& (method == "system.list_skills"@ <==> r matches Ok(MethodReply::ListSkills))
    &&& (method == "intent.submit"@ <==> r matches Ok(MethodReply::IntentQueued(_)))
    &&& (r matches Ok(MethodReply::IntentQueued(id)) ==> (id matches Some(t) ==> intent_id_of(params)
        == Some(param_view(t))) && (id is None ==> intent_id_of(params) is None))
    &&& (r matches Err(e) ==> e.code == -32601 && e.message@
        == "Method not found or not whitelisted: "@ + method)
}

/// Carries out a method: the four known methods answer; any other is an error
/// `-32601` naming the method.
pub fn dispatch(method: &str, params: &RpcParams) -> (r: Result<MethodReply, RpcFailure>)
    ensures
        dispatched(method@, *params, r),
{
    proof {
        reveal_strlit("system.heartbeat");
        reveal_strlit("system.status");
        reveal_strlit("system.list_skills");
        reveal_strlit("intent.submit");
        assert("system.heartbeat"@.len() == 16);
        assert("system.status"@.len() == 13);
        assert("system.list_skills"@.len() == 18);
        assert("intent.submit"@.len() == 13);
        assert("system.status"@[0] != "intent.submit"@[0]);
    }
    if text_eq(method, "system.heartbeat") {
        Ok(MethodReply::Heartbeat)
    } else if text_eq(method, "system.status") {
        Ok(MethodReply::Status)
    } else if text_eq(method, "system.list_skills") {
        Ok(MethodReply::ListSkills)
    } else if text_eq(method, "intent.submit") {
        let id = match params {
            Some(members) => crate::bridge::member_param(members, "intent_id"),
            None => None,
        };
        Ok(MethodReply::IntentQueued(id))
    } else {
        Err(
            RpcFailure {
                code: -32601,
                message: String::from_str("Method not found or not whitelisted: ").concat(method),
            },
        )
    }
}

/// The audit event for a call of `method`.
pub open spec fn call_audit(method: Seq<char>, allowed: bool, a: AuditRecord) -> bool {
    &&& a.actor@ == "extension-bridge-client"@
    &&& a.action@ == method
    &&& a.target@ == "json-rpc"@
    &&& a.decision == (if allowed { AuditDecision::Allow } else { AuditDecision::Deny })
    &&& allowed ==> a.reason is None
    &&& !allowed ==> (a.reason matches Some(t) && t@ == "method not whitelisted"@)
}

/// Handles one call: audits it, refuses a method outside the whitelist with
/// `-32601`, and carries out a whitelisted one.
pub fn handle_call(wl: &Whitelist, method: &str, params: &RpcParams) -> (r: (
    AuditRecord,
    Result<MethodReply, RpcFailure>,
))
    ensures
        call_audit(method@, wl.methods@.map_values(|s: String| s@).contains(method@), r.0),
        !wl.methods@.map_values(|s: String| s@).contains(method@) ==> (r.1 matches Err(e)
            && e.code == -32601 && e.message@ == "白名单拒绝: "@ + method@),
        wl.methods@.map_values(|s: String| s@).contains(method@) ==> dispatched(
            method@,
            *params,
            r.1,
        ),
{
    let allowed = wl.allow(method);
    let audit = AuditRecord {
        actor: String::from_str("extension-bridge-client"),
        action: String::from_str(method),
        target: String::from_str("json-rpc"),
        decision: audit_decision(allowed),
        reason: if allowed {
            None
        } else {
            Some(String::from_str("method not whitelisted"))
        },
    };
    if allowed {
        (audit, dispatch(method, params))
    } else {
        (
            audit,
            Err(
                RpcFailure {
                    code: -32601,
                    message: String::from_str("白名单拒绝: ").concat(method),
                },
            ),
        )
    }
}

} // verus!
