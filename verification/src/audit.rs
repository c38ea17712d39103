//! Audit events shared by the services: who did what to which target, and the verdict.
use vstd::prelude::*;

verus! {

/// Verdict recorded in an audit event.
#[derive(Debug, Clone, Copy, PartialEq, Eq, Structural)]
pub enum AuditDecision {
    Allow,
    Deny,
}

/// The verdict for an allowed or refused request.
pub fn audit_decision(allowed: bool) -> (d: AuditDecision)
    ensures
        allowed ==> d == AuditDecision::Allow,
        !allowed ==> d == AuditDecision::Deny,
{
    if allowed {
        AuditDecision::Allow
    } else {
        AuditDecision::Deny
    }
}

/// An audit event (the `Audit` envelope of the service bus).
#[derive(Debug, Clone)]
pub struct AuditRecord {
    pub actor: String,
    pub action: String,
    pub target: String,
    pub decision: AuditDecision,
    pub reason: Option<String>,
}

} // verus!
