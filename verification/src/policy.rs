//! Policy files: declarative rules, evaluated top to bottom, first match wins.
use crate::json::JsonValue;
use vstd::prelude::*;

verus! {

/// A policy file: its metadata and its rules in order.
#[derive(Debug)]
pub struct PolicyFile {
    pub metadata: PolicyMetadata,
    pub rules: Vec<PolicyRule>,
}

/// The name and version of a policy.
#[derive(Debug)]
pub struct PolicyMetadata {
    pub name: String,
    pub version: String,
}

/// One rule of a policy.
#[derive(Debug)]
pub struct PolicyRule {
    pub id: String,
    /// Tool name to match, or `"*"` for all tools.
    pub tool: String,
    /// Condition expression string. Absent means unconditional match.
    pub condition: Option<String>,
    pub action: RuleAction,
    pub message: Option<String>,
    // redact-specific
    pub fields: Option<Vec<String>>,
    pub pattern: Option<String>,
    pub replacement: Option<String>,
    // rate_limit-specific
    pub max_calls: Option<u64>,
    pub window_seconds: Option<u64>,
}

/// What a matching rule does.
#[derive(Debug, Clone, Copy, PartialEq, Eq, Structural)]
pub enum RuleAction {
    Allow,
    Deny,
    Redact,
    RateLimit,
}

/// What the policy engine decided about a tool call.
#[derive(Debug)]
pub enum PolicyDecision {
    Allow,
    Deny { rule_id: String, message: String },
    RateLimited { rule_id: String },
    /// Forward the call with these arguments in place of the agent's.
    Redact { rule_id: String, arguments: JsonValue },
}

} // verus!
