//! Governance policies (RFC-MACP-0012).
pub mod defaults;
pub mod evaluator;
pub mod registry;
pub mod rules;

use vstd::prelude::*;
use crate::policy::rules::{same_rules, PolicyRules};
use crate::text::owned;

verus! {

pub struct PolicyDefinition {
    pub policy_id: String,
    pub mode: String,
    pub description: String,
    pub rules: PolicyRules,
    pub schema_version: u32,
}

pub enum PolicyDecision {
    Allow { reasons: Vec<String> },
    Deny { reasons: Vec<String> },
}

#[derive(Debug)]
pub enum PolicyError {
    UnknownPolicy(String),
    InvalidDefinition(String),
    PolicyDenied(String),
}

/// The display text of a policy error.
pub open spec fn policy_error_text(e: PolicyError) -> Seq<char> {
    match e {
        PolicyError::UnknownPolicy(id) => "unknown policy: "@ + id@,
        PolicyError::InvalidDefinition(msg) => "invalid policy definition: "@ + msg@,
        PolicyError::PolicyDenied(reason) => "policy denied: "@ + reason@,
    }
}

impl PolicyError {
    /// The error's display text.
    pub fn to_string(&self) -> (r: String)
        ensures
            r@ == policy_error_text(*self),
    {
        match self {
            PolicyError::UnknownPolicy(id) => {
                let mut s = owned("unknown policy: ");
                s.append(id.as_str());
                s
            },
            PolicyError::InvalidDefinition(msg) => {
                let mut s = owned("invalid policy definition: ");
                s.append(msg.as_str());
                s
            },
            PolicyError::PolicyDenied(reason) => {
                let mut s = owned("policy denied: ");
                s.append(reason.as_str());
                s
            },
        }
    }
}

impl PolicyDecision {
    pub fn is_deny(&self) -> (r: bool)
        ensures
            r == (*self is Deny),
    {
        match self {
            PolicyDecision::Deny { .. } => true,
            PolicyDecision::Allow { .. } => false,
        }
    }
}


/// Equal definitions, lists compared by their elements.
pub open spec fn same_policy(a: PolicyDefinition, b: PolicyDefinition) -> bool {
    &&& a.policy_id == b.policy_id
    &&& a.mode == b.mode
    &&& a.description == b.description
    &&& same_rules(a.rules, b.rules)
    &&& a.schema_version == b.schema_version
}

impl PolicyDefinition {
    /// A copy of the definition.
    pub fn duplicate(&self) -> (r: Self)
        ensures
            same_policy(r, *self),
    {
        PolicyDefinition {
            policy_id: self.policy_id.clone(),
            mode: self.mode.clone(),
            description: self.description.clone(),
            rules: self.rules.duplicate(),
            schema_version: self.schema_version,
        }
    }
}

} // verus!
