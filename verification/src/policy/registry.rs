//! The registry of governance policy definitions, by policy id. It always
//! holds the built-in default policy.
use vstd::prelude::*;
use crate::ieee754::{f64_le, le, F64_HALF};
use crate::keyed::{lemma_push_map, seq_has_key, seq_to_map};
use crate::ordered::{keys_sorted, lemma_sorted_unique, names_sorted, OrderedMap};
use crate::policy::defaults::{default_policy, is_default_policy, DEFAULT_POLICY_ID};
use crate::policy::{same_policy, PolicyDefinition, PolicyError};
use crate::text::{is_blank, lemma_seq_lt_irreflexive, owned, seq_lt, str_eq, str_is_blank};

verus! {

/// Why a definition cannot be registered, before the id is checked against
/// the registry; `None` when it is acceptable.
pub open spec fn definition_error(d: PolicyDefinition) -> Option<Seq<char>> {
    if is_blank(d.policy_id@) {
        Some("policy_id must not be empty"@)
    } else if d.policy_id@ == "policy.default"@ {
        Some("cannot register with reserved policy_id 'policy.default'"@)
    } else if d.schema_version == 0 {
        Some("schema_version must be > 0"@)
    } else if !d.rules.is_object {
        Some("rules must be a JSON object"@)
    } else {
        match schema_mismatch(d) {
            Some(detail) => Some(
                "rules do not match schema for mode '"@ + d.mode@ + "': "@ + detail,
            ),
            None => constraint_error(d),
        }
    }
}

/// Why the rules do not parse under the target mode's schema. Wildcard (`*`)
/// policies use the Decision schema (a superset); unknown modes accept any
/// object.
pub open spec fn schema_mismatch(d: PolicyDefinition) -> Option<Seq<char>> {
    let mode = d.mode@;
    let err = if mode == "macp.mode.decision.v1"@ || mode == "*"@ {
        d.rules.decision_error
    } else if mode == "macp.mode.proposal.v1"@ {
        d.rules.proposal_error
    } else if mode == "macp.mode.task.v1"@ {
        d.rules.task_error
    } else if mode == "macp.mode.handoff.v1"@ {
        d.rules.handoff_error
    } else if mode == "macp.mode.quorum.v1"@ {
        d.rules.quorum_error
    } else {
        None
    };
    match err {
        Some(e) => Some(e@),
        None => None,
    }
}

/// Conditional constraints (RFC-MACP-0012): weighted voting needs weights,
/// supermajority needs a threshold above 0.5, and designated-role authority
/// needs roles.
pub open spec fn constraint_error(d: PolicyDefinition) -> Option<Seq<char>> {
    let v = d.rules.decision.voting;
    if (d.mode@ == "macp.mode.decision.v1"@ || d.mode@ == "*"@) && d.rules.decision_error is None
        && v.algorithm@ == "weighted"@ && v.weights@.len() == 0 {
        Some("voting.algorithm 'weighted' requires non-empty voting.weights"@)
    } else if (d.mode@ == "macp.mode.decision.v1"@ || d.mode@ == "*"@) && d.rules.decision_error
        is None && v.algorithm@ == "supermajority"@ && le(v.threshold_bits, F64_HALF) {
        Some("voting.algorithm 'supermajority' requires voting.threshold > 0.5"@)
    } else if d.rules.commitment.authority@ == "designated_role"@
        && d.rules.commitment.designated_roles@.len() == 0 {
        Some(
            "commitment.authority 'designated_role' requires non-empty commitment.designated_roles"@,
        )
    } else {
        None
    }
}

/// Every definition is filed under its own id, and the default policy is present.
pub open spec fn registry_wf(m: Map<Seq<char>, PolicyDefinition>) -> bool {
    &&& forall|k: Seq<char>| #[trigger] m.contains_key(k) ==> m[k].policy_id@ == k
    &&& m.contains_key("policy.default"@)
    &&& is_default_policy(m["policy.default"@])
}

/// The filter selects the policy: it targets the mode or `*` (any policy,
/// without a filter).
pub open spec fn selects(p: PolicyDefinition, mode_filter: Option<Seq<char>>) -> bool {
    match mode_filter {
        Some(mode) => p.mode@ == mode || p.mode@ == "*"@,
        None => true,
    }
}

/// The ids of the policies, in order.
pub open spec fn policy_ids(s: Seq<PolicyDefinition>) -> Seq<Seq<char>> {
    s.map_values(|p: PolicyDefinition| p.policy_id@)
}

/// Over entries in id order, each filed under its own id, the selected
/// policies come out in strictly increasing id order, one for each selected
/// registered id.
pub proof fn lemma_listed_in_id_order(s: Seq<(String, PolicyDefinition)>, mode_filter: Option<Seq<char>>)
    requires
        keys_sorted(s),
        forall|k: Seq<char>| #[trigger] seq_to_map(s).contains_key(k) ==> seq_to_map(s)[k].policy_id@ == k,
    ensures
        names_sorted(policy_ids(listed(s, mode_filter))),
        forall|k: Seq<char>|
            policy_ids(listed(s, mode_filter)).contains(k) <==> (seq_to_map(s).contains_key(k)
                && selects(seq_to_map(s)[k], mode_filter)),
    decreases s.len(),
{
    let l = listed(s, mode_filter);
    if s.len() == 0 {
        assert(policy_ids(l) =~= seq![]);
        assert forall|k: Seq<char>| !seq_to_map(s).contains_key(k) by {}
    } else {
        let t = s.drop_last();
        let last = s.last();
        lemma_sorted_unique(s);
        assert(keys_sorted(t)) by {
            assert forall|i: int, j: int| 0 <= i < j < t.len() implies seq_lt(
                (#[trigger] t[i]).0@,
                (#[trigger] t[j]).0@,
            ) by {
                assert(t[i] == s[i] && t[j] == s[j]);
            }
        }
        lemma_sorted_unique(t);
        assert(!seq_has_key(t, last.0@)) by {
            if seq_has_key(t, last.0@) {
                let i = choose|i: int| 0 <= i < t.len() && (#[trigger] t[i]).0@ == last.0@;
                assert(t[i] == s[i]);
                lemma_seq_lt_irreflexive(last.0@);
            }
        }
        lemma_push_map(t, last.0, last.1);
        assert(t.push((last.0, last.1)) =~= s);
        assert forall|k: Seq<char>| #[trigger] seq_to_map(t).contains_key(k) implies seq_to_map(t)[k].policy_id@
            == k by {
            assert(seq_to_map(s).contains_key(k));
        }
        lemma_listed_in_id_order(t, mode_filter);
        let lt = listed(t, mode_filter);
        // every listed id of t is a key of t, below the last key
        assert forall|k: Seq<char>| policy_ids(lt).contains(k) implies seq_lt(k, last.0@) by {
            assert(seq_to_map(t).contains_key(k));
            assert(seq_has_key(t, k));
            let i = choose|i: int| 0 <= i < t.len() && (#[trigger] t[i]).0@ == k;
            assert(t[i] == s[i]);
        }
        if selects(last.1, mode_filter) {
            assert(l == lt.push(last.1));
            assert(seq_to_map(s).contains_key(last.0@));
            assert(last.1.policy_id@ == last.0@);
            assert(policy_ids(l) =~= policy_ids(lt).push(last.0@));
            assert forall|i: int, j: int| 0 <= i < j < policy_ids(l).len() implies seq_lt(
                #[trigger] policy_ids(l)[i],
                #[trigger] policy_ids(l)[j],
            ) by {
                if j == policy_ids(l).len() - 1 {
                    assert(policy_ids(lt).contains(policy_ids(lt)[i]));
                } else {
                    assert(policy_ids(l)[i] == policy_ids(lt)[i] && policy_ids(l)[j] == policy_ids(lt)[j]);
                }
            }
            assert forall|k: Seq<char>|
                policy_ids(l).contains(k) <==> (seq_to_map(s).contains_key(k) && selects(
                    seq_to_map(s)[k],
                    mode_filter,
                )) by {
                if policy_ids(l).contains(k) && k != last.0@ {
                    let i = choose|i: int| 0 <= i < policy_ids(l).len() && policy_ids(l)[i] == k;
                    assert(policy_ids(lt)[i] == k);
                }
                if k != last.0@ && policy_ids(lt).contains(k) {
                    let i = choose|i: int| 0 <= i < policy_ids(lt).len() && policy_ids(lt)[i] == k;
                    assert(policy_ids(l)[i] == k);
                }
                if k == last.0@ {
                    assert(policy_ids(l)[policy_ids(l).len() - 1] == k);
                }
            }
        } else {
            assert(l == lt);
            assert forall|k: Seq<char>|
                policy_ids(l).contains(k) <==> (seq_to_map(s).contains_key(k) && selects(
                    seq_to_map(s)[k],
                    mode_filter,
                )) by {
                if k == last.0@ && policy_ids(lt).contains(k) {
                    lemma_seq_lt_irreflexive(k);
                }
            }
        }
    }
}

/// The policies that a filter selects: those targeting the mode or `*`
/// (all of them without a filter), in id order.
pub open spec fn listed(s: Seq<(String, PolicyDefinition)>, mode_filter: Option<Seq<char>>) -> Seq<
    PolicyDefinition,
>
    decreases s.len(),
{
    if s.len() == 0 {
        seq![]
    } else {
        let rest = listed(s.drop_last(), mode_filter);
        let p = s.last().1;
        if selects(p, mode_filter) {
            rest.push(p)
        } else {
            rest
        }
    }
}

/// In-memory policy registry for governance policy definitions.
pub struct PolicyRegistry {
    entries: OrderedMap<PolicyDefinition>,
}

impl PolicyRegistry {
    #[verifier::type_invariant]
    spec fn wf(&self) -> bool {
        registry_wf(self.entries@)
    }

    /// (policy id, definition) in id order.
    pub closed spec fn definitions(&self) -> Seq<(String, PolicyDefinition)> {
        self.entries.entries_seq()
    }

    /// The definitions by policy id.
    pub open spec fn view(&self) -> Map<Seq<char>, PolicyDefinition> {
        seq_to_map(self.definitions())
    }

    /// Create a new policy registry pre-loaded with the default policy.
    pub fn new() -> (r: Self)
        ensures
            r@.dom() =~= set!["policy.default"@],
            is_default_policy(r@["policy.default"@]),
            registry_wf(r@),
    {
        PolicyRegistry { entries: Self::seeded() }
    }

    /// A map holding only the default policy.
    fn seeded() -> (r: OrderedMap<PolicyDefinition>)
        ensures
            r@.dom() =~= set!["policy.default"@],
            is_default_policy(r@["policy.default"@]),
            registry_wf(r@),
    {
        let mut entries = OrderedMap::new();
        let default = default_policy();
        let id = default.policy_id.clone();
        entries.insert(id, default);
        entries
    }

    fn validate_definition(definition: &PolicyDefinition) -> (r: Result<(), String>)
        ensures
            match definition_error(*definition) {
                Some(msg) => r matches Err(e) && e@ == msg,
                None => r is Ok,
            },
    {
        proof {
            reveal_strlit("policy.default");
        }
        if str_is_blank(definition.policy_id.as_str()) {
            return Err(owned("policy_id must not be empty"));
        }
        if str_eq(definition.policy_id.as_str(), DEFAULT_POLICY_ID) {
            return Err(owned("cannot register with reserved policy_id 'policy.default'"));
        }
        if definition.schema_version == 0 {
            return Err(owned("schema_version must be > 0"));
        }
        if !definition.rules.is_object {
            return Err(owned("rules must be a JSON object"));
        }
        // Validate that rules deserialize into the mode-specific schema.
        Self::validate_rules_for_mode(definition)?;
        // Validate conditional constraints (RFC-MACP-0012).
        Self::validate_conditional_constraints(definition)
    }

    /// Validate that policy rules match the expected schema for the target mode.
    fn validate_rules_for_mode(definition: &PolicyDefinition) -> (r: Result<(), String>)
        ensures
            match schema_mismatch(*definition) {
                Some(detail) => r matches Err(e) && e@ == "rules do not match schema for mode '"@
                    + definition.mode@ + "': "@ + detail,
                None => r is Ok,
            },
    {
        let mode = definition.mode.as_str();
        let rules = &definition.rules;
        let err = if str_eq(mode, "macp.mode.decision.v1") || str_eq(mode, "*") {
            &rules.decision_error
        } else if str_eq(mode, "macp.mode.proposal.v1") {
            &rules.proposal_error
        } else if str_eq(mode, "macp.mode.task.v1") {
            &rules.task_error
        } else if str_eq(mode, "macp.mode.handoff.v1") {
            &rules.handoff_error
        } else if str_eq(mode, "macp.mode.quorum.v1") {
            &rules.quorum_error
        } else {
            // Extension modes: accept any valid JSON object
            return Ok(());
        };
        match err {
            Some(detail) => {
                let mut msg = owned("rules do not match schema for mode '");
                msg.append(mode);
                msg.append("': ");
                msg.append(detail.as_str());
                Err(msg)
            },
            None => Ok(()),
        }
    }

    /// Validate conditional constraints that depend on specific field values.
    fn validate_conditional_constraints(definition: &PolicyDefinition) -> (r: Result<(), String>)
        ensures
            match constraint_error(*definition) {
                Some(msg) => r matches Err(e) && e@ == msg,
                None => r is Ok,
            },
    {
        let mode = definition.mode.as_str();
        let rules = &definition.rules;
        // Decision mode (and wildcard) voting constraints
        if (str_eq(mode, "macp.mode.decision.v1") || str_eq(mode, "*"))
            && rules.decision_error.is_none() {
            let voting = &rules.decision.voting;
            if str_eq(voting.algorithm.as_str(), "weighted") && voting.weights.len() == 0 {
                return Err(owned("voting.algorithm 'weighted' requires non-empty voting.weights"));
            }
            if str_eq(voting.algorithm.as_str(), "supermajority") && f64_le(
                voting.threshold_bits,
                F64_HALF,
            ) {
                return Err(owned("voting.algorithm 'supermajority' requires voting.threshold > 0.5"));
            }
        }
        // All modes: commitment.designated_roles required when authority is designated_role
        if str_eq(rules.commitment.authority.as_str(), "designated_role")
            && rules.commitment.designated_roles.len() == 0 {
            return Err(
                owned(
                    "commitment.authority 'designated_role' requires non-empty commitment.designated_roles",
                ),
            );
        }
        Ok(())
    }

    /// Register a new policy definition.
    ///
    /// Returns an error if:
    /// - The policy_id is empty
    /// - The policy_id is the reserved default policy
    /// - A policy with this id already exists
    /// - The schema_version is 0
    pub fn register(&mut self, definition: PolicyDefinition) -> (r: Result<(), String>)
        ensures
            registry_wf(final(self)@),
            match definition_error(definition) {
                Some(msg) => r matches Err(e) && e@ == msg && final(self)@ == old(self)@,
                None => if old(self)@.contains_key(definition.policy_id@) {
                    &&& r matches Err(e) && e@ == "policy '"@ + definition.policy_id@
                        + "' is already registered"@
                    &&& final(self)@ == old(self)@
                } else {
                    r is Ok && final(self)@ == old(self)@.insert(definition.policy_id@, definition)
                },
            },
    {
        proof {
            use_type_invariant(&*self);
            reveal_strlit("policy.default");
        }
        Self::validate_definition(&definition)?;
        if self.entries.contains_key(definition.policy_id.as_str()) {
            let mut msg = owned("policy '");
            msg.append(definition.policy_id.as_str());
            msg.append("' is already registered");
            return Err(msg);
        }
        let id = definition.policy_id.clone();
        let mut entries = Self::seeded();
        std::mem::swap(&mut entries, &mut self.entries);
        entries.insert(id, definition);
        self.entries = entries;
        proof {
            use_type_invariant(&*self);
        }
        Ok(())
    }

    /// Unregister a policy by ID.
    ///
    /// Returns an error if:
    /// - The policy is the reserved default policy
    /// - The policy does not exist
    pub fn unregister(&mut self, policy_id: &str) -> (r: Result<(), String>)
        ensures
            registry_wf(final(self)@),
            policy_id@ == "policy.default"@ ==> (r matches Err(e) && e@
                == "cannot unregister the built-in default policy"@) && final(self)@ == old(self)@,
            policy_id@ != "policy.default"@ && !old(self)@.contains_key(policy_id@) ==> (r matches Err(
                e,
            ) && e@ == "policy '"@ + policy_id@ + "' not found"@) && final(self)@ == old(self)@,
            policy_id@ != "policy.default"@ && old(self)@.contains_key(policy_id@) ==> r is Ok
                && final(self)@ == old(self)@.remove(policy_id@),
    {
        proof {
            use_type_invariant(&*self);
        }
        if str_eq(policy_id, DEFAULT_POLICY_ID) {
            return Err(owned("cannot unregister the built-in default policy"));
        }
        if !self.entries.contains_key(policy_id) {
            let mut msg = owned("policy '");
            msg.append(policy_id);
            msg.append("' not found");
            return Err(msg);
        }
        let mut entries = Self::seeded();
        std::mem::swap(&mut entries, &mut self.entries);
        entries.remove(policy_id);
        self.entries = entries;
        proof {
            use_type_invariant(&*self);
        }
        Ok(())
    }

    /// Direct lookup by policy ID.
    pub fn get(&self, policy_id: &str) -> (r: Option<PolicyDefinition>)
        ensures
            r is None <==> !self@.contains_key(policy_id@),
            r matches Some(p) ==> same_policy(p, self@[policy_id@]),
    {
        match self.entries.get(policy_id) {
            Some(p) => Some(p.duplicate()),
            None => None,
        }
    }

    /// Resolve a policy by version string.
    ///
    /// If the version string is empty, returns the default policy.
    /// Otherwise, looks up the policy by ID.
    pub fn resolve(&self, policy_version: &str) -> (r: Result<PolicyDefinition, PolicyError>)
        ensures
            policy_version@.len() == 0 ==> (r matches Ok(p) && is_default_policy(p)),
            policy_version@.len() > 0 && self@.contains_key(policy_version@) ==> (r matches Ok(p)
                && same_policy(p, self@[policy_version@])),
            policy_version@.len() > 0 && !self@.contains_key(policy_version@) ==> (r matches Err(
                PolicyError::UnknownPolicy(id),
            ) && id@ == policy_version@),
    {
        proof {
            use_type_invariant(self);
            reveal_strlit("policy.default");
        }
        if policy_version.unicode_len() == 0 {
            return match self.get(DEFAULT_POLICY_ID) {
                Some(p) => Ok(p),
                None => Err(PolicyError::UnknownPolicy(owned(DEFAULT_POLICY_ID))),
            };
        }
        match self.get(policy_version) {
            Some(p) => Ok(p),
            None => Err(PolicyError::UnknownPolicy(owned(policy_version))),
        }
    }

    /// List all policies, optionally filtered by target mode.
    ///
    /// If `mode_filter` is `Some(mode)`, returns only policies targeting that
    /// specific mode or the wildcard `"*"`. If `None`, returns all policies.
    /// Policies come in policy-id order.
    pub fn list(&self, mode_filter: Option<&str>) -> (r: Vec<PolicyDefinition>)
        ensures
            ({
                let filter = match mode_filter {
                    Some(m) => Some(m@),
                    None => None,
                };
                &&& r@.len() == listed(self.definitions(), filter).len()
                &&& forall|i: int|
                    0 <= i < r@.len() ==> same_policy(#[trigger] r@[i], listed(self.definitions(), filter)[i])
                &&& names_sorted(policy_ids(r@))
                &&& forall|k: Seq<char>|
                    policy_ids(r@).contains(k) <==> (self@.contains_key(k) && selects(self@[k], filter))
            }),
            keys_sorted(self.definitions()),
    {
        proof {
            use_type_invariant(self);
        }
        let ghost filter = match mode_filter {
            Some(m) => Some(m@),
            None => None,
        };
        let entries = self.entries.entries();
        let n = entries.len();
        let mut out: Vec<PolicyDefinition> = Vec::new();
        let mut j: usize = 0;
        while j < n
            invariant
                n == entries@.len(),
                entries@ == self.definitions(),
                filter == (match mode_filter {
                    Some(m) => Some(m@),
                    None => None::<Seq<char>>,
                }),
                j <= n,
                out@.len() == listed(entries@.take(j as int), filter).len(),
                forall|i: int|
                    0 <= i < out@.len() ==> same_policy(
                        #[trigger] out@[i],
                        listed(entries@.take(j as int), filter)[i],
                    ),
            decreases n - j,
        {
            assert(entries@.take(j + 1).drop_last() =~= entries@.take(j as int));
            assert(entries@.take(j + 1).last() == entries@[j as int]);
            let p = &entries[j].1;
            let keep = match mode_filter {
                Some(mode) => str_eq(p.mode.as_str(), mode) || str_eq(p.mode.as_str(), "*"),
                None => true,
            };
            if keep {
                out.push(p.duplicate());
            }
            j = j + 1;
        }
        assert(entries@.take(n as int) =~= entries@);
        proof {
            lemma_listed_in_id_order(entries@, filter);
            assert(policy_ids(out@) =~= policy_ids(listed(entries@, filter)));
        }
        out
    }
}

} // verus!
