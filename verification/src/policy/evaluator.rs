//! Commitment-time policy evaluation, one evaluator per mode. Each returns
//! `Allow` or `Deny` with the reasons it found.
//!
//! Comparisons that need double arithmetic (ratios of counts, percentage
//! quorums) arrive as [`PolicyJudgments`]; comparisons of stored doubles
//! against each other are made here on their bit patterns.
use vstd::prelude::*;
use crate::ieee754::{f64_le, f64_lt, le, lt, F64_ZERO};
use crate::mode::decision::{DecisionState, DecisionView, Evaluation, Objection, Vote};
use crate::mode::PolicyJudgments;
use crate::policy::rules::DecisionPolicyRules;
use crate::policy::{PolicyDecision, PolicyDefinition};
use crate::session::Session;
use crate::text::{concat, decimal, decimal_string, join_strings, joined, owned, str_eq, texts};

verus! {

pub const SUPPORTED_SCHEMA_VERSION: u32 = 1;

/// Whether the decision denies, and its reasons.
pub open spec fn verdict(d: PolicyDecision) -> (bool, Seq<Seq<char>>) {
    match d {
        PolicyDecision::Allow { reasons } => (false, texts(reasons@)),
        PolicyDecision::Deny { reasons } => (true, texts(reasons@)),
    }
}

/// The verdict from the reasons gathered: any deny reason denies; otherwise it
/// allows, with `fallback` as the reason when no allow reason was gathered.
pub open spec fn concluded(deny: Seq<Seq<char>>, allow: Seq<Seq<char>>, fallback: Seq<char>) -> (
    bool,
    Seq<Seq<char>>,
) {
    if deny.len() > 0 {
        (true, deny)
    } else if allow.len() == 0 {
        (false, seq![fallback])
    } else {
        (false, allow)
    }
}

/// The denial of a policy whose schema version this runtime does not support.
pub open spec fn schema_denial(version: u32) -> Seq<Seq<char>> {
    seq![
        "unsupported policy schema version: "@ + decimal(version as nat) + " (supported: 1)"@,
    ]
}

fn conclude(deny: Vec<String>, allow: Vec<String>, fallback: &str) -> (r: PolicyDecision)
    ensures
        verdict(r) == concluded(texts(deny@), texts(allow@), fallback@),
{
    if deny.len() > 0 {
        PolicyDecision::Deny { reasons: deny }
    } else if allow.len() == 0 {
        let mut reasons = Vec::new();
        reasons.push(owned(fallback));
        assert(texts(reasons@) =~= seq![fallback@]);
        PolicyDecision::Allow { reasons }
    } else {
        PolicyDecision::Allow { reasons: allow }
    }
}

fn one_reason(text: String) -> (r: Vec<String>)
    ensures
        texts(r@) == seq![text@],
{
    let mut v = Vec::new();
    v.push(text);
    assert(texts(v@) =~= seq![text@]);
    v
}

fn push_reason(v: &mut Vec<String>, text: String)
    ensures
        texts(final(v)@) == texts(old(v)@).push(text@),
{
    v.push(text);
    assert(texts(v@) =~= texts(old(v)@).push(text@));
}

/// `Deny` naming the unsupported schema version, or `None` when the policy's
/// schema version is supported.
fn check_schema_version(policy: &PolicyDefinition) -> (r: Option<PolicyDecision>)
    ensures
        r is None <==> policy.schema_version == SUPPORTED_SCHEMA_VERSION,
        r matches Some(d) ==> verdict(d) == (true, schema_denial(policy.schema_version)),
{
    if policy.schema_version != SUPPORTED_SCHEMA_VERSION {
        let mut text = owned("unsupported policy schema version: ");
        text.append(decimal_string(policy.schema_version as u64).as_str());
        text.append(" (supported: 1)");
        Some(PolicyDecision::Deny { reasons: one_reason(text) })
    } else {
        None
    }
}

// ── Decision Mode ───────────────────────────────────────────────────

/// The number of votes whose value is exactly `value`.
pub open spec fn count_votes_with(votes: Seq<Vote>, value: Seq<char>) -> nat
    decreases votes.len(),
{
    if votes.len() == 0 {
        0
    } else {
        count_votes_with(votes.drop_last(), value) + if votes.last().vote@ == value {
            1nat
        } else {
            0nat
        }
    }
}

/// Some vote in `votes` is from `sender`.
pub open spec fn sender_voted(votes: Seq<Vote>, sender: Seq<char>) -> bool {
    exists|i: int| 0 <= i < votes.len() && (#[trigger] votes[i]).sender@ == sender
}

/// The number of distinct senders among the votes.
pub open spec fn unique_voter_count(votes: Seq<Vote>) -> nat
    decreases votes.len(),
{
    if votes.len() == 0 {
        0
    } else {
        unique_voter_count(votes.drop_last()) + if sender_voted(
            votes.drop_last(),
            votes.last().sender@,
        ) {
            0nat
        } else {
            1nat
        }
    }
}

/// Count the votes whose value is exactly `value`.
pub fn count_votes(votes: &Vec<Vote>, value: &str) -> (r: usize)
    ensures
        r == count_votes_with(votes@, value@),
{
    let n = votes.len();
    let mut count: usize = 0;
    let mut i: usize = 0;
    while i < n
        invariant
            n == votes@.len(),
            i <= n,
            count <= i,
            count == count_votes_with(votes@.take(i as int), value@),
        decreases n - i,
    {
        assert(votes@.take(i + 1).drop_last() =~= votes@.take(i as int));
        if str_eq(votes[i].vote.as_str(), value) {
            count = count + 1;
        }
        i = i + 1;
    }
    assert(votes@.take(n as int) =~= votes@);
    count
}

/// Count the number of unique voters across all proposals.
pub fn count_unique_voters(votes: &Vec<Vote>) -> (r: usize)
    ensures
        r == unique_voter_count(votes@),
{
    let n = votes.len();
    let mut count: usize = 0;
    let mut i: usize = 0;
    while i < n
        invariant
            n == votes@.len(),
            i <= n,
            count <= i,
            count == unique_voter_count(votes@.take(i as int)),
        decreases n - i,
    {
        let ghost prefix = votes@.take(i as int);
        assert(votes@.take(i + 1).drop_last() =~= prefix);
        let mut seen = false;
        let mut k: usize = 0;
        while k < i
            invariant
                n == votes@.len(),
                i < n,
                k <= i,
                prefix == votes@.take(i as int),
                seen == exists|m: int| 0 <= m < k && (#[trigger] votes@[m]).sender@ == votes@[i as int].sender@,
            decreases i - k,
        {
            if str_eq(votes[k].sender.as_str(), votes[i].sender.as_str()) {
                seen = true;
            }
            k = k + 1;
        }
        proof {
            if seen {
                let m = choose|m: int| 0 <= m < i && (#[trigger] votes@[m]).sender@ == votes@[i as int].sender@;
                assert(prefix[m] == votes@[m]);
            }
            if sender_voted(prefix, votes@[i as int].sender@) {
                let m = choose|m: int| 0 <= m < prefix.len() && (#[trigger] prefix[m]).sender@ == votes@[i as int].sender@;
                assert(prefix[m] == votes@[m]);
            }
            assert(votes@.take(i + 1).last() == votes@[i as int]);
        }
        if !seen {
            count = count + 1;
        }
        i = i + 1;
    }
    assert(votes@.take(n as int) =~= votes@);
    count
}

/// Aggregate votes into approve/reject/total counts. Values other than exactly
/// `approve` or `reject` count toward the total only.
pub fn aggregate_votes(votes: &Vec<Vote>) -> (r: (usize, usize, usize))
    ensures
        r.0 == count_votes_with(votes@, "approve"@),
        r.1 == count_votes_with(votes@, "reject"@),
        r.2 == votes@.len(),
{
    (count_votes(votes, "approve"), count_votes(votes, "reject"), votes.len())
}

/// Some evaluation's confidence is at least `minimum`.
pub open spec fn some_evaluation_meets(evaluations: Seq<Evaluation>, minimum: u64) -> bool {
    exists|i: int| 0 <= i < evaluations.len() && le(minimum, (#[trigger] evaluations[i]).confidence_bits)
}

/// Deny reasons from the evaluation requirements.
pub open spec fn confidence_reasons(
    rules: DecisionPolicyRules,
    evaluations: Seq<Evaluation>,
    j: PolicyJudgments,
) -> Seq<Seq<char>> {
    let ev = rules.evaluation;
    if ev.required_before_voting && lt(F64_ZERO, ev.minimum_confidence_bits) {
        if evaluations.len() == 0 || !some_evaluation_meets(
            evaluations,
            ev.minimum_confidence_bits,
        ) {
            seq!["no evaluation meets minimum confidence threshold: "@ + j.confidence_figure@]
        } else {
            seq![]
        }
    } else if ev.required_before_voting && evaluations.len() == 0 {
        seq!["evaluations required before voting but none provided"@]
    } else {
        seq![]
    }
}

/// Senders of the objections whose severity is exactly `block`, in order.
pub open spec fn blocking_senders(objections: Seq<Objection>) -> Seq<Seq<char>>
    decreases objections.len(),
{
    if objections.len() == 0 {
        seq![]
    } else {
        let rest = blocking_senders(objections.drop_last());
        if objections.last().severity@ == "block"@ {
            rest.push(objections.last().sender@)
        } else {
            rest
        }
    }
}

/// Deny reasons from blocking objections.
pub open spec fn veto_reasons(rules: DecisionPolicyRules, objections: Seq<Objection>) -> Seq<
    Seq<char>,
> {
    let blocking = blocking_senders(objections);
    let oh = rules.objection_handling;
    if oh.block_severity_vetoes && blocking.len() >= oh.veto_threshold {
        seq![
            "blocked by "@ + decimal(blocking.len()) + " blocking objection(s) (veto threshold: "@
                + decimal(oh.veto_threshold as nat) + "), from: "@ + joined(blocking, ", "@),
        ]
    } else {
        seq![]
    }
}

/// Deny reasons from the vote quorum.
pub open spec fn quorum_reasons(
    rules: DecisionPolicyRules,
    votes: Seq<Vote>,
    participant_count: nat,
    j: PolicyJudgments,
) -> Seq<Seq<char>> {
    if rules.commitment.require_vote_quorum && !j.vote_quorum_met {
        seq![
            "vote quorum not met: "@ + decimal(unique_voter_count(votes)) + " voters of "@ + decimal(
                participant_count,
            ) + " participants (quorum: "@ + j.vote_quorum_figure@ + " "@ + rules.voting.quorum.quorum_type@
                + ")"@,
        ]
    } else {
        seq![]
    }
}

/// The outcome of a voting algorithm.
pub ghost enum VotingVerdict {
    Passed(Seq<char>),
    Failed(Seq<char>),
    NoVotes,
}

/// `who` cast an `approve` vote on some proposal.
pub open spec fn approved_by(votes: Seq<Vote>, who: Seq<char>) -> bool {
    exists|i: int| 0 <= i < votes.len() && (#[trigger] votes[i]).sender@ == who && votes[i].vote@ == "approve"@
}

/// Every participant cast an `approve` vote on some proposal.
pub open spec fn all_participants_approved(participants: Seq<String>, votes: Seq<Vote>) -> bool {
    forall|p: int| 0 <= p < participants.len() ==> approved_by(votes, (#[trigger] participants[p])@)
}

/// Check the voting algorithm against the collected votes: majority,
/// supermajority, unanimous, weighted and plurality; any other algorithm passes.
pub open spec fn voting_verdict(
    algorithm: Seq<char>,
    votes: Seq<Vote>,
    participants: Seq<String>,
    j: PolicyJudgments,
) -> VotingVerdict {
    let approve = count_votes_with(votes, "approve"@);
    let reject = count_votes_with(votes, "reject"@);
    if votes.len() == 0 {
        VotingVerdict::NoVotes
    } else if algorithm == "majority"@ {
        if j.vote_ratio_met {
            VotingVerdict::Passed("majority vote passed: "@ + j.vote_ratio_figures@)
        } else {
            VotingVerdict::Failed("majority vote failed: "@ + j.vote_ratio_figures@)
        }
    } else if algorithm == "supermajority"@ {
        if j.vote_ratio_met {
            VotingVerdict::Passed("supermajority vote passed: "@ + j.vote_ratio_figures@)
        } else {
            VotingVerdict::Failed("supermajority vote failed: "@ + j.vote_ratio_figures@)
        }
    } else if algorithm == "unanimous"@ {
        if all_participants_approved(participants, votes) && reject == 0 {
            VotingVerdict::Passed("unanimous vote passed: all participants approved"@)
        } else {
            VotingVerdict::Failed(
                "unanimous vote failed: "@ + decimal(approve) + " approve, "@ + decimal(reject)
                    + " reject out of "@ + decimal(participants.len()) + " participants"@,
            )
        }
    } else if algorithm == "weighted"@ {
        match j.weighted_ratio_met {
            None => VotingVerdict::NoVotes,
            Some(true) => VotingVerdict::Passed("weighted vote passed: "@ + j.weighted_ratio_figures@),
            Some(false) => VotingVerdict::Failed("weighted vote failed: "@ + j.weighted_ratio_figures@),
        }
    } else if algorithm == "plurality"@ {
        let counts = decimal(approve) + " approve vs "@ + decimal(reject) + " reject"@;
        if approve > reject {
            VotingVerdict::Passed("plurality vote passed: "@ + counts)
        } else if approve == reject {
            VotingVerdict::Failed("plurality vote tied: "@ + counts)
        } else {
            VotingVerdict::Failed("plurality vote failed: "@ + counts)
        }
    } else {
        VotingVerdict::Passed("unknown voting algorithm '"@ + algorithm + "'; allowing"@)
    }
}

/// Deny reasons from the voting algorithm.
pub open spec fn vote_deny_reasons(
    rules: DecisionPolicyRules,
    votes: Seq<Vote>,
    participants: Seq<String>,
    j: PolicyJudgments,
) -> Seq<Seq<char>> {
    if rules.voting.algorithm@ == "none"@ {
        seq![]
    } else {
        match voting_verdict(rules.voting.algorithm@, votes, participants, j) {
            VotingVerdict::Failed(t) => seq![t],
            VotingVerdict::NoVotes => if rules.commitment.require_vote_quorum {
                seq!["no votes cast"@]
            } else {
                seq![]
            },
            VotingVerdict::Passed(_) => seq![],
        }
    }
}

/// Allow reasons from the voting algorithm.
pub open spec fn vote_allow_reasons(
    rules: DecisionPolicyRules,
    votes: Seq<Vote>,
    participants: Seq<String>,
    j: PolicyJudgments,
) -> Seq<Seq<char>> {
    if rules.voting.algorithm@ == "none"@ {
        seq!["voting algorithm is 'none'; no vote threshold required"@]
    } else {
        match voting_verdict(rules.voting.algorithm@, votes, participants, j) {
            VotingVerdict::Passed(t) => seq![t],
            _ => seq![],
        }
    }
}

/// All deny reasons, in the order the checks run: evaluations, objections,
/// quorum, voting.
pub open spec fn decision_deny_reasons(
    rules: DecisionPolicyRules,
    st: DecisionView,
    participants: Seq<String>,
    j: PolicyJudgments,
) -> Seq<Seq<char>> {
    confidence_reasons(rules, st.evaluations, j) + veto_reasons(rules, st.objections)
        + quorum_reasons(rules, st.votes, participants.len(), j) + vote_deny_reasons(
        rules,
        st.votes,
        participants,
        j,
    )
}

/// The verdict of the decision-mode policy on a commitment.
pub open spec fn decision_verdict(
    policy: PolicyDefinition,
    st: DecisionView,
    participants: Seq<String>,
    j: PolicyJudgments,
) -> (bool, Seq<Seq<char>>) {
    if policy.schema_version != SUPPORTED_SCHEMA_VERSION {
        (true, schema_denial(policy.schema_version))
    } else {
        let rules = policy.rules.decision;
        concluded(
            decision_deny_reasons(rules, st, participants, j),
            vote_allow_reasons(rules, st.votes, participants, j),
            "policy constraints satisfied"@,
        )
    }
}

/// Whether the session's bound policy denies a decision commitment.
pub open spec fn decision_policy_denies(session: Session, st: DecisionView, j: PolicyJudgments) -> bool {
    match session.policy_definition {
        Some(policy) => decision_verdict(policy, st, session.participants@, j).0,
        None => false,
    }
}

fn confidence_check(rules: &DecisionPolicyRules, evaluations: &Vec<Evaluation>, j: &PolicyJudgments) -> (r: Vec<
    String,
>)
    ensures
        texts(r@) == confidence_reasons(*rules, evaluations@, *j),
{
    let ev = &rules.evaluation;
    if ev.required_before_voting && f64_lt(F64_ZERO, ev.minimum_confidence_bits) {
        let n = evaluations.len();
        let mut meets = false;
        let mut i: usize = 0;
        while i < n
            invariant
                n == evaluations@.len(),
                i <= n,
                meets == exists|k: int| 0 <= k < i && le(ev.minimum_confidence_bits, (#[trigger] evaluations@[k]).confidence_bits),
            decreases n - i,
        {
            if f64_le(ev.minimum_confidence_bits, evaluations[i].confidence_bits) {
                meets = true;
            }
            i = i + 1;
        }
        if n == 0 || !meets {
            one_reason(concat("no evaluation meets minimum confidence threshold: ", j.confidence_figure.as_str()))
        } else {
            let v = Vec::new();
            assert(texts(v@) =~= seq![]);
            v
        }
    } else if ev.required_before_voting && evaluations.len() == 0 {
        one_reason(owned("evaluations required before voting but none provided"))
    } else {
        let v = Vec::new();
        assert(texts(v@) =~= seq![]);
        v
    }
}

fn blocking_objection_senders(objections: &Vec<Objection>) -> (r: Vec<String>)
    ensures
        texts(r@) == blocking_senders(objections@),
{
    let n = objections.len();
    let mut out: Vec<String> = Vec::new();
    let mut i: usize = 0;
    while i < n
        invariant
            n == objections@.len(),
            i <= n,
            texts(out@) == blocking_senders(objections@.take(i as int)),
        decreases n - i,
    {
        assert(objections@.take(i + 1).drop_last() =~= objections@.take(i as int));
        assert(objections@.take(i + 1).last() == objections@[i as int]);
        if str_eq(objections[i].severity.as_str(), "block") {
            push_reason(&mut out, objections[i].sender.clone());
        }
        i = i + 1;
    }
    assert(objections@.take(n as int) =~= objections@);
    out
}

fn veto_check(rules: &DecisionPolicyRules, objections: &Vec<Objection>) -> (r: Vec<String>)
    ensures
        texts(r@) == veto_reasons(*rules, objections@),
{
    let blocking = blocking_objection_senders(objections);
    proof {
        assert(texts(blocking@).len() == blocking@.len());
    }
    let oh = &rules.objection_handling;
    if oh.block_severity_vetoes && blocking.len() >= oh.veto_threshold as usize {
        let mut text = owned("blocked by ");
        text.append(decimal_string(blocking.len() as u64).as_str());
        text.append(" blocking objection(s) (veto threshold: ");
        text.append(decimal_string(oh.veto_threshold as u64).as_str());
        text.append("), from: ");
        text.append(join_strings(&blocking, ", ").as_str());
        one_reason(text)
    } else {
        let v = Vec::new();
        assert(texts(v@) =~= seq![]);
        v
    }
}

fn participants_all_approved(participants: &[String], votes: &Vec<Vote>) -> (r: bool)
    ensures
        r == all_participants_approved(participants@, votes@),
{
    let n = participants.len();
    let m = votes.len();
    let mut p: usize = 0;
    while p < n
        invariant
            n == participants@.len(),
            m == votes@.len(),
            p <= n,
            forall|q: int| 0 <= q < p ==> approved_by(votes@, (#[trigger] participants@[q])@),
        decreases n - p,
    {
        let mut found = false;
        let mut i: usize = 0;
        while i < m
            invariant
                n == participants@.len(),
                m == votes@.len(),
                p < n,
                i <= m,
                found == exists|k: int|
                    0 <= k < i && (#[trigger] votes@[k]).sender@ == participants@[p as int]@
                        && votes@[k].vote@ == "approve"@,
            decreases m - i,
        {
            if str_eq(votes[i].sender.as_str(), participants[p].as_str()) && str_eq(
                votes[i].vote.as_str(),
                "approve",
            ) {
                found = true;
            }
            i = i + 1;
        }
        if !found {
            assert(!approved_by(votes@, participants@[p as int]@));
            return false;
        }
        p = p + 1;
    }
    true
}

fn check_voting_algorithm(
    algorithm: &str,
    votes: &Vec<Vote>,
    participants: &[String],
    j: &PolicyJudgments,
) -> (r: (u8, String))
    ensures
        match voting_verdict(algorithm@, votes@, participants@, *j) {
            VotingVerdict::Passed(t) => r.0 == 0 && r.1@ == t,
            VotingVerdict::Failed(t) => r.0 == 1 && r.1@ == t,
            VotingVerdict::NoVotes => r.0 == 2,
        },
{
    let (approve, reject, total) = aggregate_votes(votes);
    if total == 0 {
        return (2, String::new());
    }
    if str_eq(algorithm, "majority") {
        if j.vote_ratio_met {
            (0, concat("majority vote passed: ", j.vote_ratio_figures.as_str()))
        } else {
            (1, concat("majority vote failed: ", j.vote_ratio_figures.as_str()))
        }
    } else if str_eq(algorithm, "supermajority") {
        if j.vote_ratio_met {
            (0, concat("supermajority vote passed: ", j.vote_ratio_figures.as_str()))
        } else {
            (1, concat("supermajority vote failed: ", j.vote_ratio_figures.as_str()))
        }
    } else if str_eq(algorithm, "unanimous") {
        if participants_all_approved(participants, votes) && reject == 0 {
            (0, owned("unanimous vote passed: all participants approved"))
        } else {
            let mut text = owned("unanimous vote failed: ");
            text.append(decimal_string(approve as u64).as_str());
            text.append(" approve, ");
            text.append(decimal_string(reject as u64).as_str());
            text.append(" reject out of ");
            text.append(decimal_string(participants.len() as u64).as_str());
            text.append(" participants");
            (1, text)
        }
    } else if str_eq(algorithm, "weighted") {
        match j.weighted_ratio_met {
            None => (2, String::new()),
            Some(true) => (0, concat("weighted vote passed: ", j.weighted_ratio_figures.as_str())),
            Some(false) => (1, concat("weighted vote failed: ", j.weighted_ratio_figures.as_str())),
        }
    } else if str_eq(algorithm, "plurality") {
        let mut counts = decimal_string(approve as u64);
        counts.append(" approve vs ");
        counts.append(decimal_string(reject as u64).as_str());
        counts.append(" reject");
        if approve > reject {
            let mut text = owned("plurality vote passed: ");
            text.append(counts.as_str());
            (0, text)
        } else if approve == reject {
            let mut text = owned("plurality vote tied: ");
            text.append(counts.as_str());
            (1, text)
        } else {
            let mut text = owned("plurality vote failed: ");
            text.append(counts.as_str());
            (1, text)
        }
    } else {
        let mut text = owned("unknown voting algorithm '");
        text.append(algorithm);
        text.append("'; allowing");
        (0, text)
    }
}

/// Evaluate whether the governance policy allows a commitment in Decision Mode.
///
/// Checks:
/// 1. Evaluation confidence: do evaluations meet minimum_confidence?
/// 2. Objection veto: are there enough blocking objections to trigger veto?
/// 3. Quorum: have enough participants voted?
/// 4. Voting threshold: does the vote distribution satisfy the algorithm?
///
/// Returns `PolicyDecision::Allow` or `PolicyDecision::Deny` with reasons.
pub fn evaluate_decision_commitment(
    policy: &PolicyDefinition,
    state: &DecisionState,
    participants: &[String],
    judgments: &PolicyJudgments,
) -> (r: PolicyDecision)
    ensures
        verdict(r) == decision_verdict(*policy, state@, participants@, *judgments),
{
    if let Some(deny) = check_schema_version(policy) {
        return deny;
    }
    let rules = &policy.rules.decision;
    let mut deny_reasons = confidence_check(rules, &state.evaluations, judgments);
    let veto = veto_check(rules, &state.objections);
    let ghost before_veto = texts(deny_reasons@);
    let mut k: usize = 0;
    while k < veto.len()
        invariant
            k <= veto@.len(),
            texts(deny_reasons@) == before_veto + texts(veto@).take(k as int),
        decreases veto@.len() - k,
    {
        assert(texts(veto@).take(k + 1) =~= texts(veto@).take(k as int).push(veto@[k as int]@));
        push_reason(&mut deny_reasons, veto[k].clone());
        k = k + 1;
    }
    assert(texts(veto@).take(veto@.len() as int) =~= texts(veto@));
    let mut allow_reasons: Vec<String> = Vec::new();

    if rules.commitment.require_vote_quorum && !judgments.vote_quorum_met {
        let mut text = owned("vote quorum not met: ");
        text.append(decimal_string(count_unique_voters(&state.votes) as u64).as_str());
        text.append(" voters of ");
        text.append(decimal_string(participants.len() as u64).as_str());
        text.append(" participants (quorum: ");
        text.append(judgments.vote_quorum_figure.as_str());
        text.append(" ");
        text.append(rules.voting.quorum.quorum_type.as_str());
        text.append(")");
        push_reason(&mut deny_reasons, text);
    }
    let ghost before_vote = texts(deny_reasons@);
    proof {
        assert(before_vote =~= confidence_reasons(*rules, state.evaluations@, *judgments) + veto_reasons(
            *rules,
            state.objections@,
        ) + quorum_reasons(*rules, state.votes@, participants@.len(), *judgments));
    }

    if !str_eq(rules.voting.algorithm.as_str(), "none") {
        let (kind, text) = check_voting_algorithm(
            rules.voting.algorithm.as_str(),
            &state.votes,
            participants,
            judgments,
        );
        if kind == 0 {
            push_reason(&mut allow_reasons, text);
        } else if kind == 1 {
            push_reason(&mut deny_reasons, text);
        } else if rules.commitment.require_vote_quorum {
            push_reason(&mut deny_reasons, owned("no votes cast"));
        }
    } else {
        push_reason(
            &mut allow_reasons,
            owned("voting algorithm is 'none'; no vote threshold required"),
        );
    }
    proof {
        assert(texts(deny_reasons@) =~= decision_deny_reasons(*rules, state@, participants@, *judgments));
        assert(texts(allow_reasons@) =~= vote_allow_reasons(*rules, state.votes@, participants@, *judgments));
    }
    conclude(deny_reasons, allow_reasons, "policy constraints satisfied")
}

// ── Proposal Mode ───────────────────────────────────────────────────

/// The verdict of the proposal-mode policy, given the number of counter-proposals.
pub open spec fn proposal_verdict(policy: PolicyDefinition, counter_proposal_count: nat) -> (
    bool,
    Seq<Seq<char>>,
) {
    if policy.schema_version != SUPPORTED_SCHEMA_VERSION {
        (true, schema_denial(policy.schema_version))
    } else {
        let max_rounds = policy.rules.proposal.counter_proposal.max_rounds;
        let deny = if max_rounds > 0 && counter_proposal_count > max_rounds {
            seq![
                "counter-proposal limit exceeded: "@ + decimal(counter_proposal_count) + " of "@
                    + decimal(max_rounds as nat) + " allowed"@,
            ]
        } else {
            seq![]
        };
        concluded(deny, seq![], "proposal policy constraints satisfied"@)
    }
}

/// Evaluate whether the governance policy allows a commitment in Proposal Mode.
///
/// Checks:
/// - `counter_proposal.max_rounds`: if > 0, ensures counter-proposal count doesn't exceed limit
pub fn evaluate_proposal_commitment(policy: &PolicyDefinition, counter_proposal_count: usize) -> (r:
    PolicyDecision)
    ensures
        verdict(r) == proposal_verdict(*policy, counter_proposal_count as nat),
{
    if let Some(deny) = check_schema_version(policy) {
        return deny;
    }
    let max_rounds = policy.rules.proposal.counter_proposal.max_rounds;
    let mut deny_reasons: Vec<String> = Vec::new();
    let allow_reasons: Vec<String> = Vec::new();
    if max_rounds > 0 && counter_proposal_count > max_rounds {
        let mut text = owned("counter-proposal limit exceeded: ");
        text.append(decimal_string(counter_proposal_count as u64).as_str());
        text.append(" of ");
        text.append(decimal_string(max_rounds as u64).as_str());
        text.append(" allowed");
        push_reason(&mut deny_reasons, text);
    }
    assert(texts(allow_reasons@) =~= seq![]);
    assert(texts(deny_reasons@) =~= (if max_rounds > 0 && counter_proposal_count > max_rounds {
        seq![
            "counter-proposal limit exceeded: "@ + decimal(counter_proposal_count as nat) + " of "@
                + decimal(max_rounds as nat) + " allowed"@,
        ]
    } else {
        seq![]
    }));
    conclude(deny_reasons, allow_reasons, "proposal policy constraints satisfied")
}

// ── Task Mode ───────────────────────────────────────────────────────

/// The verdict of the task-mode policy, given whether the task produced output.
pub open spec fn task_verdict(policy: PolicyDefinition, has_output: bool) -> (bool, Seq<Seq<char>>) {
    if policy.schema_version != SUPPORTED_SCHEMA_VERSION {
        (true, schema_denial(policy.schema_version))
    } else if policy.rules.task.completion.require_output && !has_output {
        (true, seq!["policy requires task output before commitment"@])
    } else {
        (false, seq!["task policy constraints satisfied"@])
    }
}

/// Evaluate whether the governance policy allows a commitment in Task Mode.
///
/// Checks:
/// - `completion.require_output`: if true, task completion must include non-empty output
pub fn evaluate_task_commitment(policy: &PolicyDefinition, has_output: bool) -> (r: PolicyDecision)
    ensures
        verdict(r) == task_verdict(*policy, has_output),
{
    if let Some(deny) = check_schema_version(policy) {
        return deny;
    }
    let mut deny_reasons: Vec<String> = Vec::new();
    let allow_reasons: Vec<String> = Vec::new();
    if policy.rules.task.completion.require_output && !has_output {
        push_reason(&mut deny_reasons, owned("policy requires task output before commitment"));
    }
    assert(texts(allow_reasons@) =~= seq![]);
    assert(texts(deny_reasons@).len() == deny_reasons@.len());
    conclude(deny_reasons, allow_reasons, "task policy constraints satisfied")
}

// ── Handoff Mode ────────────────────────────────────────────────────

/// The verdict of the handoff-mode policy.
pub open spec fn handoff_verdict(policy: PolicyDefinition) -> (bool, Seq<Seq<char>>) {
    if policy.schema_version != SUPPORTED_SCHEMA_VERSION {
        (true, schema_denial(policy.schema_version))
    } else {
        (false, seq!["handoff policy constraints satisfied"@])
    }
}

/// Evaluate whether the governance policy allows a commitment in Handoff Mode.
///
/// The RFC handoff rules (`acceptance.implicit_accept_timeout_ms`) are handled
/// at message-processing time via lazy evaluation, not at commitment evaluation.
/// This evaluator always allows a supported schema.
pub fn evaluate_handoff_commitment(policy: &PolicyDefinition) -> (r: PolicyDecision)
    ensures
        verdict(r) == handoff_verdict(*policy),
{
    if let Some(deny) = check_schema_version(policy) {
        return deny;
    }
    PolicyDecision::Allow { reasons: one_reason(owned("handoff policy constraints satisfied")) }
}

// ── Quorum Mode ─────────────────────────────────────────────────────

/// Voters that count toward the quorum: abstentions count only when the policy says so.
pub open spec fn effective_voters(policy: PolicyDefinition, approve: nat, reject: nat, abstain: nat) -> nat {
    if policy.rules.quorum.abstention.counts_toward_quorum {
        approve + reject + abstain
    } else {
        approve + reject
    }
}

/// Rejections once abstentions are interpreted: `implicit_reject` adds them.
pub open spec fn effective_rejections(policy: PolicyDefinition, reject: nat, abstain: nat) -> nat {
    if policy.rules.quorum.abstention.interpretation@ == "implicit_reject"@ {
        reject + abstain
    } else {
        reject
    }
}

/// Determine the effective voter count based on abstention rules.
pub fn effective_voter_count(
    policy: &PolicyDefinition,
    approve_count: usize,
    reject_count: usize,
    abstain_count: usize,
) -> (r: usize)
    requires
        approve_count + reject_count + abstain_count <= usize::MAX,
    ensures
        r == effective_voters(*policy, approve_count as nat, reject_count as nat, abstain_count as nat),
{
    if policy.rules.quorum.abstention.counts_toward_quorum {
        approve_count + reject_count + abstain_count
    } else {
        approve_count + reject_count
    }
}

/// The verdict of the quorum-mode policy. `j.quorum_threshold_met` tells whether
/// the effective voters meet the threshold.
pub open spec fn quorum_verdict(
    policy: PolicyDefinition,
    approve: nat,
    reject: nat,
    abstain: nat,
    total_participants: nat,
    j: PolicyJudgments,
) -> (bool, Seq<Seq<char>>) {
    if policy.schema_version != SUPPORTED_SCHEMA_VERSION {
        (true, schema_denial(policy.schema_version))
    } else {
        let t = policy.rules.quorum.threshold;
        let deny = if lt(F64_ZERO, t.value_bits) && !j.quorum_threshold_met {
            seq![
                "quorum not met: "@ + decimal(effective_voters(policy, approve, reject, abstain))
                    + " effective voters of "@ + decimal(total_participants) + " participants (threshold: "@
                    + j.quorum_threshold_figure@ + " "@ + t.threshold_type@ + ")"@,
            ]
        } else {
            seq![]
        };
        let rejections = effective_rejections(policy, reject, abstain);
        let allow = if rejections > reject {
            seq![
                "abstentions interpreted as implicit rejections: "@ + decimal(rejections)
                    + " effective rejections"@,
            ]
        } else {
            seq![]
        };
        concluded(deny, allow, "quorum policy constraints satisfied"@)
    }
}

/// Evaluate whether the governance policy allows a commitment in Quorum Mode.
///
/// Checks:
/// - `abstention`: if `counts_toward_quorum` is false, abstentions are left out
///   of the voter count; `implicit_reject` counts them as rejections
/// - `threshold`: if set, checks that voter participation meets the threshold requirement
pub fn evaluate_quorum_commitment(
    policy: &PolicyDefinition,
    approve_count: usize,
    reject_count: usize,
    abstain_count: usize,
    total_participants: usize,
    judgments: &PolicyJudgments,
) -> (r: PolicyDecision)
    requires
        approve_count + reject_count + abstain_count <= usize::MAX,
    ensures
        verdict(r) == quorum_verdict(
            *policy,
            approve_count as nat,
            reject_count as nat,
            abstain_count as nat,
            total_participants as nat,
            *judgments,
        ),
{
    if let Some(deny) = check_schema_version(policy) {
        return deny;
    }
    let effective = effective_voter_count(policy, approve_count, reject_count, abstain_count);
    let rejections = if str_eq(policy.rules.quorum.abstention.interpretation.as_str(), "implicit_reject") {
        reject_count + abstain_count
    } else {
        reject_count
    };
    let mut deny_reasons: Vec<String> = Vec::new();
    let mut allow_reasons: Vec<String> = Vec::new();
    if f64_lt(F64_ZERO, policy.rules.quorum.threshold.value_bits) && !judgments.quorum_threshold_met {
        let mut text = owned("quorum not met: ");
        text.append(decimal_string(effective as u64).as_str());
        text.append(" effective voters of ");
        text.append(decimal_string(total_participants as u64).as_str());
        text.append(" participants (threshold: ");
        text.append(judgments.quorum_threshold_figure.as_str());
        text.append(" ");
        text.append(policy.rules.quorum.threshold.threshold_type.as_str());
        text.append(")");
        push_reason(&mut deny_reasons, text);
    }
    if rejections > reject_count {
        let mut text = owned("abstentions interpreted as implicit rejections: ");
        text.append(decimal_string(rejections as u64).as_str());
        text.append(" effective rejections");
        push_reason(&mut allow_reasons, text);
    }
    proof {
        let t = policy.rules.quorum.threshold;
        assert(texts(deny_reasons@) =~= (if lt(F64_ZERO, t.value_bits) && !judgments.quorum_threshold_met {
            seq![
                "quorum not met: "@ + decimal(effective as nat)
                    + " effective voters of "@ + decimal(total_participants as nat) + " participants (threshold: "@
                    + judgments.quorum_threshold_figure@ + " "@ + t.threshold_type@ + ")"@,
            ]
        } else {
            seq![]
        }));
        assert(texts(allow_reasons@) =~= (if rejections > reject_count {
            seq![
                "abstentions interpreted as implicit rejections: "@ + decimal(rejections as nat)
                    + " effective rejections"@,
            ]
        } else {
            seq![]
        }));
    }
    conclude(deny_reasons, allow_reasons, "quorum policy constraints satisfied")
}

} // verus!
