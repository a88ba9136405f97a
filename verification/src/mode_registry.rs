//! The registry of coordination modes: the built-in standards-track modes and
//! extensions, and the extensions registered at run time.
use vstd::prelude::*;
use crate::error::MacpError;
use crate::keyed::seq_to_map;
use crate::mode::decision::{
    decision_outcome, decision_rejection, decision_sender_allowed, decision_started, decision_view_of,
    DecisionMode,
};
use crate::mode::handoff::{
    handoff_outcome, handoff_rejection, handoff_sender_allowed, handoff_started, handoff_view_of,
    HandoffMode,
};
use crate::mode::multi_round::{
    multi_round_outcome, multi_round_started, multi_round_view_of, MultiRoundMode,
};
use crate::mode::passthrough::{
    passthrough_outcome, passthrough_sender_allowed, type_allowed, PassthroughMode,
};
use crate::mode::proposal::{
    proposal_outcome, proposal_rejection, proposal_sender_allowed, proposal_started, proposal_view_of,
    ProposalMode,
};
use crate::mode::quorum::{
    quorum_outcome, quorum_rejection, quorum_sender_allowed, quorum_started, quorum_view_of,
    QuorumMode,
};
use crate::mode::task::{
    task_outcome, task_rejection, task_sender_allowed, task_started, task_view_of, TaskMode,
};
use crate::mode::{
    default_sender_allowed, extension_mode_descriptors, standard_mode_descriptors,
    standard_mode_name_seq, Mode, ModeResponse, PolicyJudgments,
};
use crate::ordered::{
    keys_of, keys_sorted, lemma_keys_of_sorted, lemma_sorted_names_determined, names_sorted, OrderedMap,
};
use crate::pb::{Envelope, MessagePayload, ModeDescriptor};
use crate::mode::util::{commitment_valid, valid_commitment};
use crate::session::{ModeState, Session};
use crate::text::{
    is_blank, has_prefix, lemma_seq_lt_at, lemma_seq_lt_transitive, owned, seq_has, seq_lt, str_eq,
    str_is_blank, str_starts_with, vec_has,
};

verus! {

pub struct ModeConformanceCatalog {
    pub fixture_set_name: String,
    pub golden_transcript_paths: Vec<String>,
    pub conformance_fixture_paths: Vec<String>,
}

/// `a` carries the same fields as `b`.
pub open spec fn same_descriptor(a: ModeDescriptor, b: ModeDescriptor) -> bool {
    &&& a.mode == b.mode
    &&& a.mode_version == b.mode_version
    &&& a.title == b.title
    &&& a.description == b.description
    &&& a.determinism_class == b.determinism_class
    &&& a.participant_model == b.participant_model
    &&& a.message_types@ == b.message_types@
    &&& a.terminal_message_types@ == b.terminal_message_types@
    &&& a.schema_uris@ == b.schema_uris@
}

fn copy_descriptor(d: &ModeDescriptor) -> (r: ModeDescriptor)
    ensures
        same_descriptor(r, *d),
{
    ModeDescriptor {
        mode: d.mode.clone(),
        mode_version: d.mode_version.clone(),
        title: d.title.clone(),
        description: d.description.clone(),
        determinism_class: d.determinism_class.clone(),
        participant_model: d.participant_model.clone(),
        message_types: clone_strings(&d.message_types),
        terminal_message_types: clone_strings(&d.terminal_message_types),
        schema_uris: clone_pairs(&d.schema_uris),
    }
}

fn copy_static_strs(v: &Vec<&'static str>) -> (r: Vec<&'static str>)
    ensures
        r@ == v@,
{
    let n = v.len();
    let mut out: Vec<&'static str> = Vec::new();
    let mut i: usize = 0;
    while i < n
        invariant
            n == v@.len(),
            i <= n,
            out@ == v@.take(i as int),
        decreases n - i,
    {
        out.push(v[i]);
        assert(out@ =~= v@.take(i + 1));
        i = i + 1;
    }
    assert(out@ =~= v@);
    out
}

/// Publishes the descriptor of a mode.
pub trait ModeDescriptorProvider {
    fn descriptor(&self) -> Option<ModeDescriptor>;
}

/// Publishes the schema URIs of a mode, keyed by schema kind.
pub trait ModeSchemaProvider {
    fn schema_uris(&self) -> Vec<(String, String)>;
}

/// Names the conformance fixtures of a mode.
pub trait ModeConformanceProvider {
    fn fixture_set_name(&self) -> &'static str;

    fn golden_transcript_paths(&self) -> Vec<&'static str>;

    fn conformance_fixture_paths(&self) -> Vec<&'static str>;
}

/// A descriptor fixed at construction.
pub struct StaticModeDescriptorProvider {
    descriptor: Option<ModeDescriptor>,
}

impl StaticModeDescriptorProvider {
    pub closed spec fn published(&self) -> Option<ModeDescriptor> {
        self.descriptor
    }

    pub fn new(descriptor: Option<ModeDescriptor>) -> (r: Self)
        ensures
            r.published() == descriptor,
    {
        StaticModeDescriptorProvider { descriptor }
    }
}

impl ModeDescriptorProvider for StaticModeDescriptorProvider {
    fn descriptor(&self) -> (r: Option<ModeDescriptor>)
        ensures
            r is None <==> self.published() is None,
            r matches Some(d) ==> same_descriptor(d, self.published()->0),
    {
        match &self.descriptor {
            Some(d) => Some(copy_descriptor(d)),
            None => None,
        }
    }
}

/// Schema URIs fixed at construction.
pub struct StaticModeSchemaProvider {
    schema_uris: Vec<(String, String)>,
}

impl StaticModeSchemaProvider {
    pub closed spec fn published(&self) -> Seq<(String, String)> {
        self.schema_uris@
    }

    pub fn new(schema_uris: Vec<(String, String)>) -> (r: Self)
        ensures
            r.published() == schema_uris@,
    {
        StaticModeSchemaProvider { schema_uris }
    }
}

impl ModeSchemaProvider for StaticModeSchemaProvider {
    fn schema_uris(&self) -> (r: Vec<(String, String)>)
        ensures
            r@ == self.published(),
    {
        clone_pairs(&self.schema_uris)
    }
}

/// Conformance fixture names fixed at construction.
pub struct StaticModeConformanceProvider {
    fixture_set_name: &'static str,
    golden_transcript_paths: Vec<&'static str>,
    conformance_fixture_paths: Vec<&'static str>,
}

impl StaticModeConformanceProvider {
    pub closed spec fn fixture_set(&self) -> &'static str {
        self.fixture_set_name
    }

    pub closed spec fn golden_paths(&self) -> Seq<&'static str> {
        self.golden_transcript_paths@
    }

    pub closed spec fn fixture_paths(&self) -> Seq<&'static str> {
        self.conformance_fixture_paths@
    }

    pub fn new(
        fixture_set_name: &'static str,
        golden_transcript_paths: Vec<&'static str>,
        conformance_fixture_paths: Vec<&'static str>,
    ) -> (r: Self)
        ensures
            r.fixture_set() == fixture_set_name,
            r.golden_paths() == golden_transcript_paths@,
            r.fixture_paths() == conformance_fixture_paths@,
    {
        StaticModeConformanceProvider {
            fixture_set_name,
            golden_transcript_paths,
            conformance_fixture_paths,
        }
    }
}

impl ModeConformanceProvider for StaticModeConformanceProvider {
    fn fixture_set_name(&self) -> (r: &'static str)
        ensures
            r == self.fixture_set(),
    {
        self.fixture_set_name
    }

    fn golden_transcript_paths(&self) -> (r: Vec<&'static str>)
        ensures
            r@ == self.golden_paths(),
    {
        copy_static_strs(&self.golden_transcript_paths)
    }

    fn conformance_fixture_paths(&self) -> (r: Vec<&'static str>)
        ensures
            r@ == self.fixture_paths(),
    {
        copy_static_strs(&self.conformance_fixture_paths)
    }
}

/// How a registered mode's handler is made.
pub enum ModeFactory {
    Decision,
    Proposal,
    Task,
    Handoff,
    Quorum,
    MultiRound,
    /// Descriptor-driven extensions, restricted to the declared message types.
    Passthrough(PassthroughMode),
}

/// What starting a session promises under the factory's mode.
pub open spec fn factory_started(
    f: ModeFactory,
    before: Session,
    after: Session,
    r: Result<ModeResponse, MacpError>,
) -> bool {
    match f {
        ModeFactory::Decision => decision_started(before, after, r),
        ModeFactory::Proposal => proposal_started(before, after, r),
        ModeFactory::Task => task_started(before, after, r),
        ModeFactory::Handoff => handoff_started(before, after, r),
        ModeFactory::Quorum => quorum_started(before, after, r),
        ModeFactory::MultiRound => multi_round_started(before, after, r),
        ModeFactory::Passthrough(_) => r == Ok::<ModeResponse, MacpError>(ModeResponse::NoOp)
            && after == before,
    }
}

/// What handling a message promises under the factory's mode.
pub open spec fn factory_outcome(
    f: ModeFactory,
    before: Session,
    after: Session,
    r: Result<ModeResponse, MacpError>,
    env: Envelope,
    payload: MessagePayload,
    j: PolicyJudgments,
) -> bool {
    match f {
        ModeFactory::Decision => decision_outcome(before, after, r, env, payload, j),
        ModeFactory::Proposal => proposal_outcome(before, after, r, env, payload, j),
        ModeFactory::Task => task_outcome(before, after, r, env, payload, j),
        ModeFactory::Handoff => exists|now: i64| #[trigger] handoff_outcome(before, after, r, env, payload, now),
        ModeFactory::Quorum => quorum_outcome(before, after, r, env, payload, j),
        ModeFactory::MultiRound => multi_round_outcome(before, after, r, env, payload),
        ModeFactory::Passthrough(m) => passthrough_outcome(
            m.allowed_message_types@,
            before,
            after,
            r,
            env,
            payload,
        ),
    }
}

/// Who may send the message under the factory's mode.
pub open spec fn factory_sender_allowed(f: ModeFactory, session: Session, env: Envelope) -> bool {
    match f {
        ModeFactory::Decision => decision_sender_allowed(session, env),
        ModeFactory::Proposal => proposal_sender_allowed(session, env),
        ModeFactory::Task => task_sender_allowed(session, env),
        ModeFactory::Handoff => handoff_sender_allowed(session, env),
        ModeFactory::Quorum => quorum_sender_allowed(session, env),
        ModeFactory::MultiRound => default_sender_allowed(session, env.sender@),
        ModeFactory::Passthrough(_) => passthrough_sender_allowed(session, env),
    }
}

/// Why the factory's mode refuses the message at time `now`, or `None` when
/// it accepts it.
pub open spec fn factory_error(
    f: ModeFactory,
    session: Session,
    env: Envelope,
    payload: MessagePayload,
    j: PolicyJudgments,
    now: i64,
) -> Option<MacpError> {
    match f {
        ModeFactory::Decision => match decision_view_of(session.mode_state) {
            None => Some(MacpError::InvalidModeState),
            Some(v) => decision_rejection(session, v, env, payload, j),
        },
        ModeFactory::Proposal => match proposal_view_of(session.mode_state) {
            None => Some(MacpError::InvalidModeState),
            Some(v) => proposal_rejection(session, v, env, payload),
        },
        ModeFactory::Task => match task_view_of(session.mode_state) {
            None => Some(MacpError::InvalidModeState),
            Some(v) => task_rejection(session, v, env, payload),
        },
        ModeFactory::Handoff => match handoff_view_of(session.mode_state) {
            None => Some(MacpError::InvalidModeState),
            Some(v) => handoff_rejection(session, v, env, payload, now),
        },
        ModeFactory::Quorum => match quorum_view_of(session.mode_state) {
            None => Some(MacpError::InvalidModeState),
            Some(v) => quorum_rejection(session, v, env, payload, j),
        },
        ModeFactory::MultiRound => if env.message_type@ != "Contribute"@ {
            None
        } else {
            match multi_round_view_of(session.mode_state) {
                None => Some(MacpError::InvalidModeState),
                Some(_) => match payload {
                    MessagePayload::Contribute(_) => None,
                    _ => Some(MacpError::InvalidPayload),
                },
            }
        },
        ModeFactory::Passthrough(m) => if !type_allowed(m.allowed_message_types@, env.message_type@) {
            Some(MacpError::InvalidPayload)
        } else if env.message_type@ == "Commitment"@ && valid_commitment(session, payload) is None {
            Some(MacpError::InvalidPayload)
        } else {
            None
        },
    }
}

/// What handling a message at time `now` promises under the factory's mode.
pub open spec fn factory_outcome_at(
    f: ModeFactory,
    before: Session,
    after: Session,
    r: Result<ModeResponse, MacpError>,
    env: Envelope,
    payload: MessagePayload,
    j: PolicyJudgments,
    now: i64,
) -> bool {
    match f {
        ModeFactory::Handoff => handoff_outcome(before, after, r, env, payload, now),
        _ => factory_outcome(f, before, after, r, env, payload, j),
    }
}

/// A mode's answer to a message is an error exactly when it refuses the
/// message, that error is the refusal, and a refused message changes nothing.
pub proof fn lemma_outcome_matches_error(
    f: ModeFactory,
    before: Session,
    after: Session,
    r: Result<ModeResponse, MacpError>,
    env: Envelope,
    payload: MessagePayload,
    j: PolicyJudgments,
    now: i64,
)
    requires
        factory_outcome_at(f, before, after, r, env, payload, j, now),
    ensures
        r is Ok <==> factory_error(f, before, env, payload, j, now) is None,
        r matches Err(e) ==> factory_error(f, before, env, payload, j, now) == Some(e)
            && after == before,
{
}

impl Mode for ModeFactory {
    fn on_session_start(&self, session: &mut Session, env: &Envelope) -> (r: Result<
        ModeResponse,
        MacpError,
    >)
        ensures
            factory_started(*self, *old(session), *final(session), r),
    {
        match self {
            ModeFactory::Decision => DecisionMode.on_session_start(session, env),
            ModeFactory::Proposal => ProposalMode.on_session_start(session, env),
            ModeFactory::Task => TaskMode.on_session_start(session, env),
            ModeFactory::Handoff => HandoffMode.on_session_start(session, env),
            ModeFactory::Quorum => QuorumMode.on_session_start(session, env),
            ModeFactory::MultiRound => MultiRoundMode.on_session_start(session, env),
            ModeFactory::Passthrough(m) => m.on_session_start(session, env),
        }
    }

    fn on_message(
        &self,
        session: &mut Session,
        env: &Envelope,
        payload: MessagePayload,
        judgments: &PolicyJudgments,
    ) -> (r: Result<ModeResponse, MacpError>)
        ensures
            factory_outcome(*self, *old(session), *final(session), r, *env, payload, *judgments),
    {
        match self {
            ModeFactory::Decision => DecisionMode.on_message(session, env, payload, judgments),
            ModeFactory::Proposal => ProposalMode.on_message(session, env, payload, judgments),
            ModeFactory::Task => TaskMode.on_message(session, env, payload, judgments),
            ModeFactory::Handoff => HandoffMode.on_message(session, env, payload, judgments),
            ModeFactory::Quorum => QuorumMode.on_message(session, env, payload, judgments),
            ModeFactory::MultiRound => MultiRoundMode.on_message(session, env, payload, judgments),
            ModeFactory::Passthrough(m) => m.on_message(session, env, payload, judgments),
        }
    }

    fn authorize_sender(&self, session: &Session, env: &Envelope) -> (r: Result<(), MacpError>)
        ensures
            r is Ok <==> factory_sender_allowed(*self, *session, *env),
            r matches Err(e) ==> e == MacpError::Forbidden,
    {
        match self {
            ModeFactory::Decision => DecisionMode.authorize_sender(session, env),
            ModeFactory::Proposal => ProposalMode.authorize_sender(session, env),
            ModeFactory::Task => TaskMode.authorize_sender(session, env),
            ModeFactory::Handoff => HandoffMode.authorize_sender(session, env),
            ModeFactory::Quorum => QuorumMode.authorize_sender(session, env),
            ModeFactory::MultiRound => MultiRoundMode.authorize_sender(session, env),
            ModeFactory::Passthrough(m) => m.authorize_sender(session, env),
        }
    }
}

impl ModeFactory {
    /// Decide, without changing anything, whether the factory's mode accepts
    /// the message at time `now`.
    pub fn check_message_at(
        &self,
        session: &Session,
        env: &Envelope,
        payload: &MessagePayload,
        judgments: &PolicyJudgments,
        now: i64,
    ) -> (r: Result<(), MacpError>)
        ensures
            r is Ok <==> factory_error(*self, *session, *env, *payload, *judgments, now) is None,
            r matches Err(e) ==> factory_error(*self, *session, *env, *payload, *judgments, now) == Some(e),
    {
        match self {
            ModeFactory::Decision => match &session.mode_state {
                ModeState::Empty => DecisionMode::check_message(
                    session,
                    &DecisionMode::default_state(),
                    env,
                    payload,
                    judgments,
                ),
                ModeState::Decision(st) => DecisionMode::check_message(session, st, env, payload, judgments),
                _ => Err(MacpError::InvalidModeState),
            },
            ModeFactory::Proposal => match &session.mode_state {
                ModeState::Empty => ProposalMode::check_message(
                    session,
                    &ProposalMode::default_state(),
                    env,
                    payload,
                ),
                ModeState::Proposal(st) => ProposalMode::check_message(session, st, env, payload),
                _ => Err(MacpError::InvalidModeState),
            },
            ModeFactory::Task => match &session.mode_state {
                ModeState::Empty => TaskMode::check_message(session, &TaskMode::default_state(), env, payload),
                ModeState::Task(st) => TaskMode::check_message(session, st, env, payload),
                _ => Err(MacpError::InvalidModeState),
            },
            ModeFactory::Handoff => match &session.mode_state {
                ModeState::Empty => HandoffMode::check_message(
                    session,
                    &HandoffMode::default_state(),
                    env,
                    payload,
                    now,
                ),
                ModeState::Handoff(st) => HandoffMode::check_message(session, st, env, payload, now),
                _ => Err(MacpError::InvalidModeState),
            },
            ModeFactory::Quorum => match &session.mode_state {
                ModeState::Empty => QuorumMode::check_message(
                    session,
                    &QuorumMode::default_state(),
                    env,
                    payload,
                    judgments,
                ),
                ModeState::Quorum(st) => QuorumMode::check_message(session, st, env, payload, judgments),
                _ => Err(MacpError::InvalidModeState),
            },
            ModeFactory::MultiRound => {
                if !str_eq(env.message_type.as_str(), "Contribute") {
                    return Ok(());
                }
                match &session.mode_state {
                    ModeState::MultiRound(_) => match payload {
                        MessagePayload::Contribute(_) => Ok(()),
                        _ => Err(MacpError::InvalidPayload),
                    },
                    _ => Err(MacpError::InvalidModeState),
                }
            },
            ModeFactory::Passthrough(m) => {
                if m.allowed_message_types.len() != 0 && !vec_has(
                    &m.allowed_message_types,
                    env.message_type.as_str(),
                ) {
                    return Err(MacpError::InvalidPayload);
                }
                if str_eq(env.message_type.as_str(), "Commitment") {
                    match payload {
                        MessagePayload::Commitment(c) => {
                            if !commitment_valid(session, c) {
                                return Err(MacpError::InvalidPayload);
                            }
                        },
                        _ => {
                            return Err(MacpError::InvalidPayload);
                        },
                    }
                }
                Ok(())
            },
        }
    }

    /// Handle a message at time `now` (the handoff implicit-accept timeout
    /// reads it; the other modes do not).
    pub fn on_message_at(
        &self,
        session: &mut Session,
        env: &Envelope,
        payload: MessagePayload,
        judgments: &PolicyJudgments,
        now: i64,
    ) -> (r: Result<ModeResponse, MacpError>)
        ensures
            factory_outcome_at(*self, *old(session), *final(session), r, *env, payload, *judgments, now),
    {
        match self {
            ModeFactory::Handoff => HandoffMode.on_message_at(session, env, payload, now),
            _ => self.on_message(session, env, payload, judgments),
        }
    }
}

pub struct ModeRegistration {
    pub mode_name: String,
    pub factory: ModeFactory,
    pub descriptor: Option<ModeDescriptor>,
    pub schema_uris: Vec<(String, String)>,
    pub conformance: ModeConformanceCatalog,
    pub standards_track: bool,
    pub builtin: bool,
    pub strict_session_start: bool,
}

/// `d` is the registration's descriptor as published: the stored descriptor
/// with the registration's name and schema URIs.
pub open spec fn describes(d: ModeDescriptor, reg: ModeRegistration) -> bool {
    &&& reg.descriptor matches Some(o)
    &&& d.mode == reg.mode_name
    &&& d.mode_version == o.mode_version
    &&& d.title == o.title
    &&& d.description == o.description
    &&& d.determinism_class == o.determinism_class
    &&& d.participant_model == o.participant_model
    &&& d.message_types@ == o.message_types@
    &&& d.terminal_message_types@ == o.terminal_message_types@
    &&& d.schema_uris@ == reg.schema_uris@
}

/// Copies a list of strings.
pub fn clone_strings(v: &Vec<String>) -> (r: Vec<String>)
    ensures
        r@ == v@,
{
    let n = v.len();
    let mut out: Vec<String> = Vec::new();
    let mut i: usize = 0;
    while i < n
        invariant
            n == v@.len(),
            i <= n,
            out@ == v@.take(i as int),
        decreases n - i,
    {
        out.push(v[i].clone());
        assert(out@ =~= v@.take(i + 1));
        i = i + 1;
    }
    assert(out@ =~= v@);
    out
}

/// Copies a list of string pairs.
pub fn clone_pairs(v: &Vec<(String, String)>) -> (r: Vec<(String, String)>)
    ensures
        r@ == v@,
{
    let n = v.len();
    let mut out: Vec<(String, String)> = Vec::new();
    let mut i: usize = 0;
    while i < n
        invariant
            n == v@.len(),
            i <= n,
            out@ == v@.take(i as int),
        decreases n - i,
    {
        out.push((v[i].0.clone(), v[i].1.clone()));
        assert(out@ =~= v@.take(i + 1));
        i = i + 1;
    }
    assert(out@ =~= v@);
    out
}

fn strs_to_strings(items: &[&'static str]) -> (r: Vec<String>)
    ensures
        r@.len() == items@.len(),
        forall|i: int| 0 <= i < items@.len() ==> (#[trigger] r@[i])@ == items@[i]@,
{
    let n = items.len();
    let mut out: Vec<String> = Vec::new();
    let mut i: usize = 0;
    while i < n
        invariant
            n == items@.len(),
            i <= n,
            out@.len() == i,
            forall|k: int| 0 <= k < i ==> (#[trigger] out@[k])@ == items@[k]@,
        decreases n - i,
    {
        out.push(owned(items[i]));
        i = i + 1;
    }
    out
}

impl ModeRegistration {
    pub fn descriptor(&self) -> (r: Option<ModeDescriptor>)
        ensures
            r is None <==> self.descriptor is None,
            r matches Some(d) ==> describes(d, *self),
    {
        match &self.descriptor {
            Some(d) => Some(
                ModeDescriptor {
                    mode: self.mode_name.clone(),
                    mode_version: d.mode_version.clone(),
                    title: d.title.clone(),
                    description: d.description.clone(),
                    determinism_class: d.determinism_class.clone(),
                    participant_model: d.participant_model.clone(),
                    message_types: clone_strings(&d.message_types),
                    terminal_message_types: clone_strings(&d.terminal_message_types),
                    schema_uris: clone_pairs(&self.schema_uris),
                },
            ),
            None => None,
        }
    }

    pub fn conformance_catalog(&self) -> (r: ModeConformanceCatalog)
        ensures
            r.fixture_set_name == self.conformance.fixture_set_name,
            r.golden_transcript_paths@ == self.conformance.golden_transcript_paths@,
            r.conformance_fixture_paths@ == self.conformance.conformance_fixture_paths@,
    {
        ModeConformanceCatalog {
            fixture_set_name: self.conformance.fixture_set_name.clone(),
            golden_transcript_paths: clone_strings(&self.conformance.golden_transcript_paths),
            conformance_fixture_paths: clone_strings(&self.conformance.conformance_fixture_paths),
        }
    }
}

/// The name is one of the canonical standards-track modes.
pub open spec fn is_canonical(name: Seq<char>) -> bool {
    standard_mode_name_seq().contains(name)
}

/// The names among `names` registered as standards-track, in order.
pub open spec fn standards_among(m: Map<Seq<char>, ModeRegistration>, names: Seq<Seq<char>>) -> Seq<
    Seq<char>,
>
    decreases names.len(),
{
    if names.len() == 0 {
        seq![]
    } else {
        let rest = standards_among(m, names.drop_last());
        let n = names.last();
        if m.contains_key(n) && m[n].standards_track {
            rest.push(n)
        } else {
            rest
        }
    }
}

/// All registered names, in name order.
pub open spec fn all_names(regs: Seq<(String, ModeRegistration)>) -> Seq<Seq<char>>
    decreases regs.len(),
{
    if regs.len() == 0 {
        seq![]
    } else {
        all_names(regs.drop_last()).push(regs.last().0@)
    }
}

/// Names of standards-track registrations outside the canonical set
/// (promoted extensions), in name order.
pub open spec fn promoted_names(regs: Seq<(String, ModeRegistration)>) -> Seq<Seq<char>>
    decreases regs.len(),
{
    if regs.len() == 0 {
        seq![]
    } else {
        let rest = promoted_names(regs.drop_last());
        if regs.last().1.standards_track && !is_canonical(regs.last().0@) {
            rest.push(regs.last().0@)
        } else {
            rest
        }
    }
}

/// Names of extension (non standards-track) registrations, in name order.
pub open spec fn extension_names(regs: Seq<(String, ModeRegistration)>) -> Seq<Seq<char>>
    decreases regs.len(),
{
    if regs.len() == 0 {
        seq![]
    } else {
        let rest = extension_names(regs.drop_last());
        if !regs.last().1.standards_track {
            rest.push(regs.last().0@)
        } else {
            rest
        }
    }
}

/// Registrations that publish a descriptor (extensions only, when
/// `extensions_only`), in name order.
pub open spec fn described_regs(regs: Seq<(String, ModeRegistration)>, extensions_only: bool) -> Seq<
    ModeRegistration,
>
    decreases regs.len(),
{
    if regs.len() == 0 {
        seq![]
    } else {
        let rest = described_regs(regs.drop_last(), extensions_only);
        let reg = regs.last().1;
        if reg.descriptor is Some && (!extensions_only || !reg.standards_track) {
            rest.push(reg)
        } else {
            rest
        }
    }
}

/// The registrations of `names` that publish a descriptor, in order.
pub open spec fn described_among(m: Map<Seq<char>, ModeRegistration>, names: Seq<Seq<char>>) -> Seq<
    ModeRegistration,
>
    decreases names.len(),
{
    if names.len() == 0 {
        seq![]
    } else {
        let rest = described_among(m, names.drop_last());
        let n = names.last();
        if m.contains_key(n) && m[n].descriptor is Some {
            rest.push(m[n])
        } else {
            rest
        }
    }
}

/// Why an extension descriptor cannot be registered, or `None`.
pub open spec fn descriptor_error(d: ModeDescriptor) -> Option<Seq<char>> {
    if is_blank(d.mode@) {
        Some("mode name must not be empty"@)
    } else if has_prefix(d.mode@, "macp.mode."@) {
        Some("cannot register extension with reserved macp.mode.* namespace"@)
    } else if d.message_types@.len() == 0 {
        Some("extension descriptor must declare at least one message type"@)
    } else if is_blank(d.mode_version@) {
        Some("extension descriptor must bind mode_version"@)
    } else {
        match first_undeclared(d.terminal_message_types@, d.message_types@) {
            Some(t) => Some(
                "terminal message type '"@ + t + "' must also appear in message_types"@,
            ),
            None => None,
        }
    }
}

/// The first terminal type that is not a declared message type.
pub open spec fn first_undeclared(terminals: Seq<String>, declared: Seq<String>) -> Option<Seq<char>>
    decreases terminals.len(),
{
    if terminals.len() == 0 {
        None
    } else if !seq_has(declared, terminals[0]@) {
        Some(terminals[0]@)
    } else {
        first_undeclared(terminals.drop_first(), declared)
    }
}

/// The message types a descriptor-driven extension accepts: all declared
/// ones but `SessionStart`, in order.
pub open spec fn accepted_types(types: Seq<String>) -> Seq<String>
    decreases types.len(),
{
    if types.len() == 0 {
        seq![]
    } else {
        let rest = accepted_types(types.drop_last());
        if types.last()@ != "SessionStart"@ {
            rest.push(types.last())
        } else {
            rest
        }
    }
}

/// `reg` is the registration of a run-time extension with descriptor `d`.
pub open spec fn extension_registration(reg: ModeRegistration, d: ModeDescriptor) -> bool {
    &&& reg.mode_name == d.mode
    &&& reg.factory matches ModeFactory::Passthrough(m) && m.allowed_message_types@ == accepted_types(
        d.message_types@,
    )
    &&& reg.descriptor == Some(d)
    &&& reg.schema_uris@ == d.schema_uris@
    &&& reg.conformance.fixture_set_name@.len() == 0
    &&& reg.conformance.golden_transcript_paths@.len() == 0
    &&& reg.conformance.conformance_fixture_paths@.len() == 0
    &&& !reg.standards_track
    &&& !reg.builtin
    &&& !reg.strict_session_start
}

/// A built-in registration for `name` with the given factory and track.
pub open spec fn builtin_registration(
    m: Map<Seq<char>, ModeRegistration>,
    name: Seq<char>,
    factory: ModeFactory,
    standards_track: bool,
    fixture_set_name: Seq<char>,
) -> bool {
    &&& m.contains_key(name)
    &&& m[name].mode_name@ == name
    &&& m[name].factory == factory
    &&& m[name].descriptor matches Some(d) && d.mode@ == name
    &&& m[name].standards_track == standards_track
    &&& m[name].builtin
    &&& m[name].strict_session_start
    &&& m[name].conformance.fixture_set_name@ == fixture_set_name
}

/// The registrations of a freshly built default registry: the five
/// standards-track modes and the built-in multi-round extension.
pub open spec fn is_default_registry(m: Map<Seq<char>, ModeRegistration>) -> bool {
    &&& m.dom() =~= set![
        "macp.mode.decision.v1"@,
        "macp.mode.proposal.v1"@,
        "macp.mode.task.v1"@,
        "macp.mode.handoff.v1"@,
        "macp.mode.quorum.v1"@,
        "ext.multi_round.v1"@,
    ]
    &&& builtin_registration(m, "macp.mode.decision.v1"@, ModeFactory::Decision, true, "decision"@)
    &&& builtin_registration(m, "macp.mode.proposal.v1"@, ModeFactory::Proposal, true, "proposal"@)
    &&& builtin_registration(m, "macp.mode.task.v1"@, ModeFactory::Task, true, "task"@)
    &&& builtin_registration(m, "macp.mode.handoff.v1"@, ModeFactory::Handoff, true, "handoff"@)
    &&& builtin_registration(m, "macp.mode.quorum.v1"@, ModeFactory::Quorum, true, "quorum"@)
    &&& builtin_registration(m, "ext.multi_round.v1"@, ModeFactory::MultiRound, false, "multi_round"@)
}

proof fn lemma_builtin_names_distinct()
    ensures
        "macp.mode.decision.v1"@.len() == 21,
        "macp.mode.proposal.v1"@.len() == 21,
        "macp.mode.task.v1"@.len() == 17,
        "macp.mode.handoff.v1"@.len() == 20,
        "macp.mode.quorum.v1"@.len() == 19,
        "ext.multi_round.v1"@.len() == 18,
        "macp.mode.decision.v1"@ != "macp.mode.proposal.v1"@,
{
    reveal_strlit("macp.mode.decision.v1");
    reveal_strlit("macp.mode.proposal.v1");
    reveal_strlit("macp.mode.task.v1");
    reveal_strlit("macp.mode.handoff.v1");
    reveal_strlit("macp.mode.quorum.v1");
    reveal_strlit("ext.multi_round.v1");
    assert("macp.mode.decision.v1"@[10] == 'd');
    assert("macp.mode.proposal.v1"@[10] == 'p');
}

/// The names of the default registry, in name order.
pub open spec fn default_mode_names() -> Seq<Seq<char>> {
    seq![
        "ext.multi_round.v1"@,
        "macp.mode.decision.v1"@,
        "macp.mode.handoff.v1"@,
        "macp.mode.proposal.v1"@,
        "macp.mode.quorum.v1"@,
        "macp.mode.task.v1"@,
    ]
}

proof fn lemma_default_names_sorted()
    ensures
        names_sorted(default_mode_names()),
{
    reveal_strlit("macp.mode.decision.v1");
    reveal_strlit("macp.mode.proposal.v1");
    reveal_strlit("macp.mode.task.v1");
    reveal_strlit("macp.mode.handoff.v1");
    reveal_strlit("macp.mode.quorum.v1");
    reveal_strlit("ext.multi_round.v1");
    let s = default_mode_names();
    lemma_seq_lt_at(s[0], s[1], 0);
    assert forall|k: int, i: int| 1 <= k < 5 && 0 <= i < 10 implies #[trigger] s[k][i] == s[k + 1][i] by {
        assert(i == 0 || i == 1 || i == 2 || i == 3 || i == 4 || i == 5 || i == 6 || i == 7 || i == 8
            || i == 9);
    }
    lemma_seq_lt_at(s[1], s[2], 10);
    lemma_seq_lt_at(s[2], s[3], 10);
    lemma_seq_lt_at(s[3], s[4], 10);
    lemma_seq_lt_at(s[4], s[5], 10);
    lemma_seq_lt_transitive(s[0], s[1], s[2]);
    lemma_seq_lt_transitive(s[0], s[2], s[3]);
    lemma_seq_lt_transitive(s[0], s[3], s[4]);
    lemma_seq_lt_transitive(s[0], s[4], s[5]);
    lemma_seq_lt_transitive(s[1], s[2], s[3]);
    lemma_seq_lt_transitive(s[1], s[3], s[4]);
    lemma_seq_lt_transitive(s[1], s[4], s[5]);
    lemma_seq_lt_transitive(s[2], s[3], s[4]);
    lemma_seq_lt_transitive(s[2], s[4], s[5]);
    lemma_seq_lt_transitive(s[3], s[4], s[5]);
    assert forall|i: int, j: int| 0 <= i < j < s.len() implies seq_lt(#[trigger] s[i], #[trigger] s[j]) by {
        assert(0 <= i < 6 && 0 <= j < 6);
    }
}

pub proof fn lemma_all_names_keys(regs: Seq<(String, ModeRegistration)>)
    ensures
        all_names(regs) == keys_of(regs),
    decreases regs.len(),
{
    if regs.len() == 0 {
        assert(keys_of(regs) =~= seq![]);
    } else {
        lemma_all_names_keys(regs.drop_last());
        assert(keys_of(regs) =~= keys_of(regs.drop_last()).push(regs.last().0@));
    }
}

/// Every registration is filed under its own name.
pub open spec fn names_match(m: Map<Seq<char>, ModeRegistration>) -> bool {
    forall|k: Seq<char>| #[trigger] m.contains_key(k) ==> m[k].mode_name@ == k
}

/// The registry of coordination modes, by name.
pub struct ModeRegistry {
    entries: OrderedMap<ModeRegistration>,
}

impl ModeRegistry {
    #[verifier::type_invariant]
    spec fn names_match(&self) -> bool {
        names_match(self.entries@)
    }

    /// (name, registration) in name order.
    pub closed spec fn registrations(&self) -> Seq<(String, ModeRegistration)> {
        self.entries.entries_seq()
    }

    /// The registrations by name.
    pub open spec fn view(&self) -> Map<Seq<char>, ModeRegistration> {
        seq_to_map(self.registrations())
    }

    #[allow(clippy::too_many_arguments)]
    fn insert_builtin(
        entries: &mut OrderedMap<ModeRegistration>,
        name: &str,
        factory: ModeFactory,
        descriptor: Option<ModeDescriptor>,
        standards_track: bool,
        strict_session_start: bool,
        fixture_set_name: &str,
        golden_transcripts: &[&'static str],
        conformance_fixtures: &[&'static str],
    )
        requires
            names_match(old(entries)@),
        ensures
            names_match(final(entries)@),
            keys_sorted(final(entries).entries_seq()),
            final(entries)@.dom() =~= old(entries)@.dom().insert(name@),
            forall|k: Seq<char>|
                k != name@ && old(entries)@.contains_key(k) ==> final(entries)@[k] == old(
                    entries,
                )@[k],
            final(entries)@[name@].mode_name@ == name@,
            final(entries)@[name@].factory == factory,
            final(entries)@[name@].descriptor == descriptor,
            final(entries)@[name@].standards_track == standards_track,
            final(entries)@[name@].builtin,
            final(entries)@[name@].strict_session_start == strict_session_start,
            final(entries)@[name@].conformance.fixture_set_name@ == fixture_set_name@,
    {
        let schema_uris = match &descriptor {
            Some(d) => clone_pairs(&d.schema_uris),
            None => Vec::new(),
        };
        let registration = ModeRegistration {
            mode_name: owned(name),
            factory,
            descriptor,
            schema_uris,
            conformance: ModeConformanceCatalog {
                fixture_set_name: owned(fixture_set_name),
                golden_transcript_paths: strs_to_strings(golden_transcripts),
                conformance_fixture_paths: strs_to_strings(conformance_fixtures),
            },
            standards_track,
            builtin: true,
            strict_session_start,
        };
        entries.insert(owned(name), registration);
    }

    /// Build the default registry with 5 standards-track modes and 1 built-in extension.
    pub fn build_default() -> (r: Self)
        ensures
            is_default_registry(r@),
            keys_sorted(r.registrations()),
            all_names(r.registrations()) == default_mode_names(),
    {
        let mut std_descriptors = standard_mode_descriptors();
        let mut ext_descriptors = extension_mode_descriptors();
        let multi_round = ext_descriptors.pop();
        let quorum = std_descriptors.pop();
        let handoff = std_descriptors.pop();
        let task = std_descriptors.pop();
        let proposal = std_descriptors.pop();
        let decision = std_descriptors.pop();
        let mut entries: OrderedMap<ModeRegistration> = OrderedMap::new();
        Self::insert_builtin(
            &mut entries,
            "macp.mode.decision.v1",
            ModeFactory::Decision,
            decision,
            true,
            true,
            "decision",
            &["tests/conformance/decision_happy_path.json"],
            &["tests/conformance/decision_happy_path.json", "tests/conformance/decision_reject_paths.json"],
        );
        Self::insert_builtin(
            &mut entries,
            "macp.mode.proposal.v1",
            ModeFactory::Proposal,
            proposal,
            true,
            true,
            "proposal",
            &["tests/conformance/proposal_happy_path.json"],
            &["tests/conformance/proposal_happy_path.json", "tests/conformance/proposal_reject_paths.json"],
        );
        Self::insert_builtin(
            &mut entries,
            "macp.mode.task.v1",
            ModeFactory::Task,
            task,
            true,
            true,
            "task",
            &["tests/conformance/task_happy_path.json"],
            &["tests/conformance/task_happy_path.json", "tests/conformance/task_reject_paths.json"],
        );
        Self::insert_builtin(
            &mut entries,
            "macp.mode.handoff.v1",
            ModeFactory::Handoff,
            handoff,
            true,
            true,
            "handoff",
            &["tests/conformance/handoff_happy_path.json"],
            &["tests/conformance/handoff_happy_path.json", "tests/conformance/handoff_reject_paths.json"],
        );
        Self::insert_builtin(
            &mut entries,
            "macp.mode.quorum.v1",
            ModeFactory::Quorum,
            quorum,
            true,
            true,
            "quorum",
            &["tests/conformance/quorum_happy_path.json"],
            &["tests/conformance/quorum_happy_path.json", "tests/conformance/quorum_reject_paths.json"],
        );
        Self::insert_builtin(
            &mut entries,
            "ext.multi_round.v1",
            ModeFactory::MultiRound,
            multi_round,
            false,
            true,
            "multi_round",
            &["tests/conformance/multi_round_happy_path.json"],
            &[
                "tests/conformance/multi_round_happy_path.json",
                "tests/conformance/multi_round_reject_paths.json",
            ],
        );
        proof {
            lemma_builtin_names_distinct();
            let regs = entries.entries_seq();
            lemma_keys_of_sorted(regs);
            lemma_default_names_sorted();
            lemma_all_names_keys(regs);
            assert forall|k: Seq<char>| keys_of(regs).contains(k) <==> default_mode_names().contains(k) by {
                let d = default_mode_names();
                if default_mode_names().contains(k) {
                    let i = choose|i: int| 0 <= i < d.len() && d[i] == k;
                    assert(k == d[0] || k == d[1] || k == d[2] || k == d[3] || k == d[4] || k == d[5]);
                }
                if keys_of(regs).contains(k) {
                    assert(entries@.contains_key(k));
                    assert(d[0] == "ext.multi_round.v1"@ && d[5] == "macp.mode.task.v1"@);
                    if k == "macp.mode.decision.v1"@ {
                        assert(d[1] == k);
                    } else if k == "macp.mode.handoff.v1"@ {
                        assert(d[2] == k);
                    } else if k == "macp.mode.proposal.v1"@ {
                        assert(d[3] == k);
                    } else if k == "macp.mode.quorum.v1"@ {
                        assert(d[4] == k);
                    } else if k == "macp.mode.task.v1"@ {
                        assert(d[5] == k);
                    } else {
                        assert(d[0] == k);
                    }
                }
            }
            lemma_sorted_names_determined(keys_of(regs), default_mode_names());
        }
        ModeRegistry { entries }
    }

    /// The registration filed under `name`.
    pub fn registration(&self, name: &str) -> (r: Option<&ModeRegistration>)
        ensures
            r is None <==> !self@.contains_key(name@),
            r matches Some(reg) ==> *reg == self@[name@],
    {
        self.entries.get(name)
    }

    pub fn get_mode(&self, name: &str) -> (r: Option<ModeRef<'_>>)
        ensures
            r is None <==> !self@.contains_key(name@),
            r matches Some(m) ==> m.name@ == name@ && m.registry == self,
    {
        if self.entries.contains_key(name) {
            Some(ModeRef { registry: self, name: owned(name) })
        } else {
            None
        }
    }

    fn is_canonical_name(name: &str) -> (r: bool)
        ensures
            r == is_canonical(name@),
    {
        let names = crate::mode::standard_mode_names();
        let mut i: usize = 0;
        while i < 5
            invariant
                names@.len() == 5,
                forall|k: int| 0 <= k < 5 ==> (#[trigger] names@[k])@ == standard_mode_name_seq()[k],
                i <= 5,
                forall|k: int| 0 <= k < i ==> standard_mode_name_seq()[k] != name@,
            decreases 5 - i,
        {
            if str_eq(names[i], name) {
                assert(standard_mode_name_seq()[i as int] == name@);
                return true;
            }
            i = i + 1;
        }
        assert(!standard_mode_name_seq().contains(name@)) by {
            if standard_mode_name_seq().contains(name@) {
                let k = choose|k: int| 0 <= k < 5 && standard_mode_name_seq()[k] == name@;
                assert(standard_mode_name_seq()[k] == name@);
            }
        }
        false
    }

    /// Standards-track mode names: the canonical ones in canonical order, then
    /// promoted extensions in name order.
    fn ordered_standard_names(&self) -> (r: Vec<String>)
        ensures
            crate::text::texts(r@) == standards_among(self@, standard_mode_name_seq())
                + promoted_names(self.registrations()),
    {
        let canonical = crate::mode::standard_mode_names();
        let mut names: Vec<String> = Vec::new();
        let mut i: usize = 0;
        while i < 5
            invariant
                canonical@.len() == 5,
                forall|k: int| 0 <= k < 5 ==> (#[trigger] canonical@[k])@ == standard_mode_name_seq()[k],
                i <= 5,
                crate::text::texts(names@) == standards_among(self@, standard_mode_name_seq().take(i as int)),
            decreases 5 - i,
        {
            assert(standard_mode_name_seq().take(i + 1).drop_last() =~= standard_mode_name_seq().take(i as int));
            let is_std = match self.entries.get(canonical[i]) {
                Some(reg) => reg.standards_track,
                None => false,
            };
            if is_std {
                names.push(owned(canonical[i]));
            }
            assert(crate::text::texts(names@) =~= standards_among(self@, standard_mode_name_seq().take(i + 1)));
            i = i + 1;
        }
        assert(standard_mode_name_seq().take(5) =~= standard_mode_name_seq());
        let ghost head = crate::text::texts(names@);
        let entries = self.entries.entries();
        let n = entries.len();
        let mut j: usize = 0;
        while j < n
            invariant
                n == entries@.len(),
                entries@ == self.registrations(),
                j <= n,
                crate::text::texts(names@) == head + promoted_names(entries@.take(j as int)),
            decreases n - j,
        {
            assert(entries@.take(j + 1).drop_last() =~= entries@.take(j as int));
            assert(entries@.take(j + 1).last() == entries@[j as int]);
            let ghost prev = crate::text::texts(names@);
            if entries[j].1.standards_track && !Self::is_canonical_name(entries[j].0.as_str()) {
                names.push(entries[j].0.clone());
                assert(promoted_names(entries@.take(j + 1)) == promoted_names(entries@.take(j as int)).push(entries@[j as int].0@));
                assert(crate::text::texts(names@) =~= prev.push(entries@[j as int].0@));
            } else {
                assert(promoted_names(entries@.take(j + 1)) == promoted_names(entries@.take(j as int)));
                assert(crate::text::texts(names@) =~= prev);
            }
            assert(crate::text::texts(names@) =~= head + promoted_names(entries@.take(j + 1)));
            j = j + 1;
        }
        assert(entries@.take(n as int) =~= entries@);
        names
    }

    pub fn standard_mode_names(&self) -> (r: Vec<String>)
        ensures
            crate::text::texts(r@) == standards_among(self@, standard_mode_name_seq())
                + promoted_names(self.registrations()),
    {
        self.ordered_standard_names()
    }

    /// Descriptors of the standards-track modes, in the order of
    /// [`Self::standard_mode_names`].
    pub fn standard_mode_descriptors(&self) -> (r: Vec<ModeDescriptor>)
        ensures
            r@.len() == described_among(
                self@,
                standards_among(self@, standard_mode_name_seq()) + promoted_names(self.registrations()),
            ).len(),
            forall|i: int|
                0 <= i < r@.len() ==> describes(
                    #[trigger] r@[i],
                    described_among(
                        self@,
                        standards_among(self@, standard_mode_name_seq()) + promoted_names(
                            self.registrations(),
                        ),
                    )[i],
                ),
    {
        let names = self.ordered_standard_names();
        let ghost all = crate::text::texts(names@);
        let n = names.len();
        let mut out: Vec<ModeDescriptor> = Vec::new();
        let mut i: usize = 0;
        while i < n
            invariant
                n == names@.len(),
                all == crate::text::texts(names@),
                i <= n,
                out@.len() == described_among(self@, all.take(i as int)).len(),
                forall|k: int|
                    0 <= k < out@.len() ==> describes(
                        #[trigger] out@[k],
                        described_among(self@, all.take(i as int))[k],
                    ),
            decreases n - i,
        {
            assert(all.take(i + 1).drop_last() =~= all.take(i as int));
            assert(all.take(i + 1).last() == names@[i as int]@);
            match self.entries.get(names[i].as_str()) {
                Some(reg) => match reg.descriptor() {
                    Some(d) => {
                        out.push(d);
                    },
                    None => {},
                },
                None => {},
            }
            i = i + 1;
        }
        assert(all.take(n as int) =~= all);
        out
    }

    pub fn extension_mode_names(&self) -> (r: Vec<String>)
        ensures
            crate::text::texts(r@) == extension_names(self.registrations()),
    {
        let entries = self.entries.entries();
        let n = entries.len();
        let mut names: Vec<String> = Vec::new();
        let mut j: usize = 0;
        while j < n
            invariant
                n == entries@.len(),
                j <= n,
                crate::text::texts(names@) == extension_names(entries@.take(j as int)),
            decreases n - j,
        {
            assert(entries@.take(j + 1).drop_last() =~= entries@.take(j as int));
            if !entries[j].1.standards_track {
                names.push(entries[j].0.clone());
            }
            assert(crate::text::texts(names@) =~= extension_names(entries@.take(j + 1)));
            j = j + 1;
        }
        assert(entries@.take(n as int) =~= entries@);
        names
    }

    fn descriptors_of(&self, extensions_only: bool) -> (r: Vec<ModeDescriptor>)
        ensures
            r@.len() == described_regs(self.registrations(), extensions_only).len(),
            forall|i: int|
                0 <= i < r@.len() ==> describes(
                    #[trigger] r@[i],
                    described_regs(self.registrations(), extensions_only)[i],
                ),
    {
        let entries = self.entries.entries();
        let n = entries.len();
        let mut out: Vec<ModeDescriptor> = Vec::new();
        let mut j: usize = 0;
        while j < n
            invariant
                n == entries@.len(),
                j <= n,
                out@.len() == described_regs(entries@.take(j as int), extensions_only).len(),
                forall|k: int|
                    0 <= k < out@.len() ==> describes(
                        #[trigger] out@[k],
                        described_regs(entries@.take(j as int), extensions_only)[k],
                    ),
            decreases n - j,
        {
            assert(entries@.take(j + 1).drop_last() =~= entries@.take(j as int));
            if !extensions_only || !entries[j].1.standards_track {
                match entries[j].1.descriptor() {
                    Some(d) => {
                        out.push(d);
                    },
                    None => {},
                }
            }
            j = j + 1;
        }
        assert(entries@.take(n as int) =~= entries@);
        out
    }

    /// Descriptors of the extension modes, by mode name.
    pub fn extension_mode_descriptors(&self) -> (r: Vec<ModeDescriptor>)
        ensures
            r@.len() == described_regs(self.registrations(), true).len(),
            forall|i: int|
                0 <= i < r@.len() ==> describes(#[trigger] r@[i], described_regs(self.registrations(), true)[i]),
    {
        self.descriptors_of(true)
    }

    /// All registered mode names, sorted: each registered name once, in
    /// strictly increasing order.
    pub fn all_mode_names(&self) -> (r: Vec<String>)
        ensures
            crate::text::texts(r@) == all_names(self.registrations()),
            keys_sorted(self.registrations()),
            names_sorted(crate::text::texts(r@)),
            r@.len() == self@.dom().len(),
            forall|k: Seq<char>| crate::text::texts(r@).contains(k) <==> self@.contains_key(k),
    {
        let entries = self.entries.entries();
        let n = entries.len();
        let mut names: Vec<String> = Vec::new();
        let mut j: usize = 0;
        while j < n
            invariant
                n == entries@.len(),
                j <= n,
                crate::text::texts(names@) == all_names(entries@.take(j as int)),
            decreases n - j,
        {
            assert(entries@.take(j + 1).drop_last() =~= entries@.take(j as int));
            names.push(entries[j].0.clone());
            assert(crate::text::texts(names@) =~= all_names(entries@.take(j + 1)));
            j = j + 1;
        }
        assert(entries@.take(n as int) =~= entries@);
        proof {
            lemma_all_names_keys(entries@);
            lemma_keys_of_sorted(entries@);
            crate::keyed::lemma_map_len(entries@);
        }
        names
    }

    /// Descriptors of all modes that publish one, by mode name.
    pub fn all_mode_descriptors(&self) -> (r: Vec<ModeDescriptor>)
        ensures
            r@.len() == described_regs(self.registrations(), false).len(),
            forall|i: int|
                0 <= i < r@.len() ==> describes(#[trigger] r@[i], described_regs(self.registrations(), false)[i]),
    {
        self.descriptors_of(false)
    }

    /// Each mode's conformance catalog, by mode name.
    pub fn all_mode_conformance(&self) -> (r: Vec<(String, ModeConformanceCatalog)>)
        ensures
            r@.len() == self.registrations().len(),
            forall|i: int|
                0 <= i < r@.len() ==> {
                    let reg = self.registrations()[i];
                    &&& (#[trigger] r@[i]).0 == reg.0
                    &&& r@[i].1.fixture_set_name == reg.1.conformance.fixture_set_name
                    &&& r@[i].1.golden_transcript_paths@ == reg.1.conformance.golden_transcript_paths@
                    &&& r@[i].1.conformance_fixture_paths@ == reg.1.conformance.conformance_fixture_paths@
                },
    {
        let entries = self.entries.entries();
        let n = entries.len();
        let mut out: Vec<(String, ModeConformanceCatalog)> = Vec::new();
        let mut j: usize = 0;
        while j < n
            invariant
                n == entries@.len(),
                entries@ == self.registrations(),
                j <= n,
                out@.len() == j,
                forall|i: int|
                    0 <= i < j ==> {
                        let reg = entries@[i];
                        &&& (#[trigger] out@[i]).0 == reg.0
                        &&& out@[i].1.fixture_set_name == reg.1.conformance.fixture_set_name
                        &&& out@[i].1.golden_transcript_paths@ == reg.1.conformance.golden_transcript_paths@
                        &&& out@[i].1.conformance_fixture_paths@ == reg.1.conformance.conformance_fixture_paths@
                    },
            decreases n - j,
        {
            out.push((entries[j].0.clone(), entries[j].1.conformance_catalog()));
            j = j + 1;
        }
        out
    }

    pub fn is_standard_mode(&self, name: &str) -> (r: bool)
        ensures
            r == (self@.contains_key(name@) && self@[name@].standards_track),
    {
        match self.entries.get(name) {
            Some(reg) => reg.standards_track,
            None => false,
        }
    }

    pub fn requires_strict_session_start(&self, name: &str) -> (r: bool)
        ensures
            r == (self@.contains_key(name@) && self@[name@].strict_session_start),
    {
        match self.entries.get(name) {
            Some(reg) => reg.strict_session_start,
            None => false,
        }
    }

    fn first_undeclared_exec<'a>(terminals: &'a Vec<String>, declared: &Vec<String>) -> (r: Option<&'a String>)
        ensures
            r is None <==> first_undeclared(terminals@, declared@) is None,
            r matches Some(t) ==> first_undeclared(terminals@, declared@) == Some(t@),
    {
        let n = terminals.len();
        let mut i: usize = 0;
        assert(terminals@.skip(0) =~= terminals@);
        while i < n
            invariant
                n == terminals@.len(),
                i <= n,
                first_undeclared(terminals@, declared@) == first_undeclared(terminals@.skip(i as int), declared@),
            decreases n - i,
        {
            assert(terminals@.skip(i as int)[0] == terminals@[i as int]);
            if !vec_has(declared, terminals[i].as_str()) {
                return Some(&terminals[i]);
            }
            assert(terminals@.skip(i as int).drop_first() =~= terminals@.skip(i + 1));
            i = i + 1;
        }
        assert(terminals@.skip(n as int).len() == 0);
        None
    }

    fn validate_extension_descriptor(descriptor: &ModeDescriptor) -> (r: Result<(), String>)
        ensures
            match descriptor_error(*descriptor) {
                Some(msg) => r matches Err(e) && e@ == msg,
                None => r is Ok,
            },
    {
        if str_is_blank(descriptor.mode.as_str()) {
            return Err(owned("mode name must not be empty"));
        }
        if str_starts_with(descriptor.mode.as_str(), "macp.mode.") {
            return Err(owned("cannot register extension with reserved macp.mode.* namespace"));
        }
        if descriptor.message_types.len() == 0 {
            return Err(owned("extension descriptor must declare at least one message type"));
        }
        if str_is_blank(descriptor.mode_version.as_str()) {
            return Err(owned("extension descriptor must bind mode_version"));
        }
        match Self::first_undeclared_exec(&descriptor.terminal_message_types, &descriptor.message_types) {
            Some(terminal) => {
                let mut msg = owned("terminal message type '");
                msg.append(terminal.as_str());
                msg.append("' must also appear in message_types");
                Err(msg)
            },
            None => Ok(()),
        }
    }

    fn accepted_message_types(types: &Vec<String>) -> (r: Vec<String>)
        ensures
            r@ == accepted_types(types@),
    {
        let n = types.len();
        let mut out: Vec<String> = Vec::new();
        let mut i: usize = 0;
        while i < n
            invariant
                n == types@.len(),
                i <= n,
                out@ == accepted_types(types@.take(i as int)),
            decreases n - i,
        {
            assert(types@.take(i + 1).drop_last() =~= types@.take(i as int));
            assert(types@.take(i + 1).last() == types@[i as int]);
            if !str_eq(types[i].as_str(), "SessionStart") {
                out.push(types[i].clone());
            }
            i = i + 1;
        }
        assert(types@.take(n as int) =~= types@);
        out
    }

    fn quoted_message(prefix: &str, name: &str, suffix: &str) -> (r: String)
        ensures
            r@ == prefix@ + name@ + suffix@,
    {
        let mut msg = owned(prefix);
        msg.append(name);
        msg.append(suffix);
        msg
    }

    /// Register a new descriptor-driven extension mode dynamically.
    ///
    /// Dynamically registered extensions use `PassthroughMode`, which
    /// validates only the descriptor-declared message types and commitment
    /// authority.
    pub fn register_extension(&mut self, descriptor: ModeDescriptor) -> (r: Result<(), String>)
        ensures
            keys_sorted(final(self).registrations()),
            match descriptor_error(descriptor) {
                Some(msg) => r matches Err(e) && e@ == msg && final(self)@ == old(self)@,
                None => if old(self)@.contains_key(descriptor.mode@) {
                    &&& r matches Err(e) && e@ == "mode '"@ + descriptor.mode@ + "' is already registered"@
                    &&& final(self)@ == old(self)@
                } else {
                    &&& r is Ok
                    &&& final(self)@ == old(self)@.insert(descriptor.mode@, final(self)@[descriptor.mode@])
                    &&& extension_registration(final(self)@[descriptor.mode@], descriptor)
                },
            },
    {
        proof {
            use_type_invariant(&*self);
        }
        let already_registered = self.entries.contains_key(descriptor.mode.as_str());
        Self::validate_extension_descriptor(&descriptor)?;
        let name = descriptor.mode.clone();
        let schema_uris = clone_pairs(&descriptor.schema_uris);
        let allowed = Self::accepted_message_types(&descriptor.message_types);
        if already_registered {
            return Err(Self::quoted_message("mode '", name.as_str(), "' is already registered"));
        }
        let registration = ModeRegistration {
            mode_name: name.clone(),
            factory: ModeFactory::Passthrough(PassthroughMode { allowed_message_types: allowed }),
            descriptor: Some(descriptor),
            schema_uris,
            conformance: ModeConformanceCatalog {
                fixture_set_name: String::new(),
                golden_transcript_paths: Vec::new(),
                conformance_fixture_paths: Vec::new(),
            },
            standards_track: false,
            builtin: false,
            strict_session_start: false,
        };
        let mut entries = OrderedMap::new();
        std::mem::swap(&mut entries, &mut self.entries);
        entries.insert(name, registration);
        self.entries = entries;
        Ok(())
    }

    /// Unregister a dynamically registered extension mode.
    pub fn unregister_extension(&mut self, mode: &str) -> (r: Result<(), String>)
        ensures
            keys_sorted(final(self).registrations()),
            !old(self)@.contains_key(mode@) ==> (r matches Err(e) && e@ == "mode '"@ + mode@
                + "' not found"@) && final(self)@ == old(self)@,
            old(self)@.contains_key(mode@) && old(self)@[mode@].builtin ==> (r matches Err(e) && e@
                == "cannot unregister built-in mode '"@ + mode@ + "'"@) && final(self)@ == old(self)@,
            old(self)@.contains_key(mode@) && !old(self)@[mode@].builtin && old(
                self,
            )@[mode@].standards_track ==> (r matches Err(e) && e@
                == "cannot unregister standards-track mode '"@ + mode@ + "'"@) && final(self)@
                == old(self)@,
            old(self)@.contains_key(mode@) && !old(self)@[mode@].builtin && !old(
                self,
            )@[mode@].standards_track ==> r is Ok && final(self)@ == old(self)@.remove(mode@),
    {
        proof {
            use_type_invariant(&*self);
        }
        match self.entries.get(mode) {
            None => {
                return Err(Self::quoted_message("mode '", mode, "' not found"));
            },
            Some(entry) => {
                if entry.builtin {
                    return Err(Self::quoted_message("cannot unregister built-in mode '", mode, "'"));
                }
                if entry.standards_track {
                    return Err(
                        Self::quoted_message("cannot unregister standards-track mode '", mode, "'"),
                    );
                }
            },
        }
        let mut entries = OrderedMap::new();
        std::mem::swap(&mut entries, &mut self.entries);
        entries.remove(mode);
        self.entries = entries;
        Ok(())
    }

    /// Promote an extension mode to standards-track.
    /// Optionally re-keys the entry with a new identifier.
    pub fn promote_mode(&mut self, mode: &str, new_name: Option<&str>) -> (r: Result<String, String>)
        ensures
            keys_sorted(final(self).registrations()),
            ({
                let target = match new_name {
                    Some(n) => n@,
                    None => mode@,
                };
                if !old(self)@.contains_key(mode@) {
                    r matches Err(e) && e@ == "mode '"@ + mode@ + "' not found"@ && final(self)@ == old(self)@
                } else if old(self)@[mode@].standards_track {
                    r matches Err(e) && e@ == "mode '"@ + mode@ + "' is already standards-track"@
                        && final(self)@ == old(self)@
                } else if target != mode@ && old(self)@.contains_key(target) {
                    r matches Err(e) && e@ == "cannot promote: target name '"@ + target
                        + "' already exists"@ && final(self)@ == old(self)@
                } else {
                    &&& r matches Ok(n) && n@ == target
                    &&& final(self)@ == old(self)@.remove(mode@).insert(target, final(self)@[target])
                    &&& final(self)@[target] == (ModeRegistration {
                        mode_name: final(self)@[target].mode_name,
                        standards_track: true,
                        strict_session_start: true,
                        ..old(self)@[mode@]
                    })
                    &&& final(self)@[target].mode_name@ == target
                }
            }),
    {
        proof {
            use_type_invariant(&*self);
        }
        match self.entries.get(mode) {
            None => {
                return Err(Self::quoted_message("mode '", mode, "' not found"));
            },
            Some(entry) => {
                if entry.standards_track {
                    return Err(Self::quoted_message("mode '", mode, "' is already standards-track"));
                }
            },
        }
        let final_name = match new_name {
            Some(n) => owned(n),
            None => owned(mode),
        };
        if !str_eq(final_name.as_str(), mode) && self.entries.contains_key(final_name.as_str()) {
            return Err(
                Self::quoted_message("cannot promote: target name '", final_name.as_str(), "' already exists"),
            );
        }
        let mut entries = OrderedMap::new();
        std::mem::swap(&mut entries, &mut self.entries);
        match entries.remove(mode) {
            Some(registration) => {
                let mut registration = registration;
                registration.standards_track = true;
                registration.strict_session_start = true;
                registration.mode_name = final_name.clone();
                entries.insert(final_name.clone(), registration);
            },
            None => {},
        }
        self.entries = entries;
        Ok(final_name)
    }
}

/// A handle for calling a registered mode by name.
pub struct ModeRef<'a> {
    pub registry: &'a ModeRegistry,
    pub name: String,
}

impl<'a> ModeRef<'a> {
    fn factory(&self) -> (r: Result<&ModeFactory, MacpError>)
        ensures
            r is Err <==> !self.registry@.contains_key(self.name@),
            r matches Err(e) ==> e == MacpError::UnknownMode,
            r matches Ok(f) ==> *f == self.registry@[self.name@].factory,
    {
        match self.registry.registration(self.name.as_str()) {
            Some(reg) => Ok(&reg.factory),
            None => Err(MacpError::UnknownMode),
        }
    }

    pub fn on_session_start(&self, session: &mut Session, env: &Envelope) -> (r: Result<
        ModeResponse,
        MacpError,
    >)
        ensures
            if self.registry@.contains_key(self.name@) {
                factory_started(self.registry@[self.name@].factory, *old(session), *final(session), r)
            } else {
                r == Err::<ModeResponse, MacpError>(MacpError::UnknownMode) && *final(session) == *old(
                    session,
                )
            },
    {
        let mode = self.factory()?;
        mode.on_session_start(session, env)
    }

    pub fn on_message(
        &self,
        session: &mut Session,
        env: &Envelope,
        payload: MessagePayload,
        judgments: &PolicyJudgments,
    ) -> (r: Result<ModeResponse, MacpError>)
        ensures
            if self.registry@.contains_key(self.name@) {
                factory_outcome(
                    self.registry@[self.name@].factory,
                    *old(session),
                    *final(session),
                    r,
                    *env,
                    payload,
                    *judgments,
                )
            } else {
                r == Err::<ModeResponse, MacpError>(MacpError::UnknownMode) && *final(session) == *old(
                    session,
                )
            },
    {
        let mode = self.factory()?;
        mode.on_message(session, env, payload, judgments)
    }

    pub fn authorize_sender(&self, session: &Session, env: &Envelope) -> (r: Result<(), MacpError>)
        ensures
            if self.registry@.contains_key(self.name@) {
                &&& r is Ok <==> factory_sender_allowed(self.registry@[self.name@].factory, *session, *env)
                &&& r matches Err(e) ==> e == MacpError::Forbidden
            } else {
                r == Err::<(), MacpError>(MacpError::UnknownMode)
            },
    {
        let mode = self.factory()?;
        mode.authorize_sender(session, env)
    }
}

} // verus!
