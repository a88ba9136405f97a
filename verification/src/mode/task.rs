//! Task Mode (RFC-MACP-0009): one bounded delegated task, its assignee's
//! responses, progress and terminal report, closed by a Commitment.
use vstd::prelude::*;
use crate::error::MacpError;
use crate::mode::util::{commitment_valid, is_declared_participant, valid_commitment};
use crate::mode::{resolved_with, same_bindings, Mode, ModeResponse, PolicyJudgments};
use crate::pb::{Envelope, MessagePayload};
use crate::session::{ModeState, Session, SessionState};
use crate::text::{seq_has, str_eq};

verus! {

pub struct TaskRecord {
    pub task_id: String,
    pub title: String,
    pub instructions: String,
    pub requested_assignee: String,
    pub input: Vec<u8>,
    pub deadline_unix_ms: i64,
    pub requester: String,
}

pub struct TaskRejectRecord {
    pub task_id: String,
    pub assignee: String,
    pub reason: String,
}

pub struct TaskUpdateRecord {
    pub task_id: String,
    pub status: String,
    /// Bits of the reported progress.
    pub progress_bits: u64,
    pub message: String,
    pub partial_output: Vec<u8>,
    pub sender: String,
}

pub struct TaskCompleteRecord {
    pub task_id: String,
    pub assignee: String,
    pub output: Vec<u8>,
    pub summary: String,
}

pub struct TaskFailRecord {
    pub task_id: String,
    pub assignee: String,
    pub error_code: String,
    pub reason: String,
    pub retryable: bool,
}

pub enum TaskTerminalReport {
    Complete(TaskCompleteRecord),
    Fail(TaskFailRecord),
}

pub struct TaskState {
    pub task: Option<TaskRecord>,
    pub active_assignee: Option<String>,
    pub rejections: Vec<TaskRejectRecord>,
    pub updates: Vec<TaskUpdateRecord>,
    pub terminal_report: Option<TaskTerminalReport>,
}

pub ghost struct TaskView {
    pub task: Option<TaskRecord>,
    pub active_assignee: Option<String>,
    pub rejections: Seq<TaskRejectRecord>,
    pub updates: Seq<TaskUpdateRecord>,
    pub terminal_report: Option<TaskTerminalReport>,
}

impl View for TaskState {
    type V = TaskView;

    open spec fn view(&self) -> TaskView {
        TaskView {
            task: self.task,
            active_assignee: self.active_assignee,
            rejections: self.rejections@,
            updates: self.updates@,
            terminal_report: self.terminal_report,
        }
    }
}

pub open spec fn empty_task() -> TaskView {
    TaskView {
        task: None,
        active_assignee: None,
        rejections: Seq::empty(),
        updates: Seq::empty(),
        terminal_report: None,
    }
}

/// The task state that a stored mode state stands for.
pub open spec fn task_view_of(ms: ModeState) -> Option<TaskView> {
    match ms {
        ModeState::Empty => Some(empty_task()),
        ModeState::Task(s) => Some(s@),
        _ => None,
    }
}

/// The named task is the requested one.
pub open spec fn task_matches(v: TaskView, task_id: Seq<char>) -> bool {
    &&& task_id.len() > 0
    &&& v.task matches Some(t) && task_id == t.task_id@
}

/// The sender may accept or reject the task: the requested assignee when one
/// was named, else any declared participant but the initiator.
pub open spec fn can_respond(session: Session, task: TaskRecord, sender: Seq<char>) -> bool {
    if task.requested_assignee@.len() > 0 {
        sender == task.requested_assignee@
    } else {
        seq_has(session.participants@, sender) && sender != session.initiator_sender@
    }
}

/// The sender is the assignee that accepted the task, and no terminal report exists.
pub open spec fn may_report(v: TaskView, sender: Seq<char>) -> bool {
    &&& v.terminal_report is None
    &&& v.active_assignee matches Some(a) && a@ == sender
}

/// The assignee field is empty or names the sender.
pub open spec fn assignee_ok(assignee: Seq<char>, sender: Seq<char>) -> bool {
    assignee.len() == 0 || assignee == sender
}

/// The sender already rejected the task.
pub open spec fn has_rejected(v: TaskView, sender: Seq<char>) -> bool {
    exists|i: int| 0 <= i < v.rejections.len() && (#[trigger] v.rejections[i]).assignee@ == sender
}

/// Why an accept or reject of the task is refused, or `None`.
pub open spec fn response_rejection(
    session: Session,
    v: TaskView,
    task_id: Seq<char>,
    assignee: Seq<char>,
    sender: Seq<char>,
) -> Option<MacpError> {
    if !task_matches(v, task_id) || v.active_assignee is Some || !assignee_ok(assignee, sender) {
        Some(MacpError::InvalidPayload)
    } else if !can_respond(session, v.task->0, sender) {
        Some(MacpError::Forbidden)
    } else {
        None
    }
}

/// Why a completion or failure report is refused, or `None`.
pub open spec fn report_rejection(v: TaskView, task_id: Seq<char>, assignee: Seq<char>, sender: Seq<char>) -> Option<
    MacpError,
> {
    if !task_matches(v, task_id) {
        Some(MacpError::InvalidPayload)
    } else if !may_report(v, sender) {
        Some(MacpError::Forbidden)
    } else if !assignee_ok(assignee, sender) {
        Some(MacpError::InvalidPayload)
    } else {
        None
    }
}

/// Why a message is refused in the given task state, or `None`.
pub open spec fn task_rejection(
    session: Session,
    v: TaskView,
    env: Envelope,
    payload: MessagePayload,
) -> Option<MacpError> {
    let mt = env.message_type@;
    let sender = env.sender@;
    if mt == "TaskRequest"@ {
        if sender != session.initiator_sender@ {
            Some(MacpError::Forbidden)
        } else {
            match payload {
                MessagePayload::TaskRequest(p) => if v.task is Some || p.task_id@.len() == 0 || (
                p.requested_assignee@.len() > 0 && !seq_has(
                    session.participants@,
                    p.requested_assignee@,
                )) {
                    Some(MacpError::InvalidPayload)
                } else {
                    None
                },
                _ => Some(MacpError::InvalidPayload),
            }
        }
    } else if mt == "TaskAccept"@ {
        match payload {
            MessagePayload::TaskAccept(p) => response_rejection(session, v, p.task_id@, p.assignee@, sender),
            _ => Some(MacpError::InvalidPayload),
        }
    } else if mt == "TaskReject"@ {
        match payload {
            MessagePayload::TaskReject(p) => match response_rejection(session, v, p.task_id@, p.assignee@, sender) {
                Some(e) => Some(e),
                None => if has_rejected(v, sender) {
                    Some(MacpError::InvalidPayload)
                } else {
                    None
                },
            },
            _ => Some(MacpError::InvalidPayload),
        }
    } else if mt == "TaskUpdate"@ {
        match payload {
            MessagePayload::TaskUpdate(p) => if !task_matches(v, p.task_id@) {
                Some(MacpError::InvalidPayload)
            } else if !may_report(v, sender) {
                Some(MacpError::Forbidden)
            } else {
                None
            },
            _ => Some(MacpError::InvalidPayload),
        }
    } else if mt == "TaskComplete"@ {
        match payload {
            MessagePayload::TaskComplete(p) => report_rejection(v, p.task_id@, p.assignee@, sender),
            _ => Some(MacpError::InvalidPayload),
        }
    } else if mt == "TaskFail"@ {
        match payload {
            MessagePayload::TaskFail(p) => report_rejection(v, p.task_id@, p.assignee@, sender),
            _ => Some(MacpError::InvalidPayload),
        }
    } else if mt == "Commitment"@ {
        if sender != session.initiator_sender@ {
            Some(MacpError::Forbidden)
        } else if valid_commitment(session, payload) is None || v.terminal_report is None {
            Some(MacpError::InvalidPayload)
        } else {
            None
        }
    } else {
        Some(MacpError::InvalidPayload)
    }
}

/// The state after an accepted message.
pub open spec fn task_next(v: TaskView, env: Envelope, payload: MessagePayload) -> TaskView {
    match payload {
        MessagePayload::TaskRequest(p) => TaskView {
            task: Some(
                TaskRecord {
                    task_id: p.task_id,
                    title: p.title,
                    instructions: p.instructions,
                    requested_assignee: p.requested_assignee,
                    input: p.input,
                    deadline_unix_ms: p.deadline_unix_ms,
                    requester: env.sender,
                },
            ),
            ..v
        },
        MessagePayload::TaskAccept(_) => TaskView { active_assignee: Some(env.sender), ..v },
        MessagePayload::TaskReject(p) => TaskView {
            rejections: v.rejections.push(
                TaskRejectRecord { task_id: p.task_id, assignee: env.sender, reason: p.reason },
            ),
            ..v
        },
        MessagePayload::TaskUpdate(p) => TaskView {
            updates: v.updates.push(
                TaskUpdateRecord {
                    task_id: p.task_id,
                    status: p.status,
                    progress_bits: p.progress_bits,
                    message: p.message,
                    partial_output: p.partial_output,
                    sender: env.sender,
                },
            ),
            ..v
        },
        MessagePayload::TaskComplete(p) => TaskView {
            terminal_report: Some(
                TaskTerminalReport::Complete(
                    TaskCompleteRecord {
                        task_id: p.task_id,
                        assignee: env.sender,
                        output: p.output,
                        summary: p.summary,
                    },
                ),
            ),
            ..v
        },
        MessagePayload::TaskFail(p) => TaskView {
            terminal_report: Some(
                TaskTerminalReport::Fail(
                    TaskFailRecord {
                        task_id: p.task_id,
                        assignee: env.sender,
                        error_code: p.error_code,
                        reason: p.reason,
                        retryable: p.retryable,
                    },
                ),
            ),
            ..v
        },
        _ => v,
    }
}

/// TaskRequest and Commitment from the initiator; the rest from declared participants.
pub open spec fn task_sender_allowed(session: Session, env: Envelope) -> bool {
    let mt = env.message_type@;
    if mt == "TaskRequest"@ || mt == "Commitment"@ {
        env.sender@ == session.initiator_sender@
    } else {
        seq_has(session.participants@, env.sender@)
    }
}

/// What `on_message` promises: a refused message leaves the session as it
/// was; an accepted one advances the mode state and, for a Commitment,
/// resolves the session with the envelope's payload.
pub open spec fn task_outcome(
    before: Session,
    after: Session,
    r: Result<ModeResponse, MacpError>,
    env: Envelope,
    payload: MessagePayload,
    j: PolicyJudgments,
) -> bool {
    match task_view_of(before.mode_state) {
        None => r == Err::<ModeResponse, MacpError>(MacpError::InvalidModeState)
            && after == before,
        Some(v) => match task_rejection(before, v, env, payload) {
            Some(e) => r == Err::<ModeResponse, MacpError>(e) && after == before,
            None => {
                &&& same_bindings(before, after)
                &&& after.mode_state matches ModeState::Task(ns) && ns@ == task_next(
                    v,
                    env,
                    payload,
                )
                &&& if env.message_type@ == "Commitment"@ {
                    r == Ok::<ModeResponse, MacpError>(ModeResponse::PersistAndResolve)
                        && resolved_with(before, after, env.payload@)
                } else {
                    r == Ok::<ModeResponse, MacpError>(ModeResponse::PersistState)
                        && after.state == before.state
                        && after.resolution == before.resolution
                }
            },
        },
    }
}

/// What `on_session_start` promises.
pub open spec fn task_started(before: Session, after: Session, r: Result<ModeResponse, MacpError>) -> bool {
    if before.participants@.len() < 2 || !seq_has(before.participants@, before.initiator_sender@) {
        r == Err::<ModeResponse, MacpError>(MacpError::InvalidPayload) && after == before
    } else {
        &&& r == Ok::<ModeResponse, MacpError>(ModeResponse::PersistState)
        &&& after == (Session { mode_state: after.mode_state, ..before })
        &&& task_view_of(after.mode_state) == Some(empty_task())
        &&& after.mode_state is Task
    }
}

pub struct TaskMode;

impl TaskMode {
    pub fn default_state() -> (r: TaskState)
        ensures
            r@ == empty_task(),
    {
        let r = TaskState {
            task: None,
            active_assignee: None,
            rejections: Vec::new(),
            updates: Vec::new(),
            terminal_report: None,
        };
        assert(r@.rejections =~= Seq::<TaskRejectRecord>::empty());
        assert(r@.updates =~= Seq::<TaskUpdateRecord>::empty());
        r
    }

    fn ensure_task_matches(state: &TaskState, task_id: &str) -> (r: Result<(), MacpError>)
        ensures
            r is Ok <==> task_matches(state@, task_id@),
            r matches Err(e) ==> e == MacpError::InvalidPayload,
    {
        match &state.task {
            Some(task) => {
                if task_id.unicode_len() == 0 || !str_eq(task_id, task.task_id.as_str()) {
                    return Err(MacpError::InvalidPayload);
                }
                Ok(())
            },
            None => Err(MacpError::InvalidPayload),
        }
    }

    fn can_assignee_respond(session: &Session, task: &TaskRecord, sender: &str) -> (r: bool)
        ensures
            r == can_respond(*session, *task, sender@),
    {
        if task.requested_assignee.as_str().unicode_len() != 0 {
            str_eq(sender, task.requested_assignee.as_str())
        } else {
            is_declared_participant(&session.participants, sender) && !str_eq(
                sender,
                session.initiator_sender.as_str(),
            )
        }
    }

    fn assignee_matches(assignee: &String, sender: &str) -> (r: bool)
        ensures
            r == assignee_ok(assignee@, sender@),
    {
        assignee.as_str().unicode_len() == 0 || str_eq(assignee.as_str(), sender)
    }

    fn may_report_exec(state: &TaskState, sender: &str) -> (r: bool)
        ensures
            r == may_report(state@, sender@),
    {
        if state.terminal_report.is_some() {
            return false;
        }
        match &state.active_assignee {
            Some(a) => str_eq(a.as_str(), sender),
            None => false,
        }
    }

    fn has_rejected_exec(state: &TaskState, sender: &str) -> (r: bool)
        ensures
            r == has_rejected(state@, sender@),
    {
        let n = state.rejections.len();
        let mut i: usize = 0;
        while i < n
            invariant
                n == state.rejections@.len(),
                i <= n,
                forall|k: int| 0 <= k < i ==> (#[trigger] state.rejections@[k]).assignee@ != sender@,
            decreases n - i,
        {
            if str_eq(state.rejections[i].assignee.as_str(), sender) {
                assert(state@.rejections[i as int] == state.rejections@[i as int]);
                return true;
            }
            i = i + 1;
        }
        false
    }

    fn check_response(
        session: &Session,
        st: &TaskState,
        task_id: &String,
        assignee: &String,
        sender: &str,
    ) -> (r: Result<(), MacpError>)
        ensures
            match response_rejection(*session, st@, task_id@, assignee@, sender@) {
                Some(e) => r == Err::<(), MacpError>(e),
                None => r is Ok,
            },
    {
        Self::ensure_task_matches(st, task_id.as_str())?;
        if st.active_assignee.is_some() || !Self::assignee_matches(assignee, sender) {
            return Err(MacpError::InvalidPayload);
        }
        match &st.task {
            Some(task) => {
                if !Self::can_assignee_respond(session, task, sender) {
                    return Err(MacpError::Forbidden);
                }
                Ok(())
            },
            None => Err(MacpError::InvalidPayload),
        }
    }

    fn check_report(st: &TaskState, task_id: &String, assignee: &String, sender: &str) -> (r: Result<
        (),
        MacpError,
    >)
        ensures
            match report_rejection(st@, task_id@, assignee@, sender@) {
                Some(e) => r == Err::<(), MacpError>(e),
                None => r is Ok,
            },
    {
        Self::ensure_task_matches(st, task_id.as_str())?;
        if !Self::may_report_exec(st, sender) {
            return Err(MacpError::Forbidden);
        }
        if !Self::assignee_matches(assignee, sender) {
            return Err(MacpError::InvalidPayload);
        }
        Ok(())
    }

    /// Decide whether a message is accepted in state `st`.
    pub fn check_message(session: &Session, st: &TaskState, env: &Envelope, payload: &MessagePayload) -> (r:
        Result<(), MacpError>)
        ensures
            match task_rejection(*session, st@, *env, *payload) {
                Some(e) => r == Err::<(), MacpError>(e),
                None => r is Ok,
            },
    {
        let mt = env.message_type.as_str();
        let sender = env.sender.as_str();
        if str_eq(mt, "TaskRequest") {
            if !str_eq(sender, session.initiator_sender.as_str()) {
                return Err(MacpError::Forbidden);
            }
            match payload {
                MessagePayload::TaskRequest(p) => {
                    if st.task.is_some() || p.task_id.as_str().unicode_len() == 0 {
                        return Err(MacpError::InvalidPayload);
                    }
                    if p.requested_assignee.as_str().unicode_len() != 0 && !is_declared_participant(
                        &session.participants,
                        p.requested_assignee.as_str(),
                    ) {
                        return Err(MacpError::InvalidPayload);
                    }
                    Ok(())
                },
                _ => Err(MacpError::InvalidPayload),
            }
        } else if str_eq(mt, "TaskAccept") {
            match payload {
                MessagePayload::TaskAccept(p) => Self::check_response(session, st, &p.task_id, &p.assignee, sender),
                _ => Err(MacpError::InvalidPayload),
            }
        } else if str_eq(mt, "TaskReject") {
            match payload {
                MessagePayload::TaskReject(p) => {
                    Self::check_response(session, st, &p.task_id, &p.assignee, sender)?;
                    if Self::has_rejected_exec(st, sender) {
                        return Err(MacpError::InvalidPayload);
                    }
                    Ok(())
                },
                _ => Err(MacpError::InvalidPayload),
            }
        } else if str_eq(mt, "TaskUpdate") {
            match payload {
                MessagePayload::TaskUpdate(p) => {
                    Self::ensure_task_matches(st, p.task_id.as_str())?;
                    if !Self::may_report_exec(st, sender) {
                        return Err(MacpError::Forbidden);
                    }
                    Ok(())
                },
                _ => Err(MacpError::InvalidPayload),
            }
        } else if str_eq(mt, "TaskComplete") {
            match payload {
                MessagePayload::TaskComplete(p) => Self::check_report(st, &p.task_id, &p.assignee, sender),
                _ => Err(MacpError::InvalidPayload),
            }
        } else if str_eq(mt, "TaskFail") {
            match payload {
                MessagePayload::TaskFail(p) => Self::check_report(st, &p.task_id, &p.assignee, sender),
                _ => Err(MacpError::InvalidPayload),
            }
        } else if str_eq(mt, "Commitment") {
            if !str_eq(sender, session.initiator_sender.as_str()) {
                return Err(MacpError::Forbidden);
            }
            match payload {
                MessagePayload::Commitment(c) => {
                    if !commitment_valid(session, c) || st.terminal_report.is_none() {
                        return Err(MacpError::InvalidPayload);
                    }
                    Ok(())
                },
                _ => Err(MacpError::InvalidPayload),
            }
        } else {
            Err(MacpError::InvalidPayload)
        }
    }

    /// Apply an accepted message to the state.
    fn advance(st: TaskState, env: &Envelope, payload: MessagePayload) -> (r: TaskState)
        ensures
            r@ == task_next(st@, *env, payload),
    {
        let mut st = st;
        match payload {
            MessagePayload::TaskRequest(p) => {
                st.task = Some(
                    TaskRecord {
                        task_id: p.task_id,
                        title: p.title,
                        instructions: p.instructions,
                        requested_assignee: p.requested_assignee,
                        input: p.input,
                        deadline_unix_ms: p.deadline_unix_ms,
                        requester: env.sender.clone(),
                    },
                );
            },
            MessagePayload::TaskAccept(_) => {
                st.active_assignee = Some(env.sender.clone());
            },
            MessagePayload::TaskReject(p) => {
                st.rejections.push(
                    TaskRejectRecord {
                        task_id: p.task_id,
                        assignee: env.sender.clone(),
                        reason: p.reason,
                    },
                );
            },
            MessagePayload::TaskUpdate(p) => {
                st.updates.push(
                    TaskUpdateRecord {
                        task_id: p.task_id,
                        status: p.status,
                        progress_bits: p.progress_bits,
                        message: p.message,
                        partial_output: p.partial_output,
                        sender: env.sender.clone(),
                    },
                );
            },
            MessagePayload::TaskComplete(p) => {
                st.terminal_report = Some(
                    TaskTerminalReport::Complete(
                        TaskCompleteRecord {
                            task_id: p.task_id,
                            assignee: env.sender.clone(),
                            output: p.output,
                            summary: p.summary,
                        },
                    ),
                );
            },
            MessagePayload::TaskFail(p) => {
                st.terminal_report = Some(
                    TaskTerminalReport::Fail(
                        TaskFailRecord {
                            task_id: p.task_id,
                            assignee: env.sender.clone(),
                            error_code: p.error_code,
                            reason: p.reason,
                            retryable: p.retryable,
                        },
                    ),
                );
            },
            _ => {},
        }
        st
    }
}

impl Mode for TaskMode {
    fn authorize_sender(&self, session: &Session, env: &Envelope) -> (r: Result<(), MacpError>)
        ensures
            r is Ok <==> task_sender_allowed(*session, *env),
            r matches Err(e) ==> e == MacpError::Forbidden,
    {
        let mt = env.message_type.as_str();
        if str_eq(mt, "TaskRequest") || str_eq(mt, "Commitment") {
            if str_eq(env.sender.as_str(), session.initiator_sender.as_str()) {
                Ok(())
            } else {
                Err(MacpError::Forbidden)
            }
        } else if is_declared_participant(&session.participants, env.sender.as_str()) {
            Ok(())
        } else {
            Err(MacpError::Forbidden)
        }
    }

    /// A task session needs at least two declared participants, the initiator among them.
    fn on_session_start(&self, session: &mut Session, env: &Envelope) -> (r: Result<
        ModeResponse,
        MacpError,
    >)
        ensures
            task_started(*old(session), *final(session), r),
    {
        if session.participants.len() < 2 {
            return Err(MacpError::InvalidPayload);
        }
        if !is_declared_participant(&session.participants, session.initiator_sender.as_str()) {
            return Err(MacpError::InvalidPayload);
        }
        session.mode_state = ModeState::Task(Self::default_state());
        Ok(ModeResponse::PersistState)
    }

    fn on_message(
        &self,
        session: &mut Session,
        env: &Envelope,
        payload: MessagePayload,
        judgments: &PolicyJudgments,
    ) -> (r: Result<ModeResponse, MacpError>)
        ensures
            task_outcome(*old(session), *final(session), r, *env, payload, *judgments),
    {
        match &session.mode_state {
            ModeState::Empty => {
                let st = Self::default_state();
                Self::check_message(session, &st, env, &payload)?;
            },
            ModeState::Task(st) => {
                Self::check_message(session, st, env, &payload)?;
            },
            _ => {
                return Err(MacpError::InvalidModeState);
            },
        }
        let mut taken = ModeState::Empty;
        std::mem::swap(&mut taken, &mut session.mode_state);
        let st = match taken {
            ModeState::Task(st) => st,
            _ => Self::default_state(),
        };
        let is_commitment = str_eq(env.message_type.as_str(), "Commitment");
        let next = Self::advance(st, env, payload);
        session.mode_state = ModeState::Task(next);
        if is_commitment {
            session.resolution = Some(env.payload.clone());
            session.state = SessionState::Resolved;
            Ok(ModeResponse::PersistAndResolve)
        } else {
            Ok(ModeResponse::PersistState)
        }
    }
}

} // verus!
