//! Multi-round convergence (experimental extension): participants contribute
//! values until every participant has contributed and all values agree.
use vstd::prelude::*;
use crate::error::MacpError;
use crate::json::{json_string_of, member, push_member, utf8_bytes};
use crate::keyed::seq_to_map;
use crate::mode::{resolved_with, same_bindings, Mode, ModeResponse, PolicyJudgments};
use crate::ordered::{keys_sorted, OrderedMap};
use crate::pb::{Envelope, MessagePayload};
use crate::session::{ModeState, Session, SessionState};
use crate::text::{decimal, decimal_string, joined, owned, str_eq};

verus! {

/// Internal state tracked across rounds.
pub struct MultiRoundState {
    pub round: u64,
    pub participants: Vec<String>,
    /// Each participant's latest value, by participant.
    pub contributions: OrderedMap<String>,
    pub convergence_type: String,
}

pub ghost struct MultiRoundView {
    pub round: u64,
    pub participants: Seq<String>,
    /// (participant, value), in participant order.
    pub contributions: Seq<(String, String)>,
    pub convergence_type: Seq<char>,
}

impl View for MultiRoundState {
    type V = MultiRoundView;

    open spec fn view(&self) -> MultiRoundView {
        MultiRoundView {
            round: self.round,
            participants: self.participants@,
            contributions: self.contributions.entries_seq(),
            convergence_type: self.convergence_type@,
        }
    }
}

/// The contributions by participant.
pub open spec fn contribution_map(v: MultiRoundView) -> Map<Seq<char>, String> {
    seq_to_map(v.contributions)
}

/// Every participant has contributed.
pub open spec fn all_contributed(v: MultiRoundView) -> bool {
    forall|i: int|
        0 <= i < v.participants.len() ==> contribution_map(v).contains_key(
            (#[trigger] v.participants[i])@,
        )
}

/// All contributed values are the same.
pub open spec fn all_equal(v: MultiRoundView) -> bool {
    forall|i: int, j: int|
        0 <= i < v.contributions.len() && 0 <= j < v.contributions.len() ==> (
        #[trigger] v.contributions[i]).1@ == (#[trigger] v.contributions[j]).1@
}

/// The state after `sender` contributes `value`: a changed (or first) value
/// starts a new round.
pub open spec fn contributed(old: MultiRoundView, new: MultiRoundView, sender: Seq<char>, value: String) -> bool {
    let map = contribution_map(old);
    if map.contains_key(sender) && map[sender]@ == value@ {
        new == old
    } else {
        &&& new.round == (if old.round == u64::MAX {
            0
        } else {
            old.round + 1
        })
        &&& new.participants == old.participants
        &&& new.convergence_type == old.convergence_type
        &&& keys_sorted(new.contributions)
        &&& contribution_map(new) == map.insert(sender, value)
    }
}

/// The JSON text of the resolution: the converged value, the round and the
/// final value of each participant, in participant order (`converged_value`,
/// `round`, `final`, as serde_json writes the resolution record).
pub open spec fn resolution_text(v: MultiRoundView) -> Seq<char> {
    "{"@ + member("converged_value"@, json_string_of(v.contributions[0].1@)) + ","@ + member(
        "round"@,
        decimal(v.round as nat),
    ) + ","@ + member(
        "final"@,
        "{"@ + joined(
            v.contributions.map_values(
                |e: (String, String)| member(e.0@, json_string_of(e.1@)),
            ),
            ","@,
        ) + "}"@,
    ) + "}"@
}

/// The multi-round state that a stored mode state stands for.
pub open spec fn multi_round_view_of(ms: ModeState) -> Option<MultiRoundView> {
    match ms {
        ModeState::MultiRound(s) => Some(s@),
        _ => None,
    }
}

/// What `on_message` promises.
pub open spec fn multi_round_outcome(
    before: Session,
    after: Session,
    r: Result<ModeResponse, MacpError>,
    env: Envelope,
    payload: MessagePayload,
) -> bool {
    if env.message_type@ != "Contribute"@ {
        r == Ok::<ModeResponse, MacpError>(ModeResponse::NoOp) && after == before
    } else {
        match multi_round_view_of(before.mode_state) {
            None => r == Err::<ModeResponse, MacpError>(MacpError::InvalidModeState) && after == before,
            Some(v) => match payload {
                MessagePayload::Contribute(p) => {
                    &&& same_bindings(before, after)
                    &&& after.mode_state matches ModeState::MultiRound(ns) && {
                        let nv = ns@;
                        &&& contributed(v, nv, env.sender@, p.value)
                        &&& if all_contributed(nv) && all_equal(nv) {
                            &&& r == Ok::<ModeResponse, MacpError>(ModeResponse::PersistAndResolve)
                            &&& nv.contributions.len() > 0
                            &&& resolved_with(
                                before,
                                after,
                                vstd::utf8::encode_utf8(resolution_text(nv)),
                            )
                        } else {
                            &&& r == Ok::<ModeResponse, MacpError>(ModeResponse::PersistState)
                            &&& after.state == before.state
                            &&& after.resolution == before.resolution
                        }
                    }
                },
                _ => r == Err::<ModeResponse, MacpError>(MacpError::InvalidPayload) && after == before,
            },
        }
    }
}

/// What `on_session_start` promises: round 0, no contributions, the
/// session's participants, and `all_equal` convergence.
pub open spec fn multi_round_started(before: Session, after: Session, r: Result<ModeResponse, MacpError>) -> bool {
    if before.participants@.len() == 0 {
        r == Err::<ModeResponse, MacpError>(MacpError::InvalidPayload) && after == before
    } else {
        &&& r == Ok::<ModeResponse, MacpError>(ModeResponse::PersistState)
        &&& after == (Session { mode_state: after.mode_state, ..before })
        &&& after.mode_state matches ModeState::MultiRound(s) && s@.round == 0
            && s@.participants == before.participants@ && s@.contributions.len() == 0
            && s@.convergence_type == "all_equal"@
    }
}

pub struct MultiRoundMode;

impl MultiRoundMode {
    fn all_contributed_exec(st: &MultiRoundState) -> (r: bool)
        ensures
            r == all_contributed(st@),
    {
        let n = st.participants.len();
        let mut i: usize = 0;
        while i < n
            invariant
                n == st.participants@.len(),
                i <= n,
                forall|k: int|
                    0 <= k < i ==> contribution_map(st@).contains_key(
                        (#[trigger] st.participants@[k])@,
                    ),
            decreases n - i,
        {
            if !st.contributions.contains_key(st.participants[i].as_str()) {
                assert(!contribution_map(st@).contains_key(st@.participants[i as int]@));
                return false;
            }
            i = i + 1;
        }
        true
    }

    fn all_equal_exec(st: &MultiRoundState) -> (r: bool)
        ensures
            r == all_equal(st@),
    {
        let entries = st.contributions.entries();
        let n = entries.len();
        if n == 0 {
            return true;
        }
        let mut i: usize = 1;
        while i < n
            invariant
                n == entries@.len(),
                entries@ == st@.contributions,
                1 <= i <= n,
                forall|k: int| 0 <= k < i ==> (#[trigger] entries@[k]).1@ == entries@[0].1@,
            decreases n - i,
        {
            if !str_eq(entries[i].1.as_str(), entries[0].1.as_str()) {
                assert(!(st@.contributions[i as int].1@ == st@.contributions[0].1@));
                return false;
            }
            i = i + 1;
        }
        assert forall|a: int, b: int|
            0 <= a < n && 0 <= b < n implies (#[trigger] st@.contributions[a]).1@ == (
            #[trigger] st@.contributions[b]).1@ by {
            assert(entries@[a].1@ == entries@[0].1@);
            assert(entries@[b].1@ == entries@[0].1@);
        }
        true
    }

    /// The JSON resolution record for a converged state.
    fn resolution(st: &MultiRoundState) -> (r: Vec<u8>)
        requires
            st@.contributions.len() > 0,
        ensures
            r@ == vstd::utf8::encode_utf8(resolution_text(st@)),
    {
        let entries = st.contributions.entries();
        let n = entries.len();
        let ghost items = entries@.map_values(
            |e: (String, String)| member(e.0@, json_string_of(e.1@)),
        );
        let mut finals = String::new();
        let mut i: usize = 0;
        while i < n
            invariant
                n == entries@.len(),
                items == entries@.map_values(
                    |e: (String, String)| member(e.0@, json_string_of(e.1@)),
                ),
                i <= n,
                finals@ == joined(items.take(i as int), ","@),
            decreases n - i,
        {
            proof {
                assert(items.take(i + 1).drop_last() =~= items.take(i as int));
                assert(items.take(i + 1).last() == items[i as int]);
                if i == 0 {
                    assert(items.take(1) =~= seq![items[0]]);
                    assert(finals@ =~= Seq::<char>::empty());
                }
            }
            let ghost before = finals@;
            if i > 0 {
                finals.append(",");
            }
            let value = crate::json::json_quote(entries[i].1.as_str());
            push_member(&mut finals, entries[i].0.as_str(), value.as_str());
            proof {
                if i == 0 {
                    assert(finals@ =~= items[0]);
                } else {
                    assert(finals@ =~= before + ","@ + items[i as int]);
                }
            }
            i = i + 1;
        }
        proof {
            assert(items.take(n as int) =~= items);
        }
        let mut text = owned("{");
        let converged = crate::json::json_quote(entries[0].1.as_str());
        push_member(&mut text, "converged_value", converged.as_str());
        text.append(",");
        push_member(&mut text, "round", decimal_string(st.round).as_str());
        text.append(",");
        let mut final_object = owned("{");
        final_object.append(finals.as_str());
        final_object.append("}");
        push_member(&mut text, "final", final_object.as_str());
        text.append("}");
        assert(text@ =~= resolution_text(st@));
        utf8_bytes(&text)
    }
}

impl Mode for MultiRoundMode {
    /// A multi-round session needs declared participants; it starts at round
    /// 0 with no contributions and `all_equal` convergence.
    fn on_session_start(&self, session: &mut Session, env: &Envelope) -> (r: Result<
        ModeResponse,
        MacpError,
    >)
        ensures
            multi_round_started(*old(session), *final(session), r),
    {
        // Participants come from the runtime via SessionStartPayload
        if session.participants.len() == 0 {
            return Err(MacpError::InvalidPayload);
        }
        let n = session.participants.len();
        let mut participants: Vec<String> = Vec::new();
        let mut i: usize = 0;
        while i < n
            invariant
                n == session.participants@.len(),
                i <= n,
                participants@ == session.participants@.take(i as int),
            decreases n - i,
        {
            participants.push(session.participants[i].clone());
            assert(participants@ =~= session.participants@.take(i + 1));
            i = i + 1;
        }
        assert(participants@ =~= session.participants@);
        let state = MultiRoundState {
            round: 0,
            participants,
            contributions: OrderedMap::new(),
            convergence_type: owned("all_equal"),
        };
        session.mode_state = ModeState::MultiRound(state);
        Ok(ModeResponse::PersistState)
    }

    fn on_message(
        &self,
        session: &mut Session,
        env: &Envelope,
        payload: MessagePayload,
        judgments: &PolicyJudgments,
    ) -> (r: Result<ModeResponse, MacpError>)
        ensures
            multi_round_outcome(*old(session), *final(session), r, *env, payload),
    {
        if !str_eq(env.message_type.as_str(), "Contribute") {
            return Ok(ModeResponse::NoOp);
        }
        match &session.mode_state {
            ModeState::MultiRound(_) => {},
            _ => {
                return Err(MacpError::InvalidModeState);
            },
        }
        let value = match payload {
            MessagePayload::Contribute(p) => p.value,
            _ => {
                return Err(MacpError::InvalidPayload);
            },
        };
        let mut taken = ModeState::Empty;
        std::mem::swap(&mut taken, &mut session.mode_state);
        let mut state = match taken {
            ModeState::MultiRound(st) => st,
            _ => MultiRoundState {
                round: 0,
                participants: Vec::new(),
                contributions: OrderedMap::new(),
                convergence_type: String::new(),
            },
        };
        let ghost old_v = state@;
        // Check if the value changed from previous contribution
        let value_changed = match state.contributions.get(env.sender.as_str()) {
            Some(previous) => !str_eq(previous.as_str(), value.as_str()),
            None => true,
        };
        if value_changed {
            state.round = state.round.wrapping_add(1);
            state.contributions.insert(env.sender.clone(), value);
        }
        // Check convergence: all participants contributed + all values identical
        if Self::all_contributed_exec(&state) {
            if Self::all_equal_exec(&state) {
                proof {
                    assert(contribution_map(state@).contains_key(env.sender@));
                    if state@.contributions.len() == 0 {
                        assert(contribution_map(state@) =~= Map::empty());
                    }
                }
                let resolution = Self::resolution(&state);
                session.mode_state = ModeState::MultiRound(state);
                session.resolution = Some(resolution);
                session.state = SessionState::Resolved;
                return Ok(ModeResponse::PersistAndResolve);
            }
        }
        session.mode_state = ModeState::MultiRound(state);
        Ok(ModeResponse::PersistState)
    }
}

} // verus!
