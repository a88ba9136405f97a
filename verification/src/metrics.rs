//! Per-mode counters of sessions, messages and commitments.
use vstd::prelude::*;
use crate::keyed::{lemma_key_index, seq_to_map};
use crate::ordered::{keys_of, lemma_keys_of_sorted, names_sorted, OrderedMap};
use crate::text::owned;

verus! {

/// The counters kept for one mode. Each counts up by one per event and wraps
/// around at `u64::MAX`.
#[derive(Debug, Clone, Copy, PartialEq, Eq, Structural)]
pub struct ModeMetrics {
    pub messages_accepted: u64,
    pub messages_rejected: u64,
    pub sessions_started: u64,
    pub sessions_resolved: u64,
    pub sessions_expired: u64,
    pub sessions_cancelled: u64,
    pub commitments_accepted: u64,
    pub commitments_rejected: u64,
}

/// Which counter an event bumps.
#[derive(Debug, Clone, Copy, PartialEq, Eq, Structural)]
pub enum Counter {
    MessagesAccepted,
    MessagesRejected,
    SessionsStarted,
    SessionsResolved,
    SessionsExpired,
    SessionsCancelled,
    CommitmentsAccepted,
    CommitmentsRejected,
}

/// All counters at zero.
pub open spec fn zero_metrics() -> ModeMetrics {
    ModeMetrics {
        messages_accepted: 0,
        messages_rejected: 0,
        sessions_started: 0,
        sessions_resolved: 0,
        sessions_expired: 0,
        sessions_cancelled: 0,
        commitments_accepted: 0,
        commitments_rejected: 0,
    }
}

/// `n + 1`, wrapping at `u64::MAX` (as `AtomicU64::fetch_add` does).
pub open spec fn incremented(n: u64) -> u64 {
    if n == u64::MAX {
        0
    } else {
        (n + 1) as u64
    }
}

/// The counters with `c` bumped by one.
pub open spec fn bumped(m: ModeMetrics, c: Counter) -> ModeMetrics {
    match c {
        Counter::MessagesAccepted => ModeMetrics { messages_accepted: incremented(m.messages_accepted), ..m },
        Counter::MessagesRejected => ModeMetrics { messages_rejected: incremented(m.messages_rejected), ..m },
        Counter::SessionsStarted => ModeMetrics { sessions_started: incremented(m.sessions_started), ..m },
        Counter::SessionsResolved => ModeMetrics { sessions_resolved: incremented(m.sessions_resolved), ..m },
        Counter::SessionsExpired => ModeMetrics { sessions_expired: incremented(m.sessions_expired), ..m },
        Counter::SessionsCancelled => ModeMetrics { sessions_cancelled: incremented(m.sessions_cancelled), ..m },
        Counter::CommitmentsAccepted => ModeMetrics {
            commitments_accepted: incremented(m.commitments_accepted),
            ..m
        },
        Counter::CommitmentsRejected => ModeMetrics {
            commitments_rejected: incremented(m.commitments_rejected),
            ..m
        },
    }
}

/// The counters of `mode` (all zero for a mode never seen).
pub open spec fn metrics_of(m: Map<Seq<char>, ModeMetrics>, mode: Seq<char>) -> ModeMetrics {
    if m.contains_key(mode) {
        m[mode]
    } else {
        zero_metrics()
    }
}

/// The value of counter `c`.
pub open spec fn counter_value(m: ModeMetrics, c: Counter) -> u64 {
    match c {
        Counter::MessagesAccepted => m.messages_accepted,
        Counter::MessagesRejected => m.messages_rejected,
        Counter::SessionsStarted => m.sessions_started,
        Counter::SessionsResolved => m.sessions_resolved,
        Counter::SessionsExpired => m.sessions_expired,
        Counter::SessionsCancelled => m.sessions_cancelled,
        Counter::CommitmentsAccepted => m.commitments_accepted,
        Counter::CommitmentsRejected => m.commitments_rejected,
    }
}

/// The counters after recording `events` (mode, counter) in order, from none.
pub open spec fn recorded_metrics(events: Seq<(Seq<char>, Counter)>) -> Map<Seq<char>, ModeMetrics>
    decreases events.len(),
{
    if events.len() == 0 {
        Map::empty()
    } else {
        let before = recorded_metrics(events.drop_last());
        let (mode, c) = events.last();
        before.insert(mode, bumped(metrics_of(before, mode), c))
    }
}

/// How many of `events` bump counter `c` of `mode`.
pub open spec fn event_count(events: Seq<(Seq<char>, Counter)>, mode: Seq<char>, c: Counter) -> nat
    decreases events.len(),
{
    if events.len() == 0 {
        0
    } else {
        event_count(events.drop_last(), mode, c) + if events.last() == (mode, c) {
            1nat
        } else {
            0nat
        }
    }
}

impl ModeMetrics {
    pub fn new() -> (r: Self)
        ensures
            r == zero_metrics(),
    {
        ModeMetrics {
            messages_accepted: 0,
            messages_rejected: 0,
            sessions_started: 0,
            sessions_resolved: 0,
            sessions_expired: 0,
            sessions_cancelled: 0,
            commitments_accepted: 0,
            commitments_rejected: 0,
        }
    }

    fn bump(&mut self, c: Counter)
        ensures
            *final(self) == bumped(*old(self), c),
    {
        match c {
            Counter::MessagesAccepted => self.messages_accepted = self.messages_accepted.wrapping_add(1),
            Counter::MessagesRejected => self.messages_rejected = self.messages_rejected.wrapping_add(1),
            Counter::SessionsStarted => self.sessions_started = self.sessions_started.wrapping_add(1),
            Counter::SessionsResolved => self.sessions_resolved = self.sessions_resolved.wrapping_add(1),
            Counter::SessionsExpired => self.sessions_expired = self.sessions_expired.wrapping_add(1),
            Counter::SessionsCancelled => self.sessions_cancelled = self.sessions_cancelled.wrapping_add(1),
            Counter::CommitmentsAccepted => {
                self.commitments_accepted = self.commitments_accepted.wrapping_add(1)
            },
            Counter::CommitmentsRejected => {
                self.commitments_rejected = self.commitments_rejected.wrapping_add(1)
            },
        }
    }
}

impl Default for ModeMetrics {
    fn default() -> (r: Self)
        ensures
            r == zero_metrics(),
    {
        Self::new()
    }
}

/// Counters per mode name.
pub struct RuntimeMetrics {
    per_mode: OrderedMap<ModeMetrics>,
}

/// A copy of one mode's counters.
#[derive(Debug, Clone, Copy, PartialEq, Eq, Structural)]
pub struct MetricsSnapshot {
    pub messages_accepted: u64,
    pub messages_rejected: u64,
    pub sessions_started: u64,
    pub sessions_resolved: u64,
    pub sessions_expired: u64,
    pub sessions_cancelled: u64,
    pub commitments_accepted: u64,
    pub commitments_rejected: u64,
}

/// The snapshot holds the counters' values.
pub open spec fn snapshot_of(s: MetricsSnapshot, m: ModeMetrics) -> bool {
    &&& s.messages_accepted == m.messages_accepted
    &&& s.messages_rejected == m.messages_rejected
    &&& s.sessions_started == m.sessions_started
    &&& s.sessions_resolved == m.sessions_resolved
    &&& s.sessions_expired == m.sessions_expired
    &&& s.sessions_cancelled == m.sessions_cancelled
    &&& s.commitments_accepted == m.commitments_accepted
    &&& s.commitments_rejected == m.commitments_rejected
}

impl RuntimeMetrics {
    /// (mode, counters) in mode-name order.
    pub closed spec fn entries(&self) -> Seq<(String, ModeMetrics)> {
        self.per_mode.entries_seq()
    }

    /// The counters by mode name.
    pub open spec fn view(&self) -> Map<Seq<char>, ModeMetrics> {
        seq_to_map(self.entries())
    }

    pub fn new() -> (r: Self)
        ensures
            r@ == Map::<Seq<char>, ModeMetrics>::empty(),
    {
        RuntimeMetrics { per_mode: OrderedMap::new() }
    }

    /// Bump counter `c` of `mode`, creating the mode's counters on first use.
    pub fn record(&mut self, mode: &str, c: Counter)
        ensures
            final(self)@ == old(self)@.insert(mode@, bumped(metrics_of(old(self)@, mode@), c)),
    {
        let mut counters = match self.per_mode.get(mode) {
            Some(m) => *m,
            None => ModeMetrics::new(),
        };
        counters.bump(c);
        self.per_mode.insert(owned(mode), counters);
    }

    pub fn record_session_start(&mut self, mode: &str)
        ensures
            final(self)@ == old(self)@.insert(
                mode@,
                bumped(metrics_of(old(self)@, mode@), Counter::SessionsStarted),
            ),
    {
        self.record(mode, Counter::SessionsStarted)
    }

    pub fn record_message_accepted(&mut self, mode: &str)
        ensures
            final(self)@ == old(self)@.insert(
                mode@,
                bumped(metrics_of(old(self)@, mode@), Counter::MessagesAccepted),
            ),
    {
        self.record(mode, Counter::MessagesAccepted)
    }

    pub fn record_message_rejected(&mut self, mode: &str)
        ensures
            final(self)@ == old(self)@.insert(
                mode@,
                bumped(metrics_of(old(self)@, mode@), Counter::MessagesRejected),
            ),
    {
        self.record(mode, Counter::MessagesRejected)
    }

    pub fn record_session_resolved(&mut self, mode: &str)
        ensures
            final(self)@ == old(self)@.insert(
                mode@,
                bumped(metrics_of(old(self)@, mode@), Counter::SessionsResolved),
            ),
    {
        self.record(mode, Counter::SessionsResolved)
    }

    pub fn record_session_expired(&mut self, mode: &str)
        ensures
            final(self)@ == old(self)@.insert(
                mode@,
                bumped(metrics_of(old(self)@, mode@), Counter::SessionsExpired),
            ),
    {
        self.record(mode, Counter::SessionsExpired)
    }

    pub fn record_session_cancelled(&mut self, mode: &str)
        ensures
            final(self)@ == old(self)@.insert(
                mode@,
                bumped(metrics_of(old(self)@, mode@), Counter::SessionsCancelled),
            ),
    {
        self.record(mode, Counter::SessionsCancelled)
    }

    pub fn record_commitment_accepted(&mut self, mode: &str)
        ensures
            final(self)@ == old(self)@.insert(
                mode@,
                bumped(metrics_of(old(self)@, mode@), Counter::CommitmentsAccepted),
            ),
    {
        self.record(mode, Counter::CommitmentsAccepted)
    }

    pub fn record_commitment_rejected(&mut self, mode: &str)
        ensures
            final(self)@ == old(self)@.insert(
                mode@,
                bumped(metrics_of(old(self)@, mode@), Counter::CommitmentsRejected),
            ),
    {
        self.record(mode, Counter::CommitmentsRejected)
    }

    /// Every mode's counters, in mode-name order.
    pub fn snapshot(&self) -> (r: Vec<(String, MetricsSnapshot)>)
        ensures
            r@.len() == self.entries().len(),
            forall|i: int|
                0 <= i < r@.len() ==> (#[trigger] r@[i]).0 == self.entries()[i].0 && snapshot_of(
                    r@[i].1,
                    self.entries()[i].1,
                ),
            names_sorted(snapshot_modes(r@)),
            forall|k: Seq<char>| snapshot_modes(r@).contains(k) <==> self@.contains_key(k),
            forall|i: int| 0 <= i < r@.len() ==> snapshot_of((#[trigger] r@[i]).1, self@[r@[i].0@]),
    {
        let entries = self.per_mode.entries();
        let n = entries.len();
        let mut out: Vec<(String, MetricsSnapshot)> = Vec::new();
        let mut i: usize = 0;
        while i < n
            invariant
                n == entries@.len(),
                entries@ == self.entries(),
                i <= n,
                out@.len() == i,
                forall|k: int|
                    0 <= k < i ==> (#[trigger] out@[k]).0 == entries@[k].0 && snapshot_of(
                        out@[k].1,
                        entries@[k].1,
                    ),
            decreases n - i,
        {
            let m = &entries[i].1;
            out.push(
                (
                    entries[i].0.clone(),
                    MetricsSnapshot {
                        messages_accepted: m.messages_accepted,
                        messages_rejected: m.messages_rejected,
                        sessions_started: m.sessions_started,
                        sessions_resolved: m.sessions_resolved,
                        sessions_expired: m.sessions_expired,
                        sessions_cancelled: m.sessions_cancelled,
                        commitments_accepted: m.commitments_accepted,
                        commitments_rejected: m.commitments_rejected,
                    },
                ),
            );
            i = i + 1;
        }
        proof {
            lemma_keys_of_sorted(entries@);
            assert(snapshot_modes(out@) =~= keys_of(entries@));
            assert forall|i: int| 0 <= i < out@.len() implies snapshot_of(
                (#[trigger] out@[i]).1,
                self@[out@[i].0@],
            ) by {
                lemma_key_index(entries@, i);
            }
        }
        out
    }
}

/// The mode names of a snapshot, in order.
pub open spec fn snapshot_modes(s: Seq<(String, MetricsSnapshot)>) -> Seq<Seq<char>> {
    s.map_values(|p: (String, MetricsSnapshot)| p.0@)
}

impl Default for RuntimeMetrics {
    fn default() -> (r: Self)
        ensures
            r@ == Map::<Seq<char>, ModeMetrics>::empty(),
    {
        Self::new()
    }
}

} // verus!
