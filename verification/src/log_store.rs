//! The in-memory append-only log of each session: accepted envelopes,
//! runtime-internal events and checkpoints, in the order they were written.
use vstd::prelude::*;
use crate::ordered::OrderedMap;

verus! {

#[derive(Debug, Clone, Copy, PartialEq, Eq, Structural)]
pub enum EntryKind {
    /// An accepted envelope.
    Incoming,
    /// An event of the runtime itself (`TtlExpired`, `SessionCancel`).
    Internal,
    /// A serialized snapshot of the session.
    Checkpoint,
}

#[derive(Debug)]
pub struct LogEntry {
    pub message_id: String,
    pub received_at_ms: i64,
    pub sender: String,
    pub message_type: String,
    pub raw_payload: Vec<u8>,
    pub entry_kind: EntryKind,
    pub session_id: String,
    pub mode: String,
    pub macp_version: String,
    /// Original envelope timestamp for replay determinism.
    pub timestamp_unix_ms: i64,
}

/// Two entries carry the same values.
pub open spec fn same_entry(a: LogEntry, b: LogEntry) -> bool {
    &&& a.message_id@ == b.message_id@
    &&& a.received_at_ms == b.received_at_ms
    &&& a.sender@ == b.sender@
    &&& a.message_type@ == b.message_type@
    &&& a.raw_payload@ == b.raw_payload@
    &&& a.entry_kind == b.entry_kind
    &&& a.session_id@ == b.session_id@
    &&& a.mode@ == b.mode@
    &&& a.macp_version@ == b.macp_version@
    &&& a.timestamp_unix_ms == b.timestamp_unix_ms
}

/// Two logs hold the same entries in the same order.
pub open spec fn same_entries(a: Seq<LogEntry>, b: Seq<LogEntry>) -> bool {
    a.len() == b.len() && forall|i: int| 0 <= i < a.len() ==> same_entry(#[trigger] a[i], b[i])
}

/// The `Incoming` entries of `entries` at a 0-based position of at least
/// `after`, each with its position.
pub open spec fn incoming_after(entries: Seq<LogEntry>, after: u64) -> Seq<(u64, LogEntry)>
    decreases entries.len(),
{
    if entries.len() == 0 {
        seq![]
    } else {
        let rest = incoming_after(entries.drop_last(), after);
        let idx = entries.len() - 1;
        let e = entries.last();
        if e.entry_kind == EntryKind::Incoming && idx >= after {
            rest.push((idx as u64, e))
        } else {
            rest
        }
    }
}

pub fn copy_bytes(v: &Vec<u8>) -> (r: Vec<u8>)
    ensures
        r@ == v@,
{
    let n = v.len();
    let mut out: Vec<u8> = Vec::new();
    let mut i: usize = 0;
    while i < n
        invariant
            n == v@.len(),
            i <= n,
            out@ == v@.take(i as int),
        decreases n - i,
    {
        out.push(v[i]);
        assert(out@ =~= v@.take(i + 1));
        i = i + 1;
    }
    assert(out@ =~= v@);
    out
}

impl LogEntry {
    /// A copy of the entry.
    pub fn duplicate(&self) -> (r: Self)
        ensures
            same_entry(r, *self),
    {
        LogEntry {
            message_id: self.message_id.clone(),
            received_at_ms: self.received_at_ms,
            sender: self.sender.clone(),
            message_type: self.message_type.clone(),
            raw_payload: copy_bytes(&self.raw_payload),
            entry_kind: self.entry_kind,
            session_id: self.session_id.clone(),
            mode: self.mode.clone(),
            macp_version: self.macp_version.clone(),
            timestamp_unix_ms: self.timestamp_unix_ms,
        }
    }
}

fn copy_entries(v: &Vec<LogEntry>) -> (r: Vec<LogEntry>)
    ensures
        same_entries(r@, v@),
{
    let n = v.len();
    let mut out: Vec<LogEntry> = Vec::new();
    let mut i: usize = 0;
    while i < n
        invariant
            n == v@.len(),
            i <= n,
            out@.len() == i,
            forall|k: int| 0 <= k < i ==> same_entry(#[trigger] out@[k], v@[k]),
        decreases n - i,
    {
        out.push(v[i].duplicate());
        i = i + 1;
    }
    out
}

/// The logs of all sessions, by session id.
pub struct LogStore {
    logs: OrderedMap<Vec<LogEntry>>,
}

impl LogStore {
    /// Each session's log.
    pub closed spec fn view(&self) -> Map<Seq<char>, Seq<LogEntry>> {
        self.logs@.map_values(|v: Vec<LogEntry>| v@)
    }

    pub fn new() -> (r: Self)
        ensures
            r@ == Map::<Seq<char>, Seq<LogEntry>>::empty(),
    {
        let r = LogStore { logs: OrderedMap::new() };
        assert(r@ =~= Map::<Seq<char>, Seq<LogEntry>>::empty());
        r
    }

    /// Start an empty log for the session, unless it has one.
    pub fn create_session_log(&mut self, session_id: &str)
        ensures
            old(self)@.contains_key(session_id@) ==> final(self)@ == old(self)@,
            !old(self)@.contains_key(session_id@) ==> final(self)@ == old(self)@.insert(
                session_id@,
                Seq::<LogEntry>::empty(),
            ),
    {
        if !self.logs.contains_key(session_id) {
            self.logs.insert(session_id.to_owned(), Vec::new());
            assert(self@ =~= old(self)@.insert(session_id@, Seq::<LogEntry>::empty()));
        }
    }

    /// Append an entry to the session's log, starting the log if needed.
    pub fn append(&mut self, session_id: &str, entry: LogEntry)
        ensures
            final(self)@ == old(self)@.insert(
                session_id@,
                if old(self)@.contains_key(session_id@) {
                    old(self)@[session_id@]
                } else {
                    Seq::<LogEntry>::empty()
                }.push(entry),
            ),
    {
        let mut log = match self.logs.remove(session_id) {
            Some(v) => v,
            None => Vec::new(),
        };
        log.push(entry);
        self.logs.insert(session_id.to_owned(), log);
        assert(self@ =~= old(self)@.insert(
            session_id@,
            if old(self)@.contains_key(session_id@) {
                old(self)@[session_id@]
            } else {
                Seq::<LogEntry>::empty()
            }.push(entry),
        ));
    }

    /// A copy of the session's log.
    pub fn get_log(&self, session_id: &str) -> (r: Option<Vec<LogEntry>>)
        ensures
            r is None <==> !self@.contains_key(session_id@),
            r matches Some(v) ==> same_entries(v@, self@[session_id@]),
    {
        match self.logs.get(session_id) {
            Some(v) => Some(copy_entries(v)),
            None => None,
        }
    }

    /// Returns incoming log entries with 0-based index >= `after_sequence`.
    /// Only `Incoming` entries are returned (Internal/Checkpoint are filtered).
    /// A session without a log gives none.
    pub fn get_incoming_after(&self, session_id: &str, after_sequence: u64) -> (r: Vec<(u64, LogEntry)>)
        ensures
            !self@.contains_key(session_id@) ==> r@.len() == 0,
            self@.contains_key(session_id@) ==> {
                let want = incoming_after(self@[session_id@], after_sequence);
                &&& r@.len() == want.len()
                &&& forall|i: int|
                    0 <= i < r@.len() ==> (#[trigger] r@[i]).0 == want[i].0 && same_entry(r@[i].1, want[i].1)
            },
    {
        let mut out: Vec<(u64, LogEntry)> = Vec::new();
        let entries = match self.logs.get(session_id) {
            Some(v) => v,
            None => {
                return out;
            },
        };
        let n = entries.len();
        let mut i: usize = 0;
        while i < n
            invariant
                n == entries@.len(),
                i <= n,
                out@.len() == incoming_after(entries@.take(i as int), after_sequence).len(),
                forall|k: int|
                    0 <= k < out@.len() ==> (#[trigger] out@[k]).0 == incoming_after(
                        entries@.take(i as int),
                        after_sequence,
                    )[k].0 && same_entry(
                        out@[k].1,
                        incoming_after(entries@.take(i as int), after_sequence)[k].1,
                    ),
            decreases n - i,
        {
            assert(entries@.take(i + 1).drop_last() =~= entries@.take(i as int));
            assert(entries@.take(i + 1).last() == entries@[i as int]);
            if entries[i].entry_kind == EntryKind::Incoming && (i as u64) >= after_sequence {
                out.push((i as u64, entries[i].duplicate()));
            }
            i = i + 1;
        }
        assert(entries@.take(n as int) =~= entries@);
        out
    }
}

} // verus!
