//! Bounded in-memory event log for engine activity.
use vstd::prelude::*;

use crate::clock::system_time_now;
use std::collections::VecDeque;

verus! {

/// Most entries the log keeps; older ones are dropped first.
pub const MAX_LOG_ENTRIES: usize = 1000;

/// A single entry in the event log.
#[derive(Clone, Debug)]
pub struct EventLogEntry {
    /// When the event occurred.
    pub timestamp: std::time::SystemTime,
    /// Category or type label for the event.
    pub event_type: String,
    /// Human-readable description of the event.
    pub details: String,
}

/// The observable content of an entry.
pub type EntryView = (std::time::SystemTime, Seq<char>, Seq<char>);

impl View for EventLogEntry {
    type V = EntryView;

    open spec fn view(&self) -> EntryView {
        (self.timestamp, self.event_type@, self.details@)
    }
}

impl EventLogEntry {
    /// A copy of the entry.
    pub fn duplicate(&self) -> (e: Self)
        ensures
            e@ == self@,
    {
        EventLogEntry {
            timestamp: self.timestamp.clone(),
            event_type: self.event_type.clone(),
            details: self.details.clone(),
        }
    }
}

/// The log after appending `e`: bounded FIFO, the oldest entry leaves when
/// the log is full.
pub open spec fn spec_push(s: Seq<EntryView>, e: EntryView) -> Seq<EntryView> {
    if s.len() >= MAX_LOG_ENTRIES {
        s.drop_first().push(e)
    } else {
        s.push(e)
    }
}

/// The last `n` entries (all of them when there are fewer), oldest first.
pub open spec fn spec_recent(s: Seq<EntryView>, n: nat) -> Seq<EntryView> {
    if n >= s.len() {
        s
    } else {
        s.skip(s.len() - n)
    }
}

/// Bounded in-memory event log (FIFO, up to 1000 entries).
#[derive(Debug)]
pub struct EventLog {
    entries: VecDeque<EventLogEntry>,
}

impl View for EventLog {
    type V = Seq<EntryView>;

    closed spec fn view(&self) -> Seq<EntryView> {
        self.entries@.map_values(|e: EventLogEntry| e@)
    }
}

impl EventLog {
    /// The log holds at most `MAX_LOG_ENTRIES` entries.
    pub open spec fn wf(&self) -> bool {
        self@.len() <= MAX_LOG_ENTRIES
    }

    /// An empty log.
    pub fn new() -> (l: Self)
        ensures
            l@ == Seq::<EntryView>::empty(),
            l.wf(),
    {
        let l = EventLog { entries: VecDeque::new() };
        assert(l@ =~= Seq::<EntryView>::empty());
        l
    }

    /// Append an event stamped with the current wall-clock time.
    pub fn push(&mut self, event_type: String, details: String)
        requires
            old(self).wf(),
        ensures
            final(self).wf(),
            exists|t: std::time::SystemTime|
                final(self)@ == spec_push(old(self)@, (t, event_type@, details@)),
    {
        let timestamp = system_time_now();
        let entry = EventLogEntry { timestamp, event_type, details };
        self.push_entry(entry);
    }

    /// Append an entry, dropping the oldest when the log is full.
    pub fn push_entry(&mut self, entry: EventLogEntry)
        requires
            old(self).wf(),
        ensures
            final(self).wf(),
            final(self)@ == spec_push(old(self)@, entry@),
    {
        if self.entries.len() >= MAX_LOG_ENTRIES {
            self.entries.pop_front();
        }
        let ghost ev = entry@;
        self.entries.push_back(entry);
        proof {
            let o = old(self)@;
            if o.len() >= MAX_LOG_ENTRIES {
                assert(self@ =~= o.drop_first().push(ev));
            } else {
                assert(self@ =~= o.push(ev));
            }
        }
    }

    /// The number of entries.
    pub fn len(&self) -> (n: usize)
        ensures
            n == self@.len(),
    {
        self.entries.len()
    }

    /// Copies of the `n` most recent entries, oldest first.
    pub fn recent_entries(&self, n: usize) -> (r: Vec<EventLogEntry>)
        ensures
            r@.map_values(|e: EventLogEntry| e@) == spec_recent(self@, n as nat),
    {
        let len = self.entries.len();
        let start = len - if n < len { n } else { len };
        let mut out: Vec<EventLogEntry> = Vec::new();
        let mut i: usize = start;
        while i < len
            invariant
                start <= i <= len,
                len == self@.len(),
                self@.len() == self.entries@.len(),
                out@.map_values(|e: EventLogEntry| e@) == self@.subrange(start as int, i as int),
            decreases len - i,
        {
            let e = self.entries[i].duplicate();
            let ghost before = out@;
            out.push(e);
            assert(out@.map_values(|e: EventLogEntry| e@) =~= before.map_values(
                |e: EventLogEntry| e@,
            ).push(self@[i as int]));
            assert(self@.subrange(start as int, i as int).push(self@[i as int]) =~= self@.subrange(
                start as int,
                i + 1,
            ));
            i = i + 1;
        }
        assert(self@.subrange(start as int, len as int) =~= spec_recent(self@, n as nat));
        out
    }
}

impl Default for EventLog {
    fn default() -> (l: Self)
        ensures
            l@ == Seq::<EntryView>::empty(),
    {
        Self::new()
    }
}

/// The log never holds more than `MAX_LOG_ENTRIES` entries, and the entry
/// just appended is always the most recent one.
pub proof fn lemma_push_bounded_fifo(s: Seq<EntryView>, e: EntryView)
    requires
        s.len() <= MAX_LOG_ENTRIES,
    ensures
        spec_push(s, e).len() <= MAX_LOG_ENTRIES,
        spec_push(s, e).last() == e,
        spec_recent(spec_push(s, e), 1) == seq![e],
        s.len() == MAX_LOG_ENTRIES ==> spec_push(s, e).drop_last() == s.drop_first(),
{
    let t = spec_push(s, e);
    assert(t.skip(t.len() - 1) =~= seq![e]);
    if s.len() == MAX_LOG_ENTRIES {
        assert(t.drop_last() =~= s.drop_first());
    }
}

} // verus!
