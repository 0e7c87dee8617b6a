//! Structured activity log: entries tagged `proxy` or `system`, and an
//! in-process broadcaster with a bounded backlog of 256 entries. Each
//! receiver is a cursor into the emission history; one that falls behind the
//! backlog is told how much it missed and resumes at the oldest retained
//! entry, so memory stays bounded.

use vstd::prelude::*;

verus! {

/// One log line. `kind` tags the shape: proxy entries carry the request
/// fields, system entries carry a level and message.
#[derive(Debug)]
pub struct LogEntry {
    pub ts_ms: u64,
    pub kind: String,
    pub level: Option<String>,
    pub message: Option<String>,
    pub method: Option<String>,
    pub path: Option<String>,
    pub status: Option<u16>,
    pub duration_ms: Option<u64>,
    pub upstream: Option<String>,
}

impl Clone for LogEntry {
    fn clone(&self) -> (r: Self)
        ensures
            r == *self,
    {
        LogEntry {
            ts_ms: self.ts_ms,
            kind: self.kind.clone(),
            level: clone_opt(&self.level),
            message: clone_opt(&self.message),
            method: clone_opt(&self.method),
            path: clone_opt(&self.path),
            status: self.status,
            duration_ms: self.duration_ms,
            upstream: clone_opt(&self.upstream),
        }
    }
}

fn clone_opt(o: &Option<String>) -> (r: Option<String>)
    ensures
        r == *o,
{
    match o {
        Some(s) => Some(s.clone()),
        None => None,
    }
}

impl LogEntry {
    /// An entry for one proxied request. The caller supplies the wall-clock
    /// millisecond timestamp.
    pub fn proxy(
        method: &str,
        path: &str,
        status: u16,
        duration_ms: u64,
        upstream: Option<&str>,
        ts_ms: u64,
    ) -> (r: Self)
        ensures
            r.ts_ms == ts_ms,
            r.kind@ == "proxy"@,
            r.level is None,
            r.message is None,
            r.method matches Some(m) && m@ == method@,
            r.path matches Some(p) && p@ == path@,
            r.status == Some(status),
            r.duration_ms == Some(duration_ms),
            match upstream {
                Some(u) => r.upstream matches Some(s) && s@ == u@,
                None => r.upstream is None,
            },
    {
        LogEntry {
            ts_ms,
            kind: "proxy".to_owned(),
            level: None,
            message: None,
            method: Some(method.to_owned()),
            path: Some(path.to_owned()),
            status: Some(status),
            duration_ms: Some(duration_ms),
            upstream: match upstream {
                Some(u) => Some(u.to_owned()),
                None => None,
            },
        }
    }

    /// A system entry with a severity level and a message.
    pub fn system(level: &str, message: &str, ts_ms: u64) -> (r: Self)
        ensures
            r.ts_ms == ts_ms,
            r.kind@ == "system"@,
            r.level matches Some(l) && l@ == level@,
            r.message matches Some(m) && m@ == message@,
            r.method is None,
            r.path is None,
            r.status is None,
            r.duration_ms is None,
            r.upstream is None,
    {
        LogEntry {
            ts_ms,
            kind: "system".to_owned(),
            level: Some(level.to_owned()),
            message: Some(message.to_owned()),
            method: None,
            path: None,
            status: None,
            duration_ms: None,
            upstream: None,
        }
    }
}

/// Backlog bound: a receiver can be at most this far behind.
pub open spec fn log_capacity() -> int {
    256
}

/// Position of the oldest entry still retained, given the whole history.
pub open spec fn backlog_start(h: Seq<LogEntry>) -> int {
    if h.len() >= log_capacity() {
        h.len() - log_capacity()
    } else {
        0
    }
}

/// Multi-producer broadcast with bounded memory. `history()` is the whole
/// emission sequence; only the last 256 entries are retained.
pub struct LogBroadcaster {
    backlog: Vec<LogEntry>,
    sent: u64,
    hist: Ghost<Seq<LogEntry>>,
}

/// A subscription: the position of the next entry this receiver will see.
#[derive(Debug)]
pub struct LogReceiver {
    pub next_seq: u64,
}

/// What one poll of a receiver yields.
#[derive(Debug)]
pub enum RecvOutcome {
    /// The next entry, in emission order.
    Entry(LogEntry),
    /// The receiver lagged: this many entries were dropped for it, and it
    /// resumes at the oldest retained entry.
    Lagged(u64),
    /// Nothing new.
    Empty,
}

impl Default for LogBroadcaster {
    fn default() -> (r: Self)
        ensures
            r.wf(),
            r.history() == Seq::<LogEntry>::empty(),
    {
        LogBroadcaster::new()
    }
}

impl LogBroadcaster {
    /// Every entry ever sent, oldest first.
    pub closed spec fn history(&self) -> Seq<LogEntry> {
        self.hist@
    }

    pub closed spec fn wf(&self) -> bool {
        &&& self.sent == self.hist@.len()
        &&& self.backlog@.len() == (if self.hist@.len() >= log_capacity() {
            log_capacity()
        } else {
            self.hist@.len() as int
        })
        &&& self.backlog@ == self.hist@.skip(self.hist@.len() - self.backlog@.len())
    }

    pub fn new() -> (r: LogBroadcaster)
        ensures
            r.wf(),
            r.history() =~= Seq::<LogEntry>::empty(),
    {
        let r = LogBroadcaster { backlog: Vec::new(), sent: 0, hist: Ghost(Seq::empty()) };
        proof {
            assert(r.backlog@ =~= r.hist@.skip(0));
        }
        r
    }

    /// Broadcasts one entry: appended to the history, evicting the oldest
    /// retained entry once the backlog is full.
    pub fn send(&mut self, entry: LogEntry)
        requires
            old(self).wf(),
            old(self).history().len() < u64::MAX,
        ensures
            final(self).wf(),
            final(self).history() == old(self).history().push(entry),
    {
        if self.backlog.len() >= 256 {
            self.backlog.remove(0);
            proof {
                assert(old(self).backlog@.remove(0) =~= old(self).backlog@.skip(1));
            }
        }
        self.backlog.push(entry);
        self.sent = self.sent + 1;
        proof {
            self.hist@ = self.hist@.push(entry);
        }
        proof {
            let h = self.hist@;
            let b = self.backlog@;
            assert(b =~= h.skip(h.len() - b.len()));
        }
    }

    /// How many entries have been emitted so far.
    pub fn history_len(&self) -> (r: u64)
        requires
            self.wf(),
        ensures
            r == self.history().len(),
    {
        self.sent
    }

    /// A new subscription sees entries emitted from this moment forward.
    pub fn subscribe(&self) -> (r: LogReceiver)
        requires
            self.wf(),
        ensures
            r.next_seq == self.history().len(),
    {
        LogReceiver { next_seq: self.sent }
    }

    /// Polls a receiver. Successive polls yield consecutive entries of the
    /// history, in order; a receiver further behind than the backlog is told
    /// how many entries it missed.
    pub fn recv(&self, rx: &mut LogReceiver) -> (r: RecvOutcome)
        requires
            self.wf(),
            old(rx).next_seq <= self.history().len(),
        ensures
            ({
                let base = backlog_start(self.history());
                if old(rx).next_seq == self.history().len() {
                    r is Empty && *final(rx) == *old(rx)
                } else if old(rx).next_seq >= base {
                    &&& r matches RecvOutcome::Entry(e) && e == self.history()[
                        old(rx).next_seq as int]
                    &&& final(rx).next_seq == old(rx).next_seq + 1
                } else {
                    &&& r matches RecvOutcome::Lagged(n) && n == base - old(rx).next_seq
                    &&& final(rx).next_seq == base
                }
            }),
    {
        let base = self.sent - (self.backlog.len() as u64);
        if rx.next_seq == self.sent {
            RecvOutcome::Empty
        } else if rx.next_seq >= base {
            let i = (rx.next_seq - base) as usize;
            assert(self.backlog@[i as int] == self.history()[rx.next_seq as int]);
            let e = (&self.backlog[i]).clone();
            rx.next_seq = rx.next_seq + 1;
            RecvOutcome::Entry(e)
        } else {
            let missed = base - rx.next_seq;
            rx.next_seq = base;
            RecvOutcome::Lagged(missed)
        }
    }

    /// Law: a subscriber installed before a run of emissions observes those
    /// emissions in order. Standing at position `h0.len()` (where
    /// [`LogBroadcaster::subscribe`] puts a receiver installed when the
    /// history was `h0`), and still within the retained window, the next `k`
    /// entries it walks through — [`LogBroadcaster::recv`] returns
    /// `history[p]` at each position `p` — are exactly the first `k` entries
    /// emitted since, in emission order.
    pub proof fn lemma_subscriber_observes_prefix(
        h0: Seq<LogEntry>,
        emitted: Seq<LogEntry>,
        k: int,
    )
        requires
            0 <= k <= emitted.len(),
            backlog_start(h0 + emitted) <= h0.len(),
        ensures
            (h0 + emitted).subrange(h0.len() as int, h0.len() + k) =~= emitted.take(k),
    {
    }

    /// Producer helper: broadcast a proxy entry built from the request
    /// fields.
    pub fn emit_proxy(
        &mut self,
        method: &str,
        path: &str,
        status: u16,
        duration_ms: u64,
        upstream: Option<&str>,
        ts_ms: u64,
    )
        requires
            old(self).wf(),
            old(self).history().len() < u64::MAX,
        ensures
            final(self).wf(),
            final(self).history().len() == old(self).history().len() + 1,
            final(self).history().drop_last() == old(self).history(),
            ({
                let e = final(self).history().last();
                &&& e.ts_ms == ts_ms
                &&& e.kind@ == "proxy"@
                &&& e.method matches Some(m) && m@ == method@
                &&& e.path matches Some(p) && p@ == path@
                &&& e.status == Some(status)
                &&& e.duration_ms == Some(duration_ms)
                &&& match upstream {
                    Some(u) => e.upstream matches Some(s) && s@ == u@,
                    None => e.upstream is None,
                }
            }),
    {
        let entry = LogEntry::proxy(method, path, status, duration_ms, upstream, ts_ms);
        self.send(entry);
        proof {
            assert(final(self).history().drop_last() =~= old(self).history());
        }
    }

    /// Producer helper: broadcast a system entry.
    pub fn emit_system(&mut self, level: &str, message: &str, ts_ms: u64)
        requires
            old(self).wf(),
            old(self).history().len() < u64::MAX,
        ensures
            final(self).wf(),
            final(self).history().len() == old(self).history().len() + 1,
            final(self).history().drop_last() == old(self).history(),
            ({
                let e = final(self).history().last();
                &&& e.ts_ms == ts_ms
                &&& e.kind@ == "system"@
                &&& e.level matches Some(l) && l@ == level@
                &&& e.message matches Some(m) && m@ == message@
            }),
    {
        let entry = LogEntry::system(level, message, ts_ms);
        self.send(entry);
        proof {
            assert(final(self).history().drop_last() =~= old(self).history());
        }
    }
}

} // verus!
