//! The stdio transport's message-level state.
//!
//! A transport owns one spawned backend process and turns its standard
//! streams into a request/response channel. The process itself and the
//! byte-level input/output live outside this crate; what is modeled here is
//! the part that decides: the pending-request table that correlates
//! responses to requests by id, the framing of outgoing lines, and the
//! dispatch of incoming lines. Each id is issued at most once, resolved at
//! most once, and removed on resolution or shutdown.

use vstd::prelude::*;
use vstd::string::StringExecFns;

use crate::error::AppError;
use crate::json::JVal;
use crate::json::JsonValue;
use crate::json::json_text;
use crate::rpc::is_notification_wire;
use crate::rpc::is_request_wire;
use crate::rpc::make_notification;
use crate::rpc::make_request;
use crate::rpc::msg_id;
use crate::rpc::msg_method;
use crate::text::str_eq;

verus! {

/// Pushing onto a sequence inserts into its set of elements.
proof fn lemma_to_set_push(s: Seq<u64>, x: u64)
    ensures
        s.push(x).to_set() == s.to_set().insert(x),
{
    assert(s.push(x)[s.len() as int] == x);
    assert(s.push(x).contains(x));
    assert forall|y: u64| #[trigger] s.push(x).contains(y) implies s.contains(y) || y == x by {
        let i = choose|i: int| 0 <= i < s.push(x).len() && s.push(x)[i] == y;
        if i < s.len() {
            assert(s[i] == y);
        }
    }
    assert forall|y: u64| #[trigger] s.contains(y) implies s.push(x).contains(y) by {
        let i = choose|i: int| 0 <= i < s.len() && s[i] == y;
        assert(s.push(x)[i] == y);
    }
    assert(s.push(x).to_set() =~= s.to_set().insert(x));
}

/// Removing one position of a duplicate-free sequence removes that element
/// from its set of elements.
proof fn lemma_to_set_remove(s: Seq<u64>, i: int)
    requires
        0 <= i < s.len(),
        s.no_duplicates(),
    ensures
        s.remove(i).to_set() == s.to_set().remove(s[i]),
        s.remove(i).no_duplicates(),
{
    s.remove_ensures(i);
    let t = s.remove(i);
    assert forall|y: u64| #[trigger] t.contains(y) implies s.contains(y) && y != s[i] by {
        let k = choose|k: int| 0 <= k < t.len() && t[k] == y;
        if k < i {
            assert(s[k] == y);
        } else {
            assert(s[k + 1] == y);
        }
    }
    assert forall|y: u64| s.contains(y) && y != s[i] implies #[trigger] t.contains(y) by {
        let k = choose|k: int| 0 <= k < s.len() && s[k] == y;
        if k < i {
            assert(t[k] == y);
        } else {
            assert(t[k - 1] == y);
        }
    }
    assert(t.to_set() =~= s.to_set().remove(s[i]));
    assert forall|p: int, q: int| 0 <= p < q < t.len() implies t[p] != t[q] by {
        if q < i {
            assert(t[p] == s[p] && t[q] == s[q]);
        } else if p >= i {
            assert(t[p] == s[p + 1] && t[q] == s[q + 1]);
        } else {
            assert(t[p] == s[p] && t[q] == s[q + 1]);
        }
    }
}

/// The pending-request table: the set of request ids that were issued and
/// have not been answered, with the id counter and the closed flag.
pub struct PendingTable {
    /// The next id to issue; ids are issued in increasing order.
    pub next_id: u64,
    /// The issued ids that no response has resolved yet.
    pub waiting: Vec<u64>,
    /// Whether the transport has been shut down.
    pub closed: bool,
}

impl PendingTable {
    /// The set of unanswered request ids.
    pub open spec fn pending(&self) -> Set<u64> {
        self.waiting@.to_set()
    }

    /// Well-formedness: ids are distinct, below the counter, and a closed
    /// table holds no pending id.
    pub open spec fn wf(&self) -> bool {
        &&& self.waiting@.no_duplicates()
        &&& forall|i: int|
            0 <= i < self.waiting@.len() ==> #[trigger] self.waiting@[i] < self.next_id
        &&& (self.closed ==> self.waiting@.len() == 0)
    }

    /// An empty, open table.
    pub fn new() -> (t: PendingTable)
        ensures
            t.wf(),
            t.pending() == Set::<u64>::empty(),
            !t.closed,
            t.next_id == 1,
    {
        let t = PendingTable { next_id: 1, waiting: Vec::new(), closed: false };
        proof {
            assert(t.waiting@.to_set() =~= Set::<u64>::empty());
        }
        t
    }

    /// Issue a fresh id and add it to the pending set. Fails on a closed
    /// table, and when the id counter has run out of ids that fit on the
    /// wire.
    pub fn register(&mut self) -> (r: Result<u64, AppError>)
        requires
            old(self).wf(),
        ensures
            final(self).wf(),
            match r {
                Ok(id) => {
                    &&& !old(self).closed
                    &&& old(self).next_id < i64::MAX
                    &&& id == old(self).next_id
                    &&& !old(self).pending().contains(id)
                    &&& final(self).pending() == old(self).pending().insert(id)
                    &&& final(self).next_id == old(self).next_id + 1
                    &&& final(self).closed == old(self).closed
                },
                Err(e) => {
                    &&& (old(self).closed || old(self).next_id >= i64::MAX)
                    &&& (old(self).closed <==> e is TransportClosed)
                    &&& *final(self) == *old(self)
                },
            },
    {
        if self.closed {
            return Err(AppError::TransportClosed);
        }
        if self.next_id >= 0x7fff_ffff_ffff_ffff {
            return Err(AppError::Transport(String::from_str("request ids exhausted")));
        }
        let id = self.next_id;
        proof {
            if self.waiting@.contains(id) {
                let i = choose|i: int| 0 <= i < self.waiting@.len() && self.waiting@[i] == id;
                assert(self.waiting@[i] < self.next_id);
            }
            lemma_to_set_push(self.waiting@, id);
        }
        self.next_id = self.next_id + 1;
        self.waiting.push(id);
        Ok(id)
    }

    /// Resolve a pending id: remove it and report whether it was pending.
    /// Resolving an id a second time finds nothing and changes nothing.
    pub fn resolve(&mut self, id: u64) -> (r: bool)
        requires
            old(self).wf(),
        ensures
            final(self).wf(),
            r == old(self).pending().contains(id),
            final(self).pending() == if r {
                old(self).pending().remove(id)
            } else {
                old(self).pending()
            },
            final(self).closed == old(self).closed,
            final(self).next_id == old(self).next_id,
            !r ==> *final(self) == *old(self),
    {
        let n = self.waiting.len();
        let mut i: usize = 0;
        while i < n
            invariant
                *self == *old(self),
                old(self).wf(),
                n == self.waiting@.len(),
                i <= n,
                forall|j: int| 0 <= j < i ==> self.waiting@[j] != id,
            decreases n - i,
        {
            if self.waiting[i] == id {
                proof {
                    lemma_to_set_remove(self.waiting@, i as int);
                }
                self.waiting.remove(i);
                proof {
                    assert(old(self).waiting@.contains(id));
                }
                return true;
            }
            i += 1;
        }
        proof {
            if self.waiting@.contains(id) {
                let j = choose|j: int| 0 <= j < self.waiting@.len() && self.waiting@[j] == id;
                assert(self.waiting@[j] != id);
            }
        }
        false
    }

    /// Close the table, dropping every pending id. The dropped ids are
    /// returned so that each waiting caller can be failed. Idempotent: on a
    /// closed table nothing is pending and nothing is returned.
    pub fn close(&mut self) -> (cancelled: Vec<u64>)
        requires
            old(self).wf(),
        ensures
            final(self).wf(),
            final(self).closed,
            final(self).pending() == Set::<u64>::empty(),
            final(self).next_id == old(self).next_id,
            cancelled@ == old(self).waiting@,
            cancelled@.to_set() == old(self).pending(),
            cancelled@.no_duplicates(),
    {
        self.closed = true;
        let mut cancelled: Vec<u64> = Vec::new();
        std::mem::swap(&mut cancelled, &mut self.waiting);
        proof {
            assert(self.waiting@.to_set() =~= Set::<u64>::empty());
        }
        cancelled
    }
}

/// What the read loop should do with one parsed line from the backend.
pub enum LineAction {
    /// The line answers the pending request with this id: deliver it.
    Deliver(u64),
    /// The line is a notification from the backend: observe or discard it.
    Notify,
    /// The line matches no pending request and is no notification: drop it.
    Ignore,
}

/// The message-level state of one stdio transport: the pending-request
/// table and the child process identifier, when the platform reports one.
pub struct StdioTransport {
    /// Request correlation state.
    pub pending: PendingTable,
    /// The operating-system identifier of the spawned backend process.
    pub child_pid: Option<u32>,
}

impl StdioTransport {
    /// The transport is shut down: the process exited or `shutdown` ran.
    pub open spec fn is_closed(&self) -> bool {
        self.pending.closed
    }

    /// Well-formed transport state.
    pub open spec fn wf(&self) -> bool {
        self.pending.wf()
    }

    /// A transport for a freshly spawned process.
    pub fn new(child_pid: Option<u32>) -> (t: StdioTransport)
        ensures
            t.wf(),
            !t.is_closed(),
            t.pending.pending() == Set::<u64>::empty(),
            t.pending.next_id == 1,
            t.child_pid == child_pid,
    {
        StdioTransport { pending: PendingTable::new(), child_pid }
    }

    /// Open a request: issue an id, register it, and frame the request
    /// line to write. Fails with the transport-closed failure once the
    /// transport is shut down; no id is registered on failure.
    pub fn begin_request(&mut self, method: &str, params: Option<JsonValue>) -> (r: Result<
        (u64, JsonValue, String),
        AppError,
    >)
        requires
            old(self).wf(),
        ensures
            final(self).wf(),
            final(self).child_pid == old(self).child_pid,
            final(self).is_closed() == old(self).is_closed(),
            match r {
                Ok((id, req, line)) => {
                    &&& !old(self).is_closed()
                    &&& old(self).pending.next_id < i64::MAX
                    &&& id == old(self).pending.next_id
                    &&& final(self).pending.next_id == old(self).pending.next_id + 1
                    &&& !old(self).pending.pending().contains(id)
                    &&& final(self).pending.pending() == old(self).pending.pending().insert(id)
                    &&& is_request_wire(
                        req@,
                        id as int,
                        method@,
                        match params {
                            Some(p) => Some(p@),
                            None => None,
                        },
                    )
                    &&& line@ == json_text(req@) + seq!['\n']
                },
                Err(e) => {
                    &&& final(self).pending == old(self).pending
                    &&& (old(self).is_closed() <==> e is TransportClosed)
                    &&& (old(self).is_closed() || old(self).pending.next_id >= i64::MAX)
                },
            },
    {
        let ghost pv = params;
        let id = match self.pending.register() {
            Ok(id) => id,
            Err(e) => {
                return Err(e);
            },
        };
        let req = make_request(id, method, params);
        let mut line = crate::json::to_json_string(&req);
        proof {
            reveal_strlit("\n");
            assert("\n"@ =~= seq!['\n']);
        }
        line.append("\n");
        proof {
            if pv is Some {
                assert(is_request_wire(req@, id as int, method@, Some(pv->0@)));
            }
        }
        Ok((id, req, line))
    }

    /// Frame a notification line to write. No response is awaited and no id
    /// is registered. Fails with the transport-closed failure once the
    /// transport is shut down.
    pub fn begin_notification(&self, method: &str, params: Option<JsonValue>) -> (r: Result<
        (JsonValue, String),
        AppError,
    >)
        ensures
            match r {
                Ok((note, line)) => {
                    &&& !self.is_closed()
                    &&& is_notification_wire(
                        note@,
                        method@,
                        match params {
                            Some(p) => Some(p@),
                            None => None,
                        },
                    )
                    &&& line@ == json_text(note@) + seq!['\n']
                },
                Err(e) => self.is_closed() && e is TransportClosed,
            },
    {
        let ghost pv = params;
        if self.pending.closed {
            return Err(AppError::TransportClosed);
        }
        let note = make_notification(method, params);
        let mut line = crate::json::to_json_string(&note);
        proof {
            reveal_strlit("\n");
            assert("\n"@ =~= seq!['\n']);
        }
        line.append("\n");
        proof {
            if pv is Some {
                assert(is_notification_wire(note@, method@, Some(pv->0@)));
            }
        }
        Ok((note, line))
    }

    /// Dispatch one parsed line from the backend's output stream.
    ///
    /// A response whose id is pending resolves that id, exactly once; a
    /// message without an id but with a method is a notification; anything
    /// else is dropped.
    pub fn on_line(&mut self, v: &JsonValue) -> (r: LineAction)
        requires
            old(self).wf(),
        ensures
            final(self).wf(),
            final(self).child_pid == old(self).child_pid,
            final(self).is_closed() == old(self).is_closed(),
            final(self).pending.next_id == old(self).pending.next_id,
            match r {
                LineAction::Deliver(id) => {
                    &&& msg_id(v@) == Some(JVal::Int(id as int))
                    &&& old(self).pending.pending().contains(id)
                    &&& final(self).pending.pending() == old(self).pending.pending().remove(id)
                },
                LineAction::Notify => {
                    &&& msg_id(v@) is None
                    &&& msg_method(v@) is Some
                    &&& final(self).pending == old(self).pending
                },
                LineAction::Ignore => final(self).pending == old(self).pending,
            },
            msg_id(v@) is None && msg_method(v@) is Some ==> r is Notify,
            (forall|i: int|
                msg_id(v@) == Some(JVal::Int(i)) ==> !(0 <= i <= u64::MAX
                    && old(self).pending.pending().contains(i as u64))) && !(msg_id(v@) is None)
                ==> r is Ignore,
    {
        match v.get_field("id") {
            Some(idv) => match idv.as_int() {
                Some(i) => {
                    if i >= 0 {
                        let id = i as u64;
                        if self.pending.resolve(id) {
                            LineAction::Deliver(id)
                        } else {
                            LineAction::Ignore
                        }
                    } else {
                        LineAction::Ignore
                    }
                },
                None => LineAction::Ignore,
            },
            None => {
                match v.get_field("method") {
                    Some(_) => LineAction::Notify,
                    None => LineAction::Ignore,
                }
            },
        }
    }

    /// Shut down the transport: close the table and hand back every
    /// cancelled id, so that each waiting caller can be failed with the
    /// transport-closed failure. Idempotent.
    pub fn shutdown(&mut self) -> (cancelled: Vec<u64>)
        requires
            old(self).wf(),
        ensures
            final(self).wf(),
            final(self).is_closed(),
            final(self).child_pid == old(self).child_pid,
            final(self).pending.pending() == Set::<u64>::empty(),
            cancelled@.to_set() == old(self).pending.pending(),
            cancelled@.no_duplicates(),
            old(self).is_closed() ==> cancelled@.len() == 0,
    {
        self.pending.close()
    }
}

/// Resolution is idempotent: once an id has been removed from the pending
/// set, no later resolution of the same id finds it.
pub proof fn lemma_resolve_at_most_once(pending: Set<u64>, id: u64)
    ensures
        !pending.remove(id).contains(id),
{
}

} // verus!
