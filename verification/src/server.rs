//! The request handler's bookkeeping on the broker side: registering a
//! pending request after the notifications went out, resolving it on the
//! local timer or on global cancellation, and the shutdown drain. Each of
//! these owes the connection exactly one response.

use crate::models::Decision;
use crate::models::IpcResponse;
use crate::models::PendingRecord;
use crate::pending::pending_entries;
use crate::pending::PendingTable;
use crate::router::edit_run;
use crate::router::ChatEffect;
use vstd::prelude::*;

verus! {

/// Why a request could not be registered.
#[derive(Debug, Clone, Copy, PartialEq, Eq, Structural)]
pub enum RegisterError {
    /// No chat accepted the notification: the request is abandoned and the
    /// connection closes without a response.
    NoChatsReached,
    /// The identifier is already registered; identifiers are unique, so
    /// this is never expected.
    AlreadyRegistered,
}

/// Registers a pending request once its notifications are out. Requires
/// nothing of the caller: a request that reached no chat, or a reused
/// identifier, is refused and the table is left alone.
pub fn register_pending(pending: &mut PendingTable, record: PendingRecord) -> (r: Result<
    (),
    RegisterError,
>)
    ensures
        ({
            let m0 = pending_entries(*old(pending));
            let m1 = pending_entries(*final(pending));
            match r {
                Ok(()) => {
                    &&& record.sent_messages@.len() > 0
                    &&& !m0.contains_key(record.request_id)
                    &&& m1 == m0.insert(record.request_id, record)
                },
                Err(e) => {
                    &&& m1 == m0
                    &&& (e == RegisterError::NoChatsReached <==> record.sent_messages@.len() == 0)
                    &&& (e == RegisterError::AlreadyRegistered <==> (record.sent_messages@.len() > 0
                        && m0.contains_key(record.request_id)))
                },
            }
        }),
{
    if record.sent_messages.len() == 0 {
        return Err(RegisterError::NoChatsReached);
    }
    if pending.contains(record.request_id) {
        return Err(RegisterError::AlreadyRegistered);
    }
    let id = record.request_id;
    pending.insert(id, record);
    Ok(())
}

/// Whether a response is the terminal timeout response for a request.
pub open spec fn is_timeout_response(r: IpcResponse, id: u128) -> bool {
    &&& r.request_id == id
    &&& r.decision == Decision::Timeout
    &&& r.message is None
    &&& r.user_message is None
    &&& r.always_allow_suggestion is None
}

/// Resolves a request whose local timer elapsed: claims the record if the
/// router has not, annotates every sent notification with the timed-out
/// status, and produces the one timeout response the connection gets.
pub fn on_timeout(pending: &mut PendingTable, request_id: u128) -> (r: (
    IpcResponse,
    Vec<ChatEffect>,
))
    ensures
        is_timeout_response(r.0, request_id),
        ({
            let m0 = pending_entries(*old(pending));
            let m1 = pending_entries(*final(pending));
            &&& (m0.contains_key(request_id) ==> m1 == m0.remove(request_id) && r.1@.len()
                == m0[request_id].sent_messages@.len() && edit_run(
                r.1@,
                0,
                m0[request_id].sent_messages@,
                m0[request_id].original_text@,
                "\u{23f1}\u{fe0f} Timed out"@,
            ))
            &&& (!m0.contains_key(request_id) ==> m1 == m0 && r.1@.len() == 0)
        }),
{
    let mut effects: Vec<ChatEffect> = Vec::new();
    match pending.take(request_id) {
        Some(record) => {
            crate::router::push_edit_effects(
                &mut effects,
                &record.sent_messages,
                record.original_text.as_str(),
                "\u{23f1}\u{fe0f} Timed out",
            );
        },
        None => {},
    }
    (IpcResponse::timeout(request_id), effects)
}

/// Resolves a request at global cancellation: claims the record if still
/// present and produces the timeout response, without touching the chat.
pub fn on_cancel(pending: &mut PendingTable, request_id: u128) -> (r: IpcResponse)
    ensures
        is_timeout_response(r, request_id),
        ({
            let m0 = pending_entries(*old(pending));
            let m1 = pending_entries(*final(pending));
            &&& (m0.contains_key(request_id) ==> m1 == m0.remove(request_id))
            &&& (!m0.contains_key(request_id) ==> m1 == m0)
        }),
{
    let _taken = pending.take(request_id);
    IpcResponse::timeout(request_id)
}

/// The shutdown drain: empties the table and produces one timeout response
/// per request that was still in flight, so every parked handler is freed
/// with a well-defined terminal response.
pub fn drain_to_responses(pending: &mut PendingTable) -> (r: Vec<IpcResponse>)
    ensures
        forall|id: u128| !(#[trigger] pending_entries(*final(pending)).contains_key(id)),
        forall|j: int|
            0 <= j < r@.len() ==> is_timeout_response(#[trigger] r@[j], r@[j].request_id)
                && pending_entries(*old(pending)).contains_key(r@[j].request_id),
        forall|j1: int, j2: int|
            0 <= j1 < j2 < r@.len() ==> r@[j1].request_id != r@[j2].request_id,
        forall|id: u128|
            pending_entries(*old(pending)).contains_key(id) ==> exists|j: int|
                0 <= j < r@.len() && (#[trigger] r@[j]).request_id == id,
{
    let pairs = pending.drain();
    let n = pairs.len();
    let mut out: Vec<IpcResponse> = Vec::new();
    let mut i: usize = 0;
    while i < n
        invariant
            0 <= i <= n,
            n == pairs@.len(),
            out@.len() == i,
            forall|j: int|
                0 <= j < n ==> pending_entries(*old(pending)).contains_key(
                    (#[trigger] pairs@[j]).0,
                ),
            forall|j1: int, j2: int| 0 <= j1 < j2 < n ==> pairs@[j1].0 != pairs@[j2].0,
            forall|j: int|
                0 <= j < i ==> is_timeout_response(#[trigger] out@[j], pairs@[j].0)
                    && out@[j].request_id == pairs@[j].0,
        decreases n - i,
    {
        let id = pairs[i].0;
        out.push(IpcResponse::timeout(id));
        i = i + 1;
    }
    proof {
        assert forall|id: u128|
            pending_entries(*old(pending)).contains_key(id) implies exists|j: int|
            0 <= j < out@.len() && (#[trigger] out@[j]).request_id == id by {
            let j = choose|j: int| 0 <= j < pairs@.len() && (#[trigger] pairs@[j]).0 == id;
            assert(out@[j].request_id == id);
        }
    }
    out
}


/// The acceptor's admission cap: at most this many connections in flight.
pub const MAX_CONCURRENT_CONNECTIONS: usize = 50;

/// The connection budget: a plain counter behind the acceptor's admission
/// rule. A connection is admitted only while fewer than `capacity` are in
/// flight; one beyond the cap is dropped rather than queued.
pub struct ConnectionBudget {
    capacity: usize,
    in_flight: usize,
}

impl ConnectionBudget {
    /// How many connections may be in flight at once.
    pub closed spec fn spec_capacity(&self) -> usize {
        self.capacity
    }

    /// How many connections are in flight now.
    pub closed spec fn spec_in_flight(&self) -> usize {
        self.in_flight
    }

    /// A fresh budget with nothing in flight.
    pub fn new(capacity: usize) -> (r: ConnectionBudget)
        ensures
            r.spec_capacity() == capacity,
            r.spec_in_flight() == 0,
    {
        ConnectionBudget { capacity, in_flight: 0 }
    }

    /// Admits a connection while the cap allows one more; at the cap the
    /// connection is refused and nothing changes.
    pub fn try_acquire(&mut self) -> (admitted: bool)
        ensures
            final(self).spec_capacity() == old(self).spec_capacity(),
            admitted == (old(self).spec_in_flight() < old(self).spec_capacity()),
            admitted ==> final(self).spec_in_flight() == old(self).spec_in_flight() + 1,
            !admitted ==> final(self).spec_in_flight() == old(self).spec_in_flight(),
    {
        if self.in_flight < self.capacity {
            self.in_flight = self.in_flight + 1;
            true
        } else {
            false
        }
    }

    /// Returns an admitted connection's slot when its handler exits.
    pub fn release(&mut self)
        ensures
            final(self).spec_capacity() == old(self).spec_capacity(),
            old(self).spec_in_flight() > 0 ==> final(self).spec_in_flight() == old(
                self,
            ).spec_in_flight() - 1,
            old(self).spec_in_flight() == 0 ==> final(self).spec_in_flight() == 0,
    {
        if self.in_flight > 0 {
            self.in_flight = self.in_flight - 1;
        }
    }
}

} // verus!
