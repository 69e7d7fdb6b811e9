//! The pending table: the one shared structure of the broker. It maps a
//! request identifier to the record of its in-flight request; a record is
//! claimed by whoever removes it first, and can be claimed only once.
//!
//! The map is a concurrent map of an outside crate, held in a private field
//! and reached only through the small trusted operations below; the caller
//! serializes access by holding the table exclusively. The take-once law
//! itself is proved, over the table's mathematical contents.

use crate::models::PendingRecord;
use dashmap::DashMap;
use vstd::prelude::*;

verus! {

/// The broker's table of in-flight requests. Its one field is the outside
/// crate's concurrent map; Verus sees the table only through
/// [`pending_entries`] and the operations that speak of it.
#[verifier::external_body]
pub struct PendingTable {
    inner: DashMap<u128, PendingRecord>,
}

/// What the table holds: its entries, as a map from request identifier to
/// pending record.
pub uninterp spec fn pending_entries(t: PendingTable) -> Map<u128, PendingRecord>;

impl PendingTable {
    /// Relies on dashmap::DashMap::new: a fresh map holds nothing.
    #[verifier::external_body]
    fn raw_new() -> (table: PendingTable)
        ensures
            forall|id: u128| !(#[trigger] pending_entries(table).contains_key(id)),
    {
        PendingTable { inner: DashMap::new() }
    }

    /// An empty pending table.
    pub fn new() -> (table: PendingTable)
        ensures
            forall|id: u128| !(#[trigger] pending_entries(table).contains_key(id)),
    {
        PendingTable::raw_new()
    }

    /// Relies on dashmap::DashMap::contains_key: whether the key has an
    /// entry.
    #[verifier::external_body]
    pub(crate) fn contains(&self, id: u128) -> (r: bool)
        ensures
            r == pending_entries(*self).contains_key(id),
    {
        self.inner.contains_key(&id)
    }

    /// Relies on dashmap::DashMap::insert: adds the entry under the key.
    /// Identifiers are never reused, so an occupied key is left out by
    /// contract rather than overwritten.
    #[verifier::external_body]
    pub(crate) fn insert(&mut self, id: u128, record: PendingRecord)
        requires
            !pending_entries(*old(self)).contains_key(id),
        ensures
            pending_entries(*final(self)) == pending_entries(*old(self)).insert(id, record),
    {
        self.inner.insert(id, record);
    }

    /// Relies on dashmap::DashMap::remove: atomically removes and returns
    /// the entry under the key, or nothing when the key has none. This is
    /// the claim step: after a successful take the record is unreachable.
    #[verifier::external_body]
    pub(crate) fn take(&mut self, id: u128) -> (r: Option<PendingRecord>)
        ensures
            pending_entries(*old(self)).contains_key(id) ==> r == Some(
                pending_entries(*old(self))[id],
            ) && pending_entries(*final(self)) == pending_entries(*old(self)).remove(id),
            !pending_entries(*old(self)).contains_key(id) ==> r is None && pending_entries(
                *final(self),
            ) == pending_entries(*old(self)),
    {
        match self.inner.remove(&id) {
            Some((_, record)) => Some(record),
            None => None,
        }
    }

    /// Relies on dashmap::DashMap::iter and Ref::key: the keys of all
    /// entries, each once, in no promised order.
    #[verifier::external_body]
    pub(crate) fn keys(&self) -> (r: Vec<u128>)
        ensures
            r@.no_duplicates(),
            forall|k: u128| r@.contains(k) <==> pending_entries(*self).contains_key(k),
    {
        let mut out = Vec::new();
        for entry in self.inner.iter() {
            out.push(*entry.key());
        }
        out
    }

    /// Removes every entry and returns all of them with their keys: the
    /// shutdown drain. Afterwards the table holds nothing; every old entry
    /// comes back exactly once.
    pub(crate) fn drain(&mut self) -> (r: Vec<(u128, PendingRecord)>)
        ensures
            forall|id: u128| !(#[trigger] pending_entries(*final(self)).contains_key(id)),
            forall|j: int|
                0 <= j < r@.len() ==> pending_entries(*old(self)).contains_key(
                    (#[trigger] r@[j]).0,
                ) && pending_entries(*old(self))[r@[j].0] == r@[j].1,
            forall|j1: int, j2: int| 0 <= j1 < j2 < r@.len() ==> r@[j1].0 != r@[j2].0,
            forall|id: u128|
                pending_entries(*old(self)).contains_key(id) ==> exists|j: int|
                    0 <= j < r@.len() && (#[trigger] r@[j]).0 == id,
    {
        let ghost m0 = pending_entries(*self);
        let ks = self.keys();
        let n = ks.len();
        let mut out: Vec<(u128, PendingRecord)> = Vec::new();
        let mut i: usize = 0;
        while i < n
            invariant
                0 <= i <= n,
                n == ks@.len(),
                ks@.no_duplicates(),
                forall|k: u128| ks@.contains(k) <==> m0.contains_key(k),
                drained_to(pending_entries(*self), m0, ks@, i as int),
                forall|id: u128|
                    pending_entries(*self).contains_key(id)
                        ==> pending_entries(*self)[id] == m0[id],
                out@.len() == i,
                forall|j: int|
                    0 <= j < i ==> (#[trigger] out@[j]).0 == ks@[j] && out@[j].1 == m0[ks@[j]],
            decreases n - i,
        {
            let id = ks[i];
            proof {
                assert(ks@.contains(ks@[i as int]));
                assert(!ks@.take(i as int).contains(id)) by {
                    if ks@.take(i as int).contains(id) {
                        let j = choose|j: int| 0 <= j < i && #[trigger] ks@.take(i as int)[j] == id;
                        assert(ks@[j] == ks@[i as int]);
                    }
                }
            }
            let taken = self.take(id);
            match taken {
                Some(record) => {
                    out.push((id, record));
                },
                None => {
                    proof {
                        assert(false);
                    }
                },
            }
            proof {
                assert forall|x: u128| ks@.take(i as int + 1).contains(x) implies (ks@.take(
                    i as int,
                ).contains(x) || x == id) by {
                    let j = choose|j: int| 0 <= j < i + 1 && #[trigger] ks@.take(i as int + 1)[j] == x;
                    if j < i {
                        assert(ks@.take(i as int)[j] == x);
                    }
                }
                assert forall|x: u128| ks@.take(i as int).contains(x) implies ks@.take(
                    i as int + 1,
                ).contains(x) by {
                    let j = choose|j: int| 0 <= j < i && #[trigger] ks@.take(i as int)[j] == x;
                    assert(ks@.take(i as int + 1)[j] == x);
                }
                assert(ks@.take(i as int + 1).contains(id)) by {
                    assert(ks@.take(i as int + 1)[i as int] == id);
                }
                assert(drained_to(pending_entries(*self), m0, ks@, i as int + 1)) by {
                    assert forall|id2: u128| #[trigger] pending_entries(*self).contains_key(id2)
                        <==> (m0.contains_key(id2) && !ks@.take(i as int + 1).contains(id2)) by {
                        if id2 == id {
                            assert(!pending_entries(*self).contains_key(id2));
                            assert(ks@.take(i as int + 1).contains(id2));
                        } else {
                            if ks@.take(i as int + 1).contains(id2) {
                                assert(ks@.take(i as int).contains(id2) || id2 == id);
                            }
                            if ks@.take(i as int).contains(id2) {
                                assert(ks@.take(i as int + 1).contains(id2));
                            }
                        }
                    }
                }
            }
            i = i + 1;
        }
        proof {
            assert forall|id: u128| !pending_entries(*self).contains_key(id) by {
                if m0.contains_key(id) {
                    let j = choose|j: int| 0 <= j < ks@.len() && #[trigger] ks@[j] == id;
                    assert(ks@.take(n as int) =~= ks@);
                }
            }
            assert forall|id: u128| m0.contains_key(id) implies exists|j: int|
                0 <= j < out@.len() && (#[trigger] out@[j]).0 == id by {
                let j = choose|j: int| 0 <= j < ks@.len() && #[trigger] ks@[j] == id;
                assert(out@[j].0 == id);
            }
            assert forall|j1: int, j2: int| 0 <= j1 < j2 < out@.len() implies out@[j1].0
                != out@[j2].0 by {
                assert(ks@[j1] != ks@[j2]);
            }
        }
        out
    }
}


/// The reply-prompt state: which chat has been prompted for free text, and
/// for which request and prompt message. At most one entry per chat; a new
/// prompt replaces the prior one.
#[verifier::external_body]
pub struct ReplyPromptTable {
    inner: DashMap<i64, (u128, i32)>,
}

/// What the reply-prompt table holds: chat identifier to the prompted
/// request and the prompt message.
pub uninterp spec fn reply_prompts(t: ReplyPromptTable) -> Map<i64, (u128, i32)>;

impl ReplyPromptTable {
    /// Relies on dashmap::DashMap::new: a fresh map holds nothing.
    #[verifier::external_body]
    fn raw_new() -> (table: ReplyPromptTable)
        ensures
            forall|chat: i64| !(#[trigger] reply_prompts(table).contains_key(chat)),
    {
        ReplyPromptTable { inner: DashMap::new() }
    }

    /// An empty reply-prompt table.
    pub fn new() -> (table: ReplyPromptTable)
        ensures
            forall|chat: i64| !(#[trigger] reply_prompts(table).contains_key(chat)),
    {
        ReplyPromptTable::raw_new()
    }

    /// Relies on dashmap::DashMap::insert: records the prompt for the chat,
    /// replacing any prior entry.
    #[verifier::external_body]
    pub(crate) fn insert(&mut self, chat_id: i64, request_id: u128, prompt_message_id: i32)
        ensures
            reply_prompts(*final(self)) == reply_prompts(*old(self)).insert(
                chat_id,
                (request_id, prompt_message_id),
            ),
    {
        self.inner.insert(chat_id, (request_id, prompt_message_id));
    }

    /// Relies on dashmap::DashMap::remove: atomically removes and returns
    /// the chat's entry, or nothing when the chat has none.
    #[verifier::external_body]
    pub(crate) fn remove(&mut self, chat_id: i64) -> (r: Option<(u128, i32)>)
        ensures
            reply_prompts(*old(self)).contains_key(chat_id) ==> r == Some(
                reply_prompts(*old(self))[chat_id],
            ) && reply_prompts(*final(self)) == reply_prompts(*old(self)).remove(chat_id),
            !reply_prompts(*old(self)).contains_key(chat_id) ==> r is None && reply_prompts(
                *final(self),
            ) == reply_prompts(*old(self)),
    {
        match self.inner.remove(&chat_id) {
            Some((_, entry)) => Some(entry),
            None => None,
        }
    }
}

/// The drain loop's view of the table after `i` keys were removed.
spec fn drained_to(
    current: Map<u128, PendingRecord>,
    m0: Map<u128, PendingRecord>,
    ks: Seq<u128>,
    i: int,
) -> bool {
    forall|id: u128|
        #[trigger] current.contains_key(id) <==> (m0.contains_key(id) && !ks.take(i).contains(id))
}

/// One round of take attempts, as mathematics: each attempt names a key;
/// an attempt succeeds when the key is still present, and removes it.
/// `count_successful_takes` is how many of the attempts aimed at `target`
/// succeed.
pub open spec fn count_successful_takes(
    m: Map<u128, PendingRecord>,
    ops: Seq<u128>,
    target: u128,
) -> nat
    decreases ops.len(),
{
    if ops.len() == 0 {
        0
    } else {
        let hit: nat = if ops[0] == target && m.contains_key(ops[0]) {
            1
        } else {
            0
        };
        hit + count_successful_takes(
            if m.contains_key(ops[0]) {
                m.remove(ops[0])
            } else {
                m
            },
            ops.drop_first(),
            target,
        )
    }
}

/// Take-once: whatever order take attempts arrive in — button presses,
/// reply text, the local timer, the shutdown drain — a registered request
/// is claimed exactly once, and an unregistered one never.
pub proof fn lemma_take_once(m: Map<u128, PendingRecord>, ops: Seq<u128>, target: u128)
    ensures
        count_successful_takes(m, ops, target) <= 1,
        !m.contains_key(target) ==> count_successful_takes(m, ops, target) == 0,
        m.contains_key(target) && ops.contains(target) ==> count_successful_takes(m, ops, target)
            == 1,
    decreases ops.len(),
{
    if ops.len() > 0 {
        let m1 = if m.contains_key(ops[0]) {
            m.remove(ops[0])
        } else {
            m
        };
        lemma_take_once(m1, ops.drop_first(), target);
        if m.contains_key(target) && ops.contains(target) {
            if !(ops[0] == target && m.contains_key(ops[0])) {
                assert(ops.drop_first().contains(target)) by {
                    let j = choose|j: int| 0 <= j < ops.len() && ops[j] == target;
                    assert(j > 0);
                    assert(ops.drop_first()[j - 1] == target);
                }
                assert(m1.contains_key(target));
            }
        }
    }
}

} // verus!
