//! Opaque-handle tokens: a bounded store that hands each payload back at most once.
use vstd::prelude::*;

use crate::commands::CallbackParams;
use crate::decimal::{lemma_parse_nat_dec, nat_dec, parse_nat, parse_nat_at, push_nat};
use crate::text::{chars_of, string_from_chars};
use crate::token::DecodeError;

verus! {

/// Whether no two entries share an id.
pub open spec fn ids_unique(e: Seq<(u64, CallbackParams)>) -> bool {
    forall|i: int, j: int|
        0 <= i < e.len() && 0 <= j < e.len() && (#[trigger] e[i]).0 == (#[trigger] e[j]).0 ==> i
            == j
}

pub open spec fn holds_id(e: Seq<(u64, CallbackParams)>, id: u64) -> bool {
    exists|i: int| 0 <= i < e.len() && (#[trigger] e[i]).0 == id
}

/// The position of the entry under `id`, when there is one.
pub open spec fn slot_of(e: Seq<(u64, CallbackParams)>, id: u64) -> int {
    choose|i: int| 0 <= i < e.len() && (#[trigger] e[i]).0 == id
}

/// The entries after storing `p` under `id` in a store of `capacity` entries: an older
/// entry under `id` is replaced, and when the store is full the oldest entry leaves.
pub open spec fn after_store(
    e: Seq<(u64, CallbackParams)>,
    capacity: nat,
    id: u64,
    p: CallbackParams,
) -> Seq<(u64, CallbackParams)> {
    let kept = if holds_id(e, id) {
        e.remove(slot_of(e, id))
    } else {
        e
    };
    let kept = if kept.len() >= capacity && kept.len() > 0 {
        kept.drop_first()
    } else {
        kept
    };
    kept.push((id, p))
}

/// What reading `token` back returns.
pub open spec fn take_result(e: Seq<(u64, CallbackParams)>, token: Seq<char>) -> Result<
    CallbackParams,
    DecodeError,
> {
    match parse_nat(token) {
        Some(n) => if n <= u64::MAX && holds_id(e, n as u64) {
            Ok(e[slot_of(e, n as u64)].1)
        } else if n <= u64::MAX {
            Err(DecodeError::NotFound)
        } else {
            Err(DecodeError::Malformed)
        },
        None => Err(DecodeError::Malformed),
    }
}

/// The entries left after reading `token` back.
pub open spec fn after_take(e: Seq<(u64, CallbackParams)>, token: Seq<char>) -> Seq<
    (u64, CallbackParams),
> {
    match parse_nat(token) {
        Some(n) => if n <= u64::MAX && holds_id(e, n as u64) {
            e.remove(slot_of(e, n as u64))
        } else {
            e
        },
        None => e,
    }
}

/// The handle of the payload stored under `id`.
pub open spec fn handle_text(id: u64) -> Seq<char> {
    nat_dec(id as nat)
}

/// Payloads of inline actions kept under random ids, oldest first.
pub struct HandleStore {
    capacity: usize,
    entries: Vec<(u64, CallbackParams)>,
}

impl HandleStore {
    pub closed spec fn spec_capacity(&self) -> nat {
        self.capacity as nat
    }

    pub closed spec fn spec_entries(&self) -> Seq<(u64, CallbackParams)> {
        self.entries@
    }

    pub open spec fn wf(&self) -> bool {
        &&& self.spec_capacity() > 0
        &&& self.spec_entries().len() <= self.spec_capacity()
        &&& ids_unique(self.spec_entries())
    }

    /// An empty store that keeps at most `capacity` payloads.
    pub fn new(capacity: usize) -> (r: Self)
        requires
            capacity > 0,
        ensures
            r.wf(),
            r.spec_capacity() == capacity,
            r.spec_entries() == Seq::<(u64, CallbackParams)>::empty(),
    {
        HandleStore { capacity, entries: Vec::new() }
    }

    fn find(&self, id: u64) -> (r: Option<usize>)
        requires
            self.wf(),
        ensures
            match r {
                Some(i) => holds_id(self.entries@, id) && i == slot_of(self.entries@, id),
                None => !holds_id(self.entries@, id),
            },
    {
        let mut i: usize = 0;
        while i < self.entries.len()
            invariant
                0 <= i <= self.entries@.len(),
                ids_unique(self.entries@),
                forall|j: int| 0 <= j < i ==> (#[trigger] self.entries@[j]).0 != id,
            decreases self.entries@.len() - i,
        {
            if self.entries[i].0 == id {
                assert(self.entries@[i as int].0 == id);
                assert(holds_id(self.entries@, id));
                let ghost k = slot_of(self.entries@, id);
                assert(self.entries@[k].0 == self.entries@[i as int].0);
                return Some(i);
            }
            i = i + 1;
        }
        None
    }

    /// Stores `payload` under `id` and returns its handle.
    pub fn encode(&mut self, id: u64, payload: CallbackParams) -> (r: String)
        requires
            old(self).wf(),
        ensures
            final(self).wf(),
            final(self).spec_capacity() == old(self).spec_capacity(),
            final(self).spec_entries() == after_store(
                old(self).spec_entries(),
                old(self).spec_capacity(),
                id,
                payload,
            ),
            r@ == handle_text(id),
    {
        let ghost e0 = self.entries@;
        match self.find(id) {
            Some(i) => {
                self.entries.remove(i);
            },
            None => {},
        }
        let ghost e1 = self.entries@;
        if self.entries.len() >= self.capacity && self.entries.len() > 0 {
            self.entries.remove(0);
            assert(self.entries@ =~= e1.drop_first());
        }
        self.entries.push((id, payload));
        proof {
            lemma_store_unique(e0, self.capacity as nat, id, payload);
        }
        let mut text: Vec<char> = Vec::new();
        push_nat(&mut text, id);
        assert(text@ =~= handle_text(id));
        string_from_chars(&text)
    }

    /// Reads a handle back: the payload leaves the store, so it is handed out once.
    pub fn decode(&mut self, token: &str) -> (r: Result<CallbackParams, DecodeError>)
        requires
            old(self).wf(),
        ensures
            final(self).wf(),
            final(self).spec_capacity() == old(self).spec_capacity(),
            r == take_result(old(self).spec_entries(), token@),
            final(self).spec_entries() == after_take(old(self).spec_entries(), token@),
    {
        let cs = chars_of(token);
        assert(cs@.subrange(0, cs@.len() as int) =~= token@);
        match parse_nat_at(&cs, 0, cs.len()) {
            Some(id) => match self.find(id) {
                Some(i) => {
                    let ghost e0 = self.entries@;
                    let (_, p) = self.entries.remove(i);
                    proof {
                        lemma_remove_unique(e0, i as int);
                    }
                    Ok(p)
                },
                None => Err(DecodeError::NotFound),
            },
            None => Err(DecodeError::Malformed),
        }
    }
}

proof fn lemma_remove_unique(e: Seq<(u64, CallbackParams)>, i: int)
    requires
        ids_unique(e),
        0 <= i < e.len(),
    ensures
        ids_unique(e.remove(i)),
        forall|j: int| 0 <= j < e.remove(i).len() ==> (#[trigger] e.remove(i)[j]).0 != e[i].0,
{
    let r = e.remove(i);
    assert forall|a: int, b: int|
        0 <= a < r.len() && 0 <= b < r.len() && (#[trigger] r[a]).0 == (#[trigger] r[b]).0 implies a
        == b by {
        let a2 = if a < i { a } else { a + 1 };
        let b2 = if b < i { b } else { b + 1 };
        assert(r[a] == e[a2]);
        assert(r[b] == e[b2]);
    }
    assert forall|j: int| 0 <= j < r.len() implies (#[trigger] r[j]).0 != e[i].0 by {
        let j2 = if j < i { j } else { j + 1 };
        assert(r[j] == e[j2]);
    }
}

proof fn lemma_store_unique(e: Seq<(u64, CallbackParams)>, capacity: nat, id: u64, p: CallbackParams)
    requires
        ids_unique(e),
        e.len() <= capacity,
        capacity > 0,
    ensures
        ids_unique(after_store(e, capacity, id, p)),
        after_store(e, capacity, id, p).len() <= capacity,
        after_store(e, capacity, id, p).last() == (id, p),
        !holds_id(after_store(e, capacity, id, p).drop_last(), id),
{
    let k0 = if holds_id(e, id) {
        lemma_remove_unique(e, slot_of(e, id));
        e.remove(slot_of(e, id))
    } else {
        e
    };
    assert(!holds_id(k0, id));
    let k1 = if k0.len() >= capacity && k0.len() > 0 {
        k0.drop_first()
    } else {
        k0
    };
    assert(ids_unique(k1)) by {
        assert forall|a: int, b: int|
            0 <= a < k1.len() && 0 <= b < k1.len() && (#[trigger] k1[a]).0 == (#[trigger] k1[b]).0 implies a
            == b by {
            if k0.len() >= capacity && k0.len() > 0 {
                assert(k1[a] == k0[a + 1]);
                assert(k1[b] == k0[b + 1]);
            }
        }
    }
    assert(!holds_id(k1, id)) by {
        if k0.len() >= capacity && k0.len() > 0 {
            assert forall|j: int| 0 <= j < k1.len() implies (#[trigger] k1[j]).0 != id by {
                assert(k1[j] == k0[j + 1]);
            }
        }
    }
    let r = k1.push((id, p));
    assert(r.drop_last() =~= k1);
    assert forall|a: int, b: int|
        0 <= a < r.len() && 0 <= b < r.len() && (#[trigger] r[a]).0 == (#[trigger] r[b]).0 implies a
        == b by {
        if a < k1.len() && b < k1.len() {
            assert(r[a] == k1[a] && r[b] == k1[b]);
        } else if a < k1.len() {
            assert(r[a] == k1[a]);
        } else if b < k1.len() {
            assert(r[b] == k1[b]);
        }
    }
}

/// A payload stored under a handle is read back once: the first read returns it,
/// and a second read of the same handle finds nothing.
pub proof fn lemma_handle_read_once(
    e: Seq<(u64, CallbackParams)>,
    capacity: nat,
    id: u64,
    p: CallbackParams,
)
    requires
        ids_unique(e),
        e.len() <= capacity,
        capacity > 0,
    ensures
        ({
            let stored = after_store(e, capacity, id, p);
            let left = after_take(stored, handle_text(id));
            &&& take_result(stored, handle_text(id)) == Ok::<CallbackParams, DecodeError>(p)
            &&& take_result(left, handle_text(id)) == Err::<CallbackParams, DecodeError>(
                DecodeError::NotFound,
            )
        }),
{
    let stored = after_store(e, capacity, id, p);
    lemma_store_unique(e, capacity, id, p);
    lemma_parse_nat_dec(id as nat);
    let last = stored.len() - 1;
    assert(stored[last].0 == id);
    assert(holds_id(stored, id));
    let i = slot_of(stored, id);
    assert(i == last);
    lemma_remove_unique(stored, i);
    assert(!holds_id(stored.remove(i), id));
}

} // verus!
