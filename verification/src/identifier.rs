//! Identities inside the pool: dense sender ids, the `(sender, nonce)`
//! primary key, and the per-sender on-chain snapshot cache.
use vstd::prelude::*;

use crate::maps::{has_key, keys_unique, lemma_map_of_is, lemma_map_of_push, map_of};
use crate::primitives::types::{Address, U256};

verus! {

/// Dense internal identifier of a sender address, assigned on first sight.
#[derive(Clone, Copy, Debug, PartialEq, Eq, Structural, Hash)]
pub struct SenderId(pub u64);

impl From<u64> for SenderId {
    fn from(value: u64) -> SenderId {
        SenderId(value)
    }
}

impl vstd::std_specs::convert::FromSpecImpl<u64> for SenderId {
    open spec fn obeys_from_spec() -> bool {
        true
    }

    open spec fn from_spec(value: u64) -> SenderId {
        SenderId(value)
    }
}

/// The primary key of every ordered index: sender id first, nonce second.
#[derive(Clone, Copy, Debug, PartialEq, Eq, Structural, Hash)]
pub struct TransactionId {
    pub sender: SenderId,
    pub nonce: u64,
}

/// The total order of [`TransactionId`]: lexicographic, sender id first.
pub open spec fn id_lt(a: TransactionId, b: TransactionId) -> bool {
    a.sender.0 < b.sender.0 || (a.sender.0 == b.sender.0 && a.nonce < b.nonce)
}

impl TransactionId {
    pub fn new(sender: SenderId, nonce: u64) -> (r: TransactionId)
        ensures
            r == (TransactionId { sender, nonce }),
    {
        TransactionId { sender, nonce }
    }

    pub fn lt(&self, other: &TransactionId) -> (r: bool)
        ensures
            r == id_lt(*self, *other),
    {
        self.sender.0 < other.sender.0 || (self.sender.0 == other.sender.0 && self.nonce
            < other.nonce)
    }
}

/// An index sorted strictly by [`id_lt`]: the shape of every ordered
/// index in the pool. Strict sortedness is also what makes one sender's
/// nonces strictly increase along the index.
pub open spec fn ids_sorted<V>(s: Seq<(TransactionId, V)>) -> bool {
    forall|i: int, j: int| 0 <= i < j < s.len() ==> id_lt((#[trigger] s[i]).0, (#[trigger] s[j]).0)
}

/// Two ids are ordered one way or the other, or they are the same id.
pub proof fn lemma_id_trichotomy(a: TransactionId, b: TransactionId)
    ensures
        id_lt(a, b) || id_lt(b, a) || a == b,
{
}

/// A sorted index has unique keys.
pub proof fn lemma_ids_sorted_unique<V>(s: Seq<(TransactionId, V)>)
    requires
        ids_sorted(s),
    ensures
        keys_unique(s),
{
    assert forall|i: int, j: int| 0 <= i < j < s.len() implies (#[trigger] s[i]).0 != (
    #[trigger] s[j]).0 by {
        assert(id_lt(s[i].0, s[j].0));
    }
}

/// Removing an entry keeps the index sorted.
pub proof fn lemma_ids_sorted_remove<V>(s: Seq<(TransactionId, V)>, i: int)
    requires
        ids_sorted(s),
        0 <= i < s.len(),
    ensures
        ids_sorted(s.remove(i)),
{
    let t = s.remove(i);
    assert forall|a: int, b: int| 0 <= a < b < t.len() implies id_lt(
        (#[trigger] t[a]).0,
        (#[trigger] t[b]).0,
    ) by {
        let a2: int = if a < i { a } else { a + 1 };
        let b2: int = if b < i { b } else { b + 1 };
        assert(t[a] == s[a2] && t[b] == s[b2]);
    }
}

/// Inserting between the keys below and the keys above keeps the index
/// sorted.
pub proof fn lemma_ids_sorted_insert<V>(s: Seq<(TransactionId, V)>, i: int, p: (TransactionId, V))
    requires
        ids_sorted(s),
        0 <= i <= s.len(),
        forall|j: int| 0 <= j < i ==> id_lt((#[trigger] s[j]).0, p.0),
        forall|j: int| i <= j < s.len() ==> id_lt(p.0, (#[trigger] s[j]).0),
    ensures
        ids_sorted(s.insert(i, p)),
{
    let t = s.insert(i, p);
    assert forall|a: int, b: int| 0 <= a < b < t.len() implies id_lt(
        (#[trigger] t[a]).0,
        (#[trigger] t[b]).0,
    ) by {
        if a == i {
            assert(t[b] == s[b - 1]);
        } else if b == i {
            assert(t[a] == s[a]);
        } else {
            let a2: int = if a < i { a } else { a - 1 };
            let b2: int = if b < i { b } else { b - 1 };
            assert(t[a] == s[a2] && t[b] == s[b2]);
        }
    }
}

/// Overwriting a value in place, key kept, keeps the index sorted.
pub proof fn lemma_ids_sorted_update<V>(s: Seq<(TransactionId, V)>, i: int, v: V)
    requires
        ids_sorted(s),
        0 <= i < s.len(),
    ensures
        ids_sorted(s.update(i, (s[i].0, v))),
{
    let t = s.update(i, (s[i].0, v));
    assert forall|a: int, b: int| 0 <= a < b < t.len() implies id_lt(
        (#[trigger] t[a]).0,
        (#[trigger] t[b]).0,
    ) by {
        assert((t[a]).0 == (s[a]).0 && (t[b]).0 == (s[b]).0);
    }
}

/// The position a key belongs at in a sorted index: everything before is
/// strictly below it, nothing from it on is.
pub fn id_insert_position<V>(v: &Vec<(TransactionId, V)>, id: &TransactionId) -> (r: usize)
    requires
        ids_sorted(v@),
    ensures
        r <= v@.len(),
        forall|j: int| 0 <= j < r ==> id_lt((#[trigger] v@[j]).0, *id),
        forall|j: int| r <= j < v@.len() ==> !id_lt((#[trigger] v@[j]).0, *id),
{
    let n: usize = v.len();
    let mut i: usize = 0;
    while i < n
        invariant
            n == v@.len(),
            i <= n,
            ids_sorted(v@),
            forall|j: int| 0 <= j < i ==> id_lt((#[trigger] v@[j]).0, *id),
        decreases n - i,
    {
        let p = &v[i];
        if !p.0.lt(id) {
            assert forall|j: int| i <= j < v@.len() implies !id_lt((#[trigger] v@[j]).0, *id) by {
                if j > i {
                    assert(id_lt(v@[i as int].0, v@[j].0));
                }
            }
            return i;
        }
        i += 1;
    }
    i
}

/// Cached on-chain values of a sender, refreshed on every admission.
#[derive(Clone, Copy, Debug)]
pub struct SenderInfo {
    pub state_nonce: u64,
    pub balance: U256,
}

impl SenderInfo {
    pub fn update(&mut self, state_nonce: u64, balance: U256)
        ensures
            *final(self) == (SenderInfo { state_nonce, balance }),
    {
        self.state_nonce = state_nonce;
        self.balance = balance;
    }
}

impl Default for SenderInfo {
    fn default() -> (r: SenderInfo)
        ensures
            r.state_nonce == 0 && r.balance.as_nat() == 0,
    {
        SenderInfo { state_nonce: 0, balance: U256 { hi: 0, lo: 0 } }
    }
}

/// The registry interning addresses as dense sender ids. The two vectors
/// mirror each other pair by pair; ids are handed out in order and never
/// recycled.
pub struct SenderIdentifiers {
    pub id: u64,
    pub address_to_id: Vec<(Address, SenderId)>,
    pub sender_to_address: Vec<(SenderId, Address)>,
}

impl SenderIdentifiers {
    /// The interning in the forward direction.
    pub open spec fn addr_map(self) -> Map<Address, SenderId> {
        map_of(self.address_to_id@)
    }

    /// The interning in the reverse direction.
    pub open spec fn id_map(self) -> Map<SenderId, Address> {
        map_of(self.sender_to_address@)
    }

    /// Both directions list the same pairs, keys are unique, and every
    /// assigned id is below the counter.
    pub open spec fn wf(self) -> bool {
        &&& keys_unique(self.address_to_id@)
        &&& keys_unique(self.sender_to_address@)
        &&& self.sender_to_address@.len() == self.address_to_id@.len()
        &&& forall|i: int|
            0 <= i < self.address_to_id@.len() ==> (#[trigger] self.address_to_id@[i]).1.0
                < self.id && self.sender_to_address@[i] == (
            self.address_to_id@[i].1,
            self.address_to_id@[i].0,
            )
    }

    pub fn new() -> (r: SenderIdentifiers)
        ensures
            r.wf(),
            r.addr_map() == Map::<Address, SenderId>::empty(),
            r.id_map() == Map::<SenderId, Address>::empty(),
            r.id == 0,
    {
        SenderIdentifiers { id: 0, address_to_id: Vec::new(), sender_to_address: Vec::new() }
    }

    /// The address an id was assigned for, if any.
    #[verifier::loop_isolation(false)]
    pub fn address(&self, id: &SenderId) -> (r: Option<Address>)
        requires
            self.wf(),
        ensures
            r == if self.id_map().dom().contains(*id) {
                Some(self.id_map()[*id])
            } else {
                None::<Address>
            },
    {
        proof {
            lemma_map_of_is(self.sender_to_address@);
        }
        let n: usize = self.sender_to_address.len();
        let mut i: usize = 0;
        while i < n
            invariant
                n == self.sender_to_address@.len(),
                i <= n,
                self.wf(),
                forall|j: int| 0 <= j < i ==> (#[trigger] self.sender_to_address@[j]).0 != *id,
            decreases n - i,
        {
            let p = self.sender_to_address[i];
            if p.0 == *id {
                proof {
                    assert((self.sender_to_address@[i as int]).0 == *id);
                }
                return Some(p.1);
            }
            i += 1;
        }
        proof {
            assert(!has_key(self.sender_to_address@, *id));
        }
        None
    }

    /// The id an address was interned as, if any.
    #[verifier::loop_isolation(false)]
    pub fn sender_id(&self, address: &Address) -> (r: Option<SenderId>)
        requires
            self.wf(),
        ensures
            r == if self.addr_map().dom().contains(*address) {
                Some(self.addr_map()[*address])
            } else {
                None::<SenderId>
            },
    {
        proof {
            lemma_map_of_is(self.address_to_id@);
        }
        let n: usize = self.address_to_id.len();
        let mut i: usize = 0;
        while i < n
            invariant
                n == self.address_to_id@.len(),
                i <= n,
                self.wf(),
                forall|j: int| 0 <= j < i ==> (#[trigger] self.address_to_id@[j]).0 != *address,
            decreases n - i,
        {
            let p = self.address_to_id[i];
            if p.0 == *address {
                proof {
                    assert((self.address_to_id@[i as int]).0 == *address);
                }
                return Some(p.1);
            }
            i += 1;
        }
        proof {
            assert(!has_key(self.address_to_id@, *address));
        }
        None
    }

    /// The id of an address, interning it under the next free id on first
    /// sight. Both directions are recorded together.
    pub fn sender_id_or_create(&mut self, addr: Address) -> (r: SenderId)
        requires
            old(self).wf(),
            old(self).id < u64::MAX,
        ensures
            final(self).wf(),
            final(self).addr_map().dom().contains(addr) && final(self).addr_map()[addr] == r,
            old(self).addr_map().dom().contains(addr) ==> *final(self) == *old(self) && r == old(
                self,
            ).addr_map()[addr],
            !old(self).addr_map().dom().contains(addr) ==> {
                &&& r == SenderId(old(self).id)
                &&& final(self).addr_map() == old(self).addr_map().insert(addr, r)
                &&& final(self).id_map() == old(self).id_map().insert(r, addr)
                &&& final(self).id == old(self).id + 1
            },
    {
        let found = self.sender_id(&addr);
        match found {
            Some(id) => id,
            None => {
                let id = self.next_id();
                proof {
                    lemma_map_of_is(self.address_to_id@);
                    assert(!has_key(self.address_to_id@, addr));
                    assert(!has_key(self.sender_to_address@, id)) by {
                        if has_key(self.sender_to_address@, id) {
                            let i = choose|i: int|
                                0 <= i < self.sender_to_address@.len() && (
                                #[trigger] self.sender_to_address@[i]).0 == id;
                            assert((self.address_to_id@[i]).1.0 < old(self).id + 1);
                            assert(self.sender_to_address@[i] == (
                                self.address_to_id@[i].1,
                                self.address_to_id@[i].0,
                            ));
                            assert(self.address_to_id@[i].1.0 == old(self).id);
                        }
                    }
                    lemma_map_of_push(self.address_to_id@, (addr, id));
                    lemma_map_of_push(self.sender_to_address@, (id, addr));
                }
                self.address_to_id.push((addr, id));
                self.sender_to_address.push((id, addr));
                id
            },
        }
    }

    /// Hands out the next id and advances the counter.
    fn next_id(&mut self) -> (r: SenderId)
        requires
            old(self).id < u64::MAX,
        ensures
            r == SenderId(old(self).id),
            final(self).id == old(self).id + 1,
            final(self).address_to_id == old(self).address_to_id,
            final(self).sender_to_address == old(self).sender_to_address,
    {
        let id = self.id;
        self.id = self.id + 1;
        SenderId(id)
    }
}

impl Default for SenderIdentifiers {
    fn default() -> (r: SenderIdentifiers)
        ensures
            r.wf(),
            r.addr_map() == Map::<Address, SenderId>::empty(),
            r.id_map() == Map::<SenderId, Address>::empty(),
            r.id == 0,
    {
        SenderIdentifiers { id: 0, address_to_id: Vec::new(), sender_to_address: Vec::new() }
    }
}

} // verus!
