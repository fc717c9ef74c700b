//! Port pools: which virtual port numbers are taken, and by which local
//! endpoint.
use vstd::prelude::*;

use crate::config::{PortProtocol, SocketAddress};
use crate::events::VirtualPort;

verus! {

/// The least number that a pool hands out.
pub const EPHEMERAL_MIN: u16 = 32768;

/// How long, in milliseconds, a UDP port may carry no traffic before it is
/// released.
pub const UDP_IDLE_TIMEOUT_MS: u64 = 60000;

/// Why an allocation failed.
#[derive(Clone, Copy, Debug, PartialEq, Eq, Structural)]
pub enum PoolError {
    /// None of the offered numbers was free.
    NoFreePorts,
}

struct PoolEntry {
    num: u16,
    origin: SocketAddress,
    last_used: u64,
}

/// The allocated virtual ports of one protocol, each with the local endpoint
/// whose flow it carries.
pub struct PortPool {
    protocol: PortProtocol,
    entries: Vec<PoolEntry>,
}

/// `num` may be handed out by a pool whose allocations are `taken`.
pub open spec fn usable(taken: Map<u16, SocketAddress>, num: u16) -> bool {
    num >= EPHEMERAL_MIN && !taken.contains_key(num)
}

/// Index of the first of `candidates` that may be handed out.
pub open spec fn first_usable(taken: Map<u16, SocketAddress>, candidates: Seq<u16>, k: int) -> bool {
    &&& 0 <= k < candidates.len()
    &&& usable(taken, candidates[k])
    &&& forall|j: int| 0 <= j < k ==> !usable(taken, #[trigger] candidates[j])
}

impl View for PortPool {
    type V = Map<u16, SocketAddress>;

    closed spec fn view(&self) -> Map<u16, SocketAddress> {
        Map::new(
            |n: u16| self.nums().contains(n),
            |n: u16| self.entries@[self.index_of(n)].origin,
        )
    }
}

impl PortPool {
    /// When each allocated port last carried traffic, in milliseconds.
    pub closed spec fn last_use(&self) -> Map<u16, u64> {
        Map::new(
            |n: u16| self.nums().contains(n),
            |n: u16| self.entries@[self.index_of(n)].last_used,
        )
    }

    closed spec fn nums(&self) -> Seq<u16> {
        self.entries@.map_values(|e: PoolEntry| e.num)
    }

    closed spec fn index_of(&self, n: u16) -> int {
        choose|i: int| 0 <= i < self.entries@.len() && self.entries@[i].num == n
    }

    /// Each number is allocated at most once, and only from the ephemeral
    /// range.
    pub closed spec fn wf(&self) -> bool {
        &&& self.nums().no_duplicates()
        &&& forall|i: int| 0 <= i < self.entries@.len() ==> self.entries@[i].num >= EPHEMERAL_MIN
    }

    /// The protocol of the ports this pool hands out.
    pub closed spec fn spec_protocol(&self) -> PortProtocol {
        self.protocol
    }

    proof fn lemma_at(&self, i: int)
        requires
            self.wf(),
            0 <= i < self.entries@.len(),
        ensures
            self@.contains_key(self.entries@[i].num),
            self@[self.entries@[i].num] == self.entries@[i].origin,
            self.last_use().contains_key(self.entries@[i].num),
            self.last_use()[self.entries@[i].num] == self.entries@[i].last_used,
    {
        let n = self.entries@[i].num;
        assert(self.nums()[i] == n);
        let j = self.index_of(n);
        assert(self.nums()[j] == n);
    }

    /// An empty pool for `protocol`.
    pub fn new(protocol: PortProtocol) -> (r: Self)
        ensures
            r.wf(),
            r.spec_protocol() == protocol,
            r@ == Map::<u16, SocketAddress>::empty(),
            r.last_use() == Map::<u16, u64>::empty(),
    {
        let r = PortPool { protocol, entries: Vec::new() };
        assert(r.nums() =~= Seq::<u16>::empty());
        assert(r@ =~= Map::<u16, SocketAddress>::empty());
        assert(r.last_use() =~= Map::<u16, u64>::empty());
        r
    }

    /// The protocol of the ports this pool hands out.
    pub fn protocol(&self) -> (r: PortProtocol)
        ensures
            r == self.spec_protocol(),
    {
        self.protocol
    }

    fn find(&self, n: u16) -> (r: Option<usize>)
        requires
            self.wf(),
        ensures
            match r {
                Some(i) => i < self.entries@.len() && self.entries@[i as int].num == n,
                None => !self@.contains_key(n),
            },
    {
        let mut i: usize = 0;
        while i < self.entries.len()
            invariant
                0 <= i <= self.entries@.len(),
                forall|j: int| 0 <= j < i ==> self.entries@[j].num != n,
            decreases self.entries@.len() - i,
        {
            if self.entries[i].num == n {
                return Some(i);
            }
            i = i + 1;
        }
        proof {
            if self.nums().contains(n) {
                let k = choose|k: int| 0 <= k < self.nums().len() && self.nums()[k] == n;
                assert(self.entries@[k].num == n);
            }
        }
        None
    }

    /// Whether `num` is allocated.
    pub fn is_allocated(&self, num: u16) -> (r: bool)
        requires
            self.wf(),
        ensures
            r == self@.contains_key(num),
    {
        match self.find(num) {
            Some(i) => {
                proof {
                    self.lemma_at(i as int);
                }
                true
            },
            None => false,
        }
    }

    /// The local endpoint whose flow `num` carries, if it is allocated.
    pub fn origin_of(&self, num: u16) -> (r: Option<SocketAddress>)
        requires
            self.wf(),
        ensures
            r == if self@.contains_key(num) {
                Some(self@[num])
            } else {
                None
            },
    {
        match self.find(num) {
            Some(i) => {
                proof {
                    self.lemma_at(i as int);
                }
                Some(self.entries[i].origin)
            },
            None => None,
        }
    }

    /// A port allocated to `origin`, if there is one.
    pub fn port_of(&self, origin: SocketAddress) -> (r: Option<VirtualPort>)
        requires
            self.wf(),
        ensures
            match r {
                Some(v) => {
                    &&& v.protocol == self.spec_protocol()
                    &&& self@.contains_key(v.num)
                    &&& self@[v.num] == origin
                },
                None => forall|n: u16| #[trigger] self@.contains_key(n) ==> self@[n] != origin,
            },
    {
        let mut i: usize = 0;
        while i < self.entries.len()
            invariant
                0 <= i <= self.entries@.len(),
                self.wf(),
                forall|j: int| 0 <= j < i ==> self.entries@[j].origin != origin,
            decreases self.entries@.len() - i,
        {
            if self.entries[i].origin == origin {
                proof {
                    self.lemma_at(i as int);
                }
                return Some(VirtualPort::new(self.entries[i].num, self.protocol));
            }
            i = i + 1;
        }
        assert forall|n: u16| #[trigger] self@.contains_key(n) implies self@[n] != origin by {
            let k = choose|k: int| 0 <= k < self.nums().len() && self.nums()[k] == n;
            assert(self.entries@[k].num == n);
            self.lemma_at(k);
        }
        None
    }

    /// The number of allocated ports.
    pub fn len(&self) -> (r: usize)
        requires
            self.wf(),
        ensures
            r == self@.len(),
    {
        proof {
            self.nums().unique_seq_to_set();
            assert(self@.dom() =~= self.nums().to_set());
        }
        self.entries.len()
    }

    /// Allocates to `origin` the first of `candidates` (numbers drawn at
    /// random by the caller; their count bounds the retries) that is in the
    /// ephemeral range and free, as used at `now`. Fails with `NoFreePorts`
    /// when none is.
    pub fn allocate(&mut self, candidates: &Vec<u16>, origin: SocketAddress, now: u64) -> (r: Result<
        VirtualPort,
        PoolError,
    >)
        requires
            old(self).wf(),
        ensures
            final(self).wf(),
            final(self).spec_protocol() == old(self).spec_protocol(),
            match r {
                Ok(v) => {
                    &&& v.protocol == old(self).spec_protocol()
                    &&& exists|k: int|
                        first_usable(old(self)@, candidates@, k) && candidates@[k] == v.num
                    &&& final(self)@ == old(self)@.insert(v.num, origin)
                    &&& final(self).last_use() == old(self).last_use().insert(v.num, now)
                },
                Err(e) => {
                    &&& e == PoolError::NoFreePorts
                    &&& forall|k: int|
                        0 <= k < candidates@.len() ==> !usable(old(self)@, #[trigger] candidates@[k])
                    &&& final(self)@ == old(self)@
                    &&& final(self).last_use() == old(self).last_use()
                },
            },
    {
        let mut k: usize = 0;
        while k < candidates.len()
            invariant
                0 <= k <= candidates@.len(),
                *self == *old(self),
                self.wf(),
                forall|j: int| 0 <= j < k ==> !usable(self@, #[trigger] candidates@[j]),
            decreases candidates@.len() - k,
        {
            let n = candidates[k];
            if n >= EPHEMERAL_MIN && !self.is_allocated(n) {
                let ghost before = *self;
                self.entries.push(PoolEntry { num: n, origin, last_used: now });
                proof {
                    assert(first_usable(before@, candidates@, k as int));
                    let len = before.entries@.len() as int;
                    assert(self.nums() =~= before.nums().push(n));
                    assert(!before.nums().contains(n));
                    self.lemma_at(len);
                    assert forall|q: u16| #[trigger]
                        self@.contains_key(q) == before@.insert(n, origin).contains_key(q) by {
                        if before.nums().contains(q) {
                            let j = choose|j: int| 0 <= j < before.nums().len() && before.nums()[j] == q;
                            assert(self.nums()[j] == q);
                        }
                    }
                    assert forall|q: u16| #[trigger]
                        self@.contains_key(q) && q != n implies self@[q] == before@[q]
                        && self.last_use()[q] == before.last_use()[q] by {
                        let j = choose|j: int| 0 <= j < self.nums().len() && self.nums()[j] == q;
                        self.lemma_at(j);
                        before.lemma_at(j);
                    }
                    assert(self@ =~= before@.insert(n, origin));
                    assert(self.last_use() =~= before.last_use().insert(n, now));
                }
                return Ok(VirtualPort::new(n, self.protocol));
            }
            k = k + 1;
        }
        Err(PoolError::NoFreePorts)
    }

    /// Records traffic on `num` at `now`; nothing changes if it is free.
    pub fn touch(&mut self, num: u16, now: u64)
        requires
            old(self).wf(),
        ensures
            final(self).wf(),
            final(self).spec_protocol() == old(self).spec_protocol(),
            final(self)@ == old(self)@,
            final(self).last_use() == if old(self)@.contains_key(num) {
                old(self).last_use().insert(num, now)
            } else {
                old(self).last_use()
            },
    {
        match self.find(num) {
            Some(i) => {
                let ghost before = *self;
                self.entries[i].last_used = now;
                proof {
                    before.lemma_at(i as int);
                    assert(self.nums() =~= before.nums());
                    self.lemma_at(i as int);
                    assert forall|q: u16| #[trigger] self@.contains_key(q) implies self@[q]
                        == before@[q] && (q != num ==> self.last_use()[q] == before.last_use()[q]) by {
                        let j = choose|j: int| 0 <= j < self.nums().len() && self.nums()[j] == q;
                        self.lemma_at(j);
                        before.lemma_at(j);
                    }
                    assert(self@ =~= before@);
                    assert(self.last_use() =~= before.last_use().insert(num, now));
                }
            },
            None => {},
        }
    }

    /// The allocated numbers that have carried no traffic for `idle`
    /// milliseconds or more at `now`, each once.
    pub fn idle_ports(&self, now: u64, idle: u64) -> (r: Vec<u16>)
        requires
            self.wf(),
        ensures
            r@.no_duplicates(),
            forall|n: u16|
                r@.contains(n) <==> (self@.contains_key(n) && self.last_use()[n] + idle <= now),
    {
        let mut r: Vec<u16> = Vec::new();
        let mut i: usize = 0;
        while i < self.entries.len()
            invariant
                0 <= i <= self.entries@.len(),
                self.wf(),
                r@.no_duplicates(),
                forall|n: u16|
                    r@.contains(n) <==> exists|j: int|
                        0 <= j < i && #[trigger] self.entries@[j].num == n
                            && self.entries@[j].last_used + idle <= now,
            decreases self.entries@.len() - i,
        {
            let e = &self.entries[i];
            let expired = now >= e.last_used && now - e.last_used >= idle;
            let ghost r0 = r@;
            if expired {
                proof {
                    if r0.contains(e.num) {
                        let j = choose|j: int|
                            0 <= j < i && #[trigger] self.entries@[j].num == e.num
                                && self.entries@[j].last_used + idle <= now;
                        assert(self.nums()[j] == self.nums()[i as int]);
                    }
                }
                r.push(e.num);
            }
            assert forall|n: u16|
                r@.contains(n) <==> exists|j: int|
                    0 <= j < i + 1 && #[trigger] self.entries@[j].num == n
                        && self.entries@[j].last_used + idle <= now by {
                if r@.contains(n) && !r0.contains(n) {
                    assert(r@[r0.len() as int] == n || r0.contains(n));
                    if r@[r0.len() as int] != n {
                        let k = choose|k: int| 0 <= k < r@.len() && r@[k] == n;
                        assert(r0[k] == n);
                    }
                }
                if r0.contains(n) {
                    let k = choose|k: int| 0 <= k < r0.len() && r0[k] == n;
                    assert(r@[k] == n);
                }
                if exists|j: int|
                    0 <= j < i + 1 && #[trigger] self.entries@[j].num == n
                        && self.entries@[j].last_used + idle <= now {
                    let j = choose|j: int|
                        0 <= j < i + 1 && #[trigger] self.entries@[j].num == n
                            && self.entries@[j].last_used + idle <= now;
                    if j == i {
                        assert(r@[r0.len() as int] == n);
                    } else {
                        assert(r0.contains(n));
                    }
                }
            }
            i = i + 1;
        }
        assert forall|n: u16|
            r@.contains(n) <==> (self@.contains_key(n) && self.last_use()[n] + idle <= now) by {
            if r@.contains(n) {
                let j = choose|j: int|
                    0 <= j < i && #[trigger] self.entries@[j].num == n
                        && self.entries@[j].last_used + idle <= now;
                self.lemma_at(j);
            }
            if self@.contains_key(n) && self.last_use()[n] + idle <= now {
                let j = choose|j: int| 0 <= j < self.nums().len() && self.nums()[j] == n;
                self.lemma_at(j);
                assert(self.entries@[j].num == n);
            }
        }
        r
    }

    /// Frees `num`; nothing changes if it was free.
    pub fn release(&mut self, num: u16)
        requires
            old(self).wf(),
        ensures
            final(self).wf(),
            final(self).spec_protocol() == old(self).spec_protocol(),
            final(self)@ == old(self)@.remove(num),
            final(self).last_use() == old(self).last_use().remove(num),
    {
        match self.find(num) {
            Some(i) => {
                let ghost before = *self;
                self.entries.remove(i);
                proof {
                    assert(self.nums() =~= before.nums().remove(i as int));
                    assert forall|a: int, b: int|
                        0 <= a < b < self.nums().len() implies self.nums()[a] != self.nums()[b] by {
                        let a2 = if a < i { a } else { a + 1 };
                        let b2 = if b < i { b } else { b + 1 };
                        assert(self.nums()[a] == before.nums()[a2]);
                        assert(self.nums()[b] == before.nums()[b2]);
                    }
                    assert forall|j: int| 0 <= j < self.entries@.len() implies self.entries@[j].num
                        >= EPHEMERAL_MIN by {
                        let j2 = if j < i { j } else { j + 1 };
                        assert(self.entries@[j] == before.entries@[j2]);
                    }
                    assert forall|q: u16| #[trigger]
                        self@.contains_key(q) == before@.remove(num).contains_key(q) by {
                        if self.nums().contains(q) {
                            let j = choose|j: int| 0 <= j < self.nums().len() && self.nums()[j] == q;
                            let j2 = if j < i { j } else { j + 1 };
                            assert(before.nums()[j2] == q);
                            assert(before.nums()[i as int] == num);
                        }
                        if before.nums().contains(q) && q != num {
                            let j = choose|j: int| 0 <= j < before.nums().len() && before.nums()[j] == q;
                            let j2 = if j < i { j } else { j - 1 };
                            assert(self.nums()[j2] == q);
                        }
                    }
                    assert forall|q: u16| #[trigger]
                        self@.contains_key(q) implies self@[q] == before@[q]
                        && self.last_use()[q] == before.last_use()[q] by {
                        let j = choose|j: int| 0 <= j < self.nums().len() && self.nums()[j] == q;
                        let j2 = if j < i { j } else { j + 1 };
                        self.lemma_at(j);
                        before.lemma_at(j2);
                    }
                    assert(self@ =~= before@.remove(num));
                    assert(self.last_use() =~= before.last_use().remove(num));
                }
            },
            None => {
                assert(self@ =~= self@.remove(num));
                assert(self.last_use() =~= self.last_use().remove(num));
            },
        }
    }
}

} // verus!
