//! The flow records of a virtual interface: for each live virtual port, the
//! queue of what is still to be sent on its virtual socket.
use vstd::prelude::*;

use crate::events::VirtualPort;

verus! {

/// One live flow: its virtual port and its pending sends, oldest first.
pub struct Flow<T> {
    port: VirtualPort,
    queue: std::collections::VecDeque<T>,
}

/// At most one live record per virtual port: in a well-formed table, two
/// records with the same virtual port are the same record.
pub proof fn lemma_one_record_per_port<T>(t: &FlowTable<T>, i: int, j: int)
    requires
        t.wf(),
        0 <= i < t.ports().len(),
        0 <= j < t.ports().len(),
        t.ports()[i] == t.ports()[j],
    ensures
        i == j,
{
}

/// The live flows of an interface, at most one per virtual port.
pub struct FlowTable<T> {
    flows: Vec<Flow<T>>,
}

impl<T> FlowTable<T> {
    /// The virtual ports of the records, in the order they are kept.
    pub closed spec fn ports(&self) -> Seq<VirtualPort> {
        self.flows@.map_values(|f: Flow<T>| f.port)
    }

    /// No virtual port has two records.
    pub open spec fn wf(&self) -> bool {
        self.ports().no_duplicates()
    }

    closed spec fn index_of(&self, p: VirtualPort) -> int {
        choose|i: int| 0 <= i < self.flows@.len() && self.flows@[i].port == p
    }

    /// Each live virtual port and its pending sends.
    pub closed spec fn view(&self) -> Map<VirtualPort, Seq<T>> {
        Map::new(
            |p: VirtualPort| self.ports().contains(p),
            |p: VirtualPort| self.flows@[self.index_of(p)].queue@,
        )
    }

    proof fn lemma_at(&self, i: int)
        requires
            self.wf(),
            0 <= i < self.flows@.len(),
        ensures
            self.view().contains_key(self.flows@[i].port),
            self.view()[self.flows@[i].port] == self.flows@[i].queue@,
    {
        let p = self.flows@[i].port;
        assert(self.ports()[i] == p);
        let j = self.index_of(p);
        assert(self.ports()[j] == p);
    }

    proof fn lemma_absent(&self, p: VirtualPort)
        requires
            forall|i: int| 0 <= i < self.flows@.len() ==> self.flows@[i].port != p,
        ensures
            !self.view().contains_key(p),
    {
        if self.ports().contains(p) {
            let i = choose|i: int| 0 <= i < self.ports().len() && self.ports()[i] == p;
            assert(self.flows@[i].port == p);
        }
    }

    /// A table with no flow.
    pub fn new() -> (r: Self)
        ensures
            r.wf(),
            r.view() == Map::<VirtualPort, Seq<T>>::empty(),
    {
        let r = FlowTable { flows: Vec::new() };
        assert(r.ports() =~= Seq::<VirtualPort>::empty());
        assert(r.view() =~= Map::<VirtualPort, Seq<T>>::empty());
        r
    }

    /// The number of live flows.
    pub fn len(&self) -> (r: usize)
        requires
            self.wf(),
        ensures
            r == self.view().len(),
    {
        proof {
            self.lemma_dom_len();
        }
        self.flows.len()
    }

    proof fn lemma_dom_len(&self)
        requires
            self.wf(),
        ensures
            self.view().dom().finite(),
            self.view().len() == self.flows@.len(),
    {
        self.ports().unique_seq_to_set();
        assert(self.view().dom() =~= self.ports().to_set());
    }

    fn find(&self, p: VirtualPort) -> (r: Option<usize>)
        requires
            self.wf(),
        ensures
            match r {
                Some(i) => i < self.flows@.len() && self.flows@[i as int].port == p,
                None => !self.view().contains_key(p),
            },
    {
        let mut i: usize = 0;
        while i < self.flows.len()
            invariant
                0 <= i <= self.flows@.len(),
                forall|j: int| 0 <= j < i ==> self.flows@[j].port != p,
            decreases self.flows@.len() - i,
        {
            if self.flows[i].port == p {
                return Some(i);
            }
            i = i + 1;
        }
        proof {
            self.lemma_absent(p);
        }
        None
    }

    /// Whether `p` has a live flow.
    pub fn contains(&self, p: VirtualPort) -> (r: bool)
        requires
            self.wf(),
        ensures
            r == self.view().contains_key(p),
    {
        match self.find(p) {
            Some(i) => {
                proof {
                    self.lemma_at(i as int);
                }
                true
            },
            None => false,
        }
    }

    /// The live virtual ports, each once.
    pub fn live_ports(&self) -> (r: Vec<VirtualPort>)
        requires
            self.wf(),
        ensures
            r@.no_duplicates(),
            r@.to_set() == self.view().dom(),
    {
        let mut r: Vec<VirtualPort> = Vec::new();
        let mut i: usize = 0;
        while i < self.flows.len()
            invariant
                0 <= i <= self.flows@.len(),
                r@ == self.ports().subrange(0, i as int),
            decreases self.flows@.len() - i,
        {
            r.push(self.flows[i].port);
            assert(r@ =~= self.ports().subrange(0, i + 1));
            i = i + 1;
        }
        assert(r@ =~= self.ports());
        assert(r@.to_set() =~= self.view().dom());
        r
    }

    proof fn lemma_replaced(old_t: &Self, new_t: &Self, i: int)
        requires
            old_t.wf(),
            0 <= i < old_t.flows@.len(),
            new_t.flows@.len() == old_t.flows@.len(),
            new_t.flows@[i].port == old_t.flows@[i].port,
            forall|j: int| 0 <= j < old_t.flows@.len() && j != i ==> new_t.flows@[j]
                == old_t.flows@[j],
        ensures
            new_t.wf(),
            new_t.view() == old_t.view().insert(old_t.flows@[i].port, new_t.flows@[i].queue@),
    {
        assert(new_t.ports() =~= old_t.ports());
        let p = old_t.flows@[i].port;
        new_t.lemma_at(i);
        assert forall|q: VirtualPort| #[trigger]
            new_t.view().contains_key(q) == old_t.view().insert(p, new_t.flows@[i].queue@).contains_key(
                q,
            ) by {}
        assert forall|q: VirtualPort| #[trigger] new_t.view().contains_key(q) && q != p implies new_t.view()[q]
            == old_t.view()[q] by {
            let j = choose|j: int| 0 <= j < new_t.ports().len() && new_t.ports()[j] == q;
            new_t.lemma_at(j);
            old_t.lemma_at(j);
        }
        assert(new_t.view() =~= old_t.view().insert(p, new_t.flows@[i].queue@));
    }

    /// Gives `p` a flow with no pending send, in place of any it had.
    pub fn open_flow(&mut self, p: VirtualPort)
        requires
            old(self).wf(),
        ensures
            final(self).wf(),
            final(self).view() == old(self).view().insert(p, Seq::empty()),
    {
        match self.find(p) {
            Some(i) => {
                let ghost before = *self;
                self.flows[i].queue = std::collections::VecDeque::new();
                proof {
                    Self::lemma_replaced(&before, self, i as int);
                }
            },
            None => {
                let ghost before = *self;
                self.flows.push(Flow { port: p, queue: std::collections::VecDeque::new() });
                proof {
                    let n = before.flows@.len() as int;
                    assert(self.ports() =~= before.ports().push(p));
                    assert(!before.ports().contains(p));
                    self.lemma_at(n);
                    assert forall|q: VirtualPort| #[trigger]
                        self.view().contains_key(q) == before.view().insert(p, Seq::empty()).contains_key(q) by {
                        if before.ports().contains(q) {
                            let j = choose|j: int| 0 <= j < before.ports().len() && before.ports()[j] == q;
                            assert(self.ports()[j] == q);
                        }
                    }
                    assert forall|q: VirtualPort| #[trigger]
                        self.view().contains_key(q) && q != p implies self.view()[q]
                        == before.view()[q] by {
                        let j = choose|j: int| 0 <= j < self.ports().len() && self.ports()[j] == q;
                        self.lemma_at(j);
                        before.lemma_at(j);
                    }
                    assert(self.view() =~= before.view().insert(p, Seq::empty()));
                }
            },
        }
    }

    /// Removes the flow of `p`, if any.
    pub fn close_flow(&mut self, p: VirtualPort)
        requires
            old(self).wf(),
        ensures
            final(self).wf(),
            final(self).view() == old(self).view().remove(p),
    {
        match self.find(p) {
            Some(i) => {
                let ghost before = *self;
                self.flows.remove(i);
                proof {
                    assert(self.ports() =~= before.ports().remove(i as int));
                    assert forall|a: int, b: int|
                        0 <= a < b < self.ports().len() implies self.ports()[a]
                        != self.ports()[b] by {
                        let a2 = if a < i { a } else { a + 1 };
                        let b2 = if b < i { b } else { b + 1 };
                        assert(self.ports()[a] == before.ports()[a2]);
                        assert(self.ports()[b] == before.ports()[b2]);
                    }
                    assert forall|q: VirtualPort|
                        #[trigger] self.view().contains_key(q) == before.view().remove(p).contains_key(q) by {
                        if self.ports().contains(q) {
                            let j = choose|j: int| 0 <= j < self.ports().len() && self.ports()[j] == q;
                            let j2 = if j < i { j } else { j + 1 };
                            assert(before.ports()[j2] == q);
                            assert(before.ports()[i as int] == p);
                        }
                        if before.ports().contains(q) && q != p {
                            let j = choose|j: int| 0 <= j < before.ports().len() && before.ports()[j] == q;
                            let j2 = if j < i { j } else { j - 1 };
                            assert(self.ports()[j2] == q);
                        }
                    }
                    assert forall|q: VirtualPort| #[trigger]
                        self.view().contains_key(q) implies self.view()[q] == before.view()[q] by {
                        let j = choose|j: int| 0 <= j < self.ports().len() && self.ports()[j] == q;
                        let j2 = if j < i { j } else { j + 1 };
                        self.lemma_at(j);
                        before.lemma_at(j2);
                    }
                    assert(self.view() =~= before.view().remove(p));
                }
            },
            None => {
                assert(self.view() =~= self.view().remove(p));
            },
        }
    }

    /// Appends `item` to the pending sends of `p`; returns whether `p` has a
    /// flow (without one, nothing changes).
    pub fn push_back(&mut self, p: VirtualPort, item: T) -> (r: bool)
        requires
            old(self).wf(),
        ensures
            final(self).wf(),
            r == old(self).view().contains_key(p),
            r ==> final(self).view() == old(self).view().insert(p, old(self).view()[p].push(item)),
            !r ==> final(self).view() == old(self).view(),
    {
        match self.find(p) {
            Some(i) => {
                let ghost before = *self;
                proof {
                    before.lemma_at(i as int);
                }
                self.flows[i].queue.push_back(item);
                proof {
                    Self::lemma_replaced(&before, self, i as int);
                }
                true
            },
            None => false,
        }
    }

    /// Puts `item` before the pending sends of `p`; returns whether `p` has
    /// a flow (without one, nothing changes).
    pub fn push_front(&mut self, p: VirtualPort, item: T) -> (r: bool)
        requires
            old(self).wf(),
        ensures
            final(self).wf(),
            r == old(self).view().contains_key(p),
            r ==> final(self).view() == old(self).view().insert(p, seq![item] + old(self).view()[p]),
            !r ==> final(self).view() == old(self).view(),
    {
        match self.find(p) {
            Some(i) => {
                let ghost before = *self;
                proof {
                    before.lemma_at(i as int);
                }
                self.flows[i].queue.push_front(item);
                proof {
                    Self::lemma_replaced(&before, self, i as int);
                }
                true
            },
            None => false,
        }
    }

    /// Takes the oldest pending send of `p`, if `p` has a flow and a send
    /// is pending.
    pub fn pop_front(&mut self, p: VirtualPort) -> (r: Option<T>)
        requires
            old(self).wf(),
        ensures
            final(self).wf(),
            match r {
                Some(x) => {
                    &&& old(self).view().contains_key(p)
                    &&& old(self).view()[p].len() > 0
                    &&& x == old(self).view()[p][0]
                    &&& final(self).view() == old(self).view().insert(p, old(self).view()[p].drop_first())
                },
                None => {
                    &&& (old(self).view().contains_key(p) ==> old(self).view()[p].len() == 0)
                    &&& final(self).view() == old(self).view()
                },
            },
    {
        match self.find(p) {
            Some(i) => {
                let ghost before = *self;
                proof {
                    before.lemma_at(i as int);
                }
                let r = self.flows[i].queue.pop_front();
                proof {
                    Self::lemma_replaced(&before, self, i as int);
                    assert(before.view()[p].drop_first() =~= before.view()[p].subrange(1, before.view()[p].len() as int));
                    if r.is_none() {
                        assert(before.view().insert(p, before.view()[p]) =~= before.view());
                    }
                }
                r
            },
            None => None,
        }
    }
}

} // verus!
