use vstd::prelude::*;

use std::collections::HashMap;

use crate::queue::NetworkQueue;
use crate::types::{QDesc, SocketAddrV4};

verus! {

broadcast use vstd::std_specs::hash::group_hash_axioms;

/// The key under which an endpoint is indexed: address and port side by side.
pub open spec fn endpoint_key(a: SocketAddrV4) -> u64 {
    (a.ip as int * 65536 + a.port as int) as u64
}

/// Two endpoints share a key only if they are the same endpoint.
pub proof fn lemma_endpoint_key_injective(a: SocketAddrV4, b: SocketAddrV4)
    ensures
        endpoint_key(a) == endpoint_key(b) ==> a == b,
{
    let ka = a.ip as int * 65536 + a.port as int;
    let kb = b.ip as int * 65536 + b.port as int;
    assert(0 <= ka < 0x1_0000_0000_0000) by (nonlinear_arith)
        requires
            ka == a.ip as int * 65536 + a.port as int,
            0 <= a.ip < 0x1_0000_0000,
            0 <= a.port < 65536,
    ;
    assert(0 <= kb < 0x1_0000_0000_0000) by (nonlinear_arith)
        requires
            kb == b.ip as int * 65536 + b.port as int,
            0 <= b.ip < 0x1_0000_0000,
            0 <= b.port < 65536,
    ;
    if ka == kb {
        assert(a.ip == b.ip && a.port == b.port) by (nonlinear_arith)
            requires
                a.ip as int * 65536 + a.port as int == b.ip as int * 65536 + b.port as int,
                0 <= a.port < 65536,
                0 <= b.port < 65536,
        ;
    }
}

fn key_of(a: SocketAddrV4) -> (r: u64)
    ensures
        r == endpoint_key(a),
{
    (a.ip as u64) * 65536 + (a.port as u64)
}

/// The queues held in `s`, in the order of their slots.
pub open spec fn live_queues(s: Seq<Option<NetworkQueue>>) -> Seq<NetworkQueue>
    decreases s.len(),
{
    if s.len() == 0 {
        Seq::empty()
    } else {
        let rest = live_queues(s.drop_last());
        match s.last() {
            Some(q) => rest.push(q),
            None => rest,
        }
    }
}

/// The queue table: descriptors to queues, and the index from bound local
/// endpoints to the descriptors that hold them.
pub struct QueueTable {
    slots: Vec<Option<NetworkQueue>>,
    ids: HashMap<u64, QDesc>,
}

impl QueueTable {
    /// The slots of the table, one per descriptor ever handed out.
    pub closed spec fn slots(&self) -> Seq<Option<NetworkQueue>> {
        self.slots@
    }

    /// The socket-identity index, keyed by `endpoint_key`.
    pub closed spec fn ids(&self) -> Map<u64, QDesc> {
        self.ids@
    }

    /// Whether `qd` names a queue in the table.
    pub open spec fn live(&self, qd: QDesc) -> bool {
        (qd.0 as int) < self.slots().len() && self.slots()[qd.0 as int] is Some
    }

    /// The queue that a live descriptor names.
    pub open spec fn queue(&self, qd: QDesc) -> NetworkQueue {
        self.slots()[qd.0 as int]->Some_0
    }

    /// Whether some queue is bound to the local endpoint `a`.
    pub open spec fn in_use(&self, a: SocketAddrV4) -> bool {
        self.ids().contains_key(endpoint_key(a))
    }

    /// The descriptor bound to `a`, where `in_use(a)`.
    pub open spec fn owner(&self, a: SocketAddrV4) -> QDesc {
        self.ids()[endpoint_key(a)]
    }

    /// The table and the index agree: each index entry names a live queue
    /// bound to that endpoint, and each bound live queue is indexed.
    pub open spec fn wf(&self) -> bool {
        &&& self.slots().len() <= u32::MAX
        &&& forall|k: u64| #[trigger]
            self.ids().contains_key(k) ==> {
                let qd = self.ids()[k];
                self.live(qd) && self.queue(qd).local is Some && endpoint_key(
                    self.queue(qd).local->Some_0,
                ) == k
            }
        &&& forall|qd: QDesc| #[trigger]
            self.live(qd) && self.queue(qd).local is Some ==> self.in_use(
                self.queue(qd).local->Some_0,
            ) && self.owner(self.queue(qd).local->Some_0) == qd
    }

    /// An empty table.
    pub fn new() -> (r: QueueTable)
        ensures
            r.wf(),
            r.slots() == Seq::<Option<NetworkQueue>>::empty(),
            r.ids() == Map::<u64, QDesc>::empty(),
    {
        QueueTable { slots: Vec::new(), ids: HashMap::new() }
    }

    /// The queue that `qd` names, if it is live.
    pub fn get(&self, qd: QDesc) -> (r: Option<NetworkQueue>)
        ensures
            r == (if self.live(qd) {
                Some(self.queue(qd))
            } else {
                None
            }),
    {
        if (qd.0 as usize) < self.slots.len() {
            self.slots[qd.0 as usize]
        } else {
            None
        }
    }

    /// Whether a queue is bound to the local endpoint `a`.
    pub fn addr_in_use(&self, a: SocketAddrV4) -> (r: bool)
        ensures
            r == self.in_use(a),
    {
        self.ids.contains_key(&key_of(a))
    }

    /// Stores an unbound queue under the smallest free descriptor. Gives
    /// `None`, and leaves the table as it was, where every descriptor is
    /// taken.
    pub fn alloc_queue(&mut self, q: NetworkQueue) -> (r: Option<QDesc>)
        requires
            old(self).wf(),
            q.local is None,
        ensures
            final(self).wf(),
            final(self).ids() == old(self).ids(),
            match r {
                Some(qd) => {
                    &&& !old(self).live(qd)
                    &&& forall|j: u32| j < qd.0 ==> old(self).live(QDesc(j))
                    &&& final(self).live(qd)
                    &&& final(self).queue(qd) == q
                    &&& final(self).slots() == (if (qd.0 as int) < old(self).slots().len() {
                        old(self).slots().update(qd.0 as int, Some(q))
                    } else {
                        old(self).slots().push(Some(q))
                    })
                },
                None => {
                    &&& *final(self) == *old(self)
                    &&& old(self).slots().len() == u32::MAX
                    &&& forall|j: u32| (j as int) < old(self).slots().len() ==> old(self).live(
                        QDesc(j),
                    )
                },
            },
    {
        let mut i: usize = 0;
        while i < self.slots.len()
            invariant
                *self == *old(self),
                self.wf(),
                q.local is None,
                i <= self.slots@.len(),
                forall|j: int| 0 <= j < i ==> self.slots@[j] is Some,
            decreases self.slots@.len() - i,
        {
            if self.slots[i].is_none() {
                self.slots.set(i, Some(q));
                proof {
                    assert forall|j: u32| j < i as u32 implies old(self).live(QDesc(j)) by {
                        assert(old(self).slots@[j as int] is Some);
                    }
                    assert forall|qd: QDesc| #[trigger]
                        self.live(qd) && self.queue(qd).local is Some implies self.in_use(
                            self.queue(qd).local->Some_0,
                        ) && self.owner(self.queue(qd).local->Some_0) == qd by {
                        assert(self.slots@[i as int] == Some(q));
                        if qd.0 == i as u32 {
                            assert(self.queue(qd) == q);
                        }
                        assert(old(self).live(qd));
                    }
                }
                return Some(QDesc(i as u32));
            }
            i = i + 1;
        }
        if self.slots.len() < u32::MAX as usize {
            let qd = QDesc(self.slots.len() as u32);
            self.slots.push(Some(q));
            proof {
                assert forall|j: u32| j < qd.0 implies old(self).live(QDesc(j)) by {
                    assert(old(self).slots@[j as int] is Some);
                }
                assert forall|qd2: QDesc| #[trigger]
                    self.live(qd2) && self.queue(qd2).local is Some implies self.in_use(
                        self.queue(qd2).local->Some_0,
                    ) && self.owner(self.queue(qd2).local->Some_0) == qd2 by {
                    assert(old(self).live(qd2));
                }
            }
            Some(qd)
        } else {
            proof {
                assert forall|j: u32| (j as int) < old(self).slots().len() implies old(
                    self,
                ).live(QDesc(j)) by {
                    assert(old(self).slots@[j as int] is Some);
                }
            }
            None
        }
    }

    /// Replaces the live queue `qd` by `q`, which keeps its local endpoint.
    pub fn set_queue(&mut self, qd: QDesc, q: NetworkQueue)
        requires
            old(self).wf(),
            old(self).live(qd),
            q.local == old(self).queue(qd).local,
        ensures
            final(self).wf(),
            final(self).slots() == old(self).slots().update(qd.0 as int, Some(q)),
            final(self).ids() == old(self).ids(),
    {
        self.slots.set(qd.0 as usize, Some(q));
        proof {
            assert forall|d: QDesc| #[trigger]
                self.live(d) && self.queue(d).local is Some implies self.in_use(
                    self.queue(d).local->Some_0,
                ) && self.owner(self.queue(d).local->Some_0) == d by {
                assert(old(self).live(d));
            }
        }
    }

    /// Binds the live, unbound queue `qd` to the free local endpoint `a` and
    /// records `a` in the socket-identity index.
    pub fn insert_socket_id(&mut self, qd: QDesc, a: SocketAddrV4)
        requires
            old(self).wf(),
            old(self).live(qd),
            old(self).queue(qd).local is None,
            !old(self).in_use(a),
        ensures
            final(self).wf(),
            final(self).slots() == old(self).slots().update(
                qd.0 as int,
                Some(NetworkQueue { local: Some(a), ..old(self).queue(qd) }),
            ),
            final(self).ids() == old(self).ids().insert(endpoint_key(a), qd),
    {
        let mut q = self.slots[qd.0 as usize].unwrap();
        q.local = Some(a);
        self.slots.set(qd.0 as usize, Some(q));
        self.ids.insert(key_of(a), qd);
        proof {
            assert forall|k: u64| #[trigger] self.ids@.contains_key(k) implies {
                let d = self.ids@[k];
                self.live(d) && self.queue(d).local is Some && endpoint_key(
                    self.queue(d).local->Some_0,
                ) == k
            } by {
                if k != endpoint_key(a) {
                    assert(old(self).ids@.contains_key(k));
                    assert(old(self).ids@[k] != qd);
                }
            }
            assert forall|d: QDesc| #[trigger]
                self.live(d) && self.queue(d).local is Some implies self.in_use(
                    self.queue(d).local->Some_0,
                ) && self.owner(self.queue(d).local->Some_0) == d by {
                if d != qd {
                    assert(old(self).live(d));
                    let l = old(self).queue(d).local->Some_0;
                    assert(old(self).ids@.contains_key(endpoint_key(l)));
                    assert(endpoint_key(l) != endpoint_key(a));
                }
            }
        }
    }

    /// Takes the queue `qd` out of the table, and its local endpoint out of
    /// the index. Gives `None`, and changes nothing, where `qd` is not live.
    pub fn free_queue(&mut self, qd: QDesc) -> (r: Option<NetworkQueue>)
        requires
            old(self).wf(),
        ensures
            final(self).wf(),
            r == (if old(self).live(qd) {
                Some(old(self).queue(qd))
            } else {
                None
            }),
            old(self).live(qd) ==> final(self).slots() == old(self).slots().update(
                qd.0 as int,
                None,
            ),
            !old(self).live(qd) ==> final(self).slots() == old(self).slots(),
            final(self).ids() == (if old(self).live(qd) && old(self).queue(qd).local is Some {
                old(self).ids().remove(endpoint_key(old(self).queue(qd).local->Some_0))
            } else {
                old(self).ids()
            }),
    {
        if (qd.0 as usize) >= self.slots.len() {
            return None;
        }
        let r = self.slots[qd.0 as usize];
        match r {
            None => None,
            Some(q) => {
                self.slots.set(qd.0 as usize, None);
                match q.local {
                    Some(a) => {
                        self.ids.remove(&key_of(a));
                    },
                    None => {},
                }
                proof {
                    assert forall|k: u64| #[trigger] self.ids@.contains_key(k) implies {
                        let d = self.ids@[k];
                        self.live(d) && self.queue(d).local is Some && endpoint_key(
                            self.queue(d).local->Some_0,
                        ) == k
                    } by {
                        assert(old(self).ids@.contains_key(k));
                        if old(self).ids@[k] == qd {
                            assert(q.local is Some);
                        }
                    }
                    assert forall|d: QDesc| #[trigger]
                        self.live(d) && self.queue(d).local is Some implies self.in_use(
                            self.queue(d).local->Some_0,
                        ) && self.owner(self.queue(d).local->Some_0) == d by {
                        assert(d != qd);
                        assert(old(self).live(d));
                        assert(old(self).queue(d) == self.queue(d));
                        let l = old(self).queue(d).local->Some_0;
                        assert(old(self).owner(l) == d);
                        if q.local is Some {
                            let a = q.local->Some_0;
                            assert(old(self).live(qd) && old(self).queue(qd).local is Some);
                            assert(old(self).owner(a) == qd);
                            lemma_endpoint_key_injective(l, a);
                            assert(endpoint_key(l) != endpoint_key(a));
                        }
                    }
                }
                Some(q)
            },
        }
    }

    /// Empties the table and the index, and gives the queues that were in
    /// it, in the order of their descriptors.
    pub fn drain(&mut self) -> (r: Vec<NetworkQueue>)
        requires
            old(self).wf(),
        ensures
            final(self).wf(),
            final(self).slots() == Seq::<Option<NetworkQueue>>::empty(),
            final(self).ids() == Map::<u64, QDesc>::empty(),
            r@ == live_queues(old(self).slots()),
    {
        let mut r: Vec<NetworkQueue> = Vec::new();
        let mut i: usize = 0;
        while i < self.slots.len()
            invariant
                *self == *old(self),
                i <= self.slots@.len(),
                r@ == live_queues(self.slots@.subrange(0, i as int)),
            decreases self.slots@.len() - i,
        {
            assert(self.slots@.subrange(0, i as int + 1).drop_last() =~= self.slots@.subrange(
                0,
                i as int,
            ));
            match self.slots[i] {
                Some(q) => r.push(q),
                None => {},
            }
            i = i + 1;
        }
        assert(self.slots@.subrange(0, i as int) =~= self.slots@);
        self.slots.clear();
        self.ids.clear();
        proof {
            assert(self.ids@ =~= Map::<u64, QDesc>::empty());
        }
        r
    }
}

} // verus!
