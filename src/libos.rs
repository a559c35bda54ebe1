use vstd::prelude::*;

use std::collections::HashMap;

use crate::fail::{
    code_eaddrinuse, code_eagain, code_ebadf, code_einval, code_enotsup, eaddrinuse, eagain, ebadf,
    einval, enotsup, Fail,
};
use crate::qtable::QueueTable;
use crate::queue::{
    after_connect, op_allowed, refusal_code, restored_state, NetworkQueue, QueueState, QueueType,
    SocketOp,
};
use crate::types::{
    Domain, OperationResult, QDesc, QToken, SocketAddr, SocketAddrV4, Type, IPV4_UNSPECIFIED,
    POP_SIZE_MAX, SOMAXCONN,
};

verus! {

broadcast use vstd::std_specs::hash::group_hash_axioms;

/// The synchronous part of a transport: what the library OS asks of it
/// without waiting. Handles are the transport's names for its sockets.
/// The waiting operations (accept, connect, send, receive, close) are run by
/// the caller's event loop, which hands their outcomes back to the
/// `complete_*` methods of [SharedNetworkLibOS].
pub trait NetworkTransport {
    /// Creates an IPv4 socket of the given kind and gives its handle.
    fn socket(&mut self, typ: QueueType) -> Result<u64, Fail>;

    /// Binds a socket to a local endpoint.
    fn bind(&mut self, handle: u64, local: SocketAddrV4) -> Result<(), Fail>;

    /// Makes a bound socket passive.
    fn listen(&mut self, handle: u64, backlog: usize) -> Result<(), Fail>;

    /// Releases a socket at once, without waiting.
    fn hard_close(&mut self, handle: u64) -> Result<(), Fail>;
}

/// An operation in flight, with what it needs to go on.
#[derive(Clone, Copy, Debug, PartialEq, Eq, Structural)]
pub enum Operation {
    Accept,
    Connect(SocketAddrV4),
    Push(Option<SocketAddrV4>),
    Pop(Option<usize>),
    /// A close, with the state to go back to should the transport fail it.
    Close(QueueState),
}

/// One scheduled operation: the descriptor and the serial number of the
/// queue it was scheduled on, whether the transport has been asked to run
/// it, the buffer it carries until then, and its result once it is done.
#[derive(Debug)]
pub struct Task {
    pub qd: QDesc,
    pub qid: u64,
    pub op: Operation,
    pub started: bool,
    pub buf: Option<Vec<u8>>,
    pub result: Option<OperationResult>,
}

/// What the caller's event loop is to run on the transport for a task.
#[derive(Debug)]
pub enum Request {
    Accept { handle: u64 },
    Connect { handle: u64, remote: SocketAddrV4 },
    Push { handle: u64, buf: Vec<u8>, remote: Option<SocketAddrV4> },
    Pop { handle: u64, size: Option<usize> },
    Close { handle: u64 },
}

/// The state of a network library OS: its transport, its queues and the
/// operations in flight on them.
pub struct NetworkLibOS<T: NetworkTransport> {
    transport: T,
    qtable: QueueTable,
    tasks: HashMap<u64, Task>,
    next_token: u64,
    next_id: u64,
}

/// The socket facade over a [NetworkLibOS].
pub struct SharedNetworkLibOS<T: NetworkTransport>(NetworkLibOS<T>);

/// Whether `qt` names a task of `tasks` that has no result yet.
pub open spec fn pending(tasks: Map<u64, Task>, qt: QToken) -> bool {
    tasks.contains_key(qt.0) && tasks[qt.0].result is None
}

/// Whether a size given to `pop` lies outside `1..=POP_SIZE_MAX`.
pub open spec fn size_out_of_range(size: Option<usize>) -> bool {
    match size {
        Some(n) => n == 0 || n > POP_SIZE_MAX,
        None => false,
    }
}

/// Whether `qt` names a task of `tasks` that has its result.
pub open spec fn done(tasks: Map<u64, Task>, qt: QToken) -> bool {
    tasks.contains_key(qt.0) && tasks[qt.0].result is Some
}

/// What the event loop is to run on the transport for `task`, on the socket
/// `handle`.
pub open spec fn request_of(task: Task, handle: u64) -> Request {
    match task.op {
        Operation::Accept => Request::Accept { handle },
        Operation::Connect(a) => Request::Connect { handle, remote: a },
        Operation::Push(remote) => Request::Push { handle, buf: task.buf->Some_0, remote },
        Operation::Pop(size) => Request::Pop { handle, size },
        Operation::Close(_) => Request::Close { handle },
    }
}

impl<T: NetworkTransport> SharedNetworkLibOS<T> {
    /// The queue table.
    pub closed spec fn table(&self) -> QueueTable {
        self.0.qtable
    }

    /// The scheduled operations whose results are not harvested, by token.
    pub closed spec fn tasks(&self) -> Map<u64, Task> {
        self.0.tasks@
    }

    /// The token that the next scheduled operation gets.
    pub closed spec fn next_token(&self) -> u64 {
        self.0.next_token
    }

    /// The serial number that the next queue gets.
    pub closed spec fn next_id(&self) -> u64 {
        self.0.next_id
    }

    /// Whether the queue that `task` was scheduled on is still in the table
    /// under its descriptor.
    pub open spec fn owns(&self, task: Task) -> bool {
        self.table().live(task.qd) && self.table().queue(task.qd).id == task.qid
    }

    /// Whether `qd` is a live descriptor.
    pub open spec fn live(&self, qd: QDesc) -> bool {
        self.table().live(qd)
    }

    /// The queue of a live descriptor.
    pub open spec fn queue(&self, qd: QDesc) -> NetworkQueue {
        self.table().queue(qd)
    }

    /// The table is consistent, every token handed out is below the next
    /// one, and every serial number is below the next one.
    pub open spec fn wf(&self) -> bool {
        &&& self.table().wf()
        &&& forall|t: u64| #[trigger] self.tasks().contains_key(t) ==> t < self.next_token()
        &&& forall|t: u64| #[trigger]
            self.tasks().contains_key(t) ==> self.tasks()[t].qid < self.next_id() && (
            self.tasks()[t].op is Push && !self.tasks()[t].started ==> self.tasks()[t].buf is Some)
        &&& forall|qd: QDesc| #[trigger]
            self.live(qd) ==> self.queue(qd).id < self.next_id() && (self.queue(qd).state
                == QueueState::Unbound ==> self.queue(qd).local is None)
    }

    /// Every descriptor live in `a`, but `except` where it is given, is live
    /// in `b`.
    pub open spec fn keeps_live(a: &Self, b: &Self, except: Option<QDesc>) -> bool {
        forall|d: QDesc| #[trigger] a.live(d) && except != Some(d) ==> b.live(d)
    }

    /// Nothing but the transport has changed from `a` to `b`.
    pub open spec fn unchanged(a: &Self, b: &Self) -> bool {
        &&& b.table() == a.table()
        &&& b.tasks() == a.tasks()
        &&& b.next_token() == a.next_token()
        &&& b.next_id() == a.next_id()
    }

    /// From `a` to `b` the operation `op` was scheduled on `qd` under token
    /// `qt`, carrying `buf`, and the queue became `q`.
    pub open spec fn schedules(
        a: &Self,
        b: &Self,
        qt: QToken,
        qd: QDesc,
        op: Operation,
        buf: Option<Vec<u8>>,
        q: NetworkQueue,
    ) -> bool {
        &&& qt.0 == a.next_token()
        &&& b.next_token() == a.next_token() + 1
        &&& b.next_id() == a.next_id()
        &&& b.tasks() == a.tasks().insert(
            qt.0,
            Task { qd, qid: a.queue(qd).id, op, started: false, buf, result: None },
        )
        &&& b.table().slots() == a.table().slots().update(qd.0 as int, Some(q))
        &&& b.table().ids() == a.table().ids()
    }

    /// Why an operation `op` cannot be scheduled on `qd`, if it cannot: the
    /// descriptor is not live, the state machine refuses it, or the tokens
    /// are used up.
    pub open spec fn schedule_refusal(&self, qd: QDesc, op: SocketOp) -> Option<i32> {
        if !self.live(qd) {
            Some(code_ebadf())
        } else if !op_allowed(self.queue(qd), op) {
            Some(refusal_code(self.queue(qd)))
        } else if self.next_token() == u64::MAX {
            Some(code_eagain())
        } else {
            None
        }
    }

    /// Why `bind(qd, local)` fails before the transport is asked, if it does.
    pub open spec fn bind_refusal(&self, qd: QDesc, local: SocketAddr) -> Option<i32> {
        match local {
            SocketAddr::V6 { .. } => Some(code_enotsup()),
            SocketAddr::V4(a) => if a.ip == IPV4_UNSPECIFIED || a.port == 0 {
                Some(code_enotsup())
            } else if self.table().in_use(a) {
                Some(code_eaddrinuse())
            } else if !self.live(qd) {
                Some(code_ebadf())
            } else if !op_allowed(self.queue(qd), SocketOp::Bind) {
                Some(refusal_code(self.queue(qd)))
            } else {
                None
            },
        }
    }

    /// Why `listen(qd, backlog)` fails before the transport is asked, if it
    /// does.
    pub open spec fn listen_refusal(&self, qd: QDesc, backlog: usize) -> Option<i32> {
        if backlog == 0 || backlog > SOMAXCONN {
            Some(code_einval())
        } else if !self.live(qd) {
            Some(code_ebadf())
        } else if !op_allowed(self.queue(qd), SocketOp::Listen) {
            Some(refusal_code(self.queue(qd)))
        } else {
            None
        }
    }

    /// A change of the transport alone keeps the invariant.
    proof fn lemma_wf_transport_only(a: &Self, b: &Self)
        requires
            a.wf(),
            a.0.qtable == b.0.qtable,
            a.0.tasks@ == b.0.tasks@,
            a.0.next_token == b.0.next_token,
            a.0.next_id == b.0.next_id,
        ensures
            b.wf(),
    {
        assert forall|qd: QDesc| #[trigger] b.live(qd) implies b.queue(qd).id < b.next_id() && (
        b.queue(qd).state == QueueState::Unbound ==> b.queue(qd).local is None) by {
            assert(a.live(qd));
        }
        assert forall|t: u64| #[trigger] b.tasks().contains_key(t) implies t < b.next_token()
            && b.tasks()[t].qid < b.next_id() && (b.tasks()[t].op is Push && !b.tasks()[t].started
            ==> b.tasks()[t].buf is Some) by {
            assert(a.tasks().contains_key(t));
        }
    }

    /// A library OS over `transport`, with no queue and nothing in flight.
    pub fn new(transport: T) -> (r: Self)
        ensures
            r.wf(),
            forall|qd: QDesc| !r.table().live(qd),
            r.next_token() == 0,
            r.next_id() == 0,
            r.tasks() == Map::<u64, Task>::empty(),
    {
        SharedNetworkLibOS(
            NetworkLibOS {
                transport,
                qtable: QueueTable::new(),
                tasks: HashMap::new(),
                next_token: 0,
                next_id: 0,
            },
        )
    }

    /// Whether `qd` names a live queue.
    pub fn is_live(&self, qd: QDesc) -> (r: bool)
        ensures
            r == self.live(qd),
    {
        self.0.qtable.get(qd).is_some()
    }

    /// The queue that `qd` names; `EBADF` where it is not live.
    pub fn get_shared_queue(&self, qd: QDesc) -> (r: Result<NetworkQueue, Fail>)
        ensures
            self.live(qd) ==> r == Ok::<NetworkQueue, Fail>(self.queue(qd)),
            !self.live(qd) ==> r is Err && r->Err_0.errno == code_ebadf(),
    {
        match self.0.qtable.get(qd) {
            Some(q) => Ok(q),
            None => Err(Fail::new(ebadf(), "bad queue descriptor")),
        }
    }

    /// Whether a queue is bound to the local endpoint `a`.
    pub fn addr_in_use(&self, a: SocketAddrV4) -> (r: bool)
        ensures
            r == self.table().in_use(a),
    {
        self.0.qtable.addr_in_use(a)
    }

    /// `a` and `b` differ in the transport alone, so they have the same
    /// queues.
    proof fn lemma_same_but_transport(a: &Self, b: &Self)
        requires
            a.0.qtable == b.0.qtable,
            a.0.tasks@ == b.0.tasks@,
            a.0.next_token == b.0.next_token,
            a.0.next_id == b.0.next_id,
        ensures
            forall|d: QDesc| #[trigger] a.live(d) == b.live(d) && a.queue(d) == b.queue(d),
            forall|d: QDesc| #[trigger] b.live(d) == a.live(d),
    {
    }

    /// Where every queue live in `b` was live in `a` and is unchanged, the
    /// bounds on queues hold of `b`.
    proof fn lemma_queues_kept(a: &Self, b: &Self)
        requires
            a.wf(),
            b.0.next_id == a.0.next_id,
            forall|d: QDesc| b.live(d) ==> a.live(d) && b.queue(d) == a.queue(d),
        ensures
            forall|d: QDesc| #[trigger]
                b.live(d) ==> b.queue(d).id < b.next_id() && (b.queue(d).state
                    == QueueState::Unbound ==> b.queue(d).local is None),
    {
        assert forall|d: QDesc| #[trigger] b.live(d) implies b.queue(d).id < b.next_id() && (
        b.queue(d).state == QueueState::Unbound ==> b.queue(d).local is None) by {
            assert(a.live(d));
        }
    }

    /// Where `b` differs from `a` in the slot of the live `qd` alone, which
    /// now holds `q` with the same serial number, the invariant carries over.
    proof fn lemma_wf_slot_update(a: &Self, b: &Self, qd: QDesc, q: NetworkQueue)
        requires
            a.wf(),
            b.table().wf(),
            a.live(qd),
            b.table().slots() == a.table().slots().update(qd.0 as int, Some(q)),
            q.id == a.queue(qd).id,
            q.state == QueueState::Unbound ==> q.local is None,
            b.0.tasks@ == a.0.tasks@,
            b.0.next_token == a.0.next_token,
            b.0.next_id == a.0.next_id,
        ensures
            b.wf(),
    {
        assert forall|d: QDesc| #[trigger] b.live(d) implies b.queue(d).id < b.next_id() && (
        b.queue(d).state == QueueState::Unbound ==> b.queue(d).local is None) by {
            assert(a.live(d));
        }
        Self::lemma_tasks_kept(a, b);
    }

    /// The ok clause shared by `socket` and `complete_socket`: from `a` to
    /// `b` an unbound queue of kind `typ` over `handle` took the smallest
    /// free descriptor `qd`, and nothing else changed.
    pub open spec fn adds_socket(a: &Self, b: &Self, qd: QDesc, typ: QueueType, handle: u64) -> bool {
        &&& !a.live(qd)
        &&& forall|j: u32| j < qd.0 ==> a.live(QDesc(j))
        &&& b.live(qd)
        &&& b.queue(qd) == (NetworkQueue {
            id: a.next_id(),
            typ,
            state: QueueState::Unbound,
            handle,
            local: None,
            remote: None,
            accept_pending: false,
            connect_pending: false,
        })
        &&& forall|d: QDesc|
            d != qd ==> b.live(d) == a.live(d) && (a.live(d) ==> b.queue(d) == a.queue(d))
        &&& b.table().ids() == a.table().ids()
        &&& b.tasks() == a.tasks()
        &&& b.next_token() == a.next_token()
        &&& b.next_id() == a.next_id() + 1
    }

    /// Whether `a` has room for one more queue: a serial number is left and
    /// some descriptor is free.
    pub open spec fn has_room(a: &Self) -> bool {
        a.next_id() < u64::MAX && exists|j: u32| j < u32::MAX && !a.live(QDesc(j))
    }

    /// The queue kind that `socket` makes for a supported type.
    pub open spec fn queue_type_of(typ: Type) -> QueueType {
        if typ == Type::Stream {
            QueueType::Stream
        } else {
            QueueType::Dgram
        }
    }

    /// The checks that `socket` makes before it asks the transport: gives
    /// the kind of socket to ask for, or why none is asked for.
    pub fn check_socket(&self, domain: Domain, typ: Type) -> (r: Result<QueueType, Fail>)
        ensures
            domain != Domain::Ipv4 || typ is Other ==> r is Err && r->Err_0.errno
                == code_enotsup(),
            domain == Domain::Ipv4 && !(typ is Other) && self.next_id() == u64::MAX ==> r is Err
                && r->Err_0.errno == code_eagain(),
            domain == Domain::Ipv4 && !(typ is Other) && self.next_id() < u64::MAX ==> r
                == Ok::<QueueType, Fail>(Self::queue_type_of(typ)),
    {
        if domain != Domain::Ipv4 {
            return Err(Fail::new(enotsup(), "communication domain not supported"));
        }
        let qtype = match typ {
            Type::Stream => QueueType::Stream,
            Type::Dgram => QueueType::Dgram,
            Type::Other(_) => {
                return Err(Fail::new(enotsup(), "socket type not supported"));
            },
        };
        if self.0.next_id == u64::MAX {
            return Err(Fail::new(eagain(), "out of queue serial numbers"));
        }
        Ok(qtype)
    }

    /// The checks that `bind` makes before it asks the transport: gives the
    /// socket handle and the endpoint to bind it to, or why the library
    /// refuses.
    pub fn check_bind(&self, qd: QDesc, local: SocketAddr) -> (r: Result<(u64, SocketAddrV4), Fail>)
        requires
            self.wf(),
        ensures
            r is Ok <==> self.bind_refusal(qd, local) is None,
            r is Ok ==> r->Ok_0 == (self.queue(qd).handle, local->V4_0),
            r is Err ==> r->Err_0.errno == self.bind_refusal(qd, local)->Some_0,
    {
        let a = match local {
            SocketAddr::V4(a) => a,
            SocketAddr::V6 { .. } => {
                return Err(Fail::new(enotsup(), "only IPv4 endpoints are supported"));
            },
        };
        if a.ip == IPV4_UNSPECIFIED {
            return Err(Fail::new(enotsup(), "cannot bind to wildcard address"));
        }
        if a.port == 0 {
            return Err(Fail::new(enotsup(), "cannot bind to port 0"));
        }
        if self.0.qtable.addr_in_use(a) {
            return Err(Fail::new(eaddrinuse(), "address is already bound to a socket"));
        }
        let q = match self.0.qtable.get(qd) {
            Some(q) => q,
            None => {
                return Err(Fail::new(ebadf(), "bad queue descriptor"));
            },
        };
        match q.check(SocketOp::Bind) {
            Ok(()) => {},
            Err(e) => {
                return Err(e);
            },
        }
        Ok((q.handle, a))
    }

    /// The checks that `listen` makes before it asks the transport: gives
    /// the socket handle to make listen, or why the library refuses.
    pub fn check_listen(&self, qd: QDesc, backlog: usize) -> (r: Result<u64, Fail>)
        requires
            self.wf(),
        ensures
            r is Ok <==> self.listen_refusal(qd, backlog) is None,
            r is Ok ==> r->Ok_0 == self.queue(qd).handle,
            r is Err ==> r->Err_0.errno == self.listen_refusal(qd, backlog)->Some_0,
    {
        if backlog == 0 || backlog > SOMAXCONN {
            return Err(Fail::new(einval(), "backlog out of range"));
        }
        let q = match self.0.qtable.get(qd) {
            Some(q) => q,
            None => {
                return Err(Fail::new(ebadf(), "bad queue descriptor"));
            },
        };
        match q.check(SocketOp::Listen) {
            Ok(()) => {},
            Err(e) => {
                return Err(e);
            },
        }
        Ok(q.handle)
    }

    /// Creates a queue of the given domain and type over a new transport
    /// socket. Only IPv4 stream and datagram sockets are supported; the
    /// protocol is not looked at. The transport is asked for the socket kind
    /// that `check_socket` gives; what follows its answer is
    /// `complete_socket`, and where that refuses, the new socket is released.
    pub fn socket(&mut self, domain: Domain, typ: Type, protocol: i32) -> (r: Result<QDesc, Fail>)
        requires
            old(self).wf(),
        ensures
            final(self).wf(),
            Self::keeps_live(old(self), final(self), None),
            domain != Domain::Ipv4 || typ is Other ==> r is Err && r->Err_0.errno
                == code_enotsup(),
            domain == Domain::Ipv4 && !(typ is Other) && old(self).next_id() == u64::MAX ==> r is Err
                && r->Err_0.errno == code_eagain(),
            r is Err ==> Self::unchanged(old(self), final(self)),
            r is Ok ==> domain == Domain::Ipv4 && !(typ is Other) && exists|h: u64|
                Self::adds_socket(old(self), final(self), r->Ok_0, Self::queue_type_of(typ), h),
    {
        let qtype = match self.check_socket(domain, typ) {
            Ok(t) => t,
            Err(e) => {
                return Err(e);
            },
        };
        let handle = match self.0.transport.socket(qtype) {
            Ok(h) => h,
            Err(e) => {
                proof {
                    Self::lemma_wf_transport_only(old(self), self);
                }
                return Err(e);
            },
        };
        let ghost mid = *self;
        proof {
            Self::lemma_wf_transport_only(old(self), self);
        }
        let r = self.complete_socket(qtype, handle);
        match r {
            Ok(_) => {
                proof {
                    Self::lemma_same_but_transport(old(self), &mid);
                }
                assert(Self::adds_socket(old(self), self, r->Ok_0, qtype, handle));
            },
            Err(_) => {
                let _ = self.0.transport.hard_close(handle);
                proof {
                    Self::lemma_wf_transport_only(&mid, self);
                }
            },
        }
        r
    }

    /// Makes an unbound queue of kind `typ` over the transport socket
    /// `handle`, under the smallest free descriptor. Fails with `EAGAIN`,
    /// changing nothing, where no serial number or descriptor is left.
    pub fn complete_socket(&mut self, typ: QueueType, handle: u64) -> (r: Result<QDesc, Fail>)
        requires
            old(self).wf(),
        ensures
            final(self).wf(),
            Self::keeps_live(old(self), final(self), None),
            Self::has_room(old(self)) <==> r is Ok,
            r is Err ==> r->Err_0.errno == code_eagain() && Self::unchanged(old(self), final(self)),
            r is Ok ==> Self::adds_socket(old(self), final(self), r->Ok_0, typ, handle),
    {
        if self.0.next_id == u64::MAX {
            return Err(Fail::new(eagain(), "out of queue serial numbers"));
        }
        let q = NetworkQueue::new(self.0.next_id, typ, handle);
        match self.0.qtable.alloc_queue(q) {
            Some(qd) => {
                self.0.next_id = self.0.next_id + 1;
                proof {
                    assert forall|d: QDesc| #[trigger] self.live(d) implies self.queue(d).id
                        < self.next_id() && (self.queue(d).state == QueueState::Unbound
                        ==> self.queue(d).local is None) by {
                        if d != qd {
                            assert(old(self).live(d));
                        }
                    }
                    assert(Self::has_room(old(self))) by {
                        assert(qd.0 < u32::MAX);
                        assert(!old(self).live(QDesc(qd.0)));
                    }
                }
                Ok(qd)
            },
            None => {
                proof {
                    assert forall|j: u32| j < u32::MAX implies old(self).live(QDesc(j)) by {
                        assert(old(self).table().live(QDesc(j)));
                    }
                }
                Err(Fail::new(eagain(), "no free queue descriptor"))
            },
        }
    }

    /// Binds `qd` to the local IPv4 endpoint `local`. The wildcard address,
    /// port zero and IPv6 are not supported, an endpoint can be bound by one
    /// queue only, and only an unbound queue can be bound. Where none of
    /// these refuses, the transport binds the handle and endpoint that
    /// `check_bind` gives, and what follows its answer is `complete_bind`.
    pub fn bind(&mut self, qd: QDesc, local: SocketAddr) -> (r: Result<(), Fail>)
        requires
            old(self).wf(),
        ensures
            final(self).wf(),
            Self::keeps_live(old(self), final(self), None),
            old(self).bind_refusal(qd, local) is Some ==> r is Err && r->Err_0.errno == old(
                self,
            ).bind_refusal(qd, local)->Some_0,
            r is Err ==> Self::unchanged(old(self), final(self)),
            r is Ok ==> old(self).bind_refusal(qd, local) is None && Self::binds(
                old(self),
                final(self),
                qd,
                local->V4_0,
            ),
    {
        let (handle, a) = match self.check_bind(qd, local) {
            Ok(p) => p,
            Err(e) => {
                return Err(e);
            },
        };
        let outcome = self.0.transport.bind(handle, a);
        proof {
            Self::lemma_wf_transport_only(old(self), self);
        }
        self.complete_bind(qd, a, outcome)
    }

    /// From `a` to `b` the queue `qd` was bound to `l`: it is bound, `l` is
    /// in use by it, and nothing else changed.
    pub open spec fn binds(a: &Self, b: &Self, qd: QDesc, l: SocketAddrV4) -> bool {
        &&& b.table().slots() == a.table().slots().update(
            qd.0 as int,
            Some(NetworkQueue { state: QueueState::Bound, local: Some(l), ..a.queue(qd) }),
        )
        &&& b.table().ids() == a.table().ids().insert(crate::qtable::endpoint_key(l), qd)
        &&& b.table().in_use(l)
        &&& b.table().owner(l) == qd
        &&& b.tasks() == a.tasks()
        &&& b.next_token() == a.next_token()
        &&& b.next_id() == a.next_id()
    }

    /// Takes the transport's answer to binding the socket of `qd` to `a`:
    /// on success the queue is bound and `a` is in use by it; a failure is
    /// handed back and changes nothing.
    pub fn complete_bind(&mut self, qd: QDesc, a: SocketAddrV4, outcome: Result<(), Fail>) -> (r:
        Result<(), Fail>)
        requires
            old(self).wf(),
            old(self).bind_refusal(qd, SocketAddr::V4(a)) is None,
        ensures
            final(self).wf(),
            Self::keeps_live(old(self), final(self), None),
            outcome is Err ==> r == outcome && Self::unchanged(old(self), final(self)),
            outcome is Ok ==> r is Ok && Self::binds(old(self), final(self), qd, a),
    {
        match outcome {
            Ok(()) => {},
            Err(e) => {
                return Err(e);
            },
        }
        let q = self.0.qtable.get(qd).unwrap();
        self.0.qtable.insert_socket_id(qd, a);
        let mut q2 = q;
        q2.state = QueueState::Bound;
        q2.local = Some(a);
        self.0.qtable.set_queue(qd, q2);
        proof {
            crate::qtable::lemma_endpoint_key_injective(a, a);
            assert(self.table().slots() =~= old(self).table().slots().update(
                qd.0 as int,
                Some(q2),
            ));
            Self::lemma_wf_slot_update(old(self), self, qd, q2);
        }
        Ok(())
    }

    /// Makes the bound queue `qd` passive. The backlog must lie in
    /// `1..=SOMAXCONN`. Where nothing refuses, the transport makes the handle
    /// that `check_listen` gives listen with `backlog`, and what follows its
    /// answer is `complete_listen`.
    pub fn listen(&mut self, qd: QDesc, backlog: usize) -> (r: Result<(), Fail>)
        requires
            old(self).wf(),
        ensures
            final(self).wf(),
            Self::keeps_live(old(self), final(self), None),
            old(self).listen_refusal(qd, backlog) is Some ==> r is Err && r->Err_0.errno
                == old(self).listen_refusal(qd, backlog)->Some_0,
            r is Err ==> Self::unchanged(old(self), final(self)),
            r is Ok ==> old(self).listen_refusal(qd, backlog) is None && Self::listens(
                old(self),
                final(self),
                qd,
            ),
    {
        let handle = match self.check_listen(qd, backlog) {
            Ok(h) => h,
            Err(e) => {
                return Err(e);
            },
        };
        let outcome = self.0.transport.listen(handle, backlog);
        proof {
            Self::lemma_wf_transport_only(old(self), self);
        }
        self.complete_listen(qd, outcome)
    }

    /// From `a` to `b` the queue `qd` began to listen, and nothing else
    /// changed.
    pub open spec fn listens(a: &Self, b: &Self, qd: QDesc) -> bool {
        &&& b.table().slots() == a.table().slots().update(
            qd.0 as int,
            Some(NetworkQueue { state: QueueState::Listening, ..a.queue(qd) }),
        )
        &&& b.table().ids() == a.table().ids()
        &&& b.tasks() == a.tasks()
        &&& b.next_token() == a.next_token()
        &&& b.next_id() == a.next_id()
    }

    /// Takes the transport's answer to making the socket of the bound
    /// queue `qd` listen: on success the queue listens; a failure is handed
    /// back and changes nothing.
    pub fn complete_listen(&mut self, qd: QDesc, outcome: Result<(), Fail>) -> (r: Result<(), Fail>)
        requires
            old(self).wf(),
            old(self).live(qd),
            op_allowed(old(self).queue(qd), SocketOp::Listen),
        ensures
            final(self).wf(),
            Self::keeps_live(old(self), final(self), None),
            outcome is Err ==> r == outcome && Self::unchanged(old(self), final(self)),
            outcome is Ok ==> r is Ok && Self::listens(old(self), final(self), qd),
    {
        match outcome {
            Ok(()) => {},
            Err(e) => {
                return Err(e);
            },
        }
        let mut q2 = self.0.qtable.get(qd).unwrap();
        q2.state = QueueState::Listening;
        self.0.qtable.set_queue(qd, q2);
        proof {
            Self::lemma_wf_slot_update(old(self), self, qd, q2);
        }
        Ok(())
    }

    /// The queue `qd`, where `op` can be scheduled on it.
    fn prepare(&self, qd: QDesc, op: SocketOp) -> (r: Result<NetworkQueue, Fail>)
        requires
            self.wf(),
        ensures
            r is Ok <==> self.schedule_refusal(qd, op) is None,
            r is Ok ==> r->Ok_0 == self.queue(qd),
            r is Err ==> r->Err_0.errno == self.schedule_refusal(qd, op)->Some_0,
    {
        let q = match self.0.qtable.get(qd) {
            Some(q) => q,
            None => {
                return Err(Fail::new(ebadf(), "bad queue descriptor"));
            },
        };
        match q.check(op) {
            Ok(()) => {},
            Err(e) => {
                return Err(e);
            },
        }
        if self.0.next_token == u64::MAX {
            return Err(Fail::new(eagain(), "out of queue tokens"));
        }
        Ok(q)
    }

    /// Records `op` on the live queue `qd`, which becomes `q`, under the next
    /// token.
    fn register(
        &mut self,
        qd: QDesc,
        q: NetworkQueue,
        op: Operation,
        buf: Option<Vec<u8>>,
    ) -> (r: QToken)
        requires
            old(self).wf(),
            old(self).live(qd),
            old(self).next_token() < u64::MAX,
            q.id == old(self).queue(qd).id,
            q.local == old(self).queue(qd).local,
            q.state == QueueState::Unbound ==> q.local is None,
            op is Push ==> buf is Some,
        ensures
            final(self).wf(),
            Self::schedules(old(self), final(self), r, qd, op, buf, q),
    {
        let t = self.0.next_token;
        self.0.qtable.set_queue(qd, q);
        self.0.tasks.insert(t, Task { qd, qid: q.id, op, started: false, buf, result: None });
        self.0.next_token = t + 1;
        proof {
            assert forall|d: QDesc| #[trigger] self.live(d) implies self.queue(d).id
                < self.next_id() && (self.queue(d).state == QueueState::Unbound
                ==> self.queue(d).local is None) by {
                assert(old(self).live(d));
            }
            assert forall|k: u64| #[trigger] self.tasks().contains_key(k) implies k < self.next_token()
                && self.tasks()[k].qid < self.next_id() && (self.tasks()[k].op is Push
                && !self.tasks()[k].started ==> self.tasks()[k].buf is Some) by {
                if k != t {
                    assert(old(self).tasks().contains_key(k));
                }
            }
        }
        QToken(t)
    }

    /// Schedules an accept on the listening queue `qd`. One accept at a
    /// time may be in flight on a queue.
    pub fn accept(&mut self, qd: QDesc) -> (r: Result<QToken, Fail>)
        requires
            old(self).wf(),
        ensures
            final(self).wf(),
            Self::keeps_live(old(self), final(self), None),
            r is Ok <==> old(self).schedule_refusal(qd, SocketOp::Accept) is None,
            r is Err ==> r->Err_0.errno == old(self).schedule_refusal(qd, SocketOp::Accept)->Some_0
                && Self::unchanged(old(self), final(self)),
            r is Ok ==> Self::schedules(
                old(self),
                final(self),
                r->Ok_0,
                qd,
                Operation::Accept,
                None,
                NetworkQueue { accept_pending: true, ..old(self).queue(qd) },
            ),
    {
        let mut q = match self.prepare(qd, SocketOp::Accept) {
            Ok(q) => q,
            Err(e) => {
                return Err(e);
            },
        };
        q.accept_pending = true;
        Ok(self.register(qd, q, Operation::Accept, None))
    }

    /// Schedules a connection of `qd` to the IPv4 endpoint `remote`; the
    /// queue is connecting until the transport is done.
    pub fn connect(&mut self, qd: QDesc, remote: SocketAddr) -> (r: Result<QToken, Fail>)
        requires
            old(self).wf(),
        ensures
            final(self).wf(),
            Self::keeps_live(old(self), final(self), None),
            remote is V6 ==> r is Err && r->Err_0.errno == code_enotsup(),
            remote is V4 ==> (r is Ok <==> old(self).schedule_refusal(qd, SocketOp::Connect)
                is None),
            remote is V4 && r is Err ==> r->Err_0.errno == old(self).schedule_refusal(
                qd,
                SocketOp::Connect,
            )->Some_0,
            r is Err ==> Self::unchanged(old(self), final(self)),
            r is Ok ==> Self::schedules(
                old(self),
                final(self),
                r->Ok_0,
                qd,
                Operation::Connect(remote->V4_0),
                None,
                NetworkQueue {
                    state: QueueState::Connecting,
                    connect_pending: true,
                    ..old(self).queue(qd)
                },
            ),
    {
        let a = match remote {
            SocketAddr::V4(a) => a,
            SocketAddr::V6 { .. } => {
                return Err(Fail::new(enotsup(), "only IPv4 endpoints are supported"));
            },
        };
        let mut q = match self.prepare(qd, SocketOp::Connect) {
            Ok(q) => q,
            Err(e) => {
                return Err(e);
            },
        };
        q.state = QueueState::Connecting;
        q.connect_pending = true;
        Ok(self.register(qd, q, Operation::Connect(a), None))
    }

    /// Schedules the close of `qd`. A queue that is already closing takes
    /// no second close: that is `EBADF`.
    pub fn async_close(&mut self, qd: QDesc) -> (r: Result<QToken, Fail>)
        requires
            old(self).wf(),
        ensures
            final(self).wf(),
            Self::keeps_live(old(self), final(self), None),
            r is Ok <==> old(self).schedule_refusal(qd, SocketOp::Close) is None,
            old(self).live(qd) && old(self).queue(qd).state == QueueState::Closing ==> r is Err
                && r->Err_0.errno == code_ebadf(),
            r is Err ==> r->Err_0.errno == old(self).schedule_refusal(qd, SocketOp::Close)->Some_0
                && Self::unchanged(old(self), final(self)),
            r is Ok ==> Self::schedules(
                old(self),
                final(self),
                r->Ok_0,
                qd,
                Operation::Close(old(self).queue(qd).state),
                None,
                NetworkQueue { state: QueueState::Closing, ..old(self).queue(qd) },
            ),
    {
        let mut q = match self.prepare(qd, SocketOp::Close) {
            Ok(q) => q,
            Err(e) => {
                return Err(e);
            },
        };
        let prev = q.state;
        q.state = QueueState::Closing;
        Ok(self.register(qd, q, Operation::Close(prev), None))
    }

    /// Schedules sending `buf` on the connected queue `qd`. An empty buffer
    /// is refused with `EINVAL`.
    pub fn push(&mut self, qd: QDesc, buf: Vec<u8>) -> (r: Result<QToken, Fail>)
        requires
            old(self).wf(),
        ensures
            final(self).wf(),
            Self::keeps_live(old(self), final(self), None),
            buf@.len() == 0 ==> r is Err && r->Err_0.errno == code_einval(),
            buf@.len() > 0 ==> (r is Ok <==> old(self).schedule_refusal(qd, SocketOp::Push)
                is None),
            buf@.len() > 0 && r is Err ==> r->Err_0.errno == old(self).schedule_refusal(
                qd,
                SocketOp::Push,
            )->Some_0,
            r is Err ==> Self::unchanged(old(self), final(self)),
            r is Ok ==> Self::schedules(
                old(self),
                final(self),
                r->Ok_0,
                qd,
                Operation::Push(None),
                Some(buf),
                old(self).queue(qd),
            ),
    {
        if buf.len() == 0 {
            return Err(Fail::new(einval(), "zero-length buffer"));
        }
        let q = match self.prepare(qd, SocketOp::Push) {
            Ok(q) => q,
            Err(e) => {
                return Err(e);
            },
        };
        Ok(self.register(qd, q, Operation::Push(None), Some(buf)))
    }

    /// Schedules sending `buf` to the IPv4 endpoint `remote` on the datagram
    /// queue `qd`. An empty buffer is refused with `EINVAL`.
    pub fn pushto(&mut self, qd: QDesc, buf: Vec<u8>, remote: SocketAddr) -> (r: Result<
        QToken,
        Fail,
    >)
        requires
            old(self).wf(),
        ensures
            final(self).wf(),
            Self::keeps_live(old(self), final(self), None),
            buf@.len() == 0 ==> r is Err && r->Err_0.errno == code_einval(),
            buf@.len() > 0 && remote is V6 ==> r is Err && r->Err_0.errno == code_enotsup(),
            buf@.len() > 0 && remote is V4 ==> (r is Ok <==> old(self).schedule_refusal(
                qd,
                SocketOp::PushTo,
            ) is None),
            buf@.len() > 0 && remote is V4 && r is Err ==> r->Err_0.errno == old(self).schedule_refusal(qd, SocketOp::PushTo)->Some_0,
            r is Err ==> Self::unchanged(old(self), final(self)),
            r is Ok ==> Self::schedules(
                old(self),
                final(self),
                r->Ok_0,
                qd,
                Operation::Push(Some(remote->V4_0)),
                Some(buf),
                old(self).queue(qd),
            ),
    {
        if buf.len() == 0 {
            return Err(Fail::new(einval(), "zero-length buffer"));
        }
        let a = match remote {
            SocketAddr::V4(a) => a,
            SocketAddr::V6 { .. } => {
                return Err(Fail::new(enotsup(), "only IPv4 endpoints are supported"));
            },
        };
        let q = match self.prepare(qd, SocketOp::PushTo) {
            Ok(q) => q,
            Err(e) => {
                return Err(e);
            },
        };
        Ok(self.register(qd, q, Operation::Push(Some(a)), Some(buf)))
    }

    /// Schedules receiving on `qd`, at most `size` bytes where it is given.
    /// A size of zero or above `POP_SIZE_MAX` is refused with `EINVAL`.
    pub fn pop(&mut self, qd: QDesc, size: Option<usize>) -> (r: Result<QToken, Fail>)
        requires
            old(self).wf(),
        ensures
            final(self).wf(),
            Self::keeps_live(old(self), final(self), None),
            size_out_of_range(size) ==> r is Err && r->Err_0.errno == code_einval(),
            !size_out_of_range(size) ==> (r is Ok <==> old(self).schedule_refusal(
                qd,
                SocketOp::Pop,
            ) is None),
            !size_out_of_range(size) && r is Err ==> r->Err_0.errno == old(self).schedule_refusal(
                qd,
                SocketOp::Pop,
            )->Some_0,
            r is Err ==> Self::unchanged(old(self), final(self)),
            r is Ok ==> Self::schedules(
                old(self),
                final(self),
                r->Ok_0,
                qd,
                Operation::Pop(size),
                None,
                old(self).queue(qd),
            ),
    {
        match size {
            Some(n) => {
                if n == 0 || n > POP_SIZE_MAX {
                    return Err(Fail::new(einval(), "pop size out of range"));
                }
            },
            None => {},
        }
        let q = match self.prepare(qd, SocketOp::Pop) {
            Ok(q) => q,
            Err(e) => {
                return Err(e);
            },
        };
        Ok(self.register(qd, q, Operation::Pop(size), None))
    }

    /// The result recorded for `qt`.
    pub open spec fn result_of(&self, qt: QToken) -> OperationResult {
        self.tasks()[qt.0].result->Some_0
    }

    /// From `a` to `b` the task `qt` was given the result `res`, and no
    /// other task changed.
    pub open spec fn finished(a: &Self, b: &Self, qt: QToken, res: OperationResult) -> bool {
        b.tasks() == a.tasks().insert(
            qt.0,
            Task { started: true, buf: None, result: Some(res), ..a.tasks()[qt.0] },
        )
    }

    /// Every queue live in `a` is live in `b`, and all but `qd` are as
    /// they were.
    pub open spec fn keeps_others(a: &Self, b: &Self, qd: QDesc) -> bool {
        forall|d: QDesc| #[trigger]
            a.live(d) ==> b.live(d) && (d != qd ==> b.queue(d) == a.queue(d))
    }

    /// The descriptor, queue serial number, operation and started flag of
    /// the task `qt`, where it has no result yet.
    fn peek(&self, qt: QToken) -> (r: Option<(QDesc, u64, Operation, bool)>)
        requires
            self.wf(),
        ensures
            r == (if pending(self.tasks(), qt) {
                let t = self.tasks()[qt.0];
                Some((t.qd, t.qid, t.op, t.started))
            } else {
                None
            }),
    {
        match self.0.tasks.get(&qt.0) {
            Some(t) => {
                if t.result.is_none() {
                    Some((t.qd, t.qid, t.op, t.started))
                } else {
                    None
                }
            },
            None => None,
        }
    }

    /// The queue at `qd`, where it is the queue with serial number `qid`.
    fn owner_queue(&self, qd: QDesc, qid: u64) -> (r: Option<NetworkQueue>)
        requires
            self.wf(),
        ensures
            r == (if self.live(qd) && self.queue(qd).id == qid {
                Some(self.queue(qd))
            } else {
                None
            }),
    {
        match self.0.qtable.get(qd) {
            Some(q) => {
                if q.id == qid {
                    Some(q)
                } else {
                    None
                }
            },
            None => None,
        }
    }

    /// Records `res` as the result of the task `qt`.
    fn finish(&mut self, qt: QToken, res: OperationResult)
        requires
            old(self).wf(),
            old(self).tasks().contains_key(qt.0),
        ensures
            final(self).wf(),
            Self::finished(old(self), final(self), qt, res),
            final(self).table() == old(self).table(),
            final(self).next_token() == old(self).next_token(),
            final(self).next_id() == old(self).next_id(),
    {
        let t = self.0.tasks.remove(&qt.0);
        match t {
            Some(task) => {
                let Task { qd, qid, op, .. } = task;
                self.0.tasks.insert(
                    qt.0,
                    Task { qd, qid, op, started: true, buf: None, result: Some(res) },
                );
            },
            None => {},
        }
        proof {
            assert(self.tasks() =~= old(self).tasks().insert(
                qt.0,
                Task { started: true, buf: None, result: Some(res), ..old(self).tasks()[qt.0] },
            ));
            assert forall|k: u64| #[trigger] self.tasks().contains_key(k) implies k < self.next_token()
                && self.tasks()[k].qid < self.next_id() && (self.tasks()[k].op is Push
                && !self.tasks()[k].started ==> self.tasks()[k].buf is Some) by {
                assert(old(self).tasks().contains_key(k));
            }
            Self::lemma_queues_kept(old(self), self);
        }
    }

    /// Starts the task `qt`: gives what the event loop is to run on the
    /// transport. Where the queue it was scheduled on has left the table,
    /// the task fails with `EBADF` and the transport is not asked. A token
    /// that is unknown, done or already started gives `None` and changes
    /// nothing.
    pub fn start(&mut self, qt: QToken) -> (r: Option<Request>)
        requires
            old(self).wf(),
        ensures
            final(self).wf(),
            Self::keeps_live(old(self), final(self), None),
            final(self).table() == old(self).table(),
            final(self).next_token() == old(self).next_token(),
            final(self).next_id() == old(self).next_id(),
            !(pending(old(self).tasks(), qt) && !old(self).tasks()[qt.0].started) ==> r is None
                && final(self).tasks() == old(self).tasks(),
            pending(old(self).tasks(), qt) && !old(self).tasks()[qt.0].started && !old(self).owns(
                old(self).tasks()[qt.0],
            ) ==> r is None && Self::finished(old(self), final(self), qt, final(self).result_of(qt))
                && final(self).result_of(qt).is_failed_with(code_ebadf()),
            pending(old(self).tasks(), qt) && !old(self).tasks()[qt.0].started && old(self).owns(
                old(self).tasks()[qt.0],
            ) ==> {
                let task = old(self).tasks()[qt.0];
                &&& r == Some(request_of(task, old(self).queue(task.qd).handle))
                &&& final(self).tasks() == old(self).tasks().insert(
                    qt.0,
                    Task { started: true, buf: None, ..task },
                )
            },
    {
        let (qd, qid, _op, started) = match self.peek(qt) {
            Some(p) => p,
            None => {
                return None;
            },
        };
        if started {
            return None;
        }
        let q = match self.owner_queue(qd, qid) {
            Some(q) => q,
            None => {
                self.finish(qt, OperationResult::Failed(Fail::new(ebadf(), "queue was closed")));
                return None;
            },
        };
        let task = self.0.tasks.remove(&qt.0).unwrap();
        let Task { qd, qid, op, started, buf, result } = task;
        let req = match op {
            Operation::Accept => Request::Accept { handle: q.handle },
            Operation::Connect(a) => Request::Connect { handle: q.handle, remote: a },
            Operation::Push(remote) => Request::Push {
                handle: q.handle,
                buf: buf.unwrap(),
                remote,
            },
            Operation::Pop(size) => Request::Pop { handle: q.handle, size },
            Operation::Close(_) => Request::Close { handle: q.handle },
        };
        self.0.tasks.insert(qt.0, Task { qd, qid, op, started: true, buf: None, result });
        proof {
            assert(self.tasks() =~= old(self).tasks().insert(
                qt.0,
                Task { started: true, buf: None, ..old(self).tasks()[qt.0] },
            ));
            assert forall|k: u64| #[trigger] self.tasks().contains_key(k) implies k < self.next_token()
                && self.tasks()[k].qid < self.next_id() && (self.tasks()[k].op is Push
                && !self.tasks()[k].started ==> self.tasks()[k].buf is Some) by {
                assert(old(self).tasks().contains_key(k));
            }
            Self::lemma_queues_kept(old(self), self);
        }
        Some(req)
    }

    /// Hands the transport's outcome of a send to the task `qt`: `Push` on
    /// success, the transport's failure otherwise, and `EBADF` where the
    /// queue has left the table meanwhile. Gives whether `qt` was a send
    /// with no result yet; where it was not, nothing changes.
    pub fn complete_push(&mut self, qt: QToken, outcome: Result<(), Fail>) -> (done: bool)
        requires
            old(self).wf(),
        ensures
            final(self).wf(),
            Self::keeps_live(old(self), final(self), None),
            done <==> pending(old(self).tasks(), qt) && old(self).tasks()[qt.0].op is Push,
            !done ==> Self::unchanged(old(self), final(self)),
            done ==> {
                let task = old(self).tasks()[qt.0];
                let res = final(self).result_of(qt);
                &&& Self::finished(old(self), final(self), qt, res)
                &&& final(self).table() == old(self).table()
                &&& final(self).next_token() == old(self).next_token()
                &&& final(self).next_id() == old(self).next_id()
                &&& !old(self).owns(task) ==> res.is_failed_with(code_ebadf())
                &&& old(self).owns(task) ==> res == match outcome {
                    Ok(()) => OperationResult::Push,
                    Err(e) => OperationResult::Failed(e),
                }
            },
    {
        let (qd, qid, op, _started) = match self.peek(qt) {
            Some(p) => p,
            None => {
                return false;
            },
        };
        match op {
            Operation::Push(_) => {},
            _ => {
                return false;
            },
        }
        let res = match self.owner_queue(qd, qid) {
            None => OperationResult::Failed(Fail::new(ebadf(), "queue was closed")),
            Some(_) => match outcome {
                Ok(()) => OperationResult::Push,
                Err(e) => OperationResult::Failed(e),
            },
        };
        self.finish(qt, res);
        true
    }

    /// Hands the transport's outcome of a receive to the task `qt`: the
    /// sender, where there is one, and the bytes on success; the transport's
    /// failure otherwise; `EBADF` where the queue has left the table
    /// meanwhile. Gives whether `qt` was a receive with no result yet; where
    /// it was not, nothing changes.
    pub fn complete_pop(
        &mut self,
        qt: QToken,
        outcome: Result<(Option<SocketAddrV4>, Vec<u8>), Fail>,
    ) -> (done: bool)
        requires
            old(self).wf(),
        ensures
            final(self).wf(),
            Self::keeps_live(old(self), final(self), None),
            done <==> pending(old(self).tasks(), qt) && old(self).tasks()[qt.0].op is Pop,
            !done ==> Self::unchanged(old(self), final(self)),
            done ==> {
                let task = old(self).tasks()[qt.0];
                let res = final(self).result_of(qt);
                &&& Self::finished(old(self), final(self), qt, res)
                &&& final(self).table() == old(self).table()
                &&& final(self).next_token() == old(self).next_token()
                &&& final(self).next_id() == old(self).next_id()
                &&& !old(self).owns(task) ==> res.is_failed_with(code_ebadf())
                &&& old(self).owns(task) ==> res == match outcome {
                    Ok((a, b)) => OperationResult::Pop(a, b),
                    Err(e) => OperationResult::Failed(e),
                }
            },
    {
        let (qd, qid, op, _started) = match self.peek(qt) {
            Some(p) => p,
            None => {
                return false;
            },
        };
        match op {
            Operation::Pop(_) => {},
            _ => {
                return false;
            },
        }
        let res = match self.owner_queue(qd, qid) {
            None => OperationResult::Failed(Fail::new(ebadf(), "queue was closed")),
            Some(_) => match outcome {
                Ok((a, b)) => OperationResult::Pop(a, b),
                Err(e) => OperationResult::Failed(e),
            },
        };
        self.finish(qt, res);
        true
    }

    /// Takes the result of the task `qt`, with the descriptor it was
    /// scheduled on, where it has one; the token is then spent, and a second
    /// harvest gives `None`. Gives `None`, and changes nothing, where `qt`
    /// is unknown or not done.
    pub fn harvest(&mut self, qt: QToken) -> (r: Option<(QDesc, OperationResult)>)
        requires
            old(self).wf(),
        ensures
            final(self).wf(),
            Self::keeps_live(old(self), final(self), None),
            final(self).table() == old(self).table(),
            final(self).next_token() == old(self).next_token(),
            final(self).next_id() == old(self).next_id(),
            old(self).tasks().contains_key(qt.0) && old(self).tasks()[qt.0].result is Some ==> {
                &&& r == Some((old(self).tasks()[qt.0].qd, old(self).result_of(qt)))
                &&& final(self).tasks() == old(self).tasks().remove(qt.0)
            },
            !(old(self).tasks().contains_key(qt.0) && old(self).tasks()[qt.0].result is Some)
                ==> r is None && final(self).tasks() == old(self).tasks(),
    {
        let done = match self.0.tasks.get(&qt.0) {
            Some(t) => t.result.is_some(),
            None => false,
        };
        if !done {
            return None;
        }
        let task = self.0.tasks.remove(&qt.0).unwrap();
        proof {
            assert forall|k: u64| #[trigger] self.tasks().contains_key(k) implies k < self.next_token()
                && self.tasks()[k].qid < self.next_id() && (self.tasks()[k].op is Push
                && !self.tasks()[k].started ==> self.tasks()[k].buf is Some) by {
                assert(old(self).tasks().contains_key(k));
            }
            Self::lemma_queues_kept(old(self), self);
        }
        let Task { qd, result, .. } = task;
        Some((qd, result.unwrap()))
    }

    /// Hands the transport's outcome of a connect to the task `qt`. On
    /// success a connecting queue becomes connected to the task's endpoint;
    /// on failure it goes back to bound or unbound, as its local endpoint
    /// says. A queue that is closing meanwhile keeps its state, and records
    /// the peer where the connect succeeded. Where the
    /// queue has left the table, the result is `EBADF`. Gives whether `qt`
    /// was a connect with no result yet; where it was not, nothing changes.
    pub fn complete_connect(&mut self, qt: QToken, outcome: Result<(), Fail>) -> (done: bool)
        requires
            old(self).wf(),
        ensures
            final(self).wf(),
            Self::keeps_live(old(self), final(self), None),
            done <==> pending(old(self).tasks(), qt) && old(self).tasks()[qt.0].op is Connect,
            !done ==> Self::unchanged(old(self), final(self)),
            done ==> {
                let task = old(self).tasks()[qt.0];
                let res = final(self).result_of(qt);
                let q = old(self).queue(task.qd);
                &&& Self::finished(old(self), final(self), qt, res)
                &&& final(self).table().ids() == old(self).table().ids()
                &&& final(self).next_token() == old(self).next_token()
                &&& final(self).next_id() == old(self).next_id()
                &&& !old(self).owns(task) ==> res.is_failed_with(code_ebadf())
                    && final(self).table() == old(self).table()
                &&& old(self).owns(task) ==> res == match outcome {
                    Ok(()) => OperationResult::Connect,
                    Err(e) => OperationResult::Failed(e),
                }
                &&& old(self).owns(task) ==> final(self).table().slots() == old(
                    self,
                ).table().slots().update(
                    task.qd.0 as int,
                    Some(after_connect(q, task.op->Connect_0, outcome is Ok)),
                )
            },
    {
        let (qd, qid, op, _started) = match self.peek(qt) {
            Some(p) => p,
            None => {
                return false;
            },
        };
        let remote = match op {
            Operation::Connect(a) => a,
            _ => {
                return false;
            },
        };
        let res = match self.owner_queue(qd, qid) {
            None => OperationResult::Failed(Fail::new(ebadf(), "queue was closed")),
            Some(q) => {
                let q2 = q.connect_done(remote, outcome.is_ok());
                self.0.qtable.set_queue(qd, q2);
                proof {
                    Self::lemma_wf_slot_update(old(self), self, qd, q2);
                }
                match outcome {
                    Ok(()) => OperationResult::Connect,
                    Err(e) => OperationResult::Failed(e),
                }
            },
        };
        self.finish(qt, res);
        true
    }

    /// The bounds on tokens and serial numbers hold of `b` where the tasks
    /// and counters are those of `a`.
    proof fn lemma_tasks_kept(a: &Self, b: &Self)
        requires
            a.wf(),
            a.0.tasks@ == b.0.tasks@,
            a.0.next_token == b.0.next_token,
            a.0.next_id == b.0.next_id,
        ensures
            forall|t: u64| #[trigger]
                b.tasks().contains_key(t) ==> t < b.next_token() && b.tasks()[t].qid < b.next_id()
                    && (b.tasks()[t].op is Push && !b.tasks()[t].started ==> b.tasks()[t].buf is Some),
    {
        assert forall|t: u64| #[trigger] b.tasks().contains_key(t) implies t < b.next_token()
            && b.tasks()[t].qid < b.next_id() && (b.tasks()[t].op is Push && !b.tasks()[t].started
            ==> b.tasks()[t].buf is Some) by {
            assert(a.tasks().contains_key(t));
        }
    }

    /// Hands the transport's outcome of an accept to the task `qt`. The
    /// listening queue may accept again. On success the new connection
    /// becomes a connected queue under the smallest free descriptor, and
    /// the result names it and the peer; where no descriptor or serial
    /// number is left, the connection is released and the result is
    /// `EAGAIN`. Where the listening queue has left the table, the
    /// connection is released and the result is `EBADF`. Gives whether `qt`
    /// was an accept with no result yet; where it was not, nothing changes.
    pub fn complete_accept(
        &mut self,
        qt: QToken,
        outcome: Result<(u64, SocketAddrV4), Fail>,
    ) -> (done: bool)
        requires
            old(self).wf(),
        ensures
            final(self).wf(),
            Self::keeps_live(old(self), final(self), None),
            done <==> pending(old(self).tasks(), qt) && old(self).tasks()[qt.0].op is Accept,
            !done ==> Self::unchanged(old(self), final(self)),
            done ==> {
                let task = old(self).tasks()[qt.0];
                let res = final(self).result_of(qt);
                let q = old(self).queue(task.qd);
                &&& Self::finished(old(self), final(self), qt, res)
                &&& final(self).table().ids() == old(self).table().ids()
                &&& final(self).next_token() == old(self).next_token()
                &&& Self::keeps_others(old(self), final(self), task.qd)
                &&& !old(self).owns(task) ==> res.is_failed_with(code_ebadf())
                    && final(self).table() == old(self).table()
                &&& old(self).owns(task) ==> final(self).queue(task.qd) == (NetworkQueue {
                    accept_pending: false,
                    ..q
                })
                &&& old(self).owns(task) && outcome is Err ==> res == OperationResult::Failed(
                    outcome->Err_0,
                )
                &&& old(self).owns(task) && outcome is Ok ==> (res is Accept || res.is_failed_with(
                    code_eagain(),
                ))
                &&& old(self).owns(task) && outcome is Ok && old(self).next_id() < u64::MAX && (
                exists|j: u32| j < u32::MAX && !old(self).live(QDesc(j))) ==> res is Accept
                &&& res is Accept ==> {
                    let nqd = res->Accept_0;
                    &&& old(self).owns(task) && outcome is Ok
                    &&& res->Accept_1 == outcome->Ok_0.1
                    &&& !old(self).live(nqd)
                    &&& forall|j: u32| j < nqd.0 ==> old(self).live(QDesc(j))
                    &&& final(self).live(nqd)
                    &&& final(self).queue(nqd) == (NetworkQueue {
                        id: old(self).next_id(),
                        typ: q.typ,
                        state: QueueState::Connected,
                        handle: outcome->Ok_0.0,
                        local: None,
                        remote: Some(outcome->Ok_0.1),
                        accept_pending: false,
                        connect_pending: false,
                    })
                    &&& final(self).next_id() == old(self).next_id() + 1
                    &&& forall|d: QDesc|
                        final(self).live(d) ==> old(self).live(d) || d == nqd
                }
                &&& !(res is Accept) ==> final(self).next_id() == old(self).next_id()
                    && forall|d: QDesc| final(self).live(d) == old(self).live(d)
            },
    {
        let (qd, qid, op, _started) = match self.peek(qt) {
            Some(p) => p,
            None => {
                return false;
            },
        };
        match op {
            Operation::Accept => {},
            _ => {
                return false;
            },
        }
        let res = match self.owner_queue(qd, qid) {
            None => {
                match outcome {
                    Ok((h, _)) => {
                        let _ = self.0.transport.hard_close(h);
                        proof {
                            Self::lemma_wf_transport_only(old(self), self);
                        }
                    },
                    Err(_) => {},
                }
                OperationResult::Failed(Fail::new(ebadf(), "queue was closed"))
            },
            Some(q) => {
                let mut q2 = q;
                q2.accept_pending = false;
                self.0.qtable.set_queue(qd, q2);
                proof {
                    Self::lemma_wf_slot_update(old(self), self, qd, q2);
                }
                let ghost mid = *self;
                match outcome {
                    Err(e) => OperationResult::Failed(e),
                    Ok((h, remote)) => {
                        if self.0.next_id == u64::MAX {
                            let _ = self.0.transport.hard_close(h);
                            proof {
                                Self::lemma_wf_transport_only(&mid, self);
                            }
                            OperationResult::Failed(Fail::new(eagain(), "out of queue serial numbers"))
                        } else {
                            let nq = NetworkQueue {
                                id: self.0.next_id,
                                typ: q.typ,
                                state: QueueState::Connected,
                                handle: h,
                                local: None,
                                remote: Some(remote),
                                accept_pending: false,
                                connect_pending: false,
                            };
                            match self.0.qtable.alloc_queue(nq) {
                                Some(nqd) => {
                                    self.0.next_id = self.0.next_id + 1;
                                    proof {
                                        assert forall|d: QDesc| #[trigger] self.live(d) implies self.queue(d).id
                                            < self.next_id() && (self.queue(d).state == QueueState::Unbound
                                            ==> self.queue(d).local is None) by {
                                            if d != nqd {
                                                assert(mid.live(d));
                                            }
                                        }
                                        assert forall|t: u64| #[trigger] self.tasks().contains_key(t) implies t < self.next_token()
                                            && self.tasks()[t].qid < self.next_id() && (self.tasks()[t].op is Push
                                            && !self.tasks()[t].started ==> self.tasks()[t].buf is Some) by {
                                            assert(mid.tasks().contains_key(t));
                                        }
                                        assert(!mid.live(nqd));
                                        assert(nqd != qd);
                                        assert forall|j: u32| j < nqd.0 implies old(self).live(QDesc(j)) by {
                                            assert(mid.table().live(QDesc(j)));
                                            assert(old(self).table().slots()[j as int] is Some);
                                        }
                                    }
                                    OperationResult::Accept(nqd, remote)
                                },
                                None => {
                                    let _ = self.0.transport.hard_close(h);
                                    proof {
                                        Self::lemma_wf_transport_only(&mid, self);
                                        assert forall|j: u32| j < u32::MAX implies old(self).live(QDesc(j)) by {
                                            assert(mid.table().live(QDesc(j)));
                                            assert(old(self).table().slots()[j as int] is Some);
                                        }
                                    }
                                    OperationResult::Failed(Fail::new(eagain(), "no free queue descriptor"))
                                },
                            }
                        }
                    },
                }
            },
        };
        self.finish(qt, res);
        true
    }

    /// Hands the transport's outcome of a close to the task `qt`. On success
    /// the queue leaves the table and its local endpoint, if any, is free
    /// again; on failure the queue goes back to the state it had before the
    /// close, or, where a connect ended meanwhile, to the state that connect
    /// left it in. Where the queue has left the table, the result is `EBADF`.
    /// Gives whether `qt` was a close with no result yet; where it was not,
    /// nothing changes.
    pub fn complete_close(&mut self, qt: QToken, outcome: Result<(), Fail>) -> (done: bool)
        requires
            old(self).wf(),
        ensures
            final(self).wf(),
            pending(old(self).tasks(), qt) ==> Self::keeps_live(
                old(self),
                final(self),
                Some(old(self).tasks()[qt.0].qd),
            ),
            !pending(old(self).tasks(), qt) ==> Self::keeps_live(old(self), final(self), None),
            done <==> pending(old(self).tasks(), qt) && old(self).tasks()[qt.0].op is Close,
            !done ==> Self::unchanged(old(self), final(self)),
            done ==> {
                let task = old(self).tasks()[qt.0];
                let res = final(self).result_of(qt);
                let q = old(self).queue(task.qd);
                &&& Self::finished(old(self), final(self), qt, res)
                &&& final(self).next_token() == old(self).next_token()
                &&& final(self).next_id() == old(self).next_id()
                &&& !old(self).owns(task) ==> res.is_failed_with(code_ebadf())
                    && final(self).table() == old(self).table()
                &&& old(self).owns(task) && outcome is Ok ==> {
                    &&& res == OperationResult::Close
                    &&& !final(self).live(task.qd)
                    &&& q.local is Some ==> !final(self).table().in_use(q.local->Some_0)
                    &&& forall|d: QDesc|
                        d != task.qd ==> final(self).live(d) == old(self).live(d) && (old(self).live(d) ==> final(self).queue(d) == old(self).queue(d))
                }
                &&& old(self).owns(task) && outcome is Err ==> {
                    &&& res == OperationResult::Failed(outcome->Err_0)
                    &&& final(self).table().ids() == old(self).table().ids()
                    &&& final(self).table().slots() == old(self).table().slots().update(
                        task.qd.0 as int,
                        Some(
                            NetworkQueue {
                                state: restored_state(task.op->Close_0, q),
                                ..q
                            },
                        ),
                    )
                }
            },
    {
        let (qd, qid, op, _started) = match self.peek(qt) {
            Some(p) => p,
            None => {
                return false;
            },
        };
        let prev = match op {
            Operation::Close(s) => s,
            _ => {
                return false;
            },
        };
        let res = match self.owner_queue(qd, qid) {
            None => OperationResult::Failed(Fail::new(ebadf(), "queue was closed")),
            Some(q) => match outcome {
                Ok(()) => {
                    let _ = self.0.qtable.free_queue(qd);
                    proof {
                        Self::lemma_queues_kept(old(self), self);
                        Self::lemma_tasks_kept(old(self), self);
                        if q.local is Some {
                            let a = q.local->Some_0;
                            assert(!self.table().ids().contains_key(crate::qtable::endpoint_key(a)));
                        }
                    }
                    OperationResult::Close
                },
                Err(e) => {
                    let mut q2 = q;
                    q2.state = q.restore_state(prev);
                    self.0.qtable.set_queue(qd, q2);
                    proof {
                        Self::lemma_wf_slot_update(old(self), self, qd, q2);
                    }
                    OperationResult::Failed(e)
                },
            },
        };
        self.finish(qt, res);
        true
    }

    /// No two live queues are bound to the same local endpoint.
    pub proof fn lemma_passive_identity_unique(&self, d1: QDesc, d2: QDesc)
        requires
            self.wf(),
            self.live(d1),
            self.live(d2),
            self.queue(d1).local is Some,
            self.queue(d1).local == self.queue(d2).local,
        ensures
            d1 == d2,
    {
        assert(self.table().owner(self.queue(d1).local->Some_0) == d1);
        assert(self.table().owner(self.queue(d2).local->Some_0) == d2);
    }

    /// The local endpoint of every bound live queue is in use, by that
    /// queue.
    pub proof fn lemma_bound_endpoint_in_use(&self, qd: QDesc)
        requires
            self.wf(),
            self.live(qd),
            self.queue(qd).local is Some,
        ensures
            self.table().in_use(self.queue(qd).local->Some_0),
            self.table().owner(self.queue(qd).local->Some_0) == qd,
    {
    }

    /// Scheduling an operation keeps every live descriptor live and every
    /// other queue as it was.
    pub proof fn lemma_schedule_keeps_queues(
        a: &Self,
        b: &Self,
        qt: QToken,
        qd: QDesc,
        op: Operation,
        buf: Option<Vec<u8>>,
        q: NetworkQueue,
    )
        requires
            a.wf(),
            a.live(qd),
            Self::schedules(a, b, qt, qd, op, buf, q),
        ensures
            Self::keeps_others(a, b, qd),
    {
    }

    /// A token handed out by scheduling names no earlier operation, and
    /// its operation is pending.
    pub proof fn lemma_schedule_fresh_token(
        a: &Self,
        b: &Self,
        qt: QToken,
        qd: QDesc,
        op: Operation,
        buf: Option<Vec<u8>>,
        q: NetworkQueue,
    )
        requires
            a.wf(),
            Self::schedules(a, b, qt, qd, op, buf, q),
        ensures
            !a.tasks().contains_key(qt.0),
            pending(b.tasks(), qt),
    {
    }

    /// An operation that has its result is no longer pending, so no
    /// completion reaches it again.
    pub proof fn lemma_finished_not_pending(a: &Self, b: &Self, qt: QToken, res: OperationResult)
        requires
            Self::finished(a, b, qt, res),
        ensures
            !pending(b.tasks(), qt),
            b.tasks()[qt.0].result == Some(res),
    {
    }

    /// A harvested token is spent: nothing is left to harvest under it.
    pub proof fn lemma_harvest_spends_token(a: &Self, b: &Self, qt: QToken)
        requires
            b.tasks() == a.tasks().remove(qt.0),
        ensures
            !b.tasks().contains_key(qt.0),
    {
    }

    /// Once no queue holds the endpoint `a`, as after the close of the one
    /// that was bound to it, an unbound queue can be bound to it again: the
    /// library refuses nothing.
    pub proof fn lemma_rebind_after_close(&self, qd: QDesc, a: SocketAddrV4)
        requires
            self.wf(),
            !self.table().in_use(a),
            self.live(qd),
            self.queue(qd).state == QueueState::Unbound,
            a.ip != IPV4_UNSPECIFIED,
            a.port != 0,
        ensures
            self.bind_refusal(qd, SocketAddr::V4(a)) is None,
    {
    }

    /// Tears the library OS down: every queue leaves the table and the
    /// index, and the queues are given back in the order of their
    /// descriptors. Releasing their transport sockets is the caller's.
    pub fn shutdown(&mut self) -> (r: Vec<NetworkQueue>)
        requires
            old(self).wf(),
        ensures
            final(self).wf(),
            forall|qd: QDesc| !final(self).live(qd),
            final(self).table().ids() == Map::<u64, QDesc>::empty(),
            r@ == crate::qtable::live_queues(old(self).table().slots()),
            final(self).tasks() == old(self).tasks(),
    {
        let queues = self.0.qtable.drain();
        proof {
            Self::lemma_tasks_kept(old(self), self);
        }
        queues
    }

    /// Whether the task `qt` has its result.
    pub fn is_done(&self, qt: QToken) -> (r: bool)
        requires
            self.wf(),
        ensures
            r == done(self.tasks(), qt),
    {
        match self.0.tasks.get(&qt.0) {
            Some(t) => t.result.is_some(),
            None => false,
        }
    }

    /// Harvests the first token of `qts` that has its result, and gives its
    /// position with the descriptor and the result. Gives `None`, and
    /// changes nothing, where none of them has one.
    pub fn harvest_any(&mut self, qts: &Vec<QToken>) -> (r: Option<(usize, QDesc, OperationResult)>)
        requires
            old(self).wf(),
        ensures
            final(self).wf(),
            Self::keeps_live(old(self), final(self), None),
            final(self).table() == old(self).table(),
            r is None ==> (forall|j: int| 0 <= j < qts@.len() ==> !done(old(self).tasks(), qts@[j]))
                && final(self).tasks() == old(self).tasks(),
            r is Some ==> {
                let (i, qd, res) = r->Some_0;
                let qt = qts@[i as int];
                &&& i < qts@.len()
                &&& forall|j: int| 0 <= j < i ==> !done(old(self).tasks(), qts@[j])
                &&& done(old(self).tasks(), qt)
                &&& qd == old(self).tasks()[qt.0].qd
                &&& res == old(self).result_of(qt)
                &&& final(self).tasks() == old(self).tasks().remove(qt.0)
            },
    {
        let mut i: usize = 0;
        while i < qts.len()
            invariant
                *self == *old(self),
                self.wf(),
                i <= qts@.len(),
                forall|j: int| 0 <= j < i ==> !done(self.tasks(), qts@[j]),
            decreases qts@.len() - i,
        {
            if self.is_done(qts[i]) {
                return match self.harvest(qts[i]) {
                    Some((qd, res)) => Some((i, qd, res)),
                    None => None,
                };
            }
            i = i + 1;
        }
        None
    }

    /// A descriptor stays live along any run of calls in which no call
    /// closes it: each step keeps every live descriptor live, but at most
    /// the one whose close it completes.
    pub proof fn lemma_live_until_closed(states: Seq<Self>, excepts: Seq<Option<QDesc>>, qd: QDesc)
        requires
            states.len() == excepts.len() + 1,
            states[0].live(qd),
            forall|i: int|
                0 <= i < excepts.len() ==> Self::keeps_live(&states[i], &states[i + 1], excepts[i])
                    && excepts[i] != Some(qd),
        ensures
            forall|i: int| 0 <= i < states.len() ==> #[trigger] states[i].live(qd),
        decreases excepts.len(),
    {
        if excepts.len() > 0 {
            let n = excepts.len() - 1;
            Self::lemma_live_until_closed(states.drop_last(), excepts.drop_last(), qd);
            assert(states.drop_last()[n].live(qd));
            assert(Self::keeps_live(&states[n], &states[n + 1], excepts[n]));
            assert forall|i: int| 0 <= i < states.len() implies #[trigger] states[i].live(qd) by {
                if i < states.len() - 1 {
                    assert(states.drop_last()[i].live(qd));
                }
            }
        }
    }
}

} // verus!
