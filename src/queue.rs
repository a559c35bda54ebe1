use vstd::prelude::*;

use crate::fail::{code_ebadf, code_einval, ebadf, einval, Fail};
use crate::types::SocketAddrV4;

verus! {

/// The kind of a queue: a byte stream or datagrams.
#[derive(Clone, Copy, Debug, PartialEq, Eq, Structural)]
pub enum QueueType {
    Stream,
    Dgram,
}

/// Where a queue stands in its life. A closed queue is no longer in the
/// table, so no live queue is ever in a closed state.
#[derive(Clone, Copy, Debug, PartialEq, Eq, Structural)]
pub enum QueueState {
    Unbound,
    Bound,
    Listening,
    Connecting,
    Connected,
    Closing,
}

/// The operations that the state machine guards.
#[derive(Clone, Copy, Debug, PartialEq, Eq, Structural)]
pub enum SocketOp {
    Bind,
    Listen,
    Accept,
    Connect,
    Push,
    PushTo,
    Pop,
    Close,
}

/// A socket-like queue: its kind, its state, the transport's handle for it,
/// the endpoints it is bound and connected to, and whether an accept or a
/// connect is in flight on it.
#[derive(Clone, Copy, Debug, PartialEq, Eq, Structural)]
pub struct NetworkQueue {
    /// A serial number; they are handed out in increasing order, so a
    /// descriptor that is used again names a queue with a new one.
    pub id: u64,
    pub typ: QueueType,
    pub state: QueueState,
    pub handle: u64,
    /// The endpoint given to `bind`, if any.
    pub local: Option<SocketAddrV4>,
    pub remote: Option<SocketAddrV4>,
    pub accept_pending: bool,
    pub connect_pending: bool,
}

/// Whether the state machine lets `op` start on a queue like `q`.
pub open spec fn op_allowed(q: NetworkQueue, op: SocketOp) -> bool {
    match op {
        SocketOp::Bind => q.state == QueueState::Unbound,
        SocketOp::Listen => q.state == QueueState::Bound,
        SocketOp::Accept => q.state == QueueState::Listening && !q.accept_pending,
        SocketOp::Connect => q.state == QueueState::Unbound || q.state == QueueState::Bound,
        SocketOp::Push => q.state == QueueState::Connected,
        SocketOp::PushTo => q.typ == QueueType::Dgram && (q.state == QueueState::Bound
            || q.state == QueueState::Connected),
        SocketOp::Pop => q.state == QueueState::Connected || (q.typ == QueueType::Dgram
            && q.state == QueueState::Bound),
        SocketOp::Close => q.state != QueueState::Closing,
    }
}

/// The error number of a refused operation: a closing queue takes no new
/// operation at all, any other refusal is an invalid argument.
pub open spec fn refusal_code(q: NetworkQueue) -> i32 {
    if q.state == QueueState::Closing {
        code_ebadf()
    } else {
        code_einval()
    }
}

/// The queue `q` once the connect in flight on it to `remote` is done,
/// `ok` telling whether it succeeded. A connecting queue becomes connected,
/// or goes back to bound or unbound as its local endpoint says; a queue
/// that is closing meanwhile keeps its state but records the peer.
pub open spec fn after_connect(q: NetworkQueue, remote: SocketAddrV4, ok: bool) -> NetworkQueue {
    if q.state == QueueState::Connecting {
        if ok {
            NetworkQueue {
                state: QueueState::Connected,
                remote: Some(remote),
                connect_pending: false,
                ..q
            }
        } else {
            NetworkQueue {
                state: if q.local is Some {
                    QueueState::Bound
                } else {
                    QueueState::Unbound
                },
                connect_pending: false,
                ..q
            }
        }
    } else if ok {
        NetworkQueue { remote: Some(remote), connect_pending: false, ..q }
    } else {
        NetworkQueue { connect_pending: false, ..q }
    }
}

/// The state that a queue `q` goes back to when its close fails, `prev`
/// being its state when the close was scheduled. A connect that ended
/// meanwhile is taken into account: the queue is then connected if it has
/// a peer, else bound or unbound.
pub open spec fn restored_state(prev: QueueState, q: NetworkQueue) -> QueueState {
    if prev == QueueState::Connecting && !q.connect_pending {
        if q.remote is Some {
            QueueState::Connected
        } else if q.local is Some {
            QueueState::Bound
        } else {
            QueueState::Unbound
        }
    } else if prev == QueueState::Unbound && q.local is Some {
        QueueState::Bound
    } else {
        prev
    }
}

impl NetworkQueue {
    /// This queue once the connect in flight on it is done.
    pub fn connect_done(&self, remote: SocketAddrV4, ok: bool) -> (r: NetworkQueue)
        ensures
            r == after_connect(*self, remote, ok),
    {
        let mut q = *self;
        q.connect_pending = false;
        if self.state == QueueState::Connecting {
            if ok {
                q.state = QueueState::Connected;
                q.remote = Some(remote);
            } else if self.local.is_some() {
                q.state = QueueState::Bound;
            } else {
                q.state = QueueState::Unbound;
            }
        } else if ok {
            q.remote = Some(remote);
        }
        q
    }

    /// The state this queue goes back to when its close fails.
    pub fn restore_state(&self, prev: QueueState) -> (r: QueueState)
        ensures
            r == restored_state(prev, *self),
    {
        if prev == QueueState::Connecting && !self.connect_pending {
            if self.remote.is_some() {
                QueueState::Connected
            } else if self.local.is_some() {
                QueueState::Bound
            } else {
                QueueState::Unbound
            }
        } else if prev == QueueState::Unbound && self.local.is_some() {
            QueueState::Bound
        } else {
            prev
        }
    }

    /// A fresh queue of the given kind over a transport handle: unbound,
    /// with no endpoint and nothing in flight.
    pub fn new(id: u64, typ: QueueType, handle: u64) -> (r: NetworkQueue)
        ensures
            r == (NetworkQueue {
                id,
                typ,
                state: QueueState::Unbound,
                handle,
                local: None,
                remote: None,
                accept_pending: false,
                connect_pending: false,
            }),
    {
        NetworkQueue {
            id,
            typ,
            state: QueueState::Unbound,
            handle,
            local: None,
            remote: None,
            accept_pending: false,
            connect_pending: false,
        }
    }

    /// Checks that `op` may start in this queue's present state.
    pub fn check(&self, op: SocketOp) -> (r: Result<(), Fail>)
        ensures
            r is Ok <==> op_allowed(*self, op),
            r is Err ==> r->Err_0.errno == refusal_code(*self),
    {
        let allowed = match op {
            SocketOp::Bind => self.state == QueueState::Unbound,
            SocketOp::Listen => self.state == QueueState::Bound,
            SocketOp::Accept => self.state == QueueState::Listening && !self.accept_pending,
            SocketOp::Connect => self.state == QueueState::Unbound || self.state
                == QueueState::Bound,
            SocketOp::Push => self.state == QueueState::Connected,
            SocketOp::PushTo => self.typ == QueueType::Dgram && (self.state == QueueState::Bound
                || self.state == QueueState::Connected),
            SocketOp::Pop => self.state == QueueState::Connected || (self.typ == QueueType::Dgram
                && self.state == QueueState::Bound),
            SocketOp::Close => self.state != QueueState::Closing,
        };
        if allowed {
            Ok(())
        } else if self.state == QueueState::Closing {
            Err(Fail::new(ebadf(), "queue is closing"))
        } else {
            Err(Fail::new(einval(), "operation not allowed in the queue's present state"))
        }
    }
}

} // verus!
