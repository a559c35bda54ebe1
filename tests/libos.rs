use demikernel_core::fail::Fail;
use demikernel_core::libos::{NetworkTransport, Request, SharedNetworkLibOS};
use demikernel_core::queue::{QueueState, QueueType};
use demikernel_core::types::{
    Domain, OperationResult, QDesc, QToken, SocketAddr, SocketAddrV4, Type, POP_SIZE_MAX, SOMAXCONN,
};

struct MockTransport {
    next: u64,
    closed: Vec<u64>,
    refuse_bind: bool,
}

impl NetworkTransport for MockTransport {
    fn socket(&mut self, _typ: QueueType) -> Result<u64, Fail> {
        self.next += 1;
        Ok(self.next)
    }

    fn bind(&mut self, _handle: u64, _local: SocketAddrV4) -> Result<(), Fail> {
        if self.refuse_bind {
            Err(Fail::new(libc::EACCES, "refused"))
        } else {
            Ok(())
        }
    }

    fn listen(&mut self, _handle: u64, _backlog: usize) -> Result<(), Fail> {
        Ok(())
    }

    fn hard_close(&mut self, handle: u64) -> Result<(), Fail> {
        self.closed.push(handle);
        Ok(())
    }
}

fn libos() -> SharedNetworkLibOS<MockTransport> {
    SharedNetworkLibOS::new(MockTransport { next: 100, closed: Vec::new(), refuse_bind: false })
}

fn localhost(port: u16) -> SocketAddrV4 {
    SocketAddrV4 { ip: 0x7f00_0001, port }
}

fn v4(port: u16) -> SocketAddr {
    SocketAddr::V4(localhost(port))
}

fn errno<T>(r: Result<T, Fail>) -> i32 {
    match r {
        Ok(_) => panic!("expected an error"),
        Err(e) => e.errno,
    }
}

fn harvest_ok(os: &mut SharedNetworkLibOS<MockTransport>, qt: QToken) -> (QDesc, OperationResult) {
    os.harvest(qt).expect("token should have a result")
}

#[test]
fn socket_ipv6_not_supported() {
    let mut os = libos();
    assert_eq!(errno(os.socket(Domain::Ipv6, Type::Stream, 0)), libc::ENOTSUP);
    assert_eq!(errno(os.socket(Domain::Other(1), Type::Stream, 0)), libc::ENOTSUP);
    assert_eq!(errno(os.socket(Domain::Ipv4, Type::Other(3), 0)), libc::ENOTSUP);
    assert!(!os.is_live(QDesc(0)));
}

#[test]
fn socket_takes_smallest_free_descriptor() {
    let mut os = libos();
    let a = os.socket(Domain::Ipv4, Type::Stream, 0).unwrap();
    let b = os.socket(Domain::Ipv4, Type::Dgram, 0).unwrap();
    let c = os.socket(Domain::Ipv4, Type::Stream, 0).unwrap();
    assert_eq!((a, b, c), (QDesc(0), QDesc(1), QDesc(2)));
    let q = os.get_shared_queue(b).unwrap();
    assert_eq!(q.typ, QueueType::Dgram);
    assert_eq!(q.state, QueueState::Unbound);
    assert_eq!(q.handle, 102);
    let t = os.async_close(b).unwrap();
    assert!(matches!(os.start(t), Some(Request::Close { handle: 102 })));
    assert!(os.complete_close(t, Ok(())));
    assert!(matches!(harvest_ok(&mut os, t), (QDesc(1), OperationResult::Close)));
    assert_eq!(errno(os.get_shared_queue(b)), libc::EBADF);
    assert_eq!(os.socket(Domain::Ipv4, Type::Stream, 0).unwrap(), QDesc(1));
}

#[test]
fn bind_wildcard_and_port_zero_not_supported() {
    let mut os = libos();
    let qd = os.socket(Domain::Ipv4, Type::Stream, 0).unwrap();
    let wildcard = SocketAddr::V4(SocketAddrV4 { ip: 0, port: 8080 });
    assert_eq!(errno(os.bind(qd, wildcard)), libc::ENOTSUP);
    assert_eq!(errno(os.bind(qd, v4(0))), libc::ENOTSUP);
    assert_eq!(errno(os.bind(qd, SocketAddr::V6 { ip: 1, port: 80 })), libc::ENOTSUP);
    assert_eq!(errno(os.bind(QDesc(7), v4(80))), libc::EBADF);
    assert_eq!(os.get_shared_queue(qd).unwrap().state, QueueState::Unbound);
}

#[test]
fn bind_twice_on_one_queue_is_invalid() {
    let mut os = libos();
    let qd = os.socket(Domain::Ipv4, Type::Stream, 0).unwrap();
    os.bind(qd, v4(4000)).unwrap();
    assert_eq!(errno(os.bind(qd, v4(4001))), libc::EINVAL);
    assert!(!os.addr_in_use(localhost(4001)));
}

#[test]
fn bind_refused_by_transport_changes_nothing() {
    let mut os = SharedNetworkLibOS::new(MockTransport {
        next: 0,
        closed: Vec::new(),
        refuse_bind: true,
    });
    let qd = os.socket(Domain::Ipv4, Type::Stream, 0).unwrap();
    assert_eq!(errno(os.bind(qd, v4(4000))), libc::EACCES);
    assert!(!os.addr_in_use(localhost(4000)));
    assert_eq!(os.get_shared_queue(qd).unwrap().local, None);
}

#[test]
fn address_in_use() {
    let mut os = libos();
    let qd1 = os.socket(Domain::Ipv4, Type::Stream, 0).unwrap();
    let qd2 = os.socket(Domain::Ipv4, Type::Stream, 0).unwrap();
    assert!(os.bind(qd1, v4(30000)).is_ok());
    assert!(os.addr_in_use(localhost(30000)));
    assert_eq!(errno(os.bind(qd2, v4(30000))), libc::EADDRINUSE);
    assert_eq!(os.get_shared_queue(qd2).unwrap().state, QueueState::Unbound);
}

#[test]
fn bind_close_bind_again() {
    let mut os = libos();
    let qd1 = os.socket(Domain::Ipv4, Type::Dgram, 0).unwrap();
    os.bind(qd1, v4(5000)).unwrap();
    let t = os.async_close(qd1).unwrap();
    os.start(t).unwrap();
    assert!(os.complete_close(t, Ok(())));
    assert!(!os.addr_in_use(localhost(5000)));
    let qd2 = os.socket(Domain::Ipv4, Type::Dgram, 0).unwrap();
    assert!(os.bind(qd2, v4(5000)).is_ok());
    assert!(os.addr_in_use(localhost(5000)));
}

#[test]
fn listen_backlog_out_of_range() {
    let mut os = libos();
    let qd = os.socket(Domain::Ipv4, Type::Stream, 0).unwrap();
    os.bind(qd, v4(6000)).unwrap();
    assert_eq!(errno(os.listen(qd, 0)), libc::EINVAL);
    assert_eq!(errno(os.listen(qd, SOMAXCONN + 1)), libc::EINVAL);
    assert!(os.listen(qd, SOMAXCONN).is_ok());
    assert_eq!(os.get_shared_queue(qd).unwrap().state, QueueState::Listening);
}

#[test]
fn listen_on_unbound_queue_is_invalid() {
    let mut os = libos();
    let qd = os.socket(Domain::Ipv4, Type::Stream, 0).unwrap();
    assert_eq!(errno(os.listen(qd, 16)), libc::EINVAL);
    assert_eq!(errno(os.listen(QDesc(9), 16)), libc::EBADF);
}

#[test]
fn push_zero_length_buffer() {
    let mut os = libos();
    let qd = os.socket(Domain::Ipv4, Type::Stream, 0).unwrap();
    assert_eq!(errno(os.push(qd, Vec::new())), libc::EINVAL);
    assert_eq!(errno(os.pushto(qd, Vec::new(), v4(1))), libc::EINVAL);
    assert_eq!(errno(os.push(qd, vec![1])), libc::EINVAL);
}

#[test]
fn pop_size_out_of_range() {
    let mut os = libos();
    let qd = os.socket(Domain::Ipv4, Type::Dgram, 0).unwrap();
    os.bind(qd, v4(7000)).unwrap();
    assert_eq!(errno(os.pop(qd, Some(0))), libc::EINVAL);
    assert_eq!(errno(os.pop(qd, Some(POP_SIZE_MAX + 1))), libc::EINVAL);
    let t = os.pop(qd, Some(POP_SIZE_MAX)).unwrap();
    assert!(matches!(os.start(t), Some(Request::Pop { size: Some(POP_SIZE_MAX), .. })));
}

#[test]
fn echo_over_stream() {
    let mut os = libos();
    let server = os.socket(Domain::Ipv4, Type::Stream, 0).unwrap();
    os.bind(server, v4(10000)).unwrap();
    os.listen(server, 16).unwrap();
    let client = os.socket(Domain::Ipv4, Type::Stream, 0).unwrap();
    let t_conn = os.connect(client, v4(10000)).unwrap();
    let t_acc = os.accept(server).unwrap();
    assert_eq!(errno(os.accept(server)), libc::EINVAL);

    assert!(matches!(os.start(t_acc), Some(Request::Accept { handle: 101 })));
    match os.start(t_conn) {
        Some(Request::Connect { handle, remote }) => {
            assert_eq!(handle, 102);
            assert_eq!(remote, localhost(10000));
        },
        other => panic!("unexpected request {:?}", other),
    }
    assert!(os.complete_connect(t_conn, Ok(())));
    let peer = localhost(40000);
    assert!(os.complete_accept(t_acc, Ok((555, peer))));
    let n = match harvest_ok(&mut os, t_acc) {
        (qd, OperationResult::Accept(n, remote)) => {
            assert_eq!(qd, server);
            assert_eq!(remote, peer);
            n
        },
        other => panic!("unexpected result {:?}", other),
    };
    assert_eq!(n, QDesc(2));
    assert!(matches!(harvest_ok(&mut os, t_conn), (_, OperationResult::Connect)));
    assert_eq!(os.get_shared_queue(client).unwrap().state, QueueState::Connected);
    assert_eq!(os.get_shared_queue(n).unwrap().remote, Some(peer));
    assert!(!os.get_shared_queue(server).unwrap().accept_pending);

    let t_pop = os.pop(n, None).unwrap();
    assert!(matches!(os.start(t_pop), Some(Request::Pop { handle: 555, size: None })));
    assert!(os.complete_pop(t_pop, Ok((None, b"abc".to_vec()))));
    match harvest_ok(&mut os, t_pop) {
        (qd, OperationResult::Pop(None, buf)) => {
            assert_eq!(qd, n);
            assert_eq!(buf, b"abc".to_vec());
        },
        other => panic!("unexpected result {:?}", other),
    }

    let t_push = os.push(n, b"abc".to_vec()).unwrap();
    match os.start(t_push) {
        Some(Request::Push { handle, buf, remote }) => {
            assert_eq!(handle, 555);
            assert_eq!(buf, b"abc".to_vec());
            assert_eq!(remote, None);
        },
        other => panic!("unexpected request {:?}", other),
    }
    assert!(os.complete_push(t_push, Ok(())));
    assert!(matches!(harvest_ok(&mut os, t_push), (_, OperationResult::Push)));

    for qd in [n, client] {
        let t = os.async_close(qd).unwrap();
        os.start(t).unwrap();
        assert!(os.complete_close(t, Ok(())));
        assert!(matches!(harvest_ok(&mut os, t), (_, OperationResult::Close)));
        assert!(!os.is_live(qd));
    }
    assert!(os.is_live(server));
}

#[test]
fn datagram_pushto_pop() {
    let mut os = libos();
    let a = os.socket(Domain::Ipv4, Type::Dgram, 0).unwrap();
    let b = os.socket(Domain::Ipv4, Type::Dgram, 0).unwrap();
    os.bind(a, v4(20000)).unwrap();
    os.bind(b, v4(20001)).unwrap();
    let t_push = os.pushto(a, b"hi".to_vec(), v4(20001)).unwrap();
    match os.start(t_push) {
        Some(Request::Push { buf, remote, .. }) => {
            assert_eq!(buf, b"hi".to_vec());
            assert_eq!(remote, Some(localhost(20001)));
        },
        other => panic!("unexpected request {:?}", other),
    }
    assert!(os.complete_push(t_push, Ok(())));
    let t_pop = os.pop(b, None).unwrap();
    os.start(t_pop).unwrap();
    assert!(os.complete_pop(t_pop, Ok((Some(localhost(20000)), b"hi".to_vec()))));
    assert!(matches!(harvest_ok(&mut os, t_push), (_, OperationResult::Push)));
    match harvest_ok(&mut os, t_pop) {
        (qd, OperationResult::Pop(Some(from), buf)) => {
            assert_eq!(qd, b);
            assert_eq!(from, localhost(20000));
            assert_eq!(buf, b"hi".to_vec());
        },
        other => panic!("unexpected result {:?}", other),
    }
}

#[test]
fn pushto_on_stream_queue_is_invalid() {
    let mut os = libos();
    let qd = os.socket(Domain::Ipv4, Type::Stream, 0).unwrap();
    os.bind(qd, v4(8000)).unwrap();
    assert_eq!(errno(os.pushto(qd, vec![1], v4(8001))), libc::EINVAL);
    let d = os.socket(Domain::Ipv4, Type::Dgram, 0).unwrap();
    os.bind(d, v4(8002)).unwrap();
    assert_eq!(errno(os.pushto(d, vec![1], SocketAddr::V6 { ip: 1, port: 1 })), libc::ENOTSUP);
}

#[test]
fn close_races_pending_pop() {
    let mut os = libos();
    let qd = os.socket(Domain::Ipv4, Type::Stream, 0).unwrap();
    let t_conn = os.connect(qd, v4(9000)).unwrap();
    os.start(t_conn).unwrap();
    assert!(os.complete_connect(t_conn, Ok(())));
    let t_pop = os.pop(qd, None).unwrap();
    os.start(t_pop).unwrap();
    let t_close = os.async_close(qd).unwrap();
    assert_eq!(errno(os.pop(qd, None)), libc::EBADF);
    os.start(t_close).unwrap();
    assert!(os.complete_pop(t_pop, Err(Fail::new(libc::ECANCELED, "cancelled"))));
    assert!(os.complete_close(t_close, Ok(())));
    match harvest_ok(&mut os, t_pop) {
        (_, OperationResult::Failed(e)) => assert_eq!(e.errno, libc::ECANCELED),
        other => panic!("unexpected result {:?}", other),
    }
    assert!(matches!(harvest_ok(&mut os, t_close), (_, OperationResult::Close)));
}

#[test]
fn pop_completing_after_close_fails_with_ebadf() {
    let mut os = libos();
    let qd = os.socket(Domain::Ipv4, Type::Dgram, 0).unwrap();
    os.bind(qd, v4(9100)).unwrap();
    let t_pop = os.pop(qd, None).unwrap();
    os.start(t_pop).unwrap();
    let t_close = os.async_close(qd).unwrap();
    os.start(t_close).unwrap();
    assert!(os.complete_close(t_close, Ok(())));
    let other = os.socket(Domain::Ipv4, Type::Dgram, 0).unwrap();
    assert_eq!(other, qd);
    assert!(os.complete_pop(t_pop, Ok((None, b"late".to_vec()))));
    match harvest_ok(&mut os, t_pop) {
        (_, OperationResult::Failed(e)) => assert_eq!(e.errno, libc::EBADF),
        other => panic!("unexpected result {:?}", other),
    }
}

#[test]
fn start_after_close_fails_with_ebadf() {
    let mut os = libos();
    let qd = os.socket(Domain::Ipv4, Type::Dgram, 0).unwrap();
    os.bind(qd, v4(9200)).unwrap();
    let t_pop = os.pop(qd, None).unwrap();
    let t_close = os.async_close(qd).unwrap();
    os.start(t_close).unwrap();
    assert!(os.complete_close(t_close, Ok(())));
    assert!(os.start(t_pop).is_none());
    match harvest_ok(&mut os, t_pop) {
        (_, OperationResult::Failed(e)) => assert_eq!(e.errno, libc::EBADF),
        other => panic!("unexpected result {:?}", other),
    }
}

#[test]
fn close_of_closing_queue_is_ebadf() {
    let mut os = libos();
    let qd = os.socket(Domain::Ipv4, Type::Stream, 0).unwrap();
    let t = os.async_close(qd).unwrap();
    assert_eq!(errno(os.async_close(qd)), libc::EBADF);
    assert_eq!(os.get_shared_queue(qd).unwrap().state, QueueState::Closing);
    os.start(t).unwrap();
    assert!(os.complete_close(t, Err(Fail::new(libc::EIO, "io"))));
    assert_eq!(os.get_shared_queue(qd).unwrap().state, QueueState::Unbound);
    assert!(os.async_close(qd).is_ok());
}

#[test]
fn harvest_twice_fails() {
    let mut os = libos();
    let qd = os.socket(Domain::Ipv4, Type::Stream, 0).unwrap();
    let t = os.async_close(qd).unwrap();
    assert!(os.harvest(t).is_none());
    os.start(t).unwrap();
    assert!(os.start(t).is_none());
    assert!(os.complete_close(t, Ok(())));
    assert!(!os.complete_close(t, Ok(())));
    assert!(os.harvest(t).is_some());
    assert!(os.harvest(t).is_none());
    assert!(os.harvest(QToken(12345)).is_none());
}

#[test]
fn completion_of_wrong_kind_is_ignored() {
    let mut os = libos();
    let qd = os.socket(Domain::Ipv4, Type::Dgram, 0).unwrap();
    os.bind(qd, v4(9300)).unwrap();
    let t = os.pop(qd, None).unwrap();
    assert!(!os.complete_push(t, Ok(())));
    assert!(!os.complete_close(t, Ok(())));
    assert!(os.harvest(t).is_none());
    assert!(os.complete_pop(t, Ok((None, vec![7]))));
}

#[test]
fn failed_connect_returns_to_bound() {
    let mut os = libos();
    let qd = os.socket(Domain::Ipv4, Type::Stream, 0).unwrap();
    os.bind(qd, v4(9400)).unwrap();
    let t = os.connect(qd, v4(9401)).unwrap();
    assert_eq!(os.get_shared_queue(qd).unwrap().state, QueueState::Connecting);
    assert_eq!(errno(os.connect(qd, v4(9401))), libc::EINVAL);
    os.start(t).unwrap();
    assert!(os.complete_connect(t, Err(Fail::new(libc::ECONNREFUSED, "refused"))));
    assert_eq!(os.get_shared_queue(qd).unwrap().state, QueueState::Bound);
    match harvest_ok(&mut os, t) {
        (_, OperationResult::Failed(e)) => assert_eq!(e.errno, libc::ECONNREFUSED),
        other => panic!("unexpected result {:?}", other),
    }
}

#[test]
fn accept_after_listener_closed_releases_connection() {
    let mut os = libos();
    let server = os.socket(Domain::Ipv4, Type::Stream, 0).unwrap();
    os.bind(server, v4(9500)).unwrap();
    os.listen(server, 4).unwrap();
    let t_acc = os.accept(server).unwrap();
    os.start(t_acc).unwrap();
    let t_close = os.async_close(server).unwrap();
    os.start(t_close).unwrap();
    assert!(os.complete_close(t_close, Ok(())));
    assert!(os.complete_accept(t_acc, Ok((777, localhost(1)))));
    match harvest_ok(&mut os, t_acc) {
        (_, OperationResult::Failed(e)) => assert_eq!(e.errno, libc::EBADF),
        other => panic!("unexpected result {:?}", other),
    }
    assert!(!os.is_live(QDesc(1)));
}

#[test]
fn shutdown_releases_every_queue() {
    let mut os = libos();
    let a = os.socket(Domain::Ipv4, Type::Stream, 0).unwrap();
    let b = os.socket(Domain::Ipv4, Type::Dgram, 0).unwrap();
    os.bind(b, v4(9600)).unwrap();
    let queues = os.shutdown();
    assert_eq!(queues.len(), 2);
    assert_eq!(queues[0].handle, 101);
    assert_eq!(queues[1].handle, 102);
    assert!(!os.is_live(a));
    assert!(!os.is_live(b));
    assert!(!os.addr_in_use(localhost(9600)));
}

#[test]
fn harvest_any_takes_first_finished() {
    let mut os = libos();
    let qd = os.socket(Domain::Ipv4, Type::Dgram, 0).unwrap();
    os.bind(qd, v4(9700)).unwrap();
    let t1 = os.pop(qd, None).unwrap();
    let t2 = os.pop(qd, Some(4)).unwrap();
    let t3 = os.pushto(qd, vec![1, 2], v4(9701)).unwrap();
    let tokens = vec![t1, t2, t3];
    assert!(os.harvest_any(&tokens).is_none());
    assert!(os.complete_push(t3, Ok(())));
    assert!(os.complete_pop(t2, Ok((None, vec![5]))));
    match os.harvest_any(&tokens) {
        Some((1, d, OperationResult::Pop(None, buf))) => {
            assert_eq!(d, qd);
            assert_eq!(buf, vec![5]);
        },
        other => panic!("unexpected result {:?}", other),
    }
    assert!(matches!(os.harvest_any(&tokens), Some((2, _, OperationResult::Push))));
    assert!(os.harvest_any(&tokens).is_none());
    assert!(!os.is_done(t1));
}

#[test]
fn complete_socket_uses_given_handle() {
    let mut os = libos();
    let a = os.complete_socket(QueueType::Dgram, 42).unwrap();
    let b = os.complete_socket(QueueType::Stream, 43).unwrap();
    assert_eq!((a, b), (QDesc(0), QDesc(1)));
    let q = os.get_shared_queue(a).unwrap();
    assert_eq!(q.handle, 42);
    assert_eq!(q.typ, QueueType::Dgram);
    assert_eq!(q.state, QueueState::Unbound);
    assert_ne!(q.id, os.get_shared_queue(b).unwrap().id);
}

#[test]
fn complete_bind_follows_transport_answer() {
    let mut os = libos();
    let qd = os.socket(Domain::Ipv4, Type::Dgram, 0).unwrap();
    let r = os.complete_bind(qd, localhost(9800), Err(Fail::new(libc::EACCES, "denied")));
    assert_eq!(errno(r), libc::EACCES);
    assert!(!os.addr_in_use(localhost(9800)));
    assert_eq!(os.get_shared_queue(qd).unwrap().state, QueueState::Unbound);
    assert!(os.complete_bind(qd, localhost(9800), Ok(())).is_ok());
    assert!(os.addr_in_use(localhost(9800)));
    let q = os.get_shared_queue(qd).unwrap();
    assert_eq!(q.state, QueueState::Bound);
    assert_eq!(q.local, Some(localhost(9800)));
}

#[test]
fn complete_listen_follows_transport_answer() {
    let mut os = libos();
    let qd = os.socket(Domain::Ipv4, Type::Stream, 0).unwrap();
    os.bind(qd, v4(9810)).unwrap();
    let r = os.complete_listen(qd, Err(Fail::new(libc::EOPNOTSUPP, "no")));
    assert_eq!(errno(r), libc::EOPNOTSUPP);
    assert_eq!(os.get_shared_queue(qd).unwrap().state, QueueState::Bound);
    assert!(os.complete_listen(qd, Ok(())).is_ok());
    assert_eq!(os.get_shared_queue(qd).unwrap().state, QueueState::Listening);
}

#[test]
fn connect_ending_during_failed_close_is_kept() {
    let mut os = libos();
    let qd = os.socket(Domain::Ipv4, Type::Stream, 0).unwrap();
    let t_conn = os.connect(qd, v4(9900)).unwrap();
    os.start(t_conn).unwrap();
    let t_close = os.async_close(qd).unwrap();
    os.start(t_close).unwrap();
    assert!(os.complete_connect(t_conn, Ok(())));
    assert_eq!(os.get_shared_queue(qd).unwrap().state, QueueState::Closing);
    assert!(os.complete_close(t_close, Err(Fail::new(libc::EIO, "io"))));
    let q = os.get_shared_queue(qd).unwrap();
    assert_eq!(q.state, QueueState::Connected);
    assert_eq!(q.remote, Some(localhost(9900)));
    assert!(os.push(qd, vec![1]).is_ok());
}

#[test]
fn connect_still_in_flight_after_failed_close() {
    let mut os = libos();
    let qd = os.socket(Domain::Ipv4, Type::Stream, 0).unwrap();
    let t_conn = os.connect(qd, v4(9901)).unwrap();
    let t_close = os.async_close(qd).unwrap();
    assert!(os.complete_close(t_close, Err(Fail::new(libc::EIO, "io"))));
    assert_eq!(os.get_shared_queue(qd).unwrap().state, QueueState::Connecting);
    assert!(os.complete_connect(t_conn, Err(Fail::new(libc::ECONNREFUSED, "refused"))));
    assert_eq!(os.get_shared_queue(qd).unwrap().state, QueueState::Unbound);
}

#[test]
fn checks_give_transport_arguments() {
    let mut os = libos();
    assert_eq!(os.check_socket(Domain::Ipv4, Type::Dgram).unwrap(), QueueType::Dgram);
    assert_eq!(os.check_socket(Domain::Ipv4, Type::Stream).unwrap(), QueueType::Stream);
    assert_eq!(errno(os.check_socket(Domain::Ipv6, Type::Dgram)), libc::ENOTSUP);
    let qd = os.socket(Domain::Ipv4, Type::Stream, 0).unwrap();
    assert_eq!(os.check_bind(qd, v4(9950)).unwrap(), (101, localhost(9950)));
    assert_eq!(errno(os.check_bind(qd, v4(0))), libc::ENOTSUP);
    assert_eq!(errno(os.check_listen(qd, 8)), libc::EINVAL);
    os.bind(qd, v4(9950)).unwrap();
    assert_eq!(errno(os.check_bind(qd, v4(9950))), libc::EADDRINUSE);
    assert_eq!(os.check_listen(qd, 8).unwrap(), 101);
    assert_eq!(errno(os.check_listen(qd, 0)), libc::EINVAL);
}
