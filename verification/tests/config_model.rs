use acceptor::config::{Balance, Tcp, Worker};
use acceptor::queue::{SessionQueues, Signal, SignalQueue};
use acceptor::session::{Session, SessionKind};
use acceptor::stream::{StreamError, TcpStream};

fn stream(fd: u64, napi: u32) -> TcpStream {
    TcpStream::try_from_raw(fd, napi, true).unwrap()
}

fn plain(fd: u64) -> Session {
    Session::plain_with_capacity(stream(fd, 0), 1024, 4096)
}

#[test]
fn tcp_defaults() {
    let tcp = Tcp::default();
    assert_eq!(tcp.backlog(), 128);
    assert_eq!(tcp.poolsize(), 0);
    assert_eq!(tcp.priority(), 0);
}

#[test]
fn tcp_explicit_values() {
    let tcp = Tcp::new(64, 2, 5);
    assert_eq!(tcp.backlog(), 64);
    assert_eq!(tcp.poolsize(), 2);
    assert_eq!(tcp.priority(), 5);
}

#[test]
fn worker_defaults() {
    let worker = Worker::default();
    assert_eq!(worker.timeout(), 100);
    assert_eq!(worker.nevent(), 1024);
    assert_eq!(worker.threads(), 1);
    assert!(matches!(worker.balance(), Balance::Random));
}

#[test]
fn worker_set_threads() {
    let mut worker = Worker::default();
    worker.set_threads(4);
    assert_eq!(worker.threads(), 4);
    assert_eq!(worker.timeout(), 100);
    assert_eq!(worker.nevent(), 1024);
}

#[test]
fn stream_rejects_unconnected() {
    assert_eq!(
        TcpStream::try_from_raw(3, 0, false),
        Err(StreamError::NotConnected)
    );
}

#[test]
fn stream_counts_reads_and_writes() {
    let mut s = stream(3, 0);
    s.record_read(100);
    s.record_read(20);
    assert_eq!(s.tcp_recv_byte, 120);
    s.record_write(50, 50);
    assert_eq!(s.tcp_send_byte, 50);
    assert_eq!(s.tcp_send_partial, 0);
    s.record_write(10, 30);
    assert_eq!(s.tcp_send_byte, 60);
    assert_eq!(s.tcp_send_partial, 1);
}

#[test]
fn stream_napi_id_absent_when_zero() {
    assert_eq!(stream(3, 0).napi_id(), None);
    assert_eq!(stream(3, 7).napi_id(), Some(7));
}

#[test]
fn stream_set_priority() {
    let mut s = stream(3, 0);
    s.set_priority(6);
    assert_eq!(s.priority, 6);
}

#[test]
fn session_shapes() {
    let p = Session::plain_with_capacity(stream(1, 0), 16, 64);
    assert_eq!(p.kind, SessionKind::Plain);
    assert_eq!(p.read_buffer.capacity, 16);
    assert_eq!(p.read_buffer.max_capacity, 64);
    let mut h = Session::handshaking_with_capacity(stream(2, 0), 16, 64);
    assert_eq!(h.kind, SessionKind::Handshaking);
    h.complete_handshake();
    assert_eq!(h.kind, SessionKind::EstablishedTls);
    let t = Session::tls_with_capacity(stream(3, 0), 16, 64);
    assert_eq!(t.kind, SessionKind::EstablishedTls);
}

#[test]
fn signal_queue_fifo_and_bound() {
    let mut q = SignalQueue::with_capacity(2);
    assert_eq!(q.try_send(Signal::FlushAll), Ok(()));
    assert_eq!(q.try_send(Signal::Shutdown), Ok(()));
    assert_eq!(q.try_send(Signal::FlushAll), Err(()));
    assert_eq!(q.try_recv(), Some(Signal::FlushAll));
    assert_eq!(q.try_recv(), Some(Signal::Shutdown));
    assert_eq!(q.try_recv(), None);
}

#[test]
fn session_queues_target_specific_worker() {
    let mut qs = SessionQueues::with_capacity(2, 1);
    assert!(qs.try_send_to(1, plain(10)).is_ok());
    assert_eq!(qs.queues[0].len(), 0);
    assert_eq!(qs.queues[1].len(), 1);
    // worker 1 is full now: the session comes back
    let rejected = qs.try_send_to(1, plain(11));
    assert!(rejected.is_err());
    assert_eq!(rejected.unwrap_err().stream.fd, 11);
    assert_eq!(qs.queues[1].len(), 1);
}

#[test]
fn session_queues_any_scans_from_pick() {
    let mut qs = SessionQueues::with_capacity(3, 1);
    assert_eq!(qs.try_send_any(plain(1), 1).unwrap(), 1);
    // worker 1 is full: the scan from 1 wraps to 2
    assert_eq!(qs.try_send_any(plain(2), 1).unwrap(), 2);
    assert_eq!(qs.try_send_any(plain(3), 1).unwrap(), 0);
    // every queue is full: the send fails
    assert!(qs.try_send_any(plain(4), 1).is_err());
}
