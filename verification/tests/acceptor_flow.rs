use acceptor::config::{Balance, Tcp, Worker};
use acceptor::listener::{
    AcceptAction, AcceptedConn, ConfigError, Listener, ListenerBuilder, Placement, PolledEvent,
    TlsStatus,
};
use acceptor::poller::{LISTENER_TOKEN, WAKER_TOKEN};
use acceptor::queue::{SessionQueues, Signal, SignalQueue};
use acceptor::session::SessionKind;
use acceptor::stream::TcpStream;

fn build(workers: usize, balance: Balance, priority: u32, tls: bool, capacity: usize) -> Listener {
    let worker = Worker::new(100, 1024, workers, balance);
    let tcp = Tcp::new(128, 0, priority);
    let builder = ListenerBuilder::new(&worker, &tcp, 1024, 100, tls, 64 * 1024).unwrap();
    builder.build(
        SignalQueue::with_capacity(16),
        SessionQueues::with_capacity(workers, capacity),
    )
}

fn conn(fd: u64, napi_id: u32, tls: Option<TlsStatus>) -> Option<AcceptedConn> {
    Some(AcceptedConn {
        fd,
        napi_id,
        tls,
        registered: true,
        pick: 0,
    })
}

#[test]
fn builder_rejects_bad_config() {
    let tcp = Tcp::default();
    let no_workers = Worker::new(100, 1024, 0, Balance::Random);
    assert_eq!(
        ListenerBuilder::new(&no_workers, &tcp, 1024, 100, false, 1024).unwrap_err(),
        ConfigError::NoWorkers
    );
    let worker = Worker::default();
    assert_eq!(
        ListenerBuilder::new(&worker, &tcp, 0, 100, false, 1024).unwrap_err(),
        ConfigError::BadNevent
    );
    assert_eq!(
        ListenerBuilder::new(&worker, &tcp, 1024, 60001, false, 1024).unwrap_err(),
        ConfigError::BadTimeout
    );
}

#[test]
fn plain_random_single_worker() {
    // balance=Random, workers=1, TLS absent, priority=3: one connect lands
    // a plain session on worker 0, with the priority set before anything
    // is enqueued and no accept error counted.
    let mut l = build(1, Balance::Random, 3, false, 8);
    let acts = l.do_accept(conn(9, 0, None));
    assert_eq!(acts.len(), 3);
    assert_eq!(acts[0], AcceptAction::SetPriority { fd: 9, value: 3 });
    assert_eq!(acts[1], AcceptAction::EnqueueTo { worker: 0 });
    assert_eq!(acts[2], AcceptAction::ReregisterListener);
    assert_eq!(l.session_queue.queues[0].len(), 1);
    let session = &l.session_queue.queues[0][0];
    assert_eq!(session.kind, SessionKind::Plain);
    assert_eq!(session.stream.priority, 3);
    assert_eq!(l.counters.tcp_accept_ex, 0);
}

#[test]
fn queues_stable_napi_id_pins_worker() {
    // Queues balance, two workers, three connects with NAPI id 7: every
    // session arrives at worker 0 (first-seen position 0 mod 2), and the
    // NAPI map holds just [7].
    let mut l = build(2, Balance::Queues, 0, false, 8);
    for fd in [1u64, 2, 3] {
        let acts = l.do_accept(conn(fd, 7, None));
        assert_eq!(acts[1], AcceptAction::EnqueueTo { worker: 0 });
    }
    assert_eq!(l.session_queue.queues[0].len(), 3);
    assert_eq!(l.session_queue.queues[1].len(), 0);
    assert_eq!(l.napi_ids, vec![7]);
}

#[test]
fn queues_mixed_napi_ids_spread_workers() {
    // NAPI ids 7 then 9: first session to worker 0, second to worker 1,
    // map [7, 9].
    let mut l = build(2, Balance::Queues, 0, false, 8);
    let acts = l.do_accept(conn(1, 7, None));
    assert_eq!(acts[1], AcceptAction::EnqueueTo { worker: 0 });
    let acts = l.do_accept(conn(2, 9, None));
    assert_eq!(acts[1], AcceptAction::EnqueueTo { worker: 1 });
    assert_eq!(l.session_queue.queues[0].len(), 1);
    assert_eq!(l.session_queue.queues[1].len(), 1);
    assert_eq!(l.napi_ids, vec![7, 9]);
}

#[test]
fn queues_napi_zero_falls_back_to_random() {
    let mut l = build(2, Balance::Queues, 0, false, 8);
    let acts = l.do_accept(conn(1, 0, None));
    assert_eq!(acts[1], AcceptAction::EnqueueTo { worker: 0 });
    assert!(l.napi_ids.is_empty());
}

#[test]
fn napi_map_stores_distinct_ids() {
    // Observing an already-present id is a no-op on the map.
    let mut l = build(2, Balance::Queues, 0, false, 8);
    l.do_accept(conn(1, 7, None));
    l.do_accept(conn(2, 9, None));
    l.do_accept(conn(3, 7, None));
    assert_eq!(l.napi_ids, vec![7, 9]);
}

#[test]
fn queue_full_drops_and_counts() {
    // A full target queue does not crash the listener: the session is
    // dropped and the accept-error counter grows.
    let mut l = build(1, Balance::Random, 0, false, 1);
    let acts = l.do_accept(conn(1, 0, None));
    assert_eq!(acts[1], AcceptAction::EnqueueTo { worker: 0 });
    let acts = l.do_accept(conn(2, 0, None));
    assert_eq!(acts[1], AcceptAction::DropConn);
    assert_eq!(l.counters.tcp_accept_ex, 1);
    assert_eq!(l.session_queue.queues[0].len(), 1);
}

#[test]
fn queue_full_under_affinity_drops_and_counts() {
    let mut l = build(1, Balance::Queues, 0, false, 1);
    assert_eq!(
        l.do_accept(conn(1, 5, None))[1],
        AcceptAction::EnqueueTo { worker: 0 }
    );
    assert_eq!(l.do_accept(conn(2, 5, None))[1], AcceptAction::DropConn);
    assert_eq!(l.counters.tcp_accept_ex, 1);
}

#[test]
fn tls_sync_complete_enqueues_established() {
    // TLS configured, handshake completes inside accept: one established
    // session is enqueued and no token is consumed in the slab.
    let mut l = build(1, Balance::Random, 0, true, 8);
    let acts = l.do_accept(conn(1, 0, Some(TlsStatus::Established)));
    assert_eq!(acts[1], AcceptAction::EnqueueTo { worker: 0 });
    assert_eq!(l.session_queue.queues[0].len(), 1);
    assert_eq!(l.session_queue.queues[0][0].kind, SessionKind::EstablishedTls);
    assert_eq!(l.slab.len(), 0);
    assert_eq!(l.slab.next_token, 0);
}

#[test]
fn tls_async_handshake_registers_then_dispatches() {
    // The handshake returns would-block on accept, then completes on the
    // next readable event: the session takes a fresh token, is removed
    // and enqueued, and the slab returns to empty.
    let mut l = build(1, Balance::Random, 0, true, 8);
    let acts = l.do_accept(conn(1, 0, Some(TlsStatus::WouldBlock)));
    assert_eq!(acts[1], AcceptAction::RegisterHandshake { token: 0 });
    assert_eq!(l.slab.len(), 1);
    assert_eq!(l.slab.next_token, 1);
    assert_eq!(l.session_queue.queues[0].len(), 0);

    l.handle_session_event(0, false, false, true, Some(TlsStatus::Established), 0);
    assert_eq!(l.slab.len(), 0);
    assert_eq!(l.session_queue.queues[0].len(), 1);
    assert_eq!(l.session_queue.queues[0][0].kind, SessionKind::EstablishedTls);
    assert_eq!(l.counters.server_event_read, 1);
    assert_eq!(l.counters.tcp_accept_ex, 0);
}

#[test]
fn tls_fatal_on_accept_counts_error() {
    let mut l = build(1, Balance::Random, 0, true, 8);
    let acts = l.do_accept(conn(1, 0, Some(TlsStatus::Fatal)));
    assert_eq!(acts[1], AcceptAction::DropConn);
    assert_eq!(l.counters.tcp_accept_ex, 1);
    assert_eq!(l.slab.len(), 0);
    assert_eq!(l.session_queue.queues[0].len(), 0);
}

#[test]
fn handshake_would_block_leaves_session_registered() {
    let mut l = build(1, Balance::Random, 0, true, 8);
    l.do_accept(conn(1, 0, Some(TlsStatus::WouldBlock)));
    l.handle_session_event(0, false, true, true, Some(TlsStatus::WouldBlock), 0);
    assert_eq!(l.slab.len(), 1);
    assert_eq!(l.counters.server_event_write, 1);
    assert_eq!(l.counters.server_event_read, 1);
    assert_eq!(l.session_queue.queues[0].len(), 0);
}

#[test]
fn handshake_error_event_drops_session() {
    let mut l = build(1, Balance::Random, 0, true, 8);
    l.do_accept(conn(1, 0, Some(TlsStatus::WouldBlock)));
    l.handle_session_event(0, true, false, false, None, 0);
    assert_eq!(l.slab.len(), 0);
    assert_eq!(l.counters.server_event_error, 1);
    assert_eq!(l.counters.tcp_accept_ex, 1);
    assert_eq!(l.session_queue.queues[0].len(), 0);
}

#[test]
fn accept_failure_changes_nothing() {
    // EAGAIN on accept is silently ignored; a later accept behaves as the
    // first would have (re-registration has no accept-visible effect).
    let mut l = build(1, Balance::Random, 3, false, 8);
    let acts = l.do_accept(None);
    assert!(acts.is_empty());
    assert_eq!(l.counters.tcp_accept_ex, 0);
    let acts = l.do_accept(conn(1, 0, None));
    assert_eq!(acts[1], AcceptAction::EnqueueTo { worker: 0 });
}

#[test]
fn drain_signals_flush_is_noop_shutdown_stops() {
    let mut l = build(1, Balance::Random, 0, false, 8);
    l.signal_queue.try_send(Signal::FlushAll).unwrap();
    assert!(!l.drain_signals());
    l.signal_queue.try_send(Signal::FlushAll).unwrap();
    l.signal_queue.try_send(Signal::Shutdown).unwrap();
    assert!(l.drain_signals());
}

#[test]
fn run_cycle_counts_loops_and_events() {
    let mut l = build(1, Balance::Random, 0, false, 8);
    let batch = vec![
        PolledEvent::ListenerReady { conn: conn(1, 0, None) },
        PolledEvent::ListenerReady { conn: conn(2, 0, None) },
    ];
    assert!(!l.run_cycle(&batch));
    assert_eq!(l.counters.server_event_loop, 1);
    assert_eq!(l.counters.server_event_total, 2);
    let empty: Vec<PolledEvent> = vec![];
    assert!(!l.run_cycle(&empty));
    assert_eq!(l.counters.server_event_loop, 2);
    assert_eq!(l.counters.server_event_total, 2);
    assert_eq!(l.session_queue.queues[0].len(), 2);
}

#[test]
fn shutdown_stops_run_within_one_cycle() {
    // With an active handshaking session, a delivered Shutdown makes the
    // cycle that observes the waker return, and nothing more is enqueued.
    let mut l = build(1, Balance::Random, 0, true, 8);
    l.do_accept(conn(1, 0, Some(TlsStatus::WouldBlock)));
    assert_eq!(l.slab.len(), 1);
    l.signal_queue.try_send(Signal::Shutdown).unwrap();
    let batch = vec![
        PolledEvent::WakerReady,
        // an event after the stopping one: it must not be processed
        PolledEvent::SessionReady {
            token: 0,
            is_error: false,
            is_writable: false,
            is_readable: true,
            handshake: Some(TlsStatus::Established),
            pick: 0,
        },
    ];
    assert!(l.run_cycle(&batch));
    assert_eq!(l.session_queue.queues[0].len(), 0);
    assert_eq!(l.slab.len(), 1);
}

#[test]
fn waker_without_shutdown_continues() {
    let mut l = build(1, Balance::Random, 0, false, 8);
    l.signal_queue.try_send(Signal::FlushAll).unwrap();
    let batch = vec![PolledEvent::WakerReady];
    assert!(!l.run_cycle(&batch));
    assert_eq!(l.signal_queue.items.len(), 0);
}

#[test]
fn queues_single_worker_always_worker_zero() {
    // Queues balance with one worker degenerates to always-worker-0,
    // whatever NAPI ids the kernel reports.
    let mut l = build(1, Balance::Queues, 0, false, 16);
    for (fd, napi) in [(1u64, 7u32), (2, 9), (3, 7), (4, 1000)] {
        let acts = l.do_accept(conn(fd, napi, None));
        assert_eq!(acts[1], AcceptAction::EnqueueTo { worker: 0 });
    }
    assert_eq!(l.session_queue.queues[0].len(), 4);
    assert_eq!(l.napi_ids, vec![7, 9, 1000]);
}

#[test]
fn registration_failure_drops_handshake() {
    let mut l = build(1, Balance::Random, 0, true, 8);
    let c = AcceptedConn {
        fd: 1,
        napi_id: 0,
        tls: Some(TlsStatus::WouldBlock),
        registered: false,
        pick: 0,
    };
    let acts = l.do_accept(Some(c));
    assert_eq!(acts[1], AcceptAction::DropConn);
    assert_eq!(l.counters.tcp_accept_ex, 1);
    assert_eq!(l.slab.len(), 0);
}

#[test]
fn handshake_tokens_avoid_reserved_values() {
    // session tokens are allocated from zero, far below the two reserved
    // token values
    let mut l = build(1, Balance::Random, 0, true, 8);
    l.do_accept(conn(1, 0, Some(TlsStatus::WouldBlock)));
    l.do_accept(conn(2, 0, Some(TlsStatus::WouldBlock)));
    assert_eq!(l.slab.entries[0].0, 0);
    assert_eq!(l.slab.entries[1].0, 1);
    assert!(l.slab.entries.iter().all(|e| e.0 < WAKER_TOKEN && e.0 < LISTENER_TOKEN));
    // a removed token is not reallocated: the cursor only moves forward
    l.handle_session_event(0, false, false, true, Some(TlsStatus::Established), 0);
    l.do_accept(conn(3, 0, Some(TlsStatus::WouldBlock)));
    assert_eq!(l.slab.next_token, 3);
}

#[test]
fn add_plain_session_dispatches_by_affinity() {
    let mut l = build(2, Balance::Queues, 4, false, 8);
    let mut stream = TcpStream::try_from_raw(5, 7, true).unwrap();
    stream.set_priority(4);
    assert_eq!(l.add_plain_session(stream, 0), Placement::Queued(0));
    assert_eq!(l.napi_ids, vec![7]);
    assert_eq!(l.session_queue.queues[0][0].kind, SessionKind::Plain);
}

#[test]
fn napi_worker_id_appends_and_looks_up() {
    let mut l = build(2, Balance::Queues, 0, false, 8);
    assert_eq!(l.napi_worker_id(7), 0);
    assert_eq!(l.napi_worker_id(9), 1);
    // a second observation of 7 finds its first-seen position
    assert_eq!(l.napi_worker_id(7), 0);
    assert_eq!(l.napi_ids, vec![7, 9]);
}

#[test]
fn run_cycle_processes_batch_in_order() {
    // one batch carries a would-block accept and then the completion of
    // the very handshake it registered: processed in order, the session
    // ends established in a queue and the slab empty
    let mut l = build(1, Balance::Random, 0, true, 8);
    let batch = vec![
        PolledEvent::ListenerReady { conn: conn(1, 0, Some(TlsStatus::WouldBlock)) },
        PolledEvent::SessionReady {
            token: 0,
            is_error: false,
            is_writable: false,
            is_readable: true,
            handshake: Some(TlsStatus::Established),
            pick: 0,
        },
    ];
    assert!(!l.run_cycle(&batch));
    assert_eq!(l.counters.server_event_loop, 1);
    assert_eq!(l.counters.server_event_total, 2);
    assert_eq!(l.slab.len(), 0);
    assert_eq!(l.session_queue.queues[0].len(), 1);
    assert_eq!(l.session_queue.queues[0][0].kind, SessionKind::EstablishedTls);
}
