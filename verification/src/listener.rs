//! The acceptor's event-dispatch state machine.
//!
//! One dedicated thread owns the listening socket, a readiness primitive,
//! the slab of in-flight TLS handshakes, the NAPI affinity map and the
//! per-worker session queues. This module holds that thread's decisions as
//! verified code over the models in the sibling modules. The raw OS calls
//! (poll, accept, setsockopt, TLS records, waker) happen outside the
//! crate; each public step function takes their reported outcomes as plain
//! values and returns the actions the caller must perform, in order.

use vstd::prelude::*;

use crate::config::{Balance, Tcp, Worker};
use crate::poller::{HandshakeSlab, WAKER_TOKEN};
use crate::queue::{sum_of_lens, SessionQueues, Signal, SignalQueue};
use crate::session::{is_fresh, Session, SessionKind};
use crate::stream::TcpStream;

verus! {

/// The capacity session read and write buffers start from.
pub const DEFAULT_BUFFER_SIZE: usize = 16 * 1024;

/// The largest accepted poll batch capacity.
pub const NEVENT_MAX: usize = 65536;

/// The largest accepted poll timeout, in milliseconds.
pub const TIMEOUT_MAX: usize = 60000;

/// The acceptor's counters. Every increment is an observable; increments
/// saturate at the counter's limit instead of wrapping.
#[derive(Clone, Copy, Debug, PartialEq, Eq, Structural)]
pub struct ServerCounters {
    /// Error readiness events observed on handshake tokens.
    pub server_event_error: u64,
    /// Writable readiness events observed on handshake tokens.
    pub server_event_write: u64,
    /// Readable readiness events observed on handshake tokens.
    pub server_event_read: u64,
    /// Iterations of the acceptor loop.
    pub server_event_loop: u64,
    /// Readiness events delivered across all iterations.
    pub server_event_total: u64,
    /// Connections accepted and then abandoned: TLS failures, full queues,
    /// registration failures.
    pub tcp_accept_ex: u64,
}

/// All six counters at zero.
pub open spec fn counters_zero() -> ServerCounters {
    ServerCounters {
        server_event_error: 0,
        server_event_write: 0,
        server_event_read: 0,
        server_event_loop: 0,
        server_event_total: 0,
        tcp_accept_ex: 0,
    }
}

impl ServerCounters {
    /// All counters start at zero.
    pub fn new() -> (r: ServerCounters)
        ensures
            r == counters_zero(),
    {
        ServerCounters {
            server_event_error: 0,
            server_event_write: 0,
            server_event_read: 0,
            server_event_loop: 0,
            server_event_total: 0,
            tcp_accept_ex: 0,
        }
    }
}

/// Why a listener could not be configured.
#[derive(Clone, Copy, Debug, PartialEq, Eq, Structural)]
pub enum ConfigError {
    /// The worker thread count is zero.
    NoWorkers,
    /// The poll batch capacity is zero or above the accepted bound.
    BadNevent,
    /// The poll timeout is above the accepted bound.
    BadTimeout,
}

/// The configuration snapshot captured before the listener is built.
#[derive(Clone, Copy, Debug)]
pub struct ListenerBuilder {
    /// The bound past which session buffers must not grow.
    pub max_buffer_size: usize,
    /// The poll batch capacity.
    pub nevent: usize,
    /// The poll timeout in milliseconds.
    pub timeout: usize,
    /// Whether a TLS context is configured for accepted connections.
    pub tls_configured: bool,
    /// The balance policy for assigning sessions to workers.
    pub balance: Balance,
    /// The SO_PRIORITY value to set on every accepted socket.
    pub priority: u32,
    /// The number of worker threads served.
    pub workers: usize,
}

impl ListenerBuilder {
    /// Captures a snapshot of the relevant configuration sections.
    /// Fails exactly when the worker thread count is zero, the poll batch
    /// capacity is outside its accepted range, or the poll timeout is
    /// above its bound — checked in that order.
    pub fn new(
        worker: &Worker,
        tcp: &Tcp,
        nevent: usize,
        timeout: usize,
        tls_configured: bool,
        max_buffer_size: usize,
    ) -> (r: Result<ListenerBuilder, ConfigError>)
        ensures
            r is Ok <==> (worker.threads >= 1 && 1 <= nevent <= NEVENT_MAX && timeout
                <= TIMEOUT_MAX),
            r matches Ok(b) ==> b == (ListenerBuilder {
                max_buffer_size,
                nevent,
                timeout,
                tls_configured,
                balance: worker.balance,
                priority: tcp.priority,
                workers: worker.threads,
            }),
            r matches Err(e) ==> e == (if worker.threads == 0 {
                ConfigError::NoWorkers
            } else if !(1 <= nevent <= NEVENT_MAX) {
                ConfigError::BadNevent
            } else {
                ConfigError::BadTimeout
            }),
    {
        if worker.threads() == 0 {
            Err(ConfigError::NoWorkers)
        } else if nevent == 0 || nevent > NEVENT_MAX {
            Err(ConfigError::BadNevent)
        } else if timeout > TIMEOUT_MAX {
            Err(ConfigError::BadTimeout)
        } else {
            Ok(ListenerBuilder {
                max_buffer_size,
                nevent,
                timeout,
                tls_configured,
                balance: worker.balance(),
                priority: tcp.priority(),
                workers: worker.threads(),
            })
        }
    }

    /// Attaches the queue endpoints and produces the listener with an
    /// empty NAPI map, an empty handshake slab and zeroed counters. The
    /// session queues come fresh: one empty queue per worker.
    pub fn build(self, signal_queue: SignalQueue, session_queue: SessionQueues) -> (r: Listener)
        requires
            self.workers >= 1,
            signal_queue.wf(),
            session_queue.wf(),
            session_queue.queues@.len() == self.workers,
            forall|i: int| 0 <= i < session_queue.queues@.len()
                ==> #[trigger] session_queue.queues@[i]@.len() == 0,
        ensures
            r.wf(),
            r.max_buffer_size == self.max_buffer_size,
            r.nevent == self.nevent,
            r.timeout == self.timeout,
            r.tls_configured == self.tls_configured,
            r.balance == self.balance,
            r.priority == self.priority,
            r.workers == self.workers,
            r.signal_queue == signal_queue,
            r.session_queue == session_queue,
            r.napi_ids@ == Seq::<u32>::empty(),
            r.slab.entries@ == Seq::<(u64, Session)>::empty(),
            r.slab.next_token == 0,
            r.counters == counters_zero(),
    {
        Listener {
            max_buffer_size: self.max_buffer_size,
            nevent: self.nevent,
            timeout: self.timeout,
            tls_configured: self.tls_configured,
            balance: self.balance,
            priority: self.priority,
            workers: self.workers,
            signal_queue,
            session_queue,
            napi_ids: Vec::new(),
            slab: HandshakeSlab::new(),
            counters: ServerCounters::new(),
        }
    }
}

/// Where a dispatched session went.
#[derive(Clone, Copy, Debug, PartialEq, Eq, Structural)]
pub enum Placement {
    /// The session entered the queue of this worker.
    Queued(usize),
    /// Every eligible queue was full; the session was dropped and the
    /// accept-error counter grew.
    Dropped,
}

/// The acceptor's state: the configuration snapshot, the queue endpoints,
/// the NAPI affinity map, the handshake slab and the counters.
#[derive(Debug)]
pub struct Listener {
    /// The bound past which session buffers must not grow.
    pub max_buffer_size: usize,
    /// The poll batch capacity.
    pub nevent: usize,
    /// The poll timeout in milliseconds.
    pub timeout: usize,
    /// Whether a TLS context is configured for accepted connections.
    pub tls_configured: bool,
    /// The balance policy for assigning sessions to workers.
    pub balance: Balance,
    /// The SO_PRIORITY value set on every accepted socket.
    pub priority: u32,
    /// The number of worker threads served.
    pub workers: usize,
    /// The channel on which an external controller delivers signals.
    pub signal_queue: SignalQueue,
    /// The bounded per-worker queues of dispatched sessions.
    pub session_queue: SessionQueues,
    /// The NAPI ids observed so far, in order of first appearance; the
    /// index of an id decides its worker under the Queues policy.
    pub napi_ids: Vec<u32>,
    /// The in-flight TLS handshake sessions, keyed by token.
    pub slab: HandshakeSlab,
    /// The acceptor's counters.
    pub counters: ServerCounters,
}

/// The index at which `napi` stands in the map. Meaningful whenever the
/// map contains `napi` and holds no duplicates: then it is the one index
/// carrying `napi`.
pub open spec fn napi_index(ids: Seq<u32>, napi: u32) -> int {
    choose|i: int| 0 <= i < ids.len() && ids[i] == napi
}

/// The NAPI map after `napi` is observed: unchanged when already present,
/// extended by `napi` at the end otherwise.
pub open spec fn planned_napi_ids(ids: Seq<u32>, napi: u32) -> Seq<u32> {
    if ids.contains(napi) {
        ids
    } else {
        ids.push(napi)
    }
}

/// The two listeners agree on everything the configuration fixed at
/// construction.
pub open spec fn same_config(a: Listener, b: Listener) -> bool {
    &&& b.max_buffer_size == a.max_buffer_size
    &&& b.nevent == a.nevent
    &&& b.timeout == a.timeout
    &&& b.tls_configured == a.tls_configured
    &&& b.balance == a.balance
    &&& b.priority == a.priority
    &&& b.workers == a.workers
    &&& b.session_queue.capacity == a.session_queue.capacity
    &&& b.session_queue.queues@.len() == a.session_queue.queues@.len()
    &&& b.signal_queue.capacity == a.signal_queue.capacity
}

impl Listener {
    /// The listener's invariant: positive worker count; well-formed queues
    /// matching the worker count; well-formed slab; a duplicate-free NAPI
    /// map; every stored or queued session carries the configured socket
    /// priority; and no mid-handshake session is ever queued to a worker.
    pub open spec fn wf(self) -> bool {
        &&& self.workers >= 1
        &&& self.session_queue.wf()
        &&& self.session_queue.queues@.len() == self.workers
        &&& self.signal_queue.wf()
        &&& self.slab.wf()
        &&& self.napi_ids@.no_duplicates()
        &&& forall|i: int| 0 <= i < self.slab.entries@.len()
            ==> (#[trigger] self.slab.entries@[i]).1.stream.priority == self.priority
        &&& forall|i: int, j: int|
            0 <= i < self.session_queue.queues@.len() && 0 <= j
                < self.session_queue.queues@[i]@.len()
                ==> (#[trigger] self.session_queue.queues@[i]@[j]).kind != SessionKind::Handshaking
                && self.session_queue.queues@[i]@[j].stream.priority == self.priority
    }

    /// Whether a connection with this NAPI id is steered by affinity: only
    /// under the Queues policy, and only when the kernel reported a
    /// nonzero id.
    pub open spec fn uses_affinity(self, napi: u32) -> bool {
        self.balance == Balance::Queues && napi != 0
    }

    /// The worker a connection with NAPI id `napi` is pinned to: the
    /// index of `napi` in the map (after `napi` is observed), folded onto
    /// the worker count.
    pub open spec fn planned_worker(self, napi: u32) -> int {
        napi_index(planned_napi_ids(self.napi_ids@, napi), napi) % (self.workers as int)
    }

    /// Whether dispatching a session with this NAPI id would succeed on
    /// the current queues: under affinity the pinned worker's queue must
    /// have room; otherwise any queue with room serves.
    pub open spec fn dispatch_succeeds(self, napi: u32) -> bool {
        if self.uses_affinity(napi) {
            self.session_queue.slot_open(self.planned_worker(napi))
        } else {
            self.session_queue.any_slot_open()
        }
    }

    /// The configuration a loop-level step reads, all fixed at
    /// construction.
    pub open spec fn loop_config(self) -> LoopConfig {
        LoopConfig {
            balance: self.balance,
            workers: self.workers,
            priority: self.priority,
            capacity: self.session_queue.capacity,
        }
    }

    /// The loop-level model of the listener's mutable state.
    pub open spec fn abs(self) -> LoopState {
        LoopState {
            queues: abs_queues(self.session_queue.queues@),
            slab: abs_slab(self.slab.entries@),
            next_token: self.slab.next_token,
            napi_ids: self.napi_ids@,
            signals: self.signal_queue.items@,
            counters: self.counters,
        }
    }

    /// Looks the NAPI id up in the map, appending it if new, and returns
    /// the worker its position pins it to. The map never takes a
    /// duplicate: observing a present id leaves it unchanged.
    pub fn napi_worker_id(&mut self, napi_id: u32) -> (w: usize)
        requires
            old(self).wf(),
            napi_id != 0,
        ensures
            final(self).wf(),
            same_config(*old(self), *final(self)),
            final(self).session_queue == old(self).session_queue,
            final(self).signal_queue == old(self).signal_queue,
            final(self).slab == old(self).slab,
            final(self).counters == old(self).counters,
            final(self).napi_ids@ == planned_napi_ids(old(self).napi_ids@, napi_id),
            old(self).napi_ids@.is_prefix_of(final(self).napi_ids@),
            final(self).napi_ids@.contains(napi_id),
            w as int == old(self).planned_worker(napi_id),
            w < old(self).workers,
    {
        let n = self.napi_ids.len();
        let mut i: usize = 0;
        while i < n
            invariant_except_break
                n == self.napi_ids@.len(),
                i <= n,
                forall|j: int| 0 <= j < i ==> self.napi_ids@[j] != napi_id,
            ensures
                i <= n,
                n == self.napi_ids@.len(),
                i < n ==> self.napi_ids@[i as int] == napi_id,
                i == n ==> !self.napi_ids@.contains(napi_id),
            decreases n - i,
        {
            if self.napi_ids[i] == napi_id {
                break;
            }
            i = i + 1;
        }
        let pos = if i < n {
            i
        } else {
            self.napi_ids.push(napi_id);
            proof {
                assert forall|a: int, b: int|
                    0 <= a < self.napi_ids@.len() && 0 <= b < self.napi_ids@.len() && a != b
                    implies self.napi_ids@[a] != self.napi_ids@[b] by {
                    if a < n && b < n {
                        assert(old(self).napi_ids@[a] != old(self).napi_ids@[b]);
                    }
                }
                assert(old(self).napi_ids@.is_prefix_of(self.napi_ids@));
            }
            n
        };
        proof {
            let ids = self.napi_ids@;
            assert(ids[pos as int] == napi_id);
            assert(ids.contains(napi_id));
            let c = napi_index(ids, napi_id);
            assert(0 <= c < ids.len() && ids[c] == napi_id);
            assert(c == pos as int);
        }
        pos % self.workers
    }

    /// Dispatches a ready session by the balance policy: under Queues with
    /// a nonzero NAPI id it targets the pinned worker, otherwise it places
    /// into any queue with room, scanning from the uniform-random draw
    /// `pick`. A full target drops the session and grows the accept-error
    /// counter.
    fn dispatch_session(&mut self, session: Session, pick: usize) -> (placed: Placement)
        requires
            old(self).wf(),
            session.kind != SessionKind::Handshaking,
            session.stream.priority == old(self).priority,
        ensures
            final(self).wf(),
            same_config(*old(self), *final(self)),
            final(self).signal_queue == old(self).signal_queue,
            final(self).slab == old(self).slab,
            final(self).counters.server_event_error == old(self).counters.server_event_error,
            final(self).counters.server_event_write == old(self).counters.server_event_write,
            final(self).counters.server_event_read == old(self).counters.server_event_read,
            final(self).counters.server_event_loop == old(self).counters.server_event_loop,
            final(self).counters.server_event_total == old(self).counters.server_event_total,
            final(self).napi_ids@ == (if old(self).uses_affinity(session.stream.napi_id) {
                planned_napi_ids(old(self).napi_ids@, session.stream.napi_id)
            } else {
                old(self).napi_ids@
            }),
            old(self).napi_ids@.is_prefix_of(final(self).napi_ids@),
            placed is Queued <==> old(self).dispatch_succeeds(session.stream.napi_id),
            placed matches Placement::Queued(w) ==> {
                &&& w < old(self).workers
                &&& (old(self).uses_affinity(session.stream.napi_id) ==> w as int == old(
                    self).planned_worker(session.stream.napi_id))
                &&& (!old(self).uses_affinity(session.stream.napi_id) ==> old(
                    self).session_queue.rotation_first_open(
                    (pick as int) % (old(self).session_queue.queues@.len() as int),
                    w as int,
                ))
                &&& final(self).session_queue.queues@[w as int]@ == old(
                    self).session_queue.queues@[w as int]@.push(session)
                &&& (forall|i: int| 0 <= i < old(self).session_queue.queues@.len() && i != w
                    ==> #[trigger] final(self).session_queue.queues@[i] == old(
                    self).session_queue.queues@[i])
                &&& sum_of_lens(final(self).session_queue.queues@) == sum_of_lens(
                    old(self).session_queue.queues@) + 1
                &&& final(self).counters == old(self).counters
            },
            placed is Dropped ==> final(self).session_queue.queues@ == old(
                self).session_queue.queues@
                && final(self).counters == (ServerCounters {
                tcp_accept_ex: old(self).counters.tcp_accept_ex.saturating_add(1),
                ..old(self).counters
            }),
            final(self).abs() == step_dispatch(
                old(self).loop_config(),
                old(self).abs(),
                abs_session(session),
                pick,
            ),
    {
        let ghost cfg = old(self).loop_config();
        let ghost s0 = old(self).abs();
        let ghost item = abs_session(session);
        let napi = session.stream.napi_id;
        let affinity = self.balance == Balance::Queues && napi != 0;
        if affinity {
            let w = self.napi_worker_id(napi);
            let ghost s1 = LoopState { napi_ids: planned_napi_ids(s0.napi_ids, napi), ..s0 };
            proof {
                assert(self.abs() == s1);
                lemma_abs_queues_len(old(self).session_queue.queues@);
            }
            match self.session_queue.try_send_to(w, session) {
                Ok(()) => {
                    proof {
                        lemma_abs_queues_update_push(
                            old(self).session_queue.queues@,
                            self.session_queue.queues@,
                            w as int,
                            session,
                        );
                        assert(self.abs() == loop_enqueue(s1, w as int, item));
                    }
                    Placement::Queued(w)
                }
                Err(_rejected) => {
                    self.counters.tcp_accept_ex = self.counters.tcp_accept_ex.saturating_add(1);
                    proof {
                        assert(self.abs() == loop_bump_accept_ex(s1));
                    }
                    Placement::Dropped
                }
            }
        } else {
            let ghost start = (pick as int) % (old(self).session_queue.queues@.len() as int);
            match self.session_queue.try_send_any(session, pick) {
                Ok(w) => {
                    proof {
                        lemma_rotation_of_first_open(old(self).session_queue, start, w as int);
                        lemma_abs_queues_update_push(
                            old(self).session_queue.queues@,
                            self.session_queue.queues@,
                            w as int,
                            session,
                        );
                        assert(self.abs() == loop_enqueue(s0, w as int, item));
                    }
                    Placement::Queued(w)
                }
                Err(_rejected) => {
                    self.counters.tcp_accept_ex = self.counters.tcp_accept_ex.saturating_add(1);
                    proof {
                        lemma_rotation_none(old(self).session_queue, start);
                        assert(self.abs() == loop_bump_accept_ex(s0));
                    }
                    Placement::Dropped
                }
            }
        }
    }

    /// Adds a newly accepted plain (non-TLS) session: builds the session
    /// with the default buffer capacity and dispatches it by the balance
    /// policy.
    pub fn add_plain_session(&mut self, stream: TcpStream, pick: usize) -> (placed: Placement)
        requires
            old(self).wf(),
            stream.priority == old(self).priority,
        ensures
            final(self).wf(),
            same_config(*old(self), *final(self)),
            final(self).signal_queue == old(self).signal_queue,
            final(self).slab == old(self).slab,
            final(self).counters.server_event_loop == old(self).counters.server_event_loop,
            final(self).counters.server_event_total == old(self).counters.server_event_total,
            final(self).napi_ids@ == (if old(self).uses_affinity(stream.napi_id) {
                planned_napi_ids(old(self).napi_ids@, stream.napi_id)
            } else {
                old(self).napi_ids@
            }),
            old(self).napi_ids@.is_prefix_of(final(self).napi_ids@),
            placed is Queued <==> old(self).dispatch_succeeds(stream.napi_id),
            placed matches Placement::Queued(w) ==> {
                &&& w < old(self).workers
                &&& (old(self).uses_affinity(stream.napi_id) ==> w as int == old(
                    self).planned_worker(stream.napi_id))
                &&& (!old(self).uses_affinity(stream.napi_id) ==> old(
                    self).session_queue.rotation_first_open(
                    (pick as int) % (old(self).session_queue.queues@.len() as int),
                    w as int,
                ))
                &&& final(self).session_queue.queues@[w as int]@.len() == old(
                    self).session_queue.queues@[w as int]@.len() + 1
                &&& final(self).session_queue.queues@[w as int]@ == old(
                    self).session_queue.queues@[w as int]@.push(
                    final(self).session_queue.queues@[w as int]@.last())
                &&& is_fresh(
                    final(self).session_queue.queues@[w as int]@.last(),
                    SessionKind::Plain,
                    stream,
                    DEFAULT_BUFFER_SIZE,
                    old(self).max_buffer_size,
                )
                &&& (forall|i: int| 0 <= i < old(self).session_queue.queues@.len() && i != w
                    ==> #[trigger] final(self).session_queue.queues@[i] == old(
                    self).session_queue.queues@[i])
                &&& sum_of_lens(final(self).session_queue.queues@) == sum_of_lens(
                    old(self).session_queue.queues@) + 1
                &&& final(self).counters == old(self).counters
            },
            placed is Dropped ==> final(self).session_queue.queues@ == old(
                self).session_queue.queues@
                && final(self).counters == (ServerCounters {
                tcp_accept_ex: old(self).counters.tcp_accept_ex.saturating_add(1),
                ..old(self).counters
            }),
            final(self).abs() == step_dispatch(
                old(self).loop_config(),
                old(self).abs(),
                (AbsSession { kind: SessionKind::Plain, stream }),
                pick,
            ),
    {
        let session = Session::plain_with_capacity(stream, DEFAULT_BUFFER_SIZE, self.max_buffer_size);
        proof {
            assert(abs_session(session) == (AbsSession { kind: SessionKind::Plain, stream }));
        }
        self.dispatch_session(session, pick)
    }

    /// Adds a session whose TLS handshake completed inside accept: builds
    /// an established session and dispatches it by the balance policy.
    pub fn add_established_tls_session(&mut self, stream: TcpStream, pick: usize) -> (placed:
        Placement)
        requires
            old(self).wf(),
            stream.priority == old(self).priority,
        ensures
            final(self).wf(),
            same_config(*old(self), *final(self)),
            final(self).signal_queue == old(self).signal_queue,
            final(self).slab == old(self).slab,
            final(self).counters.server_event_loop == old(self).counters.server_event_loop,
            final(self).counters.server_event_total == old(self).counters.server_event_total,
            final(self).napi_ids@ == (if old(self).uses_affinity(stream.napi_id) {
                planned_napi_ids(old(self).napi_ids@, stream.napi_id)
            } else {
                old(self).napi_ids@
            }),
            old(self).napi_ids@.is_prefix_of(final(self).napi_ids@),
            placed is Queued <==> old(self).dispatch_succeeds(stream.napi_id),
            placed matches Placement::Queued(w) ==> {
                &&& w < old(self).workers
                &&& (old(self).uses_affinity(stream.napi_id) ==> w as int == old(
                    self).planned_worker(stream.napi_id))
                &&& (!old(self).uses_affinity(stream.napi_id) ==> old(
                    self).session_queue.rotation_first_open(
                    (pick as int) % (old(self).session_queue.queues@.len() as int),
                    w as int,
                ))
                &&& final(self).session_queue.queues@[w as int]@.len() == old(
                    self).session_queue.queues@[w as int]@.len() + 1
                &&& final(self).session_queue.queues@[w as int]@ == old(
                    self).session_queue.queues@[w as int]@.push(
                    final(self).session_queue.queues@[w as int]@.last())
                &&& is_fresh(
                    final(self).session_queue.queues@[w as int]@.last(),
                    SessionKind::EstablishedTls,
                    stream,
                    DEFAULT_BUFFER_SIZE,
                    old(self).max_buffer_size,
                )
                &&& (forall|i: int| 0 <= i < old(self).session_queue.queues@.len() && i != w
                    ==> #[trigger] final(self).session_queue.queues@[i] == old(
                    self).session_queue.queues@[i])
                &&& sum_of_lens(final(self).session_queue.queues@) == sum_of_lens(
                    old(self).session_queue.queues@) + 1
                &&& final(self).counters == old(self).counters
            },
            placed is Dropped ==> final(self).session_queue.queues@ == old(
                self).session_queue.queues@
                && final(self).counters == (ServerCounters {
                tcp_accept_ex: old(self).counters.tcp_accept_ex.saturating_add(1),
                ..old(self).counters
            }),
            final(self).abs() == step_dispatch(
                old(self).loop_config(),
                old(self).abs(),
                (AbsSession { kind: SessionKind::EstablishedTls, stream }),
                pick,
            ),
    {
        let session = Session::tls_with_capacity(stream, DEFAULT_BUFFER_SIZE, self.max_buffer_size);
        proof {
            assert(abs_session(session) == (AbsSession {
                kind: SessionKind::EstablishedTls,
                stream,
            }));
        }
        self.dispatch_session(session, pick)
    }

    /// Adds a session whose TLS handshake returned would-block inside
    /// accept: stores it in the handshake slab under a fresh token.
    /// `registered` reports whether the stream could be registered with
    /// the readiness primitive; on failure the session is dropped and the
    /// accept-error counter grows.
    pub fn add_handshaking_tls_session(&mut self, stream: TcpStream, registered: bool) -> (token:
        Option<u64>)
        requires
            old(self).wf(),
            stream.priority == old(self).priority,
        ensures
            final(self).wf(),
            same_config(*old(self), *final(self)),
            final(self).signal_queue == old(self).signal_queue,
            final(self).session_queue == old(self).session_queue,
            final(self).napi_ids@ == old(self).napi_ids@,
            final(self).counters.server_event_loop == old(self).counters.server_event_loop,
            final(self).counters.server_event_total == old(self).counters.server_event_total,
            token is Some <==> registered && old(self).slab.next_token < WAKER_TOKEN,
            token matches Some(t) ==> {
                &&& t == old(self).slab.next_token
                &&& final(self).slab.next_token == old(self).slab.next_token + 1
                &&& final(self).slab.entries@.len() == old(self).slab.entries@.len() + 1
                &&& final(self).slab.entries@ == old(self).slab.entries@.push(
                    (t, final(self).slab.entries@.last().1))
                &&& is_fresh(
                    final(self).slab.entries@.last().1,
                    SessionKind::Handshaking,
                    stream,
                    DEFAULT_BUFFER_SIZE,
                    old(self).max_buffer_size,
                )
                &&& final(self).counters == old(self).counters
            },
            token is None ==> final(self).slab == old(self).slab
                && final(self).counters == (ServerCounters {
                tcp_accept_ex: old(self).counters.tcp_accept_ex.saturating_add(1),
                ..old(self).counters
            }),
            final(self).abs() == (if registered && old(self).slab.next_token < WAKER_TOKEN {
                LoopState {
                    slab: old(self).abs().slab.push(
                        (
                            old(self).slab.next_token,
                            (AbsSession { kind: SessionKind::Handshaking, stream }),
                        ),
                    ),
                    next_token: (old(self).slab.next_token + 1) as u64,
                    ..old(self).abs()
                }
            } else {
                loop_bump_accept_ex(old(self).abs())
            }),
    {
        let session = Session::handshaking_with_capacity(stream, DEFAULT_BUFFER_SIZE, self.max_buffer_size);
        proof {
            assert(abs_session(session) == (AbsSession { kind: SessionKind::Handshaking, stream }));
        }
        match self.slab.add_session(session, registered) {
            Ok(token) => {
                proof {
                    lemma_abs_slab_push(old(self).slab.entries@, token, session);
                }
                Some(token)
            }
            Err(_rejected) => {
                self.counters.tcp_accept_ex = self.counters.tcp_accept_ex.saturating_add(1);
                None
            }
        }
    }

    /// Handles one readiness notification on the listening socket.
    ///
    /// The caller performs the raw accept and, when TLS is configured,
    /// drives the TLS accept, then reports what happened in `conn`
    /// (`None` when accept itself failed, which is silently ignored). The
    /// returned actions are what the acceptor then does, in order: the
    /// configured socket priority is set first, the connection is
    /// enqueued, registered for further handshaking or dropped, and the
    /// listener is re-registered last (edge-triggered readiness).
    pub fn do_accept(&mut self, conn: Option<AcceptedConn>) -> (acts: Vec<AcceptAction>)
        requires
            old(self).wf(),
            conn matches Some(c) ==> (c.tls is Some <==> old(self).tls_configured),
        ensures
            final(self).wf(),
            same_config(*old(self), *final(self)),
            final(self).signal_queue == old(self).signal_queue,
            final(self).counters.server_event_error == old(self).counters.server_event_error,
            final(self).counters.server_event_write == old(self).counters.server_event_write,
            final(self).counters.server_event_read == old(self).counters.server_event_read,
            final(self).counters.server_event_loop == old(self).counters.server_event_loop,
            final(self).counters.server_event_total == old(self).counters.server_event_total,
            old(self).napi_ids@.is_prefix_of(final(self).napi_ids@),
            old(self).slab.next_token <= final(self).slab.next_token,
            final(self).abs() == step_accept(old(self).loop_config(), old(self).abs(), conn),
            conn is None ==> *final(self) == *old(self) && acts@.len() == 0,
            conn matches Some(c) ==> {
                let stream = accepted_stream(c, old(self).priority);
                &&& acts@.len() == 3
                &&& acts@[0] == (AcceptAction::SetPriority { fd: c.fd, value: old(self).priority })
                &&& acts@[2] == AcceptAction::ReregisterListener
                &&& (acts@[1] is EnqueueTo || acts@[1] is RegisterHandshake || acts@[1]
                    is DropConn)
                &&& (acts@[1] is EnqueueTo <==> (c.tls is None || c.tls == Some(
                    TlsStatus::Established)) && old(self).dispatch_succeeds(c.napi_id))
                &&& (acts@[1] is RegisterHandshake <==> c.tls == Some(TlsStatus::WouldBlock)
                    && c.registered && old(self).slab.next_token < WAKER_TOKEN)
                &&& ((c.tls is None || c.tls == Some(TlsStatus::Established))
                    ==> final(self).napi_ids@ == (if old(self).uses_affinity(c.napi_id) {
                    planned_napi_ids(old(self).napi_ids@, c.napi_id)
                } else {
                    old(self).napi_ids@
                }))
                &&& ((c.tls == Some(TlsStatus::WouldBlock) || c.tls == Some(TlsStatus::Fatal))
                    ==> final(self).napi_ids@ == old(self).napi_ids@)
                &&& (acts@[1] matches AcceptAction::EnqueueTo { worker } ==> {
                    &&& worker < old(self).workers
                    &&& (old(self).uses_affinity(c.napi_id) ==> worker as int == old(
                        self).planned_worker(c.napi_id))
                    &&& (!old(self).uses_affinity(c.napi_id) ==> old(
                        self).session_queue.rotation_first_open(
                        (c.pick as int) % (old(self).session_queue.queues@.len() as int),
                        worker as int,
                    ))
                    &&& final(self).session_queue.queues@[worker as int]@ == old(
                        self).session_queue.queues@[worker as int]@.push(
                        final(self).session_queue.queues@[worker as int]@.last())
                    &&& is_fresh(
                        final(self).session_queue.queues@[worker as int]@.last(),
                        if c.tls is None { SessionKind::Plain } else { SessionKind::EstablishedTls },
                        stream,
                        DEFAULT_BUFFER_SIZE,
                        old(self).max_buffer_size,
                    )
                    &&& (forall|i: int| 0 <= i < old(self).session_queue.queues@.len() && i
                        != worker ==> #[trigger] final(self).session_queue.queues@[i] == old(
                        self).session_queue.queues@[i])
                    &&& sum_of_lens(final(self).session_queue.queues@) == sum_of_lens(
                        old(self).session_queue.queues@) + 1
                    &&& final(self).slab == old(self).slab
                    &&& final(self).counters == old(self).counters
                })
                &&& (acts@[1] matches AcceptAction::RegisterHandshake { token } ==> {
                    &&& token == old(self).slab.next_token
                    &&& final(self).slab.next_token == old(self).slab.next_token + 1
                    &&& final(self).slab.entries@ == old(self).slab.entries@.push(
                        (token, final(self).slab.entries@.last().1))
                    &&& is_fresh(
                        final(self).slab.entries@.last().1,
                        SessionKind::Handshaking,
                        stream,
                        DEFAULT_BUFFER_SIZE,
                        old(self).max_buffer_size,
                    )
                    &&& final(self).session_queue == old(self).session_queue
                    &&& final(self).counters == old(self).counters
                })
                &&& (acts@[1] is DropConn ==> final(self).session_queue.queues@ == old(
                    self).session_queue.queues@ && final(self).slab == old(self).slab
                    && final(self).counters == (ServerCounters {
                    tcp_accept_ex: old(self).counters.tcp_accept_ex.saturating_add(1),
                    ..old(self).counters
                }))
            },
    {
        match conn {
            None => Vec::new(),
            Some(c) => {
                let mut acts: Vec<AcceptAction> = Vec::new();
                let mut stream = TcpStream {
                    fd: c.fd,
                    napi_id: c.napi_id,
                    priority: 0,
                    tcp_recv_byte: 0,
                    tcp_send_byte: 0,
                    tcp_send_partial: 0,
                };
                stream.set_priority(self.priority);
                acts.push(AcceptAction::SetPriority { fd: c.fd, value: self.priority });
                let placed = match c.tls {
                    None => match self.add_plain_session(stream, c.pick) {
                        Placement::Queued(w) => AcceptAction::EnqueueTo { worker: w },
                        Placement::Dropped => AcceptAction::DropConn,
                    },
                    Some(TlsStatus::Established) => match self.add_established_tls_session(
                        stream,
                        c.pick,
                    ) {
                        Placement::Queued(w) => AcceptAction::EnqueueTo { worker: w },
                        Placement::Dropped => AcceptAction::DropConn,
                    },
                    Some(TlsStatus::WouldBlock) => match self.add_handshaking_tls_session(
                        stream,
                        c.registered,
                    ) {
                        Some(token) => AcceptAction::RegisterHandshake { token },
                        None => AcceptAction::DropConn,
                    },
                    Some(TlsStatus::Fatal) => {
                        self.counters.tcp_accept_ex =
                            self.counters.tcp_accept_ex.saturating_add(1);
                        AcceptAction::DropConn
                    }
                };
                proof {
                    assert(stream == accepted_stream(c, old(self).priority));
                    assert(self.abs() == step_accept(
                        old(self).loop_config(),
                        old(self).abs(),
                        conn,
                    ));
                }
                acts.push(placed);
                acts.push(AcceptAction::ReregisterListener);
                acts
            }
        }
    }

    /// Handles a readiness event on a handshake token: counts the error,
    /// writable and readable sub-events, then drives the session's fate.
    ///
    /// `handshake` is what driving the TLS state machine reported, for the
    /// caller that holds the raw TLS object; it is read only when a
    /// session is registered under `token` and no error was signalled. A
    /// completed handshake leaves the slab and is placed with any worker
    /// (random placement: the slab does not track NAPI affinity); a fatal
    /// one, or an error event, drops the session and grows the
    /// accept-error counter; would-block leaves the session registered.
    pub fn handle_session_event(
        &mut self,
        token: u64,
        is_error: bool,
        is_writable: bool,
        is_readable: bool,
        handshake: Option<TlsStatus>,
        pick: usize,
    )
        requires
            old(self).wf(),
        ensures
            final(self).wf(),
            same_config(*old(self), *final(self)),
            final(self).signal_queue == old(self).signal_queue,
            final(self).napi_ids@ == old(self).napi_ids@,
            final(self).counters.server_event_loop == old(self).counters.server_event_loop,
            final(self).counters.server_event_total == old(self).counters.server_event_total,
            final(self).counters.server_event_error == (if is_error {
                old(self).counters.server_event_error.saturating_add(1)
            } else {
                old(self).counters.server_event_error
            }),
            final(self).counters.server_event_write == (if is_writable {
                old(self).counters.server_event_write.saturating_add(1)
            } else {
                old(self).counters.server_event_write
            }),
            final(self).counters.server_event_read == (if is_readable {
                old(self).counters.server_event_read.saturating_add(1)
            } else {
                old(self).counters.server_event_read
            }),
            final(self).slab.next_token == old(self).slab.next_token,
            final(self).abs() == step_session(
                old(self).loop_config(),
                old(self).abs(),
                token,
                is_error,
                is_writable,
                is_readable,
                handshake,
                pick,
            ),
            final(self).slab.spec_contains(token) <==> old(self).slab.spec_contains(token)
                && !is_error && (handshake is None || handshake == Some(TlsStatus::WouldBlock)),
            !old(self).slab.spec_contains(token) ==> final(self).slab == old(self).slab
                && final(self).session_queue.queues@ == old(self).session_queue.queues@
                && final(self).counters.tcp_accept_ex == old(self).counters.tcp_accept_ex,
            old(self).slab.spec_contains(token) ==> {
                let i = old(self).slab.spec_index_of(token);
                let hs = old(self).slab.spec_session(token);
                let done = Session { kind: SessionKind::EstablishedTls, ..hs };
                &&& (is_error ==> final(self).slab.entries@ == old(self).slab.entries@.remove(i)
                    && final(self).session_queue.queues@ == old(self).session_queue.queues@
                    && final(self).counters.tcp_accept_ex == old(
                    self).counters.tcp_accept_ex.saturating_add(1))
                &&& (!is_error ==> match handshake {
                    None => final(self).slab == old(self).slab
                        && final(self).session_queue.queues@ == old(self).session_queue.queues@
                        && final(self).counters.tcp_accept_ex == old(self).counters.tcp_accept_ex,
                    Some(TlsStatus::WouldBlock) => final(self).slab == old(self).slab
                        && final(self).session_queue.queues@ == old(self).session_queue.queues@
                        && final(self).counters.tcp_accept_ex == old(self).counters.tcp_accept_ex,
                    Some(TlsStatus::Fatal) => final(self).slab.entries@ == old(
                        self).slab.entries@.remove(i)
                        && final(self).session_queue.queues@ == old(self).session_queue.queues@
                        && final(self).counters.tcp_accept_ex == old(
                        self).counters.tcp_accept_ex.saturating_add(1),
                    Some(TlsStatus::Established) => {
                        &&& final(self).slab.entries@ == old(self).slab.entries@.remove(i)
                        &&& (old(self).session_queue.any_slot_open() ==> exists|w: int| {
                            &&& old(self).session_queue.rotation_first_open(
                                (pick as int) % (old(self).session_queue.queues@.len() as int),
                                w,
                            )
                            &&& #[trigger] final(self).session_queue.queues@[w]@ == old(
                                self).session_queue.queues@[w]@.push(done)
                            &&& (forall|k: int| 0 <= k < old(self).session_queue.queues@.len()
                                && k != w ==> #[trigger] final(self).session_queue.queues@[k]
                                == old(self).session_queue.queues@[k])
                            &&& sum_of_lens(final(self).session_queue.queues@) == sum_of_lens(
                                old(self).session_queue.queues@) + 1
                            &&& final(self).counters.tcp_accept_ex == old(
                                self).counters.tcp_accept_ex
                        })
                        &&& (!old(self).session_queue.any_slot_open()
                            ==> final(self).session_queue.queues@ == old(
                            self).session_queue.queues@ && final(self).counters.tcp_accept_ex
                            == old(self).counters.tcp_accept_ex.saturating_add(1))
                    }
                })
            },
    {
        let ghost s0 = old(self).abs();
        let ghost cfg = old(self).loop_config();
        proof {
            lemma_abs_slab_lookup(old(self).slab, token);
        }
        if is_error {
            self.counters.server_event_error = self.counters.server_event_error.saturating_add(1);
        }
        if is_writable {
            self.counters.server_event_write = self.counters.server_event_write.saturating_add(1);
        }
        if is_readable {
            self.counters.server_event_read = self.counters.server_event_read.saturating_add(1);
        }
        let ghost s1 = LoopState {
            counters: count_flags(s0.counters, is_error, is_writable, is_readable),
            ..s0
        };
        proof {
            assert(self.abs() == s1);
        }
        if is_error {
            match self.slab.remove_session(token) {
                Ok(_dropped) => {
                    self.counters.tcp_accept_ex = self.counters.tcp_accept_ex.saturating_add(1);
                    proof {
                        lemma_abs_slab_remove(
                            old(self).slab.entries@,
                            old(self).slab.spec_index_of(token),
                        );
                        assert(self.abs() == loop_bump_accept_ex(LoopState {
                            slab: s1.slab.remove(loop_slab_at(s0.slab, token)),
                            ..s1
                        }));
                    }
                }
                Err(()) => {}
            }
        } else if self.slab.contains(token) {
            match handshake {
                Some(TlsStatus::Established) => {
                    match self.slab.remove_session(token) {
                        Ok(mut session) => {
                            proof {
                                lemma_abs_slab_remove(
                                    old(self).slab.entries@,
                                    old(self).slab.spec_index_of(token),
                                );
                            }
                            session.complete_handshake();
                            let ghost s2 = LoopState {
                                slab: s1.slab.remove(loop_slab_at(s0.slab, token)),
                                ..s1
                            };
                            let ghost done = abs_session(session);
                            let ghost start = (pick as int) % (
                            self.session_queue.queues@.len() as int);
                            proof {
                                assert(self.abs() == s2);
                                assert(done == (AbsSession {
                                    kind: SessionKind::EstablishedTls,
                                    stream: s0.slab[loop_slab_at(s0.slab, token)].1.stream,
                                }));
                            }
                            match self.session_queue.try_send_any(session, pick) {
                                Ok(w) => {
                                    proof {
                                        lemma_rotation_of_first_open(
                                            old(self).session_queue,
                                            start,
                                            w as int,
                                        );
                                        lemma_abs_queues_update_push(
                                            old(self).session_queue.queues@,
                                            self.session_queue.queues@,
                                            w as int,
                                            session,
                                        );
                                        assert(self.abs() == loop_enqueue(s2, w as int, done));
                                    }
                                }
                                Err(_rejected) => {
                                    self.counters.tcp_accept_ex =
                                        self.counters.tcp_accept_ex.saturating_add(1);
                                    proof {
                                        lemma_rotation_none(old(self).session_queue, start);
                                        assert(self.abs() == loop_bump_accept_ex(s2));
                                    }
                                }
                            }
                        }
                        Err(()) => {}
                    }
                }
                Some(TlsStatus::Fatal) => {
                    match self.slab.remove_session(token) {
                        Ok(_dropped) => {
                            self.counters.tcp_accept_ex =
                                self.counters.tcp_accept_ex.saturating_add(1);
                            proof {
                                lemma_abs_slab_remove(
                                    old(self).slab.entries@,
                                    old(self).slab.spec_index_of(token),
                                );
                                assert(self.abs() == loop_bump_accept_ex(LoopState {
                                    slab: s1.slab.remove(loop_slab_at(s0.slab, token)),
                                    ..s1
                                }));
                            }
                        }
                        Err(()) => {}
                    }
                }
                _ => {}
            }
        }
    }

    /// Drains the signal channel after the waker fired: flush requests are
    /// no-ops here, and the first Shutdown stops the drain and tells the
    /// caller to return from the acceptor loop. When no Shutdown is
    /// pending the channel is drained empty and the loop goes on.
    pub fn drain_signals(&mut self) -> (stop: bool)
        requires
            old(self).wf(),
        ensures
            final(self).wf(),
            same_config(*old(self), *final(self)),
            final(self).session_queue == old(self).session_queue,
            final(self).slab == old(self).slab,
            final(self).napi_ids == old(self).napi_ids,
            final(self).counters == old(self).counters,
            stop <==> old(self).signal_queue.items@.contains(Signal::Shutdown),
            final(self).signal_queue.items@ == spec_drain(old(self).signal_queue.items@).0,
            stop == spec_drain(old(self).signal_queue.items@).1,
            !stop ==> final(self).signal_queue.items@.len() == 0,
            stop ==> exists|k: int| {
                &&& 0 <= k < old(self).signal_queue.items@.len()
                &&& old(self).signal_queue.items@[k] == Signal::Shutdown
                &&& (forall|j: int| 0 <= j < k ==> old(self).signal_queue.items@[j]
                    != Signal::Shutdown)
                &&& final(self).signal_queue.items@ == old(self).signal_queue.items@.subrange(
                    k + 1,
                    old(self).signal_queue.items@.len() as int,
                )
            },
    {
        let ghost start = old(self).signal_queue.items@;
        let ghost mut consumed: int = 0;
        proof {
            assert(start.subrange(0, start.len() as int) =~= start);
        }
        loop
            invariant
                self.wf(),
                same_config(*old(self), *self),
                self.session_queue == old(self).session_queue,
                self.slab == old(self).slab,
                self.napi_ids == old(self).napi_ids,
                self.counters == old(self).counters,
                start == old(self).signal_queue.items@,
                0 <= consumed <= start.len(),
                self.signal_queue.items@ == start.subrange(consumed, start.len() as int),
                spec_drain(start) == spec_drain(start.subrange(consumed, start.len() as int)),
                self.signal_queue.capacity == old(self).signal_queue.capacity,
                forall|j: int| 0 <= j < consumed ==> start[j] != Signal::Shutdown,
            decreases start.len() - consumed,
        {
            let next = self.signal_queue.try_recv();
            match next {
                Some(Signal::Shutdown) => {
                    proof {
                        assert(start[consumed] == Signal::Shutdown);
                        assert(start.contains(Signal::Shutdown));
                        assert(self.signal_queue.items@ =~= start.subrange(
                            consumed + 1,
                            start.len() as int,
                        ));
                        let here = start.subrange(consumed, start.len() as int);
                        assert(here[0] == Signal::Shutdown);
                        assert(here.drop_first() =~= start.subrange(
                            consumed + 1,
                            start.len() as int,
                        ));
                        assert(spec_drain(start) == (self.signal_queue.items@, true));
                    }
                    return true;
                }
                Some(Signal::FlushAll) => {
                    proof {
                        assert(self.signal_queue.items@ =~= start.subrange(
                            consumed + 1,
                            start.len() as int,
                        ));
                        let here = start.subrange(consumed, start.len() as int);
                        assert(here[0] == Signal::FlushAll);
                        assert(here.drop_first() =~= start.subrange(
                            consumed + 1,
                            start.len() as int,
                        ));
                        consumed = consumed + 1;
                    }
                }
                None => {
                    proof {
                        assert(consumed == start.len());
                        assert(spec_drain(start) == (self.signal_queue.items@, false));
                        assert(!start.contains(Signal::Shutdown)) by {
                            if start.contains(Signal::Shutdown) {
                                let k = choose|k: int|
                                    0 <= k < start.len() && start[k] == Signal::Shutdown;
                                assert(start[k] != Signal::Shutdown);
                            }
                        }
                    }
                    return false;
                }
            }
        }
    }

    /// Whether one observed event is consistent with this listener: a TLS
    /// outcome is reported for an accepted connection exactly when TLS is
    /// configured.
    pub open spec fn event_ok(self, ev: PolledEvent) -> bool {
        ev matches PolledEvent::ListenerReady { conn } ==> (conn matches Some(c) ==> (c.tls
            is Some <==> self.tls_configured))
    }

    /// One iteration of the acceptor loop, given the batch of events the
    /// poll returned (empty when the poll timed out or failed): the loop
    /// counter grows by one, the event counter by the batch size, and each
    /// event is dispatched by its token class. The iteration reports
    /// `true` — return from the loop — exactly when the batch carries a
    /// waker event and a Shutdown signal is pending; events after the
    /// stopping one are not processed. The final state is the fold of the
    /// loop-level step functions over the processed events, in order
    /// (`run_steps`). After the iteration the caller wakes the workers so
    /// they observe newly deposited sessions.
    pub fn run_cycle(&mut self, events: &Vec<PolledEvent>) -> (stop: bool)
        requires
            old(self).wf(),
            forall|j: int| 0 <= j < events@.len() ==> old(self).event_ok(#[trigger] events@[j]),
        ensures
            final(self).wf(),
            same_config(*old(self), *final(self)),
            final(self).counters.server_event_loop == old(
                self).counters.server_event_loop.saturating_add(1),
            final(self).counters.server_event_total == old(
                self).counters.server_event_total.saturating_add(events@.len() as u64),
            old(self).napi_ids@.is_prefix_of(final(self).napi_ids@),
            old(self).slab.next_token <= final(self).slab.next_token,
            stop <==> (exists|j: int| 0 <= j < events@.len() && (#[trigger] events@[j])
                is WakerReady) && old(self).signal_queue.items@.contains(Signal::Shutdown),
            (forall|j: int| 0 <= j < events@.len() ==> !((#[trigger] events@[j]) is WakerReady))
                ==> final(self).signal_queue == old(self).signal_queue,
            !stop && (exists|j: int| 0 <= j < events@.len() && (#[trigger] events@[j])
                is WakerReady) ==> final(self).signal_queue.items@.len() == 0,
            ({
                let entry = LoopState {
                    counters: ServerCounters {
                        server_event_loop: old(
                            self,
                        ).counters.server_event_loop.saturating_add(1),
                        server_event_total: old(
                            self,
                        ).counters.server_event_total.saturating_add(events@.len() as u64),
                        ..old(self).counters
                    },
                    ..old(self).abs()
                };
                let outcome = run_steps(old(self).loop_config(), entry, events@);
                final(self).abs() == outcome.0 && stop == outcome.1
            }),
    {
        self.counters.server_event_loop = self.counters.server_event_loop.saturating_add(1);
        let n = events.len();
        self.counters.server_event_total =
            self.counters.server_event_total.saturating_add(n as u64);
        let ghost cfg = self.loop_config();
        let ghost s0 = self.abs();
        proof {
            assert(s0 == (LoopState {
                counters: ServerCounters {
                    server_event_loop: old(self).counters.server_event_loop.saturating_add(1),
                    server_event_total: old(
                        self,
                    ).counters.server_event_total.saturating_add(events@.len() as u64),
                    ..old(self).counters
                },
                ..old(self).abs()
            }));
            assert(events@.skip(0) =~= events@);
        }
        let mut i: usize = 0;
        while i < n
            invariant
                old(self).wf(),
                self.wf(),
                same_config(*old(self), *self),
                n == events@.len(),
                i <= n,
                forall|j: int| 0 <= j < events@.len() ==> old(self).event_ok(
                    #[trigger] events@[j]),
                self.counters.server_event_loop == old(
                    self).counters.server_event_loop.saturating_add(1),
                self.counters.server_event_total == old(
                    self).counters.server_event_total.saturating_add(events@.len() as u64),
                old(self).napi_ids@.is_prefix_of(self.napi_ids@),
                old(self).slab.next_token <= self.slab.next_token,
                (forall|j: int| 0 <= j < i ==> !((#[trigger] events@[j]) is WakerReady))
                    ==> self.signal_queue == old(self).signal_queue,
                (exists|j: int| 0 <= j < i && (#[trigger] events@[j]) is WakerReady)
                    ==> !old(self).signal_queue.items@.contains(Signal::Shutdown)
                    && self.signal_queue.items@.len() == 0
                    && self.signal_queue.capacity == old(self).signal_queue.capacity,
                cfg == old(self).loop_config(),
                self.loop_config() == cfg,
                s0 == (LoopState {
                    counters: ServerCounters {
                        server_event_loop: old(
                            self,
                        ).counters.server_event_loop.saturating_add(1),
                        server_event_total: old(
                            self,
                        ).counters.server_event_total.saturating_add(events@.len() as u64),
                        ..old(self).counters
                    },
                    ..old(self).abs()
                }),
                run_steps(cfg, s0, events@) == run_steps(cfg, self.abs(), events@.skip(i as int)),
            decreases n - i,
        {
            let ghost prev = *self;
            let ghost rest = events@.skip(i as int);
            proof {
                assert(rest[0] == events@[i as int]);
                assert(rest.drop_first() =~= events@.skip(i as int + 1));
            }
            let ev = events[i];
            match ev {
                PolledEvent::ListenerReady { conn } => {
                    let _acts = self.do_accept(conn);
                    proof {
                        assert(run_steps(cfg, prev.abs(), rest) == run_steps(
                            cfg,
                            self.abs(),
                            events@.skip(i as int + 1),
                        ));
                    }
                }
                PolledEvent::WakerReady => {
                    let stop_now = self.drain_signals();
                    proof {
                        assert(events@[i as int] is WakerReady);
                        assert(self.abs() == step_waker(prev.abs()).0);
                        assert(stop_now == step_waker(prev.abs()).1);
                    }
                    if stop_now {
                        proof {
                            assert(run_steps(cfg, prev.abs(), rest) == (self.abs(), true));
                        }
                        return true;
                    }
                    proof {
                        assert(run_steps(cfg, prev.abs(), rest) == run_steps(
                            cfg,
                            self.abs(),
                            events@.skip(i as int + 1),
                        ));
                    }
                }
                PolledEvent::SessionReady {
                    token,
                    is_error,
                    is_writable,
                    is_readable,
                    handshake,
                    pick,
                } => {
                    self.handle_session_event(
                        token,
                        is_error,
                        is_writable,
                        is_readable,
                        handshake,
                        pick,
                    );
                    proof {
                        assert(run_steps(cfg, prev.abs(), rest) == run_steps(
                            cfg,
                            self.abs(),
                            events@.skip(i as int + 1),
                        ));
                    }
                }
            }
            proof {
                lemma_prefix_transitive(old(self).napi_ids@, prev.napi_ids@, self.napi_ids@);
            }
            i = i + 1;
        }
        proof {
            assert(events@.skip(n as int).len() == 0);
        }
        false
    }
}

/// A prefix of a prefix is a prefix of the whole.
proof fn lemma_prefix_transitive(a: Seq<u32>, b: Seq<u32>, c: Seq<u32>)
    requires
        a.is_prefix_of(b),
        b.is_prefix_of(c),
    ensures
        a.is_prefix_of(c),
{
    assert(a =~= c.subrange(0, a.len() as int));
}

/// One readiness event as the caller observed it, with the outcomes of
/// the raw calls the event led to.
#[derive(Clone, Copy, Debug, PartialEq, Eq, Structural)]
pub enum PolledEvent {
    /// The listening socket was ready: `conn` reports the accept outcome
    /// (`None` when accept itself failed).
    ListenerReady { conn: Option<AcceptedConn> },
    /// The cross-thread waker fired: signals are pending.
    WakerReady,
    /// A handshake token was ready.
    SessionReady {
        /// The token the readiness primitive reported.
        token: u64,
        /// Whether an error sub-event was signalled.
        is_error: bool,
        /// Whether a writable sub-event was signalled.
        is_writable: bool,
        /// Whether a readable sub-event was signalled.
        is_readable: bool,
        /// What driving the TLS state machine reported, for the caller
        /// that holds the raw TLS object.
        handshake: Option<TlsStatus>,
        /// A uniform-random draw steering random placement.
        pick: usize,
    },
}

/// The reported outcome of driving a TLS accept or handshake step.
#[derive(Clone, Copy, Debug, PartialEq, Eq, Structural)]
pub enum TlsStatus {
    /// The TLS state machine completed.
    Established,
    /// The TLS state machine needs more I/O.
    WouldBlock,
    /// The TLS state machine failed for good.
    Fatal,
}

/// What the OS and TLS reported for one accepted connection.
#[derive(Clone, Copy, Debug, PartialEq, Eq, Structural)]
pub struct AcceptedConn {
    /// The accepted socket's OS handle.
    pub fd: u64,
    /// The NAPI id the kernel reports for the socket; zero when absent.
    pub napi_id: u32,
    /// The TLS accept outcome; present exactly when TLS is configured.
    pub tls: Option<TlsStatus>,
    /// Whether registering the stream with the readiness primitive
    /// succeeded; read only on a would-block handshake.
    pub registered: bool,
    /// A uniform-random draw steering random placement.
    pub pick: usize,
}

/// One step the caller performs on the raw resources, in the order
/// returned.
#[derive(Clone, Copy, Debug, PartialEq, Eq, Structural)]
pub enum AcceptAction {
    /// Set SO_PRIORITY on the accepted socket to the configured value.
    SetPriority { fd: u64, value: u32 },
    /// Hand the connection to this worker and fire its waker.
    EnqueueTo { worker: usize },
    /// Keep the connection registered for further handshaking under this
    /// token.
    RegisterHandshake { token: u64 },
    /// Close and drop the connection.
    DropConn,
    /// Re-arm read interest on the listening socket.
    ReregisterListener,
}

/// The model of an accepted stream right after the configured priority
/// was set on it: fresh counters, the kernel-reported NAPI id, and the
/// configured priority.
pub open spec fn accepted_stream(c: AcceptedConn, priority: u32) -> TcpStream {
    TcpStream {
        fd: c.fd,
        napi_id: c.napi_id,
        priority,
        tcp_recv_byte: 0,
        tcp_send_byte: 0,
        tcp_send_partial: 0,
    }
}

/// Once a nonzero NAPI id stands in a duplicate-free map, growing the map
/// only by appending keeps the id at the same index.
pub proof fn lemma_napi_index_stable(earlier: Seq<u32>, later: Seq<u32>, napi: u32)
    requires
        earlier.no_duplicates(),
        later.no_duplicates(),
        earlier.is_prefix_of(later),
        earlier.contains(napi),
    ensures
        later.contains(napi),
        napi_index(later, napi) == napi_index(earlier, napi),
{
    let i = napi_index(earlier, napi);
    assert(0 <= i < earlier.len() && earlier[i] == napi);
    assert(later[i] == earlier[i]);
    assert(later.contains(napi));
    let j = napi_index(later, napi);
    assert(0 <= j < later.len() && later[j] == napi);
    assert(i == j);
}

/// Law: under the Queues policy, every session carrying the same nonzero
/// NAPI id maps to the same worker for the lifetime of the listener. The
/// listener's step functions only ever append to the NAPI map (each
/// ensures the old map is a prefix of the new one), so any later state
/// pins an already-observed id to the worker the earlier state chose.
pub proof fn lemma_napi_affinity_stable(earlier: Listener, later: Listener, napi: u32)
    requires
        earlier.wf(),
        later.wf(),
        same_config(earlier, later),
        earlier.napi_ids@.is_prefix_of(later.napi_ids@),
        napi != 0,
        earlier.napi_ids@.contains(napi),
    ensures
        later.planned_worker(napi) == earlier.planned_worker(napi),
{
    assert(planned_napi_ids(earlier.napi_ids@, napi) == earlier.napi_ids@);
    lemma_napi_index_stable(earlier.napi_ids@, later.napi_ids@, napi);
    assert(planned_napi_ids(later.napi_ids@, napi) == later.napi_ids@);
}

/// Law: with a single worker the steering policy degenerates: whatever
/// the NAPI map holds, the pinned worker is always worker zero.
pub proof fn lemma_single_worker_always_zero(l: Listener, napi: u32)
    requires
        l.wf(),
        l.workers == 1,
    ensures
        l.planned_worker(napi) == 0,
{
    let ids = planned_napi_ids(l.napi_ids@, napi);
    if l.napi_ids@.contains(napi) {
        let k = choose|k: int| 0 <= k < l.napi_ids@.len() && l.napi_ids@[k] == napi;
        assert(ids[k] == napi);
        assert(ids.contains(napi));
    } else {
        assert(ids[ids.len() - 1] == napi);
        assert(ids.contains(napi));
    }
    let i = napi_index(ids, napi);
    assert(0 <= i < ids.len() && ids[i] == napi);
    assert(i % 1int == 0) by (nonlinear_arith)
        requires
            i >= 0,
    ;
}

/// The number of events over a run of the acceptor loop: the sum of the
/// per-iteration batch sizes.
pub open spec fn sum_batch_sizes(sizes: Seq<u64>) -> int
    decreases sizes.len(),
{
    if sizes.len() == 0 {
        0int
    } else {
        sum_batch_sizes(sizes.drop_last()) + sizes.last()
    }
}

/// The event-total counter after the acceptor loop has run one iteration
/// per batch, in order, starting from `start` (each iteration adds its
/// batch size, saturating, exactly as the loop does).
pub open spec fn total_after_batches(start: u64, sizes: Seq<u64>) -> u64
    decreases sizes.len(),
{
    if sizes.len() == 0 {
        start
    } else {
        total_after_batches(start, sizes.drop_last()).saturating_add(sizes.last())
    }
}

/// The loop counter after `count` iterations starting from `start` (each
/// iteration adds one, saturating).
pub open spec fn loops_after_batches(start: u64, count: nat) -> u64
    decreases count,
{
    if count == 0 {
        start
    } else {
        loops_after_batches(start, (count - 1) as nat).saturating_add(1)
    }
}

/// A sum of batch sizes is never negative.
pub proof fn lemma_sum_batch_sizes_nonneg(sizes: Seq<u64>)
    ensures
        sum_batch_sizes(sizes) >= 0,
    decreases sizes.len(),
{
    if sizes.len() > 0 {
        lemma_sum_batch_sizes_nonneg(sizes.drop_last());
    }
}

/// Law: over any run of the acceptor loop that stays below the counter
/// limit, the event-total counter equals its start plus the number of
/// events processed across the iterations, and the loop counter equals
/// its start plus the number of iterations. One iteration is one call of
/// `run_cycle`, which adds one to the loop counter and its batch size to
/// the event total.
pub proof fn lemma_counter_accumulation(start_total: u64, start_loop: u64, sizes: Seq<u64>)
    requires
        start_total + sum_batch_sizes(sizes) <= u64::MAX,
        start_loop + sizes.len() <= u64::MAX,
    ensures
        total_after_batches(start_total, sizes) == start_total + sum_batch_sizes(sizes),
        loops_after_batches(start_loop, sizes.len() as nat) == start_loop + sizes.len(),
    decreases sizes.len(),
{
    if sizes.len() > 0 {
        lemma_sum_batch_sizes_nonneg(sizes.drop_last());
        lemma_counter_accumulation(start_total, start_loop, sizes.drop_last());
    }
}

/// A session as the loop-level model sees it: its shape and its stream.
/// The acceptor creates every session with fresh buffers and never touches
/// them, so the model elides the buffers; the per-step contracts pin their
/// capacities.
#[derive(Clone, Copy, Debug, PartialEq, Eq, Structural)]
pub struct AbsSession {
    /// Which of the three shapes the session has.
    pub kind: SessionKind,
    /// The instrumented stream under the session.
    pub stream: TcpStream,
}

/// The configuration an acceptor-loop step reads: everything it needs is
/// fixed at construction.
#[derive(Clone, Copy, Debug, PartialEq, Eq, Structural)]
pub struct LoopConfig {
    /// The balance policy.
    pub balance: Balance,
    /// The number of worker queues.
    pub workers: usize,
    /// The SO_PRIORITY value set on accepted sockets.
    pub priority: u32,
    /// The bound each worker queue is held to.
    pub capacity: usize,
}

/// The loop-level model of one session.
pub open spec fn abs_session(s: Session) -> AbsSession {
    AbsSession { kind: s.kind, stream: s.stream }
}

/// The loop-level model of one worker queue.
pub open spec fn abs_queue(q: Vec<Session>) -> Seq<AbsSession> {
    q@.map_values(|s: Session| abs_session(s))
}

/// The loop-level model of the queue pool.
pub open spec fn abs_queues(qs: Seq<Vec<Session>>) -> Seq<Seq<AbsSession>> {
    qs.map_values(|q: Vec<Session>| abs_queue(q))
}

/// The loop-level model of the handshake slab.
pub open spec fn abs_slab(entries: Seq<(u64, Session)>) -> Seq<(u64, AbsSession)> {
    entries.map_values(|e: (u64, Session)| (e.0, abs_session(e.1)))
}

/// The acceptor state one loop iteration folds over.
pub ghost struct LoopState {
    /// The per-worker session queues.
    pub queues: Seq<Seq<AbsSession>>,
    /// The handshake slab entries, in insertion order.
    pub slab: Seq<(u64, AbsSession)>,
    /// The token the next registered handshake receives.
    pub next_token: u64,
    /// The NAPI map, in order of first appearance.
    pub napi_ids: Seq<u32>,
    /// The pending signals, oldest first.
    pub signals: Seq<Signal>,
    /// The acceptor's counters.
    pub counters: ServerCounters,
}

/// The accept-error counter grows by one (saturating); nothing else moves.
pub open spec fn loop_bump_accept_ex(s: LoopState) -> LoopState {
    LoopState {
        counters: ServerCounters {
            tcp_accept_ex: s.counters.tcp_accept_ex.saturating_add(1),
            ..s.counters
        },
        ..s
    }
}

/// One session enters worker `w`'s queue; nothing else moves.
pub open spec fn loop_enqueue(s: LoopState, w: int, item: AbsSession) -> LoopState {
    LoopState { queues: s.queues.update(w, s.queues[w].push(item)), ..s }
}

/// The first queue with room among indices `lo..hi`, scanning upward.
pub open spec fn first_open_in(qs: Seq<Seq<AbsSession>>, cap: usize, lo: int, hi: int) -> Option<
    int,
>
    decreases hi - lo,
{
    if lo >= hi {
        None
    } else if qs[lo].len() < cap {
        Some(lo)
    } else {
        first_open_in(qs, cap, lo + 1, hi)
    }
}

/// The queue a uniform draw of `start` lands on: the first queue with
/// room, scanning from `start` to the end and then wrapping to the front.
pub open spec fn rotation_target(qs: Seq<Seq<AbsSession>>, cap: usize, start: int) -> Option<int> {
    match first_open_in(qs, cap, start, qs.len() as int) {
        Some(w) => Some(w),
        None => first_open_in(qs, cap, 0, start),
    }
}

/// Whether some slab entry carries `token`.
pub open spec fn loop_slab_has(slab: Seq<(u64, AbsSession)>, token: u64) -> bool {
    exists|i: int| 0 <= i < slab.len() && (#[trigger] slab[i]).0 == token
}

/// The index of the slab entry carrying `token`; the one such index when
/// the tokens are distinct.
pub open spec fn loop_slab_at(slab: Seq<(u64, AbsSession)>, token: u64) -> int {
    choose|i: int| 0 <= i < slab.len() && (#[trigger] slab[i]).0 == token
}

/// The error, writable and readable sub-events each grow their counter by
/// one (saturating).
pub open spec fn count_flags(
    c: ServerCounters,
    is_error: bool,
    is_writable: bool,
    is_readable: bool,
) -> ServerCounters {
    ServerCounters {
        server_event_error: if is_error {
            c.server_event_error.saturating_add(1)
        } else {
            c.server_event_error
        },
        server_event_write: if is_writable {
            c.server_event_write.saturating_add(1)
        } else {
            c.server_event_write
        },
        server_event_read: if is_readable {
            c.server_event_read.saturating_add(1)
        } else {
            c.server_event_read
        },
        ..c
    }
}

/// Dispatch of one ready session by the balance policy: under Queues with
/// a nonzero NAPI id the id is recorded and its first-seen position pins
/// the worker; otherwise the rotation scan from the uniform draw places
/// it. A full target drops the session with the accept-error counter.
pub open spec fn step_dispatch(cfg: LoopConfig, s: LoopState, item: AbsSession, pick: usize) -> LoopState {
    let napi = item.stream.napi_id;
    if cfg.balance == Balance::Queues && napi != 0 {
        let ids = planned_napi_ids(s.napi_ids, napi);
        let w = napi_index(ids, napi) % (cfg.workers as int);
        let s1 = LoopState { napi_ids: ids, ..s };
        if s.queues[w].len() < cfg.capacity {
            loop_enqueue(s1, w, item)
        } else {
            loop_bump_accept_ex(s1)
        }
    } else {
        match rotation_target(s.queues, cfg.capacity, (pick as int) % (s.queues.len() as int)) {
            Some(w) => loop_enqueue(s, w, item),
            None => loop_bump_accept_ex(s),
        }
    }
}

/// One readiness notification on the listening socket: nothing on a
/// failed accept; otherwise the accepted stream (with the configured
/// priority set) is dispatched, registered for further handshaking, or
/// dropped with the accept-error counter, by the TLS outcome.
pub open spec fn step_accept(cfg: LoopConfig, s: LoopState, conn: Option<AcceptedConn>) -> LoopState {
    match conn {
        None => s,
        Some(c) => {
            let stream = accepted_stream(c, cfg.priority);
            match c.tls {
                None => step_dispatch(
                    cfg,
                    s,
                    AbsSession { kind: SessionKind::Plain, stream },
                    c.pick,
                ),
                Some(TlsStatus::Established) => step_dispatch(
                    cfg,
                    s,
                    AbsSession { kind: SessionKind::EstablishedTls, stream },
                    c.pick,
                ),
                Some(TlsStatus::WouldBlock) => if c.registered && s.next_token < WAKER_TOKEN {
                    LoopState {
                        slab: s.slab.push(
                            (s.next_token, AbsSession { kind: SessionKind::Handshaking, stream }),
                        ),
                        next_token: (s.next_token + 1) as u64,
                        ..s
                    }
                } else {
                    loop_bump_accept_ex(s)
                },
                Some(TlsStatus::Fatal) => loop_bump_accept_ex(s),
            }
        }
    }
}

/// One readiness event on a handshake token: the sub-event counters move,
/// then the session's fate — dropped on error or fatal handshake,
/// dispatched to any worker with room on completion, left registered on
/// would-block or when no handshake result was reported.
pub open spec fn step_session(
    cfg: LoopConfig,
    s: LoopState,
    token: u64,
    is_error: bool,
    is_writable: bool,
    is_readable: bool,
    handshake: Option<TlsStatus>,
    pick: usize,
) -> LoopState {
    let s1 = LoopState { counters: count_flags(s.counters, is_error, is_writable, is_readable), ..s };
    if !loop_slab_has(s.slab, token) {
        s1
    } else {
        let i = loop_slab_at(s.slab, token);
        let hs = s.slab[i].1;
        if is_error {
            loop_bump_accept_ex(LoopState { slab: s1.slab.remove(i), ..s1 })
        } else {
            match handshake {
                None => s1,
                Some(TlsStatus::WouldBlock) => s1,
                Some(TlsStatus::Fatal) => loop_bump_accept_ex(
                    LoopState { slab: s1.slab.remove(i), ..s1 },
                ),
                Some(TlsStatus::Established) => {
                    let s2 = LoopState { slab: s1.slab.remove(i), ..s1 };
                    let done = AbsSession { kind: SessionKind::EstablishedTls, stream: hs.stream };
                    match rotation_target(
                        s2.queues,
                        cfg.capacity,
                        (pick as int) % (s2.queues.len() as int),
                    ) {
                        Some(w) => loop_enqueue(s2, w, done),
                        None => loop_bump_accept_ex(s2),
                    }
                }
            }
        }
    }
}

/// The signal channel drained from the front: flushes are consumed as
/// no-ops, and the first Shutdown stops the drain, leaving what follows
/// it. Without a Shutdown the channel drains empty.
pub open spec fn spec_drain(sigs: Seq<Signal>) -> (Seq<Signal>, bool)
    decreases sigs.len(),
{
    if sigs.len() == 0 {
        (sigs, false)
    } else if sigs[0] == Signal::Shutdown {
        (sigs.drop_first(), true)
    } else {
        spec_drain(sigs.drop_first())
    }
}

/// The waker fired: the signal channel is drained, and a pending
/// Shutdown stops the loop.
pub open spec fn step_waker(s: LoopState) -> (LoopState, bool) {
    let r = spec_drain(s.signals);
    (LoopState { signals: r.0, ..s }, r.1)
}

/// One loop iteration over its event batch, event by event in order: the
/// listener token accepts, the waker token drains signals, any other
/// token drives a handshake session. A stopping waker event ends the
/// iteration at once; events after it are not processed.
pub open spec fn run_steps(cfg: LoopConfig, s: LoopState, events: Seq<PolledEvent>) -> (
    LoopState,
    bool,
)
    decreases events.len(),
{
    if events.len() == 0 {
        (s, false)
    } else {
        let rest = events.drop_first();
        match events[0] {
            PolledEvent::ListenerReady { conn } => run_steps(cfg, step_accept(cfg, s, conn), rest),
            PolledEvent::WakerReady => {
                let r = step_waker(s);
                if r.1 {
                    r
                } else {
                    run_steps(cfg, r.0, rest)
                }
            }
            PolledEvent::SessionReady { token, is_error, is_writable, is_readable, handshake, pick } => run_steps(
                cfg,
                step_session(cfg, s, token, is_error, is_writable, is_readable, handshake, pick),
                rest,
            ),
        }
    }
}

/// What `first_open_in` finds: the first index with room in the range,
/// or a full range.
proof fn lemma_first_open_in_char(qs: Seq<Seq<AbsSession>>, cap: usize, lo: int, hi: int)
    requires
        0 <= lo <= hi <= qs.len(),
    ensures
        match first_open_in(qs, cap, lo, hi) {
            Some(w) => lo <= w < hi && qs[w].len() < cap && (forall|j: int|
                lo <= j < w ==> #[trigger] qs[j].len() >= cap),
            None => forall|j: int| lo <= j < hi ==> #[trigger] qs[j].len() >= cap,
        },
    decreases hi - lo,
{
    if lo < hi && qs[lo].len() >= cap {
        lemma_first_open_in_char(qs, cap, lo + 1, hi);
    }
}

/// `first_open_in` finds exactly the first index with room.
proof fn lemma_first_open_in_some(qs: Seq<Seq<AbsSession>>, cap: usize, lo: int, hi: int, w: int)
    requires
        0 <= lo <= hi <= qs.len(),
        lo <= w < hi,
        qs[w].len() < cap,
        forall|j: int| lo <= j < w ==> #[trigger] qs[j].len() >= cap,
    ensures
        first_open_in(qs, cap, lo, hi) == Some(w),
    decreases hi - lo,
{
    if lo < w {
        lemma_first_open_in_some(qs, cap, lo + 1, hi, w);
    }
}

/// Abstraction keeps the pool's shape: as many queues, each as long.
proof fn lemma_abs_queues_len(qs: Seq<Vec<Session>>)
    ensures
        abs_queues(qs).len() == qs.len(),
        forall|i: int| 0 <= i < qs.len() ==> #[trigger] abs_queues(qs)[i].len() == qs[i]@.len(),
{
    assert forall|i: int| 0 <= i < qs.len() implies #[trigger] abs_queues(qs)[i].len()
        == qs[i]@.len() by {
        assert(abs_queues(qs)[i] == abs_queue(qs[i]));
    }
}

/// Pushing one session onto one queue commutes with abstraction.
proof fn lemma_abs_queues_update_push(
    qs: Seq<Vec<Session>>,
    qs2: Seq<Vec<Session>>,
    w: int,
    x: Session,
)
    requires
        0 <= w < qs.len(),
        qs2.len() == qs.len(),
        qs2[w]@ == qs[w]@.push(x),
        forall|i: int| 0 <= i < qs.len() && i != w ==> #[trigger] qs2[i] == qs[i],
    ensures
        abs_queues(qs2) == abs_queues(qs).update(w, abs_queues(qs)[w].push(abs_session(x))),
{
    let a = abs_queues(qs);
    let b = abs_queues(qs2);
    assert(abs_queue(qs2[w]) =~= abs_queue(qs[w]).push(abs_session(x))) by {
        assert forall|j: int| 0 <= j < qs2[w]@.len() implies #[trigger] abs_queue(qs2[w])[j] == (
            if j < qs[w]@.len() {
                abs_queue(qs[w])[j]
            } else {
                abs_session(x)
            }
        ) by {
            assert(abs_queue(qs2[w])[j] == abs_session(qs2[w]@[j]));
        }
    }
    assert(b =~= a.update(w, a[w].push(abs_session(x)))) by {
        assert forall|i: int| 0 <= i < b.len() implies #[trigger] b[i] == a.update(
            w,
            a[w].push(abs_session(x)),
        )[i] by {
            assert(b[i] == abs_queue(qs2[i]));
            assert(a[i] == abs_queue(qs[i]));
        }
    }
}

/// Registering one session in the slab commutes with abstraction.
proof fn lemma_abs_slab_push(entries: Seq<(u64, Session)>, t: u64, x: Session)
    ensures
        abs_slab(entries.push((t, x))) == abs_slab(entries).push((t, abs_session(x))),
{
    assert(abs_slab(entries.push((t, x))) =~= abs_slab(entries).push((t, abs_session(x)))) by {
        assert forall|i: int| 0 <= i < entries.len() + 1 implies #[trigger] abs_slab(
            entries.push((t, x)),
        )[i] == (if i < entries.len() {
            abs_slab(entries)[i]
        } else {
            (t, abs_session(x))
        }) by {
            assert(abs_slab(entries.push((t, x)))[i] == (
                entries.push((t, x))[i].0,
                abs_session(entries.push((t, x))[i].1),
            ));
        }
    }
}

/// Removing one slab entry commutes with abstraction.
proof fn lemma_abs_slab_remove(entries: Seq<(u64, Session)>, i: int)
    requires
        0 <= i < entries.len(),
    ensures
        abs_slab(entries.remove(i)) == abs_slab(entries).remove(i),
{
    entries.remove_ensures(i);
    abs_slab(entries).remove_ensures(i);
    assert(abs_slab(entries.remove(i)) =~= abs_slab(entries).remove(i)) by {
        assert forall|j: int| 0 <= j < entries.len() - 1 implies #[trigger] abs_slab(
            entries.remove(i),
        )[j] == abs_slab(entries).remove(i)[j] by {
            let j0 = if j < i { j } else { j + 1 };
            assert(entries.remove(i)[j] == entries[j0]);
            assert(abs_slab(entries.remove(i))[j] == (
                entries.remove(i)[j].0,
                abs_session(entries.remove(i)[j].1),
            ));
            assert(abs_slab(entries)[j0] == (entries[j0].0, abs_session(entries[j0].1)));
        }
    }
}

/// Abstraction keeps each slab entry's token and maps its session.
proof fn lemma_abs_slab_entries(entries: Seq<(u64, Session)>)
    ensures
        abs_slab(entries).len() == entries.len(),
        forall|i: int| 0 <= i < entries.len() ==> (#[trigger] abs_slab(entries)[i]) == (
            entries[i].0,
            abs_session(entries[i].1),
        ),
{
}

/// The rotation scan in the model finds exactly the worker the concrete
/// scan placed on.
proof fn lemma_rotation_of_first_open(q: SessionQueues, start: int, w: int)
    requires
        q.wf(),
        0 <= start < q.queues@.len(),
        q.rotation_first_open(start, w),
    ensures
        rotation_target(abs_queues(q.queues@), q.capacity, start) == Some(w),
{
    let a = abs_queues(q.queues@);
    lemma_abs_queues_len(q.queues@);
    let n = a.len() as int;
    if w >= start {
        assert forall|j: int| start <= j < w implies #[trigger] a[j].len() >= q.capacity by {
            assert(!q.slot_open(j));
        }
        lemma_first_open_in_some(a, q.capacity, start, n, w);
    } else {
        assert forall|j: int| start <= j < n implies #[trigger] a[j].len() >= q.capacity by {
            assert(!q.slot_open(j));
        }
        lemma_first_open_in_char(a, q.capacity, start, n);
        assert(first_open_in(a, q.capacity, start, n) is None) by {
            match first_open_in(a, q.capacity, start, n) {
                Some(w2) => {
                    assert(a[w2].len() >= q.capacity);
                }
                None => {}
            }
        }
        assert forall|j: int| 0 <= j < w implies #[trigger] a[j].len() >= q.capacity by {
            assert(!q.slot_open(j));
        }
        lemma_first_open_in_some(a, q.capacity, 0, start, w);
    }
}

/// With every queue full, the rotation scan in the model finds nothing.
proof fn lemma_rotation_none(q: SessionQueues, start: int)
    requires
        q.wf(),
        0 <= start < q.queues@.len(),
        forall|i: int| 0 <= i < q.queues@.len() ==> !q.slot_open(i),
    ensures
        rotation_target(abs_queues(q.queues@), q.capacity, start) is None,
{
    let a = abs_queues(q.queues@);
    lemma_abs_queues_len(q.queues@);
    let n = a.len() as int;
    assert forall|j: int| 0 <= j < n implies #[trigger] a[j].len() >= q.capacity by {
        assert(!q.slot_open(j));
    }
    lemma_first_open_in_char(a, q.capacity, start, n);
    lemma_first_open_in_char(a, q.capacity, 0, start);
}

/// Lookup by token commutes with abstraction: the model slab holds the
/// token at exactly the concrete index, carrying the model of the same
/// session.
proof fn lemma_abs_slab_lookup(slab: HandshakeSlab, token: u64)
    requires
        slab.wf(),
    ensures
        loop_slab_has(abs_slab(slab.entries@), token) == slab.spec_contains(token),
        slab.spec_contains(token) ==> loop_slab_at(abs_slab(slab.entries@), token)
            == slab.spec_index_of(token) && abs_slab(slab.entries@)[slab.spec_index_of(token)].1
            == abs_session(slab.spec_session(token)),
{
    let a = abs_slab(slab.entries@);
    lemma_abs_slab_entries(slab.entries@);
    if slab.spec_contains(token) {
        let i = slab.spec_index_of(token);
        assert(0 <= i < slab.entries@.len() && slab.entries@[i].0 == token);
        assert(a[i].0 == token);
        assert(loop_slab_has(a, token));
        let j = loop_slab_at(a, token);
        assert(0 <= j < a.len() && a[j].0 == token);
        assert(slab.entries@[j].0 == token);
        assert(i == j);
    }
    if loop_slab_has(a, token) {
        let j = choose|j: int| 0 <= j < a.len() && (#[trigger] a[j]).0 == token;
        assert(slab.entries@[j].0 == token);
        assert(slab.spec_contains(token));
    }
}

} // verus!
