//! The session model: the unit of a connection handed from the acceptor to
//! a worker. A session is a closed tagged union over three shapes — a plain
//! stream, a mid-handshake TLS stream, or an established TLS stream — and
//! carries a read and a write buffer of configured capacity.

use vstd::prelude::*;

use crate::stream::TcpStream;

verus! {

/// The shape of a session. Exactly one holds at a time; `Handshaking`
/// becomes `EstablishedTls` exactly once and never goes back.
#[derive(Clone, Copy, Debug, PartialEq, Eq, Structural)]
pub enum SessionKind {
    /// A plain (non-TLS) stream.
    Plain,
    /// A TLS stream whose handshake is still in progress.
    Handshaking,
    /// A TLS stream whose handshake has completed.
    EstablishedTls,
}

/// A growable byte buffer with a configured starting capacity and a hard
/// upper bound on growth.
#[derive(Clone, Debug)]
pub struct Buffer {
    /// The buffered bytes.
    pub data: Vec<u8>,
    /// The capacity the buffer starts from.
    pub capacity: usize,
    /// The bound past which the buffer must not grow.
    pub max_capacity: usize,
}

impl Buffer {
    /// An empty buffer with the given starting capacity and bound.
    pub fn with_capacity(capacity: usize, max_capacity: usize) -> (r: Buffer)
        ensures
            r.data@ == Seq::<u8>::empty(),
            r.capacity == capacity,
            r.max_capacity == max_capacity,
    {
        Buffer { data: Vec::new(), capacity, max_capacity }
    }
}

/// A session: a tagged stream plus its read and write buffers.
#[derive(Clone, Debug)]
pub struct Session {
    /// Which of the three shapes this session currently has.
    pub kind: SessionKind,
    /// The instrumented stream under the session.
    pub stream: TcpStream,
    /// Bytes read from the stream, awaiting the protocol.
    pub read_buffer: Buffer,
    /// Bytes produced by the protocol, awaiting the stream.
    pub write_buffer: Buffer,
}

/// What every fresh session looks like: empty read and write buffers of
/// the given capacities around the given stream, under the given tag.
pub open spec fn is_fresh(s: Session, kind: SessionKind, stream: TcpStream, capacity: usize, max_capacity: usize) -> bool {
    &&& s.kind == kind
    &&& s.stream == stream
    &&& s.read_buffer.data@ == Seq::<u8>::empty()
    &&& s.read_buffer.capacity == capacity
    &&& s.read_buffer.max_capacity == max_capacity
    &&& s.write_buffer.data@ == Seq::<u8>::empty()
    &&& s.write_buffer.capacity == capacity
    &&& s.write_buffer.max_capacity == max_capacity
}

impl Session {
    /// A plain session over a connected stream.
    pub fn plain_with_capacity(stream: TcpStream, capacity: usize, max_capacity: usize) -> (r: Session)
        ensures
            is_fresh(r, SessionKind::Plain, stream, capacity, max_capacity),
    {
        Session {
            kind: SessionKind::Plain,
            stream,
            read_buffer: Buffer::with_capacity(capacity, max_capacity),
            write_buffer: Buffer::with_capacity(capacity, max_capacity),
        }
    }

    /// A session whose TLS handshake is still in progress.
    pub fn handshaking_with_capacity(stream: TcpStream, capacity: usize, max_capacity: usize) -> (r: Session)
        ensures
            is_fresh(r, SessionKind::Handshaking, stream, capacity, max_capacity),
    {
        Session {
            kind: SessionKind::Handshaking,
            stream,
            read_buffer: Buffer::with_capacity(capacity, max_capacity),
            write_buffer: Buffer::with_capacity(capacity, max_capacity),
        }
    }

    /// A session whose TLS handshake completed during accept.
    pub fn tls_with_capacity(stream: TcpStream, capacity: usize, max_capacity: usize) -> (r: Session)
        ensures
            is_fresh(r, SessionKind::EstablishedTls, stream, capacity, max_capacity),
    {
        Session {
            kind: SessionKind::EstablishedTls,
            stream,
            read_buffer: Buffer::with_capacity(capacity, max_capacity),
            write_buffer: Buffer::with_capacity(capacity, max_capacity),
        }
    }

    /// Records that the TLS state machine under a handshaking session has
    /// completed: the session becomes established, everything else is kept.
    /// This is the only transition between shapes.
    pub fn complete_handshake(&mut self)
        requires
            old(self).kind == SessionKind::Handshaking,
        ensures
            *final(self) == (Session { kind: SessionKind::EstablishedTls, ..*old(self) }),
    {
        self.kind = SessionKind::EstablishedTls;
    }
}

} // verus!
