//! Model of an instrumented, connected, non-blocking TCP stream.
//!
//! The acceptor's logic never touches raw sockets; it works on this model,
//! which carries exactly the attributes the logic reads or updates: the OS
//! handle, the NIC-receive-queue identity reported by the kernel, the last
//! socket priority set, and the cumulative byte counters. The raw socket
//! calls themselves (read, write, shutdown, the sockopt system calls) are
//! performed outside this crate; their results are recorded here.

use vstd::prelude::*;

verus! {

/// Why a raw stream was rejected at construction.
#[derive(Clone, Copy, Debug, PartialEq, Eq, Structural)]
pub enum StreamError {
    /// The stream has no reachable peer address: it is not yet connected.
    NotConnected,
}

/// An instrumented TCP stream.
///
/// Invariant of the surrounding logic: a value of this type exists only for
/// a connected stream (construction rejects unconnected ones).
#[derive(Clone, Copy, Debug, PartialEq, Eq, Structural)]
pub struct TcpStream {
    /// The OS handle (file descriptor) of the socket.
    pub fd: u64,
    /// The NIC receive-queue identifier the kernel reports for this socket;
    /// zero when the platform or kernel reports none.
    pub napi_id: u32,
    /// The last SO_PRIORITY value set on the socket.
    pub priority: u32,
    /// Cumulative bytes received over this stream.
    pub tcp_recv_byte: u64,
    /// Cumulative bytes sent over this stream.
    pub tcp_send_byte: u64,
    /// Number of writes that sent fewer bytes than were asked for.
    pub tcp_send_partial: u64,
}

impl TcpStream {
    /// Wraps a raw accepted stream. `connected` reports whether the peer
    /// address was reachable; an unconnected stream is rejected, exactly as
    /// wrapping rejects a raw stream without a peer address.
    pub fn try_from_raw(fd: u64, napi_id: u32, connected: bool) -> (r: Result<TcpStream, StreamError>)
        ensures
            r is Ok <==> connected,
            r matches Ok(s) ==> s == (TcpStream {
                fd,
                napi_id,
                priority: 0,
                tcp_recv_byte: 0,
                tcp_send_byte: 0,
                tcp_send_partial: 0,
            }),
            r is Err ==> r == Result::<TcpStream, StreamError>::Err(StreamError::NotConnected),
    {
        if connected {
            Ok(TcpStream { fd, napi_id, priority: 0, tcp_recv_byte: 0, tcp_send_byte: 0, tcp_send_partial: 0 })
        } else {
            Err(StreamError::NotConnected)
        }
    }

    /// The NIC receive-queue identifier steering this socket, or `None`
    /// when the kernel reported none (value zero).
    pub fn napi_id(&self) -> (r: Option<u32>)
        ensures
            r == (if self.napi_id == 0 { Option::<u32>::None } else { Option::<u32>::Some(self.napi_id) }),
    {
        if self.napi_id == 0 {
            None
        } else {
            Some(self.napi_id)
        }
    }

    /// Records that SO_PRIORITY was set to `value` on this socket.
    pub fn set_priority(&mut self, value: u32)
        ensures
            *final(self) == (TcpStream { priority: value, ..*old(self) }),
    {
        self.priority = value;
    }

    /// Records a successful read of `bytes` bytes: the received-byte
    /// counter grows by that amount (saturating at the counter's limit).
    pub fn record_read(&mut self, bytes: usize)
        ensures
            *final(self) == (TcpStream {
                tcp_recv_byte: old(self).tcp_recv_byte.saturating_add(bytes as u64),
                ..*old(self)
            }),
    {
        self.tcp_recv_byte = self.tcp_recv_byte.saturating_add(bytes as u64);
    }

    /// Records a successful write: the sent-byte counter grows by `bytes`,
    /// and the partial-write counter grows by one exactly when fewer bytes
    /// were written than were asked for.
    pub fn record_write(&mut self, bytes: usize, requested: usize)
        requires
            bytes <= requested,
        ensures
            *final(self) == (TcpStream {
                tcp_send_byte: old(self).tcp_send_byte.saturating_add(bytes as u64),
                tcp_send_partial: if bytes < requested {
                    old(self).tcp_send_partial.saturating_add(1)
                } else {
                    old(self).tcp_send_partial
                },
                ..*old(self)
            }),
    {
        if bytes != requested {
            self.tcp_send_partial = self.tcp_send_partial.saturating_add(1);
        }
        self.tcp_send_byte = self.tcp_send_byte.saturating_add(bytes as u64);
    }
}

} // verus!
