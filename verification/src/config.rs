//! Configuration snapshots consumed by the acceptor: the worker-pool
//! section (thread count, poll settings, balance policy) and the TCP
//! section (listen backlog, pool size, socket priority).

use vstd::prelude::*;

verus! {

/// Default TCP listen backlog.
pub const TCP_BACKLOG: usize = 128;
/// Default TCP connection pool size.
pub const TCP_POOLSIZE: usize = 0;
/// Default SO_PRIORITY value set on accepted sockets.
pub const TCP_PRIORITY: u32 = 0;

/// Default worker poll timeout in milliseconds.
pub const WORKER_TIMEOUT: usize = 100;
/// Default worker poll batch capacity.
pub const WORKER_NEVENT: usize = 1024;
/// Default number of worker threads.
pub const WORKER_THREADS: usize = 1;

/// Policy by which accepted sessions are assigned to workers.
#[derive(Clone, Copy, Debug, PartialEq, Eq, Structural)]
pub enum Balance {
    /// Uniform random placement among the workers whose queues are not full.
    Random,
    /// NIC-receive-queue affinity: a connection's NAPI id is pinned to a
    /// fixed worker for the lifetime of the acceptor.
    Queues,
}

// helper functions supplying the default for each field
fn backlog() -> (r: usize)
    ensures
        r == TCP_BACKLOG,
{
    TCP_BACKLOG
}

fn poolsize() -> (r: usize)
    ensures
        r == TCP_POOLSIZE,
{
    TCP_POOLSIZE
}

fn priority() -> (r: u32)
    ensures
        r == TCP_PRIORITY,
{
    TCP_PRIORITY
}

fn timeout() -> (r: usize)
    ensures
        r == WORKER_TIMEOUT,
{
    WORKER_TIMEOUT
}

fn nevent() -> (r: usize)
    ensures
        r == WORKER_NEVENT,
{
    WORKER_NEVENT
}

fn threads() -> (r: usize)
    ensures
        r == WORKER_THREADS,
{
    WORKER_THREADS
}

fn balance() -> (r: Balance)
    ensures
        r == Balance::Random,
{
    Balance::Random
}

/// The TCP section of the configuration.
#[derive(Clone, Copy, Debug)]
pub struct Tcp {
    /// The listen backlog requested for the listening socket.
    pub backlog: usize,
    /// The connection pool size.
    pub poolsize: usize,
    /// The SO_PRIORITY value to set on every accepted socket.
    pub priority: u32,
}

impl Tcp {
    /// Builds a TCP section from explicit values.
    pub fn new(backlog: usize, poolsize: usize, priority: u32) -> (r: Tcp)
        ensures
            r.backlog == backlog,
            r.poolsize == poolsize,
            r.priority == priority,
    {
        Tcp { backlog, poolsize, priority }
    }

    /// The listen backlog requested for the listening socket.
    pub fn backlog(&self) -> (r: usize)
        ensures
            r == self.backlog,
    {
        self.backlog
    }

    /// The connection pool size.
    pub fn poolsize(&self) -> (r: usize)
        ensures
            r == self.poolsize,
    {
        self.poolsize
    }

    /// The SO_PRIORITY value to set on every accepted socket.
    pub fn priority(&self) -> (r: u32)
        ensures
            r == self.priority,
    {
        self.priority
    }
}

impl Default for Tcp {
    fn default() -> (r: Tcp)
        ensures
            r.backlog == TCP_BACKLOG,
            r.poolsize == TCP_POOLSIZE,
            r.priority == TCP_PRIORITY,
    {
        Tcp { backlog: backlog(), poolsize: poolsize(), priority: priority() }
    }
}

/// The worker section of the configuration.
#[derive(Clone, Copy, Debug)]
pub struct Worker {
    /// The worker poll timeout in milliseconds.
    pub timeout: usize,
    /// The worker poll batch capacity.
    pub nevent: usize,
    /// The number of worker threads.
    pub threads: usize,
    /// The balance policy for assigning sessions to workers.
    pub balance: Balance,
}

impl Worker {
    /// Builds a worker section from explicit values.
    pub fn new(timeout: usize, nevent: usize, threads: usize, balance: Balance) -> (r: Worker)
        ensures
            r.timeout == timeout,
            r.nevent == nevent,
            r.threads == threads,
            r.balance == balance,
    {
        Worker { timeout, nevent, threads, balance }
    }

    /// The worker poll timeout in milliseconds.
    pub fn timeout(&self) -> (r: usize)
        ensures
            r == self.timeout,
    {
        self.timeout
    }

    /// The worker poll batch capacity.
    pub fn nevent(&self) -> (r: usize)
        ensures
            r == self.nevent,
    {
        self.nevent
    }

    /// The number of worker threads.
    pub fn threads(&self) -> (r: usize)
        ensures
            r == self.threads,
    {
        self.threads
    }

    /// The balance policy for assigning sessions to workers.
    pub fn balance(&self) -> (r: Balance)
        ensures
            r == self.balance,
    {
        self.balance
    }

    /// Overrides the number of worker threads.
    pub fn set_threads(&mut self, threads: usize)
        ensures
            final(self).threads == threads,
            final(self).timeout == old(self).timeout,
            final(self).nevent == old(self).nevent,
            final(self).balance == old(self).balance,
    {
        self.threads = threads
    }
}

impl Default for Worker {
    fn default() -> (r: Worker)
        ensures
            r.timeout == WORKER_TIMEOUT,
            r.nevent == WORKER_NEVENT,
            r.threads == WORKER_THREADS,
            r.balance == Balance::Random,
    {
        Worker { timeout: timeout(), nevent: nevent(), threads: threads(), balance: balance() }
    }
}

/// Access to the TCP section of a larger configuration.
pub trait TcpConfig {
    fn tcp(&self) -> &Tcp;
}

/// Access to the worker section of a larger configuration.
pub trait WorkerConfig {
    fn worker(&self) -> &Worker;

    fn worker_mut(&mut self) -> &mut Worker;
}

} // verus!
