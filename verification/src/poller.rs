//! The verifiable heart of the poller: the reserved tokens and the slab of
//! in-flight TLS handshake sessions keyed by token. The readiness
//! primitive itself, the listening socket and the cross-thread waker are
//! raw OS resources driven outside this crate; the slab is what the
//! acceptor's logic reads and updates when readiness is reported.

use vstd::prelude::*;

use crate::session::{Session, SessionKind};

verus! {

/// The token under which the listening socket is registered.
pub const LISTENER_TOKEN: u64 = u64::MAX;

/// The token delivered when the cross-thread waker fires.
pub const WAKER_TOKEN: u64 = u64::MAX - 1;

/// No two slab entries carry the same token.
pub open spec fn distinct_tokens(entries: Seq<(u64, Session)>) -> bool {
    forall|i: int, j: int| 0 <= i < j < entries.len() ==> entries[i].0 != entries[j].0
}

/// The store of in-flight handshake sessions, keyed by the token under
/// which each session's stream is registered. Tokens are allocated
/// monotonically, so a token is never reused while the slab lives.
#[derive(Clone, Debug)]
pub struct HandshakeSlab {
    /// The live sessions with their tokens, in insertion order.
    pub entries: Vec<(u64, Session)>,
    /// The token the next added session will receive.
    pub next_token: u64,
}

impl HandshakeSlab {
    /// Tokens are distinct, below the allocation cursor, clear of the two
    /// reserved tokens, and every stored session is mid-handshake.
    pub open spec fn wf(self) -> bool {
        &&& distinct_tokens(self.entries@)
        &&& self.next_token <= WAKER_TOKEN
        &&& forall|i: int| 0 <= i < self.entries@.len()
            ==> (#[trigger] self.entries@[i]).0 < self.next_token
        &&& forall|i: int| 0 <= i < self.entries@.len()
            ==> (#[trigger] self.entries@[i]).1.kind == SessionKind::Handshaking
    }

    /// Whether some entry carries `token`.
    pub open spec fn spec_contains(self, token: u64) -> bool {
        exists|i: int| 0 <= i < self.entries@.len() && (#[trigger] self.entries@[i]).0 == token
    }

    /// The index of the entry carrying `token`. Meaningful whenever the
    /// slab contains `token` and its tokens are distinct: then it is the
    /// one such index.
    pub open spec fn spec_index_of(self, token: u64) -> int {
        choose|i: int| 0 <= i < self.entries@.len() && (#[trigger] self.entries@[i]).0 == token
    }

    /// The session registered under `token`; meaningful under the same
    /// conditions as the index.
    pub open spec fn spec_session(self, token: u64) -> Session {
        self.entries@[self.spec_index_of(token)].1
    }

    /// An empty slab; token allocation starts at zero.
    pub fn new() -> (r: HandshakeSlab)
        ensures
            r.wf(),
            r.entries@ == Seq::<(u64, Session)>::empty(),
            r.next_token == 0,
    {
        HandshakeSlab { entries: Vec::new(), next_token: 0 }
    }

    /// The number of sessions currently mid-handshake.
    pub fn len(&self) -> (r: usize)
        ensures
            r == self.entries@.len(),
    {
        self.entries.len()
    }

    /// Whether a session is registered under `token`.
    pub fn contains(&self, token: u64) -> (r: bool)
        ensures
            r == self.spec_contains(token),
    {
        let n = self.entries.len();
        let mut i: usize = 0;
        while i < n
            invariant
                n == self.entries@.len(),
                i <= n,
                forall|j: int| 0 <= j < i ==> (#[trigger] self.entries@[j]).0 != token,
            decreases n - i,
        {
            if self.entries[i].0 == token {
                return true;
            }
            i = i + 1;
        }
        false
    }

    /// Stores a mid-handshake session under a freshly allocated token.
    /// `registered` reports whether the stream could be registered with
    /// the readiness primitive; on registration failure, or when the token
    /// space is exhausted, the session is handed back.
    pub fn add_session(&mut self, session: Session, registered: bool) -> (r: Result<u64, Session>)
        requires
            old(self).wf(),
            session.kind == SessionKind::Handshaking,
        ensures
            final(self).wf(),
            r is Ok <==> registered && old(self).next_token < WAKER_TOKEN,
            r matches Ok(token) ==> {
                &&& token == old(self).next_token
                &&& final(self).entries@ == old(self).entries@.push((token, session))
                &&& final(self).next_token == old(self).next_token + 1
            },
            r matches Err(s) ==> s == session && *final(self) == *old(self),
    {
        if registered && self.next_token < WAKER_TOKEN {
            let token = self.next_token;
            self.entries.push((token, session));
            self.next_token = token + 1;
            Ok(token)
        } else {
            Err(session)
        }
    }

    /// Extracts the session registered under `token`; fails exactly when
    /// no session carries that token. The remaining entries keep their
    /// order, and the token is not reallocated.
    pub fn remove_session(&mut self, token: u64) -> (r: Result<Session, ()>)
        requires
            old(self).wf(),
        ensures
            final(self).wf(),
            final(self).next_token == old(self).next_token,
            r is Ok <==> old(self).spec_contains(token),
            r matches Ok(s) ==> {
                let i = old(self).spec_index_of(token);
                &&& 0 <= i < old(self).entries@.len()
                &&& old(self).entries@[i] == (token, s)
                &&& s == old(self).spec_session(token)
                &&& final(self).entries@ == old(self).entries@.remove(i)
            },
            r is Err ==> *final(self) == *old(self),
            !final(self).spec_contains(token),
    {
        let n = self.entries.len();
        let mut i: usize = 0;
        while i < n
            invariant
                old(self) == self,
                old(self).wf(),
                n == self.entries@.len(),
                i <= n,
                forall|j: int| 0 <= j < i ==> (#[trigger] self.entries@[j]).0 != token,
            decreases n - i,
        {
            if self.entries[i].0 == token {
                let ghost before = self.entries@;
                let (_, session) = self.entries.remove(i);
                proof {
                    let c = old(self).spec_index_of(token);
                    assert(old(self).spec_contains(token));
                    assert(0 <= c < before.len() && before[c].0 == token);
                    assert(c == i as int);
                    before.remove_ensures(i as int);
                    assert forall|a: int, b: int| 0 <= a < b < self.entries@.len() implies
                        self.entries@[a].0 != self.entries@[b].0 by {
                        let a0 = if a < i { a } else { a + 1 };
                        let b0 = if b < i { b } else { b + 1 };
                        assert(self.entries@[a] == before[a0]);
                        assert(self.entries@[b] == before[b0]);
                        assert(before[a0].0 != before[b0].0);
                    }
                    assert forall|a: int| 0 <= a < self.entries@.len() implies
                        self.entries@[a].0 != token by {
                        let a0 = if a < i { a } else { a + 1 };
                        assert(self.entries@[a] == before[a0]);
                        if a0 > i {
                            assert(before[i as int].0 != before[a0].0);
                        }
                    }
                }
                return Ok(session);
            }
            i = i + 1;
        }
        Err(())
    }
}

} // verus!
