//! Issuer of job handles: unique, strictly increasing `u64` tokens.

use vstd::prelude::*;

verus! {

/// Hands out job handles one at a time, in strictly increasing order, so that
/// no two issued handles are ever equal. Gaps are acceptable; duplicates are
/// not. The registry owns exactly one allocator, created together with it, so
/// every handle it stores came from this counter.
pub struct TokenAllocator {
    next: u64,
}

impl TokenAllocator {
    /// The next handle that will be issued; every handle issued so far is
    /// strictly below this bound.
    pub closed spec fn current(self) -> u64 {
        self.next
    }

    pub fn new() -> (a: Self)
        ensures
            a.current() == 0,
    {
        TokenAllocator { next: 0 }
    }

    /// The bound below which every issued handle lies; `next_token` requires
    /// it to leave room for one more handle.
    pub fn bound(&self) -> (b: u64)
        ensures
            b == self.current(),
    {
        self.next
    }

    /// Issues the next handle and advances the counter by exactly one.
    pub fn next_token(&mut self) -> (t: u64)
        requires
            old(self).current() < u64::MAX,
        ensures
            t == old(self).current(),
            final(self).current() == old(self).current() + 1,
    {
        let t = self.next;
        self.next = self.next + 1;
        t
    }
}

} // verus!
