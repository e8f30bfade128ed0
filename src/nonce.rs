use vstd::prelude::*;

verus! {

/// Hands out the signing account's transaction nonces, each once and in
/// increasing order.
#[derive(Debug)]
pub struct NonceManager {
    next: u64,
}

impl NonceManager {
    pub closed spec fn next_nonce(self) -> u64 {
        self.next
    }

    /// Starts from the account's transaction count on chain.
    pub fn new(start: u64) -> (r: NonceManager)
        ensures
            r.next_nonce() == start,
    {
        NonceManager { next: start }
    }

    pub fn peek(&self) -> (r: u64)
        ensures
            r == self.next_nonce(),
    {
        self.next
    }

    /// The next nonce, or `None` once every nonce is used.
    pub fn allocate(&mut self) -> (r: Option<u64>)
        ensures
            old(self).next_nonce() < u64::MAX ==> r == Some(old(self).next_nonce())
                && final(self).next_nonce() == old(self).next_nonce() + 1,
            old(self).next_nonce() == u64::MAX ==> r is None && final(self).next_nonce()
                == old(self).next_nonce(),
    {
        if self.next == u64::MAX {
            return None;
        }
        let n = self.next;
        self.next = n + 1;
        Some(n)
    }

    /// Catches up with the account's transaction count on chain after a
    /// nonce conflict; never moves back.
    pub fn resync(&mut self, chain_count: u64)
        ensures
            final(self).next_nonce() == if chain_count > old(self).next_nonce() {
                chain_count
            } else {
                old(self).next_nonce()
            },
    {
        if chain_count > self.next {
            self.next = chain_count;
        }
    }
}

} // verus!
