//! The nonce that a source account will use next.

use crate::u256::{lemma_u256_of, pow256, u256_of, U256};
use vstd::prelude::*;

verus! {

/// The next nonce of one source account.
///
/// It moves up by one for each transaction that the node took, and is set to
/// whatever the node reports when it is asked again, higher or lower.
#[derive(Clone, Copy, Debug, PartialEq, Eq)]
pub struct NonceTracker {
    /// The nonce that the next transaction will carry.
    pub current: U256,
}

impl View for NonceTracker {
    type V = nat;

    open spec fn view(&self) -> nat {
        self.current@
    }
}

impl NonceTracker {
    /// A tracker that starts at the pending nonce `initial`.
    pub fn new(initial: U256) -> (r: NonceTracker)
        ensures
            r.current == initial,
    {
        NonceTracker { current: initial }
    }

    /// The nonce that the next transaction will carry.
    pub fn peek(&self) -> (r: U256)
        ensures
            r == self.current,
    {
        self.current
    }

    /// Moves to the next nonce after the node took a transaction. At the
    /// largest value there is no next: the tracker stays and `false` comes
    /// back.
    pub fn advance(&mut self) -> (moved: bool)
        ensures
            moved == (old(self)@ + 1 < pow256()),
            moved ==> final(self)@ == old(self)@ + 1,
            moved ==> final(self).current == u256_of(old(self)@ + 1),
            !moved ==> *final(self) == *old(self),
    {
        let one = U256::one();
        match self.current.checked_add(&one) {
            Some(next) => {
                proof {
                    lemma_u256_of(next);
                }
                self.current = next;
                true
            },
            None => false,
        }
    }

    /// Takes over what the node reported as the pending nonce, also where it
    /// is lower than the tracked one. Without a report the tracker stays.
    pub fn refresh(&mut self, reported: Option<U256>)
        ensures
            final(self).current == refreshed(old(self).current, reported),
    {
        match reported {
            Some(n) => {
                self.current = n;
            },
            None => {},
        }
    }
}

/// The tracked nonce after the node was asked again.
pub open spec fn refreshed(current: U256, reported: Option<U256>) -> U256 {
    match reported {
        Some(n) => n,
        None => current,
    }
}

} // verus!
