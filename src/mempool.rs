use vstd::prelude::*;
use crate::dex::{intent_of, swap_decoded, Dex, RawTx, SwapIntent};
use crate::stream::{link_next, link_step, LinkAction, LinkEvent, Phase};
use crate::swap_call::Decoded;
use crate::types::ErrorKind;

verus! {

/// What to do with a pending transaction.
#[derive(Clone, Debug)]
pub enum MempoolAction {
    /// A swap on the router: hand it on to the opportunity engine.
    Forward(SwapIntent),
    /// Not a swap on the router, or the subscription is not live.
    Discard,
    /// A recognised swap selector with arguments that do not decode: note it
    /// and discard it.
    Malformed,
}

/// Watches pending transactions for swaps on the router.
#[derive(Clone, Copy, Debug, PartialEq, Eq, Structural)]
pub struct MempoolMonitor {
    pub phase: Phase,
    pub dex: Dex,
}

impl MempoolMonitor {
    pub fn new(dex: Dex) -> (r: MempoolMonitor)
        ensures
            r.phase == Phase::Idle,
            r.dex == dex,
    {
        MempoolMonitor { phase: Phase::Idle, dex }
    }

    /// A connection event of the pending-transaction subscription.
    pub fn on_link(&mut self, e: LinkEvent) -> (r: LinkAction)
        ensures
            (final(self).phase, r) == link_next(old(self).phase, e),
            final(self).dex == old(self).dex,
    {
        let (p, a) = link_step(self.phase, e);
        self.phase = p;
        a
    }

    /// A pending transaction: while live, a swap on the router is forwarded,
    /// anything else is discarded; nothing here fails.
    pub fn on_tx(&self, tx: &RawTx) -> (r: MempoolAction)
        ensures
            self.phase != Phase::Polling ==> r is Discard,
            self.phase == Phase::Polling ==> match swap_decoded(self.dex.router, tx.to, tx.input@) {
                Decoded::NoMatch => r is Discard,
                Decoded::Malformed => r is Malformed,
                Decoded::Call(c) => r is Forward && r->Forward_0@ == intent_of(tx.hash, tx.from, c),
            },
    {
        if self.phase != Phase::Polling {
            return MempoolAction::Discard;
        }
        match self.dex.decode_swap(tx) {
            Ok(Some(i)) => MempoolAction::Forward(i),
            Ok(None) => MempoolAction::Discard,
            Err(ErrorKind::DecodeError) => MempoolAction::Malformed,
            Err(_) => MempoolAction::Malformed,
        }
    }
}

} // verus!
