use vstd::prelude::*;
use crate::stream::{link_next, link_step, LinkAction, LinkEvent, Phase};

verus! {

#[derive(Clone, Copy, Debug, PartialEq, Eq, Structural)]
pub enum ScanEvent {
    Link(LinkEvent),
    /// The subscription reported this block height.
    Height(u64),
}

#[derive(Clone, Copy, Debug, PartialEq, Eq, Structural)]
pub enum ScanAction {
    Link(LinkAction),
    /// Hand this height on to the opportunity engine.
    Deliver(u64),
    /// The height is not newer than the last one delivered, or the
    /// subscription is not live: drop it.
    Drop,
}

/// Watches the block height, delivering each new height once and in
/// increasing order.
#[derive(Clone, Copy, Debug, PartialEq, Eq, Structural)]
pub struct BlockScanner {
    pub phase: Phase,
    /// The last height delivered.
    pub last: Option<u64>,
}

/// `h` is newer than every height delivered so far.
pub open spec fn is_new(last: Option<u64>, h: u64) -> bool {
    match last {
        None => true,
        Some(l) => h > l,
    }
}

pub open spec fn scan_next(s: BlockScanner, e: ScanEvent) -> (BlockScanner, ScanAction) {
    match e {
        ScanEvent::Link(le) => {
            let (p, a) = link_next(s.phase, le);
            (BlockScanner { phase: p, ..s }, ScanAction::Link(a))
        },
        ScanEvent::Height(h) => {
            if s.phase == Phase::Polling && is_new(s.last, h) {
                (BlockScanner { last: Some(h), ..s }, ScanAction::Deliver(h))
            } else {
                (s, ScanAction::Drop)
            }
        },
    }
}

/// The scanner after the events `es`, and the heights it delivered on the
/// way, in order.
pub open spec fn scan_run(s: BlockScanner, es: Seq<ScanEvent>) -> (BlockScanner, Seq<u64>)
    decreases es.len(),
{
    if es.len() == 0 {
        (s, Seq::empty())
    } else {
        let (s1, out) = scan_run(s, es.drop_last());
        let (s2, a) = scan_next(s1, es.last());
        match a {
            ScanAction::Deliver(h) => (s2, out.push(h)),
            _ => (s2, out),
        }
    }
}

impl BlockScanner {
    pub fn new() -> (r: BlockScanner)
        ensures
            r.phase == Phase::Idle,
            r.last is None,
    {
        BlockScanner { phase: Phase::Idle, last: None }
    }

    /// One step: connection events go to the connection state machine; a
    /// height is delivered only while live and only if newer than the last
    /// one delivered.
    pub fn step(&mut self, e: ScanEvent) -> (r: ScanAction)
        ensures
            (*final(self), r) == scan_next(*old(self), e),
    {
        match e {
            ScanEvent::Link(le) => {
                let (p, a) = link_step(self.phase, le);
                self.phase = p;
                ScanAction::Link(a)
            },
            ScanEvent::Height(h) => {
                let fresh = match self.last {
                    None => true,
                    Some(l) => h > l,
                };
                if self.phase == Phase::Polling && fresh {
                    self.last = Some(h);
                    ScanAction::Deliver(h)
                } else {
                    ScanAction::Drop
                }
            },
        }
    }
}

/// Whatever heights arrive, in whatever order and with whatever repeats or
/// reconnections between them, the heights delivered are strictly
/// increasing (so non-decreasing and free of duplicates), each is newer than
/// the last one delivered before, and the scanner remembers the newest.
pub proof fn lemma_delivered_increasing(s: BlockScanner, es: Seq<ScanEvent>)
    ensures
        ({
            let (t, out) = scan_run(s, es);
            &&& forall|i: int, j: int| 0 <= i < j < out.len() ==> out[i] < out[j]
            &&& forall|i: int| 0 <= i < out.len() ==> is_new(s.last, #[trigger] out[i])
            &&& out.len() > 0 ==> t.last == Some(out.last())
            &&& out.len() == 0 ==> t.last == s.last
        }),
    decreases es.len(),
{
    if es.len() > 0 {
        lemma_delivered_increasing(s, es.drop_last());
        let (s1, out) = scan_run(s, es.drop_last());
        let (s2, a) = scan_next(s1, es.last());
        if let ScanAction::Deliver(h) = a {
            let o2 = out.push(h);
            assert(is_new(s1.last, h));
            assert forall|i: int, j: int| 0 <= i < j < o2.len() implies o2[i] < o2[j] by {
                if j == out.len() && out.len() > 0 {
                    assert(out[i] <= out.last());
                }
            }
        }
    }
}

} // verus!
