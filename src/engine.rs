use vstd::prelude::*;
use crate::dex::Pair;
use crate::types::{Address, TxHash};

verus! {

/// What gave rise to an opportunity.
#[derive(Clone, Copy, Debug, PartialEq, Eq, Structural)]
pub enum Trigger {
    /// A pending swap, by its transaction hash.
    Intent(TxHash),
    /// A newly observed block height.
    Block(u64),
}

/// The root cause of an opportunity together with the pair it targets. At
/// most one opportunity per pair, and so per fingerprint, may be in flight:
/// swaps from different pending transactions on one pair compete for the
/// same reserves.
#[derive(Clone, Copy, Debug, PartialEq, Eq, Structural)]
pub struct Fingerprint {
    pub trigger: Trigger,
    pub pair: Address,
}

/// Where an opportunity stands in its lifecycle.
#[derive(Clone, Copy, Debug, PartialEq, Eq, Structural)]
pub enum Status {
    Detected,
    /// Evaluated and found profitable enough to submit.
    Evaluated,
    /// Evaluated and found not worth submitting (terminal).
    Unprofitable,
    Submitted,
    Confirmed,
    Failed,
    Expired,
}

/// How a submitted transaction ended.
#[derive(Clone, Copy, Debug, PartialEq, Eq, Structural)]
pub enum Outcome {
    Confirmed,
    Failed,
    Expired,
}

#[derive(Clone, Copy, Debug, PartialEq, Eq, Structural)]
pub struct Opportunity {
    pub fingerprint: Fingerprint,
    /// Estimated profit net of gas, set on evaluation.
    pub net_profit: u128,
    /// The last block at which the opportunity is still worth acting on.
    pub expiry_block: u64,
    pub status: Status,
}

/// What `try_submit` decided.
#[derive(Clone, Copy, Debug, PartialEq, Eq, Structural)]
pub enum Decision {
    /// The opportunity is now Submitted: build and send its transaction.
    Submit,
    /// Another opportunity on the same pair is in flight.
    Duplicate,
    /// The opportunity is not in the Evaluated state.
    NotReady,
}

/// What `advance` did with an opportunity.
#[derive(Clone, Copy, Debug, PartialEq, Eq, Structural)]
pub enum Advance {
    /// The pair's reserves were read before the current block: read them
    /// again and estimate afresh.
    RefreshReserves,
    /// The strategy made no estimate: the opportunity is left as it is.
    Pass,
    /// Evaluated with the estimate, then submitted or held back.
    Decided(Decision),
}

/// What `try_submit` decides for the opportunity `idx` of `ops`.
pub open spec fn submit_decision(ops: Seq<Opportunity>, idx: int) -> Decision {
    if ops[idx].status != Status::Evaluated {
        Decision::NotReady
    } else if pair_in_flight(ops, ops[idx].fingerprint.pair) {
        Decision::Duplicate
    } else {
        Decision::Submit
    }
}

/// The opportunities after `evaluate(idx, profit, gas)` with the threshold
/// `threshold`.
pub open spec fn after_evaluate(
    ops: Seq<Opportunity>,
    idx: int,
    profit: u128,
    gas: u128,
    threshold: u128,
) -> Seq<Opportunity> {
    if ops[idx].status != Status::Detected {
        ops
    } else {
        ops.update(
            idx,
            Opportunity {
                net_profit: if profit > gas {
                    (profit - gas) as u128
                } else {
                    0
                },
                status: if profit > threshold + gas {
                    Status::Evaluated
                } else {
                    Status::Unprofitable
                },
                ..ops[idx]
            },
        )
    }
}

pub open spec fn is_terminal(s: Status) -> bool {
    s == Status::Unprofitable || s == Status::Confirmed || s == Status::Failed || s
        == Status::Expired
}

/// The status that `on_block(block)` gives an opportunity.
pub open spec fn status_after_block(o: Opportunity, block: u64) -> Status {
    if !is_terminal(o.status) && o.expiry_block < block {
        Status::Expired
    } else {
        o.status
    }
}

/// No two Submitted opportunities of `ops` target the same pair.
pub open spec fn submitted_unique(ops: Seq<Opportunity>) -> bool {
    forall|i: int, j: int|
        0 <= i < ops.len() && 0 <= j < ops.len() && i != j && (#[trigger] ops[i]).status
            == Status::Submitted && (#[trigger] ops[j]).status == Status::Submitted ==> ops[i].fingerprint.pair
            != ops[j].fingerprint.pair
}

/// Some Submitted opportunity of `ops` targets `pair`.
pub open spec fn pair_in_flight(ops: Seq<Opportunity>, pair: Address) -> bool {
    exists|i: int|
        0 <= i < ops.len() && (#[trigger] ops[i]).status == Status::Submitted
            && ops[i].fingerprint.pair == pair
}

/// Two distinct opportunities of a well-formed engine are never both
/// Submitted on the same pair, and so never under the same fingerprint.
pub proof fn lemma_no_duplicate_submission(e: Engine, i: int, j: int)
    requires
        e.wf(),
        0 <= i < e.ops().len(),
        0 <= j < e.ops().len(),
        i != j,
        e.ops()[i].status == Status::Submitted,
        e.ops()[j].status == Status::Submitted,
    ensures
        e.ops()[i].fingerprint.pair != e.ops()[j].fingerprint.pair,
        e.ops()[i].fingerprint != e.ops()[j].fingerprint,
{
}

/// The opportunity engine: owns every opportunity and decides which of them
/// are submitted.
pub struct Engine {
    opportunities: Vec<Opportunity>,
    min_profit: u128,
}

impl Engine {
    /// Well-formed: no two Submitted opportunities target the same pair.
    pub open spec fn wf(self) -> bool {
        submitted_unique(self.ops())
    }

    pub closed spec fn ops(self) -> Seq<Opportunity> {
        self.opportunities@
    }

    pub closed spec fn threshold(self) -> u128 {
        self.min_profit
    }

    /// An engine with no opportunities that submits only what clears
    /// `min_profit` net of gas.
    pub fn new(min_profit: u128) -> (r: Engine)
        ensures
            r.ops() == Seq::<Opportunity>::empty(),
            r.threshold() == min_profit,
            r.wf(),
    {
        Engine { opportunities: Vec::new(), min_profit }
    }

    pub fn len(&self) -> (r: usize)
        ensures
            r == self.ops().len(),
    {
        self.opportunities.len()
    }

    pub fn get(&self, idx: usize) -> (r: Opportunity)
        requires
            idx < self.ops().len(),
        ensures
            r == self.ops()[idx as int],
    {
        self.opportunities[idx]
    }

    /// Records a newly detected opportunity and returns its index.
    pub fn detect(&mut self, fingerprint: Fingerprint, expiry_block: u64) -> (r: usize)
        requires
            old(self).wf(),
        ensures
            r == old(self).ops().len(),
            final(self).ops() == old(self).ops().push(
                Opportunity { fingerprint, net_profit: 0, expiry_block, status: Status::Detected },
            ),
            final(self).threshold() == old(self).threshold(),
            final(self).wf(),
    {
        let r = self.opportunities.len();
        let o = Opportunity { fingerprint, net_profit: 0, expiry_block, status: Status::Detected };
        self.opportunities.push(o);
        assert(self.opportunities@ == old(self).ops().push(o));
        r
    }

    /// Records one Detected opportunity per target pair, all with the same
    /// trigger and expiry.
    pub fn detect_all(&mut self, trigger: Trigger, targets: &Vec<Address>, expiry_block: u64)
        requires
            old(self).wf(),
        ensures
            final(self).wf(),
            final(self).threshold() == old(self).threshold(),
            final(self).ops() == old(self).ops() + targets@.map_values(
                |a: Address|
                    Opportunity {
                        fingerprint: Fingerprint { trigger, pair: a },
                        net_profit: 0,
                        expiry_block,
                        status: Status::Detected,
                    },
            ),
    {
        let mut i: usize = 0;
        while i < targets.len()
            invariant
                i <= targets@.len(),
                self.wf(),
                self.threshold() == old(self).threshold(),
                self.ops() == old(self).ops() + targets@.subrange(0, i as int).map_values(
                    |a: Address|
                        Opportunity {
                            fingerprint: Fingerprint { trigger, pair: a },
                            net_profit: 0,
                            expiry_block,
                            status: Status::Detected,
                        },
                ),
            decreases targets@.len() - i,
        {
            self.detect(Fingerprint { trigger, pair: targets[i] }, expiry_block);
            i = i + 1;
            proof {
                assert(self.ops() =~= old(self).ops() + targets@.subrange(0, i as int).map_values(
                    |a: Address|
                        Opportunity {
                            fingerprint: Fingerprint { trigger, pair: a },
                            net_profit: 0,
                            expiry_block,
                            status: Status::Detected,
                        },
                ));
            }
        }
        assert(targets@.subrange(0, targets@.len() as int) =~= targets@);
    }

    fn replace(&mut self, idx: usize, o: Opportunity)
        requires
            old(self).wf(),
            idx < old(self).ops().len(),
            o.status != Status::Submitted || !pair_in_flight(
                old(self).ops().update(idx as int, Opportunity { status: Status::Detected, ..o }),
                o.fingerprint.pair,
            ),
        ensures
            final(self).ops() == old(self).ops().update(idx as int, o),
            final(self).threshold() == old(self).threshold(),
            final(self).wf(),
    {
        let ghost before = self.opportunities@;
        self.opportunities.set(idx, o);
        proof {
            let after = self.opportunities@;
            let mid = before.update(idx as int, Opportunity { status: Status::Detected, ..o });
            assert forall|i: int, j: int|
                0 <= i < after.len() && 0 <= j < after.len() && i != j && (#[trigger] after[i]).status
                    == Status::Submitted && (#[trigger] after[j]).status
                    == Status::Submitted implies after[i].fingerprint.pair != after[j].fingerprint.pair by {
                if i == idx {
                    assert(mid[j] == after[j]);
                } else if j == idx {
                    assert(mid[i] == after[i]);
                } else {
                    assert(before[i] == after[i] && before[j] == after[j]);
                }
            }
        }
    }

    /// Evaluates a Detected opportunity: it is Evaluated when `profit`
    /// exceeds the threshold plus `gas`, Unprofitable otherwise. Anything not
    /// Detected is left as it is.
    pub fn evaluate(&mut self, idx: usize, profit: u128, gas: u128)
        requires
            old(self).wf(),
            idx < old(self).ops().len(),
        ensures
            final(self).wf(),
            final(self).threshold() == old(self).threshold(),
            old(self).ops()[idx as int].status != Status::Detected ==> final(self).ops() == old(
                self,
            ).ops(),
            old(self).ops()[idx as int].status == Status::Detected ==> final(self).ops() == old(
                self,
            ).ops().update(
                idx as int,
                (Opportunity {
                    net_profit: if profit > gas {
                        (profit - gas) as u128
                    } else {
                        0
                    },
                    status: if profit > old(self).threshold() + gas {
                        Status::Evaluated
                    } else {
                        Status::Unprofitable
                    },
                    ..old(self).ops()[idx as int]
                }),
            ),
    {
        let o = self.opportunities[idx];
        if o.status != Status::Detected {
            return ;
        }
        let net: u128 = if profit > gas {
            profit - gas
        } else {
            0
        };
        let status = if profit > gas && net > self.min_profit {
            Status::Evaluated
        } else {
            Status::Unprofitable
        };
        self.replace(idx, Opportunity { net_profit: net, status, ..o });
    }

    /// Takes an opportunity one step on with the current state of its pair:
    /// reserves read before `current` are never used; with fresh reserves
    /// and an estimate of profit and gas, the opportunity is evaluated and
    /// then submitted unless its pair is in flight.
    pub fn advance(&mut self, idx: usize, pair: &Pair, current: u64, estimate: Option<(u128, u128)>) -> (r:
        Advance)
        requires
            old(self).wf(),
            idx < old(self).ops().len(),
            pair.address == old(self).ops()[idx as int].fingerprint.pair,
        ensures
            final(self).wf(),
            final(self).threshold() == old(self).threshold(),
            pair.block < current ==> r == Advance::RefreshReserves && final(self).ops() == old(
                self,
            ).ops(),
            pair.block >= current && estimate is None ==> r == Advance::Pass && final(self).ops()
                == old(self).ops(),
            pair.block >= current && estimate is Some ==> ({
                let (p, g) = estimate->Some_0;
                let mid = after_evaluate(old(self).ops(), idx as int, p, g, old(self).threshold());
                &&& r == Advance::Decided(submit_decision(mid, idx as int))
                &&& final(self).ops() == if submit_decision(mid, idx as int) == Decision::Submit {
                    mid.update(idx as int, Opportunity { status: Status::Submitted, ..mid[idx as int] })
                } else {
                    mid
                }
            }),
    {
        if pair.needs_refresh(current) {
            return Advance::RefreshReserves;
        }
        match estimate {
            None => Advance::Pass,
            Some((profit, gas)) => {
                self.evaluate(idx, profit, gas);
                Advance::Decided(self.try_submit(idx))
            },
        }
    }

    /// Whether an opportunity on `pair` is in flight.
    pub fn is_pair_in_flight(&self, pair: Address) -> (r: bool)
        ensures
            r == pair_in_flight(self.ops(), pair),
    {
        let mut i: usize = 0;
        while i < self.opportunities.len()
            invariant
                i <= self.ops().len(),
                forall|j: int|
                    0 <= j < i ==> !((#[trigger] self.ops()[j]).status == Status::Submitted
                        && self.ops()[j].fingerprint.pair == pair),
            decreases self.ops().len() - i,
        {
            let o = self.opportunities[i];
            if o.status == Status::Submitted && o.fingerprint.pair == pair {
                return true;
            }
            i = i + 1;
        }
        false
    }

    /// Moves an Evaluated opportunity to Submitted, unless another one on
    /// the same pair is already Submitted, whatever its trigger: the check
    /// and the move are one step.
    pub fn try_submit(&mut self, idx: usize) -> (r: Decision)
        requires
            old(self).wf(),
            idx < old(self).ops().len(),
        ensures
            final(self).wf(),
            final(self).threshold() == old(self).threshold(),
            r == (if old(self).ops()[idx as int].status != Status::Evaluated {
                Decision::NotReady
            } else if pair_in_flight(old(self).ops(), old(self).ops()[idx as int].fingerprint.pair) {
                Decision::Duplicate
            } else {
                Decision::Submit
            }),
            r == Decision::Submit ==> final(self).ops() == old(self).ops().update(
                idx as int,
                (Opportunity { status: Status::Submitted, ..old(self).ops()[idx as int] }),
            ),
            r != Decision::Submit ==> final(self).ops() == old(self).ops(),
    {
        let o = self.opportunities[idx];
        if o.status != Status::Evaluated {
            return Decision::NotReady;
        }
        if self.is_pair_in_flight(o.fingerprint.pair) {
            return Decision::Duplicate;
        }
        let n = Opportunity { status: Status::Submitted, ..o };
        proof {
            let mid = self.ops().update(idx as int, Opportunity { status: Status::Detected, ..n });
            if pair_in_flight(mid, n.fingerprint.pair) {
                let k = choose|k: int|
                    0 <= k < mid.len() && (#[trigger] mid[k]).status == Status::Submitted
                        && mid[k].fingerprint.pair == n.fingerprint.pair;
                assert(k != idx);
                assert(self.ops()[k] == mid[k]);
            }
        }
        self.replace(idx, n);
        Decision::Submit
    }

    /// Records how a Submitted opportunity ended, which frees its pair. Anything not Submitted is left as it is.
    pub fn record_outcome(&mut self, idx: usize, outcome: Outcome)
        requires
            old(self).wf(),
            idx < old(self).ops().len(),
        ensures
            final(self).wf(),
            final(self).threshold() == old(self).threshold(),
            old(self).ops()[idx as int].status != Status::Submitted ==> final(self).ops() == old(
                self,
            ).ops(),
            old(self).ops()[idx as int].status == Status::Submitted ==> final(self).ops() == old(
                self,
            ).ops().update(
                idx as int,
                (Opportunity {
                    status: match outcome {
                        Outcome::Confirmed => Status::Confirmed,
                        Outcome::Failed => Status::Failed,
                        Outcome::Expired => Status::Expired,
                    },
                    ..old(self).ops()[idx as int]
                }),
            ),
    {
        let o = self.opportunities[idx];
        if o.status != Status::Submitted {
            return ;
        }
        let status = match outcome {
            Outcome::Confirmed => Status::Confirmed,
            Outcome::Failed => Status::Failed,
            Outcome::Expired => Status::Expired,
        };
        self.replace(idx, Opportunity { status, ..o });
    }

    /// On a new block, every opportunity that is not yet terminal and whose
    /// expiry block lies before `block` becomes Expired.
    pub fn on_block(&mut self, block: u64)
        requires
            old(self).wf(),
        ensures
            final(self).wf(),
            final(self).threshold() == old(self).threshold(),
            final(self).ops().len() == old(self).ops().len(),
            forall|i: int|
                0 <= i < old(self).ops().len() ==> (#[trigger] final(self).ops()[i]) == (Opportunity {
                    status: status_after_block(old(self).ops()[i], block),
                    ..old(self).ops()[i]
                }),
    {
        let mut i: usize = 0;
        while i < self.opportunities.len()
            invariant
                self.wf(),
                self.ops().len() == old(self).ops().len(),
                self.threshold() == old(self).threshold(),
                i <= self.ops().len(),
                forall|j: int|
                    0 <= j < i ==> (#[trigger] self.ops()[j]) == (Opportunity {
                        status: status_after_block(old(self).ops()[j], block),
                        ..old(self).ops()[j]
                    }),
                forall|j: int| i <= j < self.ops().len() ==> #[trigger] self.ops()[j] == old(self).ops()[j],
            decreases self.ops().len() - i,
        {
            let o = self.opportunities[i];
            let terminal = o.status == Status::Unprofitable || o.status == Status::Confirmed
                || o.status == Status::Failed || o.status == Status::Expired;
            if !terminal && o.expiry_block < block {
                self.replace(i, Opportunity { status: Status::Expired, ..o });
            }
            i = i + 1;
        }
    }
}

} // verus!
