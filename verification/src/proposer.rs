//! What the proposer of a block decides while it fills the block.
//!
//! The proposer pushes the inherents and then the transactions of the pool
//! into the block, one after the other. Pushing is the work of the chain
//! client; what to do before and after each push is decided here. The trace
//! of each push is stored under the number of the block and the index that
//! the pushed extrinsic has in the block if it stays.

use vstd::prelude::*;

verus! {

/// If the block is full we will attempt to push at most
/// this number of transactions before quitting for real.
/// It allows us to increase block utilization.
pub const MAX_SKIPPED_TRANSACTIONS: usize = 8;

/// How the push of an extrinsic ended.
#[derive(Clone, Copy, PartialEq, Eq, Debug)]
pub enum Pushed {
    /// The extrinsic is in the block.
    Done,
    /// The extrinsic is not valid, because the block has no room for it, or
    /// because it was mandatory and failed, or both.
    Invalid { exhausted_resources: bool, was_mandatory: bool },
    /// The push failed for another reason.
    Failed,
}

/// What to do with the next transaction of the pool.
#[derive(Clone, Copy, PartialEq, Eq, Debug)]
pub enum Admission {
    /// Push it.
    Push,
    /// Leave it out and go on with the next one.
    Skip,
    /// Leave it out and stop filling the block.
    Stop,
}

/// What to do once a transaction was pushed.
#[derive(Clone, Copy, PartialEq, Eq, Debug)]
pub struct Verdict {
    /// Whether to go on with the next transaction.
    pub go_on: bool,
    /// Whether the transaction is to be removed from the pool as invalid.
    pub unqueue: bool,
}

/// A mandatory inherent failed: the block cannot be produced.
#[derive(Clone, Copy, PartialEq, Eq, Debug)]
pub struct MandatoryInherentFailed;

/// Where the proposer stands while it fills a block.
#[derive(Clone, Copy, PartialEq, Eq, Debug)]
pub struct Proposing {
    /// The number of extrinsics in the block.
    pub extrinsic_count: u32,
    /// The number of transactions that were left out or found no room.
    pub skipped: usize,
    /// Whether a transaction is in the block.
    pub transaction_pushed: bool,
    /// Whether the block was closed because a transaction went over its
    /// size limit.
    pub hit_block_size_limit: bool,
}

/// The number of the block that is built on a parent.
pub fn current_number(parent_number: u32) -> (number: u64)
    ensures
        number == parent_number + 1,
{
    parent_number as u64 + 1
}

impl Proposing {
    /// The proposer before the first push.
    pub fn new() -> (p: Proposing)
        ensures
            p == (Proposing {
                extrinsic_count: 0,
                skipped: 0,
                transaction_pushed: false,
                hit_block_size_limit: false,
            }),
    {
        Proposing {
            extrinsic_count: 0,
            skipped: 0,
            transaction_pushed: false,
            hit_block_size_limit: false,
        }
    }

    /// The index under which the trace of the next push is stored: the
    /// number of extrinsics in the block.
    pub fn trace_index(&self) -> (index: u32)
        ensures
            index == self.extrinsic_count,
    {
        self.extrinsic_count
    }

    /// Where the proposer stands once an inherent was pushed: an inherent in
    /// the block is counted, one without room and one that failed for
    /// another reason are dropped, and a mandatory one that failed ends the
    /// proposal.
    pub open spec fn inherent_pushed(self, outcome: Pushed) -> Result<
        Proposing,
        MandatoryInherentFailed,
    > {
        match outcome {
            Pushed::Done => Ok(
                Proposing { extrinsic_count: (self.extrinsic_count + 1) as u32, ..self },
            ),
            Pushed::Invalid { exhausted_resources, was_mandatory } => if !exhausted_resources
                && was_mandatory {
                Err(MandatoryInherentFailed)
            } else {
                Ok(self)
            },
            Pushed::Failed => Ok(self),
        }
    }

    /// Takes in how the push of an inherent ended.
    pub fn after_inherent(&mut self, outcome: Pushed) -> (r: Result<(), MandatoryInherentFailed>)
        requires
            old(self).extrinsic_count < u32::MAX,
        ensures
            match old(self).inherent_pushed(outcome) {
                Ok(next) => r is Ok && *final(self) == next,
                Err(e) => r == Err::<(), MandatoryInherentFailed>(e) && *final(self) == *old(self),
            },
    {
        match outcome {
            Pushed::Invalid { exhausted_resources, was_mandatory } => {
                if exhausted_resources {
                    // Dropping non-mandatory inherent from overweight block.
                    Ok(())
                } else if was_mandatory {
                    // Mandatory inherent extrinsic returned error. Block cannot be produced.
                    Err(MandatoryInherentFailed)
                } else {
                    Ok(())
                }
            },
            Pushed::Failed => {
                // Inherent extrinsic returned unexpected error. Dropping.
                Ok(())
            },
            Pushed::Done => {
                self.extrinsic_count += 1;
                Ok(())
            },
        }
    }

    /// What to do with the next transaction, and where the proposer stands
    /// then: past the deadline the block is closed; a transaction that would
    /// take the block over its size limit is skipped, and the block is
    /// closed once as many were skipped as may be; else the transaction is
    /// pushed.
    pub open spec fn admitted(
        self,
        deadline_passed: bool,
        block_size: usize,
        transaction_size: usize,
        block_size_limit: usize,
    ) -> (Admission, Proposing) {
        if deadline_passed {
            (Admission::Stop, self)
        } else if block_size + transaction_size > block_size_limit {
            if self.skipped < MAX_SKIPPED_TRANSACTIONS {
                (Admission::Skip, Proposing { skipped: (self.skipped + 1) as usize, ..self })
            } else {
                (Admission::Stop, Proposing { hit_block_size_limit: true, ..self })
            }
        } else {
            (Admission::Push, self)
        }
    }

    /// Decides what to do with the next transaction of the pool.
    pub fn before_transaction(
        &mut self,
        deadline_passed: bool,
        block_size: usize,
        transaction_size: usize,
        block_size_limit: usize,
    ) -> (admission: Admission)
        requires
            block_size + transaction_size <= usize::MAX,
        ensures
            (admission, *final(self)) == old(self).admitted(
                deadline_passed,
                block_size,
                transaction_size,
                block_size_limit,
            ),
    {
        if deadline_passed {
            // Consensus deadline reached when pushing block transactions,
            // proceeding with proposing.
            return Admission::Stop;
        }
        if block_size + transaction_size > block_size_limit {
            if self.skipped < MAX_SKIPPED_TRANSACTIONS {
                self.skipped += 1;
                return Admission::Skip;
            } else {
                self.hit_block_size_limit = true;
                return Admission::Stop;
            }
        }
        Admission::Push
    }

    /// What to do once a transaction was pushed, and where the proposer
    /// stands then: a transaction in the block is counted; one without room
    /// is skipped, and the block is closed once as many were skipped as may
    /// be; any other one is taken out of the pool as invalid, unless a
    /// transaction was skipped before.
    pub open spec fn transaction_pushed(self, outcome: Pushed) -> (Verdict, Proposing) {
        match outcome {
            Pushed::Done => (
                Verdict { go_on: true, unqueue: false },
                Proposing {
                    extrinsic_count: (self.extrinsic_count + 1) as u32,
                    transaction_pushed: true,
                    ..self
                },
            ),
            Pushed::Invalid { exhausted_resources: true, was_mandatory } => if self.skipped
                < MAX_SKIPPED_TRANSACTIONS {
                (
                    Verdict { go_on: true, unqueue: false },
                    Proposing { skipped: (self.skipped + 1) as usize, ..self },
                )
            } else {
                (Verdict { go_on: false, unqueue: false }, self)
            },
            _ => (Verdict { go_on: true, unqueue: self.skipped == 0 }, self),
        }
    }

    /// Takes in how the push of a transaction ended.
    pub fn after_transaction(&mut self, outcome: Pushed) -> (verdict: Verdict)
        requires
            old(self).extrinsic_count < u32::MAX,
        ensures
            (verdict, *final(self)) == old(self).transaction_pushed(outcome),
    {
        match outcome {
            Pushed::Done => {
                self.extrinsic_count += 1;
                self.transaction_pushed = true;
                Verdict { go_on: true, unqueue: false }
            },
            Pushed::Invalid { exhausted_resources: true, was_mandatory: _ } => {
                if self.skipped < MAX_SKIPPED_TRANSACTIONS {
                    self.skipped += 1;
                    Verdict { go_on: true, unqueue: false }
                } else {
                    // Block is full, proceed with proposing.
                    Verdict { go_on: false, unqueue: false }
                }
            },
            _ => {
                if self.skipped > 0 {
                    // Ignoring invalid transaction when skipping
                    Verdict { go_on: true, unqueue: false }
                } else {
                    Verdict { go_on: true, unqueue: true }
                }
            },
        }
    }

    /// Whether the block was closed at its size limit without any
    /// transaction in it.
    pub fn hit_limit_without_transaction(&self) -> (b: bool)
        ensures
            b == (self.hit_block_size_limit && !self.transaction_pushed),
    {
        self.hit_block_size_limit && !self.transaction_pushed
    }
}

/// The proposer never skips more transactions than it may, and counts an
/// extrinsic for each push that ended in the block and for no other.
pub proof fn lemma_proposing_steps(p: Proposing, outcome: Pushed)
    requires
        p.skipped <= MAX_SKIPPED_TRANSACTIONS,
        p.extrinsic_count < u32::MAX,
    ensures
        p.transaction_pushed(outcome).1.skipped <= MAX_SKIPPED_TRANSACTIONS,
        p.transaction_pushed(outcome).1.extrinsic_count == p.extrinsic_count + (if outcome
            == Pushed::Done {
            1int
        } else {
            0int
        }),
        forall|d: bool, b: usize, t: usize, l: usize|
            (#[trigger] p.admitted(d, b, t, l)).1.skipped <= MAX_SKIPPED_TRANSACTIONS && p.admitted(
                d,
                b,
                t,
                l,
            ).1.extrinsic_count == p.extrinsic_count,
{
}

} // verus!
