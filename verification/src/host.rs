//! The decisions the untrusted host makes around the enclave: how a change
//! of SRD space turns into enclave calls, how the outcome of an enclave
//! call reads, and how a request body is collected under its size limit.
use vstd::prelude::*;
use crate::status::SGX_SUCCESS;

verus! {

/// Largest request body accepted, in bytes.
pub const MAX_SIZE: usize = 262_144;

/// What the host does for a change of `num` units of SRD space.
#[derive(Clone, Copy, Debug, PartialEq, Eq)]
pub enum SrdChangePlan {
    /// Nothing to do.
    Nothing,
    /// Run this many increases, one enclave call each.
    Increase(u32),
    /// Ask the enclave once to release this many units.
    Decrease(u32),
}

/// Plans the enclave calls for a change of `num` units.
pub fn srd_change_plan(num: i32) -> (plan: SrdChangePlan)
    requires
        num != i32::MIN,
    ensures
        num == 0 ==> plan == SrdChangePlan::Nothing,
        num > 0 ==> plan == SrdChangePlan::Increase(num as u32),
        num < 0 ==> plan == SrdChangePlan::Decrease((-num) as u32),
{
    if num == 0 {
        SrdChangePlan::Nothing
    } else if num > 0 {
        SrdChangePlan::Increase(num as u32)
    } else {
        SrdChangePlan::Decrease((-num) as u32)
    }
}

/// How an enclave call went.
#[derive(Clone, Copy, Debug, PartialEq, Eq)]
pub enum CallOutcome {
    /// The call ran and its work succeeded.
    Succeeded,
    /// The call ran and its work failed with this status.
    Failed(u32),
    /// The call itself could not be made; this is the runtime's status.
    InvokeFailed(u32),
}

/// Reads the two statuses of an enclave call: the runtime's `retval` and
/// the `status` the enclave function returned.
pub fn call_outcome(retval: u32, status: u32) -> (outcome: CallOutcome)
    ensures
        outcome == (if retval != SGX_SUCCESS {
            CallOutcome::InvokeFailed(retval)
        } else if status != SGX_SUCCESS {
            CallOutcome::Failed(status)
        } else {
            CallOutcome::Succeeded
        }),
{
    if retval != SGX_SUCCESS {
        CallOutcome::InvokeFailed(retval)
    } else if status != SGX_SUCCESS {
        CallOutcome::Failed(status)
    } else {
        CallOutcome::Succeeded
    }
}

/// How many of `outcomes` succeeded.
pub open spec fn successes(outcomes: Seq<CallOutcome>) -> nat
    decreases outcomes.len(),
{
    if outcomes.len() == 0 {
        0
    } else {
        successes(outcomes.drop_last()) + if outcomes.last() == CallOutcome::Succeeded {
            1nat
        } else {
            0nat
        }
    }
}

/// Counting is by position: appending an outcome adds one exactly when that
/// outcome is a success, whatever came before.
pub proof fn lemma_successes_push(outcomes: Seq<CallOutcome>, o: CallOutcome)
    ensures
        successes(outcomes.push(o)) == successes(outcomes) + if o == CallOutcome::Succeeded {
            1nat
        } else {
            0nat
        },
{
    assert(outcomes.push(o).drop_last() =~= outcomes);
}

/// Every outcome is counted: the count reaches the number of outcomes
/// exactly when all of them succeeded, and is zero exactly when none did.
pub proof fn lemma_successes_extremes(outcomes: Seq<CallOutcome>)
    ensures
        successes(outcomes) == outcomes.len() <==> forall|i: int|
            0 <= i < outcomes.len() ==> #[trigger] outcomes[i] == CallOutcome::Succeeded,
        successes(outcomes) == 0 <==> forall|i: int|
            0 <= i < outcomes.len() ==> #[trigger] outcomes[i] != CallOutcome::Succeeded,
    decreases outcomes.len(),
{
    lemma_successes_bounded(outcomes);
    if outcomes.len() > 0 {
        let n = outcomes.len() as int;
        let r = outcomes.drop_last();
        lemma_successes_extremes(r);
        lemma_successes_bounded(r);
        let last_ok = outcomes[n - 1] == CallOutcome::Succeeded;
        assert(successes(outcomes) == successes(r) + if last_ok {
            1nat
        } else {
            0nat
        });
        if successes(outcomes) == n {
            assert(last_ok && successes(r) == r.len());
            assert forall|i: int| 0 <= i < n implies #[trigger] outcomes[i]
                == CallOutcome::Succeeded by {
                if i < n - 1 {
                    assert(r[i] == outcomes[i]);
                }
            }
        }
        if forall|i: int| 0 <= i < n ==> #[trigger] outcomes[i] == CallOutcome::Succeeded {
            assert(last_ok);
            assert forall|i: int| 0 <= i < r.len() implies #[trigger] r[i]
                == CallOutcome::Succeeded by {
                assert(outcomes[i] == CallOutcome::Succeeded);
            }
        }
        if successes(outcomes) == 0 {
            assert(!last_ok && successes(r) == 0);
            assert forall|i: int| 0 <= i < n implies #[trigger] outcomes[i]
                != CallOutcome::Succeeded by {
                if i < n - 1 {
                    assert(r[i] == outcomes[i]);
                }
            }
        }
        if forall|i: int| 0 <= i < n ==> #[trigger] outcomes[i] != CallOutcome::Succeeded {
            assert(!last_ok);
            assert forall|i: int| 0 <= i < r.len() implies #[trigger] r[i]
                != CallOutcome::Succeeded by {
                assert(outcomes[i] != CallOutcome::Succeeded);
            }
        }
    }
}

proof fn lemma_successes_bounded(outcomes: Seq<CallOutcome>)
    ensures
        successes(outcomes) <= outcomes.len(),
    decreases outcomes.len(),
{
    if outcomes.len() > 0 {
        lemma_successes_bounded(outcomes.drop_last());
    }
}

/// Counts the increases that succeeded.
pub fn count_successes(outcomes: &Vec<CallOutcome>) -> (n: u32)
    requires
        outcomes@.len() <= u32::MAX,
    ensures
        n == successes(outcomes@),
        n <= outcomes@.len(),
        n == outcomes@.len() <==> forall|i: int|
            0 <= i < outcomes@.len() ==> #[trigger] outcomes@[i] == CallOutcome::Succeeded,
        n == 0 <==> forall|i: int|
            0 <= i < outcomes@.len() ==> #[trigger] outcomes@[i] != CallOutcome::Succeeded,
{
    let mut n: u32 = 0;
    let mut i: usize = 0;
    while i < outcomes.len()
        invariant
            i <= outcomes@.len() <= u32::MAX,
            n == successes(outcomes@.take(i as int)),
        decreases outcomes@.len() - i,
    {
        assert(outcomes@.take(i + 1).drop_last() =~= outcomes@.take(i as int));
        proof {
            lemma_successes_bounded(outcomes@.take(i as int));
        }
        match outcomes[i] {
            CallOutcome::Succeeded => {
                n = n + 1;
            },
            _ => {},
        }
        i = i + 1;
    }
    assert(outcomes@.take(i as int) =~= outcomes@);
    proof {
        lemma_successes_bounded(outcomes@);
        lemma_successes_extremes(outcomes@);
    }
    n
}

/// How a batch of increases ended.
#[derive(Clone, Copy, Debug, PartialEq, Eq)]
pub enum IncreaseSummary {
    /// Every increase succeeded.
    Complete,
    /// Some failed.
    Partial { succeeded: u32, failed: u32 },
}

/// Sums up `succeeded` increases out of `requested`.
pub fn increase_summary(requested: u32, succeeded: u32) -> (summary: IncreaseSummary)
    requires
        succeeded <= requested,
    ensures
        summary == (if succeeded == requested {
            IncreaseSummary::Complete
        } else {
            IncreaseSummary::Partial { succeeded, failed: (requested - succeeded) as u32 }
        }),
{
    if succeeded == requested {
        IncreaseSummary::Complete
    } else {
        IncreaseSummary::Partial { succeeded, failed: requested - succeeded }
    }
}

/// A request body refused for growing past `MAX_SIZE`.
#[derive(Clone, Copy, Debug, PartialEq, Eq)]
pub enum PayloadError {
    Overflow,
}

/// A request body collected chunk by chunk, never longer than `MAX_SIZE`.
pub struct PayloadBuffer {
    pub body: Vec<u8>,
}

impl PayloadBuffer {
    /// The body is within the limit.
    pub open spec fn wf(&self) -> bool {
        self.body@.len() <= MAX_SIZE
    }

    /// An empty body.
    pub fn new() -> (p: PayloadBuffer)
        ensures
            p.wf(),
            p.body@ == Seq::<u8>::empty(),
    {
        PayloadBuffer { body: Vec::new() }
    }

    /// Adds `chunk` to the body, unless the body would then exceed
    /// `MAX_SIZE`, in which case the body stays as it was.
    pub fn extend_chunk(&mut self, chunk: &[u8]) -> (res: Result<(), PayloadError>)
        requires
            old(self).wf(),
        ensures
            final(self).wf(),
            old(self).body@.len() + chunk@.len() > MAX_SIZE ==> res == Err::<(), PayloadError>(
                PayloadError::Overflow,
            ) && final(self).body@ == old(self).body@,
            old(self).body@.len() + chunk@.len() <= MAX_SIZE ==> res is Ok && final(self).body@
                == old(self).body@ + chunk@,
    {
        if chunk.len() > MAX_SIZE - self.body.len() {
            return Err(PayloadError::Overflow);
        }
        let ghost start = self.body@;
        let mut i: usize = 0;
        while i < chunk.len()
            invariant
                i <= chunk@.len(),
                start.len() + chunk@.len() <= MAX_SIZE,
                self.body@ == start + chunk@.take(i as int),
            decreases chunk@.len() - i,
        {
            self.body.push(chunk[i]);
            assert(self.body@ =~= start + chunk@.take(i + 1));
            i = i + 1;
        }
        assert(chunk@.take(i as int) =~= chunk@);
        Ok(())
    }
}

} // verus!
