//! Accounting of the cost of evaluation.
use vstd::prelude::*;
use crate::error::EvalError;

verus! {

/// Cost of binding one value.
pub const ADD_TO_ENV_COST: u64 = 5;

/// Cost accumulated so far, and the limit that it is held against.
pub struct CostAccumulator {
    pub jit_cost: u64,
    pub jit_cost_limit: Option<u64>,
}

impl CostAccumulator {
    /// The highest cost that is accepted. Without a limit it is the highest
    /// cost that can be represented.
    pub open spec fn limit(self) -> int {
        match self.jit_cost_limit {
            Some(limit) => limit as int,
            None => u64::MAX as int,
        }
    }

    /// No cost, and the given limit.
    pub fn new(jit_cost_limit: Option<u64>) -> (r: CostAccumulator)
        ensures
            r.jit_cost == 0,
            r.jit_cost_limit == jit_cost_limit,
    {
        CostAccumulator { jit_cost: 0, jit_cost_limit }
    }

    /// Cost accumulated so far.
    pub fn jit_cost_value(&self) -> (r: u64)
        ensures
            r == self.jit_cost,
    {
        self.jit_cost
    }

    /// Adds to the cost. The amount stays added when the sum is above the
    /// limit, which is then an error.
    pub fn add_jit_cost<'a>(&mut self, amount: u64) -> (r: Result<(), EvalError<'a>>)
        ensures
            final(self).jit_cost_limit == old(self).jit_cost_limit,
            final(self).jit_cost == after_charge(old(self).jit_cost as int, amount as int),
            match r {
                Ok(()) => old(self).jit_cost + amount <= old(self).limit(),
                Err(e) => old(self).jit_cost + amount > old(self).limit() && e
                    == EvalError::<'a>::CostLimitExceeded,
            },
    {
        let limit: u64 = match self.jit_cost_limit {
            Some(limit) => limit,
            None => u64::MAX,
        };
        match self.jit_cost.checked_add(amount) {
            Some(sum) => {
                self.jit_cost = sum;
                if sum <= limit {
                    Ok(())
                } else {
                    Err(EvalError::CostLimitExceeded)
                }
            },
            None => {
                self.jit_cost = u64::MAX;
                Err(EvalError::CostLimitExceeded)
            },
        }
    }
}

/// Accumulated cost after an amount was added.
pub open spec fn after_charge(c: int, amount: int) -> int {
    if c + amount <= u64::MAX {
        c + amount
    } else {
        u64::MAX as int
    }
}

/// Cost that grows with a number of items: `base`, and one for each begun
/// chunk of ten. No items count as one chunk.
pub open spec fn per_item_cost(base: int, items: nat) -> int {
    base + if items == 0 {
        1
    } else {
        (items - 1) / 10 + 1
    }
}

/// Cost of a number of items.
pub(crate) fn per_item(base: u64, items: usize) -> (r: u64)
    requires
        base <= 100,
    ensures
        r == per_item_cost(base as int, items as nat),
{
    if items == 0 {
        base + 1
    } else {
        base + ((items - 1) / 10) as u64 + 1
    }
}

} // verus!
