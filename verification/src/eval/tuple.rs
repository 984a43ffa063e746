//! Tuples.
use vstd::prelude::*;
use crate::chain::Context;
use crate::cost::CostAccumulator;
use crate::env::Env;
use crate::error::EvalError;
use crate::eval;
use crate::expr::{Expr, Tuple};
use crate::semantics;
use crate::value::Value;

verus! {

impl Tuple {
    /// A tuple of 2 to 255 items; any other number gives the items back.
    pub fn new(items: Vec<Expr>) -> (r: Result<Tuple, Vec<Expr>>)
        ensures
            match r {
                Ok(t) => 2 <= items@.len() <= 255 && t.items == items,
                Err(back) => !(2 <= items@.len() <= 255) && back == items,
            },
    {
        if 2 <= items.len() && items.len() <= 255 {
            Ok(Tuple { items })
        } else {
            Err(items)
        }
    }

    /// Evaluates the items of a pair. A tuple of any other number of items is
    /// refused before anything is charged.
    pub fn eval<'a>(&'a self, env: &Env<'a>, ctx: &'a Context, cost: &mut CostAccumulator) -> (r:
        Result<Value<'a>, EvalError<'a>>)
        ensures
            semantics::has_outcome(
                r,
                *old(cost),
                *final(cost),
                semantics::tuple_outcome(
                    *self,
                    env@,
                    *ctx,
                    old(cost).limit(),
                    old(cost).jit_cost as int,
                ),
            ),
        decreases semantics::budget(old(cost).limit(), old(cost).jit_cost as int), self, 0int,
    {
        if self.items.len() != 2 {
            return Err(EvalError::TupleArity(self.items.len()));
        }
        cost.add_jit_cost(15)?;
        let items = eval::eval_all(&self.items, env, ctx, cost)?;
        let r = Value::Tup(items);
        proof {
            eval::lemma_tup_view(items);
        }
        Ok(r)
    }
}

} // verus!
