//! Application of functions.
use vstd::prelude::*;
use crate::chain::Context;
use crate::cost::{self, CostAccumulator};
use crate::env::Env;
use crate::error::{ErrorView, EvalError};
use crate::eval;
use crate::expr::{Apply, FuncArg};
use crate::semantics;
use crate::types::SType;
use crate::value::{self, Lambda, Value};

verus! {

/// First parameter whose type is a type variable.
fn find_type_var(params: &Vec<FuncArg>) -> (r: Option<&FuncArg>)
    ensures
        match r {
            Some(arg) => semantics::first_type_var(params@, 0) == Some(*arg),
            None => semantics::first_type_var(params@, 0) is None,
        },
{
    let mut i: usize = 0;
    while i < params.len()
        invariant
            i <= params@.len(),
            semantics::first_type_var(params@, 0) == semantics::first_type_var(params@, i as int),
        decreases params@.len() - i,
    {
        match &params[i].tpe {
            SType::STypeVar(_) => {
                return Some(&params[i]);
            },
            _ => {},
        }
        i += 1;
    }
    None
}

impl Apply {
    /// Evaluates the function, then the arguments, then the body of the lambda
    /// in the environment that the lambda captured. A lambda with a parameter
    /// whose type is a type variable cannot be applied.
    pub fn eval<'a>(&'a self, env: &Env<'a>, ctx: &'a Context, cost: &mut CostAccumulator) -> (r:
        Result<Value<'a>, EvalError<'a>>)
        ensures
            semantics::has_outcome(
                r,
                *old(cost),
                *final(cost),
                semantics::apply_outcome(
                    *self,
                    env@,
                    *ctx,
                    old(cost).limit(),
                    old(cost).jit_cost as int,
                ),
            ),
        decreases semantics::budget(old(cost).limit(), old(cost).jit_cost as int), self, 0int,
    {
        cost.add_jit_cost(30)?;
        let func_v = self.func.eval(env, ctx, cost)?;
        let args_v = eval::eval_all(&self.args, env, ctx, cost)?;
        match func_v {
            Value::Lambda(fv) => {
                match find_type_var(&fv.func.args) {
                    Some(arg) => Err(EvalError::UnknownArgType { tpe: &arg.tpe, idx: arg.idx }),
                    None => fv.invoke(&args_v, ctx, cost),
                }
            },
            v => Err(EvalError::NotALambda(v)),
        }
    }
}

impl<'a> Lambda<'a> {
    /// Evaluates the body in the captured environment, extended with the
    /// values of the parameters.
    pub fn invoke(&self, args: &Vec<Value<'a>>, ctx: &'a Context, cost: &mut CostAccumulator) -> (r:
        Result<Value<'a>, EvalError<'a>>)
        ensures
            semantics::has_outcome(
                r,
                *old(cost),
                *final(cost),
                semantics::invoke_outcome(
                    *self.func,
                    self.env@,
                    value::views(args@),
                    *ctx,
                    old(cost).limit(),
                    old(cost).jit_cost as int,
                ),
            ),
        decreases semantics::budget(old(cost).limit(), old(cost).jit_cost as int), self.func, 0int,
    {
        let scope = self.bind(args, cost)?;
        self.func.body.eval(&scope, ctx, cost)
    }

    /// The captured environment, extended with the values of the parameters.
    fn bind(&self, args: &Vec<Value<'a>>, cost: &mut CostAccumulator) -> (r: Result<
        Env<'a>,
        EvalError<'a>,
    >)
        ensures
            ({
                let o = semantics::bind_outcome(
                    self.func.args@,
                    value::views(args@),
                    0,
                    self.env@,
                    old(cost).limit(),
                    old(cost).jit_cost as int,
                );
                &&& match r {
                    Ok(scope) => o.res == Ok::<semantics::EnvView, ErrorView>(scope@),
                    Err(e) => o.res == Err::<semantics::EnvView, ErrorView>(e@),
                }
                &&& semantics::accumulated(*old(cost), *final(cost), o.cost)
            }),
    {
        let mut scope = self.env.duplicate();
        let mut i: usize = 0;
        let ghost lim = cost.limit();
        let ghost start = cost.jit_cost;
        while i < self.func.args.len() && i < args.len()
            invariant
                i <= self.func.args@.len(),
                i <= args@.len(),
                lim == cost.limit(),
                cost.jit_cost_limit == old(cost).jit_cost_limit,
                start == old(cost).jit_cost,
                start <= cost.jit_cost,
                semantics::bind_outcome(
                    self.func.args@,
                    value::views(args@),
                    0,
                    self.env@,
                    lim,
                    start as int,
                ) == semantics::bind_outcome(
                    self.func.args@,
                    value::views(args@),
                    i as int,
                    scope@,
                    lim,
                    cost.jit_cost as int,
                ),
            decreases args@.len() - i,
        {
            cost.add_jit_cost(cost::ADD_TO_ENV_COST)?;
            scope.insert(self.func.args[i].idx, args[i].duplicate());
            i += 1;
        }
        Ok(scope)
    }
}

} // verus!
