//! Evaluation of expressions.
pub mod apply;
pub mod sbox;
pub mod tuple;

use vstd::prelude::*;
use crate::chain::{Constant, Context};
use crate::cost::{self, CostAccumulator};
use crate::env::Env;
use crate::error::{ErrorView, EvalError, Expected, Missing};
use crate::expr::{BinOpKind, BlockValue, CollMap, Expr, GetVar, GlobalVars};
use crate::semantics;
use crate::value::{self, Lambda, Value, ValueView};

verus! {

pub proof fn lemma_tup_view<'a>(items: Vec<Value<'a>>)
    ensures
        Value::Tup(items)@ == ValueView::Tup(value::views(items@)),
{
    assert(Value::Tup(items)@->Tup_0 =~= value::views(items@));
}

pub proof fn lemma_coll_view<'a>(items: Vec<Value<'a>>)
    ensures
        Value::Coll(items)@ == ValueView::Coll(value::views(items@)),
{
    assert(Value::Coll(items)@->Coll_0 =~= value::views(items@));
}

/// Evaluates expressions in order, up to the first error.
pub fn eval_all<'a>(
    es: &'a Vec<Expr>,
    env: &Env<'a>,
    ctx: &'a Context,
    cost: &mut CostAccumulator,
) -> (r: Result<Vec<Value<'a>>, EvalError<'a>>)
    ensures
        ({
            let o = semantics::exprs_outcome(
                es@,
                0,
                Seq::empty(),
                env@,
                *ctx,
                old(cost).limit(),
                old(cost).jit_cost as int,
            );
            &&& match r {
                Ok(vs) => o.res == Ok::<Seq<ValueView>, ErrorView>(value::views(vs@)),
                Err(e) => o.res == Err::<Seq<ValueView>, ErrorView>(e@),
            }
            &&& semantics::accumulated(*old(cost), *final(cost), o.cost)
        }),
    decreases semantics::budget(old(cost).limit(), old(cost).jit_cost as int), es, 0int,
{
    let mut vs: Vec<Value<'a>> = Vec::new();
    let mut i: usize = 0;
    let ghost lim = cost.limit();
    let ghost start = cost.jit_cost;
    assert(value::views(vs@) =~= Seq::empty());
    while i < es.len()
        invariant
            i <= es@.len(),
            lim == cost.limit(),
            lim == old(cost).limit(),
            cost.jit_cost_limit == old(cost).jit_cost_limit,
            start == old(cost).jit_cost,
            start <= cost.jit_cost,
            semantics::exprs_outcome(es@, 0, Seq::empty(), env@, *ctx, lim, start as int)
                == semantics::exprs_outcome(
                es@,
                i as int,
                value::views(vs@),
                env@,
                *ctx,
                lim,
                cost.jit_cost as int,
            ),
        decreases es@.len() - i,
    {
        let ghost before = vs@;
        let v = es[i].eval(env, ctx, cost)?;
        vs.push(v);
        assert(value::views(vs@) =~= value::views(before).push(v@));
        i += 1;
    }
    Ok(vs)
}

impl Expr {
    pub fn eval<'a>(&'a self, env: &Env<'a>, ctx: &'a Context, cost: &mut CostAccumulator) -> (r:
        Result<Value<'a>, EvalError<'a>>)
        ensures
            semantics::has_outcome(
                r,
                *old(cost),
                *final(cost),
                semantics::expr_outcome(
                    *self,
                    env@,
                    *ctx,
                    old(cost).limit(),
                    old(cost).jit_cost as int,
                ),
            ),
        decreases semantics::budget(old(cost).limit(), old(cost).jit_cost as int), self, 0int,
    {
        match self {
            Expr::Const(k) => {
                cost.add_jit_cost(5)?;
                Ok(Value::from_literal(&k.v))
            },
            Expr::ConstPlaceholder(i) => {
                cost.add_jit_cost(1)?;
                if (*i as usize) < ctx.constants.len() {
                    Ok(Value::from_literal(&ctx.constants[*i as usize].v))
                } else {
                    Err(EvalError::NotFound(Missing::Constant(*i)))
                }
            },
            Expr::GlobalVars(GlobalVars::Height) => {
                cost.add_jit_cost(26)?;
                Ok(Value::Int(ctx.height))
            },
            Expr::GlobalVars(GlobalVars::SelfBox) => {
                cost.add_jit_cost(10)?;
                Ok(Value::CBox(&ctx.self_box))
            },
            Expr::ValUse(u) => {
                cost.add_jit_cost(5)?;
                match env.get(u.val_id) {
                    Some(v) => Ok(v.duplicate()),
                    None => Err(EvalError::NotFound(Missing::ValId(u.val_id))),
                }
            },
            Expr::BlockValue(b) => {
                let amount = cost::per_item(1, b.items.len());
                cost.add_jit_cost(amount)?;
                let scope = b.eval_items(env, ctx, cost)?;
                b.result.eval(&scope, ctx, cost)
            },
            Expr::FuncValue(f) => {
                cost.add_jit_cost(5)?;
                Ok(Value::Lambda(Lambda { func: f, env: env.duplicate() }))
            },
            Expr::Apply(a) => a.eval(env, ctx, cost),
            Expr::Tuple(t) => t.eval(env, ctx, cost),
            Expr::BinOp(b) => {
                cost.add_jit_cost(
                    match b.kind {
                        BinOpKind::Plus => 15,
                        BinOpKind::Eq => 3,
                    },
                )?;
                let l = b.left.eval(env, ctx, cost)?;
                let r = b.right.eval(env, ctx, cost)?;
                eval_bin_op(b.kind, l, r)
            },
            Expr::Collection(k) => {
                cost.add_jit_cost(20)?;
                let items = eval_all(&k.items, env, ctx, cost)?;
                proof {
                    lemma_coll_view(items);
                }
                Ok(Value::Coll(items))
            },
            Expr::CollMap(m) => m.eval(env, ctx, cost),
            Expr::If(i) => {
                cost.add_jit_cost(10)?;
                match i.condition.eval(env, ctx, cost)? {
                    Value::Boolean(b) => if b {
                        i.true_branch.eval(env, ctx, cost)
                    } else {
                        i.false_branch.eval(env, ctx, cost)
                    },
                    v => Err(EvalError::TryExtractFrom(Expected::Boolean, v)),
                }
            },
            Expr::GetVar(g) => {
                cost.add_jit_cost(10)?;
                g.read(ctx)
            },
            Expr::OptionGet(input) => {
                cost.add_jit_cost(15)?;
                match input.eval(env, ctx, cost)? {
                    Value::Opt(Some(x)) => Ok(*x),
                    Value::Opt(None) => Err(EvalError::NotFound(Missing::OptionValue)),
                    v => Err(EvalError::TryExtractFrom(Expected::Option, v)),
                }
            },
            Expr::OptionIsDefined(input) => {
                cost.add_jit_cost(10)?;
                match input.eval(env, ctx, cost)? {
                    Value::Opt(Some(_)) => Ok(Value::Boolean(true)),
                    Value::Opt(None) => Ok(Value::Boolean(false)),
                    v => Err(EvalError::TryExtractFrom(Expected::Option, v)),
                }
            },
            Expr::PropertyCall(p) => {
                cost.add_jit_cost(4)?;
                let obj = p.obj.eval(env, ctx, cost)?;
                sbox::property_eval(p.method, obj, cost)
            },
            Expr::MethodCall(m) => {
                cost.add_jit_cost(4)?;
                let obj = m.obj.eval(env, ctx, cost)?;
                let args = eval_all(&m.args, env, ctx, cost)?;
                sbox::method_eval(m.method, obj, args, &m.elem_tpe, ctx, cost)
            },
        }
    }
}

impl BlockValue {
    /// The environment extended with the definitions of the block.
    fn eval_items<'a>(&'a self, env: &Env<'a>, ctx: &'a Context, cost: &mut CostAccumulator) -> (r:
        Result<Env<'a>, EvalError<'a>>)
        ensures
            ({
                let o = semantics::defs_outcome(
                    self.items@,
                    0,
                    env@,
                    *ctx,
                    old(cost).limit(),
                    old(cost).jit_cost as int,
                );
                &&& match r {
                    Ok(scope) => o.res == Ok::<semantics::EnvView, ErrorView>(scope@),
                    Err(e) => o.res == Err::<semantics::EnvView, ErrorView>(e@),
                }
                &&& semantics::accumulated(*old(cost), *final(cost), o.cost)
            }),
        decreases semantics::budget(old(cost).limit(), old(cost).jit_cost as int), self, 0int,
    {
        let mut scope = env.duplicate();
        let mut i: usize = 0;
        let ghost lim = cost.limit();
        let ghost start = cost.jit_cost;
        while i < self.items.len()
            invariant
                i <= self.items@.len(),
                lim == cost.limit(),
                lim == old(cost).limit(),
                cost.jit_cost_limit == old(cost).jit_cost_limit,
                start == old(cost).jit_cost,
                start <= cost.jit_cost,
                semantics::defs_outcome(self.items@, 0, env@, *ctx, lim, start as int)
                    == semantics::defs_outcome(
                    self.items@,
                    i as int,
                    scope@,
                    *ctx,
                    lim,
                    cost.jit_cost as int,
                ),
            decreases self.items@.len() - i,
        {
            let v = self.items[i].rhs.eval(&scope, ctx, cost)?;
            cost.add_jit_cost(cost::ADD_TO_ENV_COST)?;
            scope.insert(self.items[i].id, v);
            i += 1;
        }
        Ok(scope)
    }
}

impl CollMap {
    fn eval<'a>(&'a self, env: &Env<'a>, ctx: &'a Context, cost: &mut CostAccumulator) -> (r:
        Result<Value<'a>, EvalError<'a>>)
        ensures
            semantics::has_outcome(
                r,
                *old(cost),
                *final(cost),
                semantics::coll_map_outcome(
                    *self,
                    env@,
                    *ctx,
                    old(cost).limit(),
                    old(cost).jit_cost as int,
                ),
            ),
        decreases semantics::budget(old(cost).limit(), old(cost).jit_cost as int), self, 0int,
    {
        let items = match self.input.eval(env, ctx, cost)? {
            Value::Coll(items) => items,
            v => {
                return Err(EvalError::TryExtractFrom(Expected::Coll, v));
            },
        };
        proof {
            lemma_coll_view(items);
        }
        let mapper = match self.mapper.eval(env, ctx, cost)? {
            Value::Lambda(l) => l,
            v => {
                return Err(EvalError::TryExtractFrom(Expected::Lambda, v));
            },
        };
        let amount = cost::per_item(20, items.len());
        cost.add_jit_cost(amount)?;
        let out = mapper.invoke_on_each(items, ctx, cost)?;
        proof {
            lemma_coll_view(out);
        }
        Ok(Value::Coll(out))
    }
}

impl<'a> Lambda<'a> {
    /// Invokes the lambda on each item, in order, up to the first error.
    fn invoke_on_each(
        &self,
        items: Vec<Value<'a>>,
        ctx: &'a Context,
        cost: &mut CostAccumulator,
    ) -> (r: Result<Vec<Value<'a>>, EvalError<'a>>)
        ensures
            ({
                let o = semantics::map_outcome(
                    *self.func,
                    self.env@,
                    value::views(items@),
                    0,
                    Seq::empty(),
                    *ctx,
                    old(cost).limit(),
                    old(cost).jit_cost as int,
                );
                &&& match r {
                    Ok(vs) => o.res == Ok::<Seq<ValueView>, ErrorView>(value::views(vs@)),
                    Err(e) => o.res == Err::<Seq<ValueView>, ErrorView>(e@),
                }
                &&& semantics::accumulated(*old(cost), *final(cost), o.cost)
            }),
        decreases semantics::budget(old(cost).limit(), old(cost).jit_cost as int), self.func, 1int,
    {
        let mut vs: Vec<Value<'a>> = Vec::new();
        let mut i: usize = 0;
        let ghost lim = cost.limit();
        let ghost start = cost.jit_cost;
        assert(value::views(vs@) =~= Seq::empty());
        while i < items.len()
            invariant
                i <= items@.len(),
                lim == cost.limit(),
                lim == old(cost).limit(),
                cost.jit_cost_limit == old(cost).jit_cost_limit,
                start == old(cost).jit_cost,
                start <= cost.jit_cost,
                semantics::map_outcome(
                    *self.func,
                    self.env@,
                    value::views(items@),
                    0,
                    Seq::empty(),
                    *ctx,
                    lim,
                    start as int,
                ) == semantics::map_outcome(
                    *self.func,
                    self.env@,
                    value::views(items@),
                    i as int,
                    value::views(vs@),
                    *ctx,
                    lim,
                    cost.jit_cost as int,
                ),
            decreases items@.len() - i,
        {
            let ghost before = vs@;
            let mut args: Vec<Value<'a>> = Vec::new();
            args.push(items[i].duplicate());
            assert(value::views(args@) =~= seq![value::views(items@)[i as int]]);
            let v = self.invoke(&args, ctx, cost)?;
            vs.push(v);
            assert(value::views(vs@) =~= value::views(before).push(v@));
            i += 1;
        }
        Ok(vs)
    }
}

impl GetVar {
    /// The variable of the context extension as an option.
    fn read<'a>(&'a self, ctx: &'a Context) -> (r: Result<Value<'a>, EvalError<'a>>)
        ensures
            semantics::result_view(r) == semantics::variable(*self, *ctx),
    {
        let mut i: usize = 0;
        while i < ctx.extension.len()
            invariant
                i <= ctx.extension@.len(),
                semantics::extension_entry(ctx.extension@, self.var_id, 0)
                    == semantics::extension_entry(ctx.extension@, self.var_id, i as int),
            decreases ctx.extension@.len() - i,
        {
            if ctx.extension[i].0 == self.var_id {
                let k: &'a Constant = &ctx.extension[i].1;
                if k.tpe.same(&self.var_tpe) {
                    return Ok(Value::Opt(Some(Box::new(Value::from_literal(&k.v)))));
                }
                return Err(
                    EvalError::VariableType {
                        var_id: self.var_id,
                        var_tpe: &self.var_tpe,
                        found: &k.tpe,
                    },
                );
            }
            i += 1;
        }
        Ok(Value::Opt(None))
    }
}

fn eval_bin_op<'a>(kind: BinOpKind, l: Value<'a>, r: Value<'a>) -> (res: Result<
    Value<'a>,
    EvalError<'a>,
>)
    ensures
        semantics::result_view(res) == semantics::bin_op(kind, l@, r@),
{
    match (kind, l, r) {
        (BinOpKind::Plus, Value::Byte(a), Value::Byte(b)) => match a.checked_add(b) {
            Some(n) => Ok(Value::Byte(n)),
            None => Err(EvalError::ArithmeticOverflow),
        },
        (BinOpKind::Plus, Value::Int(a), Value::Int(b)) => match a.checked_add(b) {
            Some(n) => Ok(Value::Int(n)),
            None => Err(EvalError::ArithmeticOverflow),
        },
        (BinOpKind::Plus, Value::Long(a), Value::Long(b)) => match a.checked_add(b) {
            Some(n) => Ok(Value::Long(n)),
            None => Err(EvalError::ArithmeticOverflow),
        },
        (BinOpKind::Eq, Value::Boolean(a), Value::Boolean(b)) => Ok(Value::Boolean(a == b)),
        (BinOpKind::Eq, Value::Byte(a), Value::Byte(b)) => Ok(Value::Boolean(a == b)),
        (BinOpKind::Eq, Value::Int(a), Value::Int(b)) => Ok(Value::Boolean(a == b)),
        (BinOpKind::Eq, Value::Long(a), Value::Long(b)) => Ok(Value::Boolean(a == b)),
        (_, l, r) => Err(EvalError::Operands(l, r)),
    }
}

} // verus!
