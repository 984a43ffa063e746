//! Meaning of expressions: the value or error that an expression evaluates to
//! and the cost that is accumulated on the way.
use vstd::prelude::*;
use crate::chain::{Constant, Context};
use crate::cost::{self, CostAccumulator};
use crate::error::{ErrorView, EvalError, Expected, Missing};
use crate::eval::sbox;
use crate::expr::{Apply, BinOpKind, CollMap, Expr, FuncArg, FuncValue, GetVar, GlobalVars, Tuple, ValDef};
use crate::value::{self, Value, ValueView};

verus! {

pub type EnvView = Map<u32, ValueView>;

/// Result of an evaluation and the cost accumulated by its end.
pub struct Outcome<T> {
    pub res: Result<T, ErrorView>,
    pub cost: int,
}

pub open spec fn result_view(r: Result<Value, EvalError>) -> Result<ValueView, ErrorView> {
    match r {
        Ok(v) => Ok(v@),
        Err(e) => Err(e@),
    }
}

/// The accumulator went from `before` to `after` by accumulating cost up to
/// `cost`; its limit is as it was.
pub open spec fn accumulated(before: CostAccumulator, after: CostAccumulator, cost: int) -> bool {
    &&& after.jit_cost == cost
    &&& after.jit_cost >= before.jit_cost
    &&& after.jit_cost_limit == before.jit_cost_limit
}

/// An evaluation that started with `before` and ended with `r` and `after` had
/// the outcome `o`.
pub open spec fn has_outcome(
    r: Result<Value, EvalError>,
    before: CostAccumulator,
    after: CostAccumulator,
    o: Outcome<ValueView>,
) -> bool {
    &&& result_view(r) == o.res
    &&& accumulated(before, after, o.cost)
}

/// The charge of `amount` does not fit under the limit.
pub open spec fn exceeded<T>(c: int, amount: int) -> Outcome<T> {
    Outcome { res: Err(ErrorView::CostLimitExceeded), cost: cost::after_charge(c, amount) }
}

/// A charge followed by a result that costs nothing more.
pub open spec fn charged<T>(c: int, amount: int, lim: int, res: Result<T, ErrorView>) -> Outcome<T> {
    if c + amount <= lim {
        Outcome { res, cost: c + amount }
    } else {
        exceeded(c, amount)
    }
}

pub open spec fn failed<T>(e: ErrorView, cost: int) -> Outcome<T> {
    Outcome { res: Err(e), cost }
}

/// Cost that can still be charged.
pub open spec fn budget(lim: int, c: int) -> nat {
    if c <= lim {
        (lim - c) as nat
    } else {
        0
    }
}

/// The later of two readings of the accumulated cost. Evaluation never lowers
/// the cost, so a reading after an evaluation is the later one; saying so here
/// makes the definitions below well-founded.
pub open spec fn later(c: int, d: int) -> int {
    if d >= c {
        d
    } else {
        c
    }
}

pub open spec fn expr_outcome(e: Expr, env: EnvView, ctx: Context, lim: int, c: int) -> Outcome<
    ValueView,
>
    decreases budget(lim, c), e, 0int,
{
    match e {
        Expr::Const(k) => charged(c, 5, lim, Ok(value::literal_view(k.v))),
        Expr::ConstPlaceholder(i) => charged(
            c,
            1,
            lim,
            if i < ctx.constants@.len() {
                Ok(value::literal_view(ctx.constants@[i as int].v))
            } else {
                Err(ErrorView::NotFound(Missing::Constant(i)))
            },
        ),
        Expr::GlobalVars(GlobalVars::Height) => charged(c, 26, lim, Ok(ValueView::Int(ctx.height))),
        Expr::GlobalVars(GlobalVars::SelfBox) => charged(
            c,
            10,
            lim,
            Ok(ValueView::CBox(ctx.self_box)),
        ),
        Expr::ValUse(u) => charged(
            c,
            5,
            lim,
            if env.dom().contains(u.val_id) {
                Ok(env[u.val_id])
            } else {
                Err(ErrorView::NotFound(Missing::ValId(u.val_id)))
            },
        ),
        Expr::BlockValue(b) => {
            let amount = cost::per_item_cost(1, b.items@.len());
            if c + amount > lim {
                exceeded(c, amount)
            } else {
                let defs = defs_outcome(b.items@, 0, env, ctx, lim, c + amount);
                match defs.res {
                    Err(x) => failed(x, defs.cost),
                    Ok(scope) => expr_outcome(
                        *b.result,
                        scope,
                        ctx,
                        lim,
                        later(c + amount, defs.cost),
                    ),
                }
            }
        },
        Expr::FuncValue(f) => charged(c, 5, lim, Ok(ValueView::Lambda { func: f, env })),
        Expr::Apply(a) => apply_outcome(a, env, ctx, lim, c),
        Expr::Tuple(t) => tuple_outcome(t, env, ctx, lim, c),
        Expr::BinOp(b) => {
            let amount = match b.kind {
                BinOpKind::Plus => 15int,
                BinOpKind::Eq => 3int,
            };
            if c + amount > lim {
                exceeded(c, amount)
            } else {
                let l = expr_outcome(*b.left, env, ctx, lim, c + amount);
                match l.res {
                    Err(x) => failed(x, l.cost),
                    Ok(lv) => {
                        let r = expr_outcome(*b.right, env, ctx, lim, later(c + amount, l.cost));
                        match r.res {
                            Err(x) => failed(x, r.cost),
                            Ok(rv) => Outcome { res: bin_op(b.kind, lv, rv), cost: r.cost },
                        }
                    },
                }
            }
        },
        Expr::Collection(k) => if c + 20 > lim {
            exceeded(c, 20)
        } else {
            let items = exprs_outcome(k.items@, 0, Seq::empty(), env, ctx, lim, c + 20);
            match items.res {
                Err(x) => failed(x, items.cost),
                Ok(vs) => Outcome { res: Ok(ValueView::Coll(vs)), cost: items.cost },
            }
        },
        Expr::CollMap(m) => coll_map_outcome(m, env, ctx, lim, c),
        Expr::If(i) => if c + 10 > lim {
            exceeded(c, 10)
        } else {
            let cond = expr_outcome(*i.condition, env, ctx, lim, c + 10);
            match cond.res {
                Err(x) => failed(x, cond.cost),
                Ok(ValueView::Boolean(b)) => if b {
                    expr_outcome(*i.true_branch, env, ctx, lim, later(c + 10, cond.cost))
                } else {
                    expr_outcome(*i.false_branch, env, ctx, lim, later(c + 10, cond.cost))
                },
                Ok(v) => failed(ErrorView::TryExtractFrom(Expected::Boolean, v), cond.cost),
            }
        },
        Expr::GetVar(g) => charged(c, 10, lim, variable(g, ctx)),
        Expr::OptionGet(input) => if c + 15 > lim {
            exceeded(c, 15)
        } else {
            let o = expr_outcome(*input, env, ctx, lim, c + 15);
            match o.res {
                Err(x) => failed(x, o.cost),
                Ok(ValueView::Opt(Some(x))) => Outcome { res: Ok(*x), cost: o.cost },
                Ok(ValueView::Opt(None)) => failed(
                    ErrorView::NotFound(Missing::OptionValue),
                    o.cost,
                ),
                Ok(v) => failed(ErrorView::TryExtractFrom(Expected::Option, v), o.cost),
            }
        },
        Expr::OptionIsDefined(input) => if c + 10 > lim {
            exceeded(c, 10)
        } else {
            let o = expr_outcome(*input, env, ctx, lim, c + 10);
            match o.res {
                Err(x) => failed(x, o.cost),
                Ok(ValueView::Opt(x)) => Outcome {
                    res: Ok(ValueView::Boolean(x is Some)),
                    cost: o.cost,
                },
                Ok(v) => failed(ErrorView::TryExtractFrom(Expected::Option, v), o.cost),
            }
        },
        Expr::PropertyCall(p) => if c + 4 > lim {
            exceeded(c, 4)
        } else {
            let o = expr_outcome(*p.obj, env, ctx, lim, c + 4);
            match o.res {
                Err(x) => failed(x, o.cost),
                Ok(obj) => sbox::property_outcome(p.method, obj, lim, o.cost),
            }
        },
        Expr::MethodCall(m) => if c + 4 > lim {
            exceeded(c, 4)
        } else {
            let o = expr_outcome(*m.obj, env, ctx, lim, c + 4);
            match o.res {
                Err(x) => failed(x, o.cost),
                Ok(obj) => {
                    let args = exprs_outcome(
                        m.args@,
                        0,
                        Seq::empty(),
                        env,
                        ctx,
                        lim,
                        later(c + 4, o.cost),
                    );
                    match args.res {
                        Err(x) => failed(x, args.cost),
                        Ok(vs) => sbox::method_outcome(
                            m.method,
                            obj,
                            vs,
                            m.elem_tpe,
                            ctx,
                            lim,
                            args.cost,
                        ),
                    }
                },
            }
        },
    }
}

/// Evaluation of `es` from `i` on, appended to `done`: in order, up to the
/// first error.
pub open spec fn exprs_outcome(
    es: Seq<Expr>,
    i: int,
    done: Seq<ValueView>,
    env: EnvView,
    ctx: Context,
    lim: int,
    c: int,
) -> Outcome<Seq<ValueView>>
    decreases budget(lim, c), es, es.len() - i,
{
    if 0 <= i < es.len() {
        let o = expr_outcome(es[i], env, ctx, lim, c);
        match o.res {
            Err(x) => failed(x, o.cost),
            Ok(v) => exprs_outcome(es, i + 1, done.push(v), env, ctx, lim, later(c, o.cost)),
        }
    } else {
        Outcome { res: Ok(done), cost: c }
    }
}

/// Scope after the definitions from `i` on. Each sees those before it.
pub open spec fn defs_outcome(
    defs: Seq<ValDef>,
    i: int,
    env: EnvView,
    ctx: Context,
    lim: int,
    c: int,
) -> Outcome<EnvView>
    decreases budget(lim, c), defs, defs.len() - i,
{
    if 0 <= i < defs.len() {
        let o = expr_outcome(*defs[i].rhs, env, ctx, lim, c);
        let c1 = later(c, o.cost);
        match o.res {
            Err(x) => failed(x, o.cost),
            Ok(v) => if c1 + cost::ADD_TO_ENV_COST > lim {
                exceeded(c1, cost::ADD_TO_ENV_COST as int)
            } else {
                defs_outcome(defs, i + 1, env.insert(defs[i].id, v), ctx, lim, c1 + cost::ADD_TO_ENV_COST)
            },
        }
    } else {
        Outcome { res: Ok(env), cost: c }
    }
}

/// Application: the function first, then the arguments in order, then the
/// body of the lambda in the environment that it captured.
pub open spec fn apply_outcome(a: Apply, env: EnvView, ctx: Context, lim: int, c: int) -> Outcome<
    ValueView,
>
    decreases budget(lim, c), a, 0int,
{
    if c + 30 > lim {
        exceeded(c, 30)
    } else {
        let f = expr_outcome(*a.func, env, ctx, lim, c + 30);
        match f.res {
            Err(x) => failed(x, f.cost),
            Ok(fv) => {
                let c1 = later(c + 30, f.cost);
                let args = exprs_outcome(a.args@, 0, Seq::empty(), env, ctx, lim, c1);
                match args.res {
                    Err(x) => failed(x, args.cost),
                    Ok(vs) => match fv {
                        ValueView::Lambda { func, env: captured } => match first_type_var(
                            func.args@,
                            0,
                        ) {
                            Some(arg) => failed(
                                ErrorView::UnknownArgType { tpe: arg.tpe@, idx: arg.idx },
                                args.cost,
                            ),
                            None => invoke_outcome(
                                func,
                                captured,
                                vs,
                                ctx,
                                lim,
                                later(c1, args.cost),
                            ),
                        },
                        v => failed(ErrorView::NotALambda(v), args.cost),
                    },
                }
            },
        }
    }
}

/// A tuple has two items. Any other number is refused before anything is
/// charged or evaluated.
pub open spec fn tuple_outcome(t: Tuple, env: EnvView, ctx: Context, lim: int, c: int) -> Outcome<
    ValueView,
>
    decreases budget(lim, c), t, 0int,
{
    if t.items@.len() != 2 {
        failed(ErrorView::TupleArity(t.items@.len()), c)
    } else if c + 15 > lim {
        exceeded(c, 15)
    } else {
        let items = exprs_outcome(t.items@, 0, Seq::empty(), env, ctx, lim, c + 15);
        match items.res {
            Err(x) => failed(x, items.cost),
            Ok(vs) => Outcome { res: Ok(ValueView::Tup(vs)), cost: items.cost },
        }
    }
}

/// The mapper invoked on each item of the input.
pub open spec fn coll_map_outcome(m: CollMap, env: EnvView, ctx: Context, lim: int, c: int) -> Outcome<
    ValueView,
>
    decreases budget(lim, c), m, 0int,
{
    let input = expr_outcome(*m.input, env, ctx, lim, c);
    match input.res {
        Err(x) => failed(x, input.cost),
        Ok(ValueView::Coll(items)) => {
            let c1 = later(c, input.cost);
            let mapper = expr_outcome(*m.mapper, env, ctx, lim, c1);
            let amount = cost::per_item_cost(20, items.len());
            let c2 = later(c1, mapper.cost);
            match mapper.res {
                Err(x) => failed(x, mapper.cost),
                Ok(ValueView::Lambda { func, env: captured }) => if c2 + amount > lim {
                    exceeded(c2, amount)
                } else {
                    let out = map_outcome(
                        func,
                        captured,
                        items,
                        0,
                        Seq::empty(),
                        ctx,
                        lim,
                        c2 + amount,
                    );
                    match out.res {
                        Err(x) => failed(x, out.cost),
                        Ok(vs) => Outcome { res: Ok(ValueView::Coll(vs)), cost: out.cost },
                    }
                },
                Ok(v) => failed(ErrorView::TryExtractFrom(Expected::Lambda, v), mapper.cost),
            }
        },
        Ok(v) => failed(ErrorView::TryExtractFrom(Expected::Coll, v), input.cost),
    }
}

/// Body of a lambda in the environment that it captured, extended with the
/// values of its parameters.
pub open spec fn invoke_outcome(
    func: FuncValue,
    captured: EnvView,
    vals: Seq<ValueView>,
    ctx: Context,
    lim: int,
    c: int,
) -> Outcome<ValueView>
    decreases budget(lim, c), func, 0int,
{
    let scope = bind_outcome(func.args@, vals, 0, captured, lim, c);
    match scope.res {
        Err(x) => failed(x, scope.cost),
        Ok(env) => expr_outcome(*func.body, env, ctx, lim, later(c, scope.cost)),
    }
}

/// Parameters from `i` on bound to values, pairwise as far as both go, each at
/// the cost of one binding.
pub open spec fn bind_outcome(
    params: Seq<FuncArg>,
    vals: Seq<ValueView>,
    i: int,
    env: EnvView,
    lim: int,
    c: int,
) -> Outcome<EnvView>
    decreases params.len() - i,
{
    if 0 <= i < params.len() && i < vals.len() {
        if c + cost::ADD_TO_ENV_COST > lim {
            exceeded(c, cost::ADD_TO_ENV_COST as int)
        } else {
            bind_outcome(
                params,
                vals,
                i + 1,
                env.insert(params[i].idx, vals[i]),
                lim,
                c + cost::ADD_TO_ENV_COST,
            )
        }
    } else {
        Outcome { res: Ok(env), cost: c }
    }
}

/// A lambda invoked on the items from `i` on, appended to `done`.
pub open spec fn map_outcome(
    func: FuncValue,
    captured: EnvView,
    items: Seq<ValueView>,
    i: int,
    done: Seq<ValueView>,
    ctx: Context,
    lim: int,
    c: int,
) -> Outcome<Seq<ValueView>>
    decreases budget(lim, c), func, items.len() - i + 1,
{
    if 0 <= i < items.len() {
        let o = invoke_outcome(func, captured, seq![items[i]], ctx, lim, c);
        match o.res {
            Err(x) => failed(x, o.cost),
            Ok(v) => map_outcome(
                func,
                captured,
                items,
                i + 1,
                done.push(v),
                ctx,
                lim,
                later(c, o.cost),
            ),
        }
    } else {
        Outcome { res: Ok(done), cost: c }
    }
}

/// First parameter from `i` on whose type is a type variable.
pub open spec fn first_type_var(params: Seq<FuncArg>, i: int) -> Option<FuncArg>
    decreases params.len() - i,
{
    if 0 <= i < params.len() {
        if params[i].tpe is STypeVar {
            Some(params[i])
        } else {
            first_type_var(params, i + 1)
        }
    } else {
        None
    }
}

/// Sum or comparison of two values of one primitive type.
pub open spec fn bin_op(kind: BinOpKind, l: ValueView, r: ValueView) -> Result<ValueView, ErrorView> {
    match (kind, l, r) {
        (BinOpKind::Plus, ValueView::Byte(a), ValueView::Byte(b)) => if i8::MIN <= a + b
            <= i8::MAX {
            Ok(ValueView::Byte((a + b) as i8))
        } else {
            Err(ErrorView::ArithmeticOverflow)
        },
        (BinOpKind::Plus, ValueView::Int(a), ValueView::Int(b)) => if i32::MIN <= a + b
            <= i32::MAX {
            Ok(ValueView::Int((a + b) as i32))
        } else {
            Err(ErrorView::ArithmeticOverflow)
        },
        (BinOpKind::Plus, ValueView::Long(a), ValueView::Long(b)) => if i64::MIN <= a + b
            <= i64::MAX {
            Ok(ValueView::Long((a + b) as i64))
        } else {
            Err(ErrorView::ArithmeticOverflow)
        },
        (BinOpKind::Eq, ValueView::Boolean(a), ValueView::Boolean(b)) => Ok(
            ValueView::Boolean(a == b),
        ),
        (BinOpKind::Eq, ValueView::Byte(a), ValueView::Byte(b)) => Ok(ValueView::Boolean(a == b)),
        (BinOpKind::Eq, ValueView::Int(a), ValueView::Int(b)) => Ok(ValueView::Boolean(a == b)),
        (BinOpKind::Eq, ValueView::Long(a), ValueView::Long(b)) => Ok(ValueView::Boolean(a == b)),
        (_, l, r) => Err(ErrorView::Operands(l, r)),
    }
}

/// First entry from `i` on with the given variable id.
pub open spec fn extension_entry(ext: Seq<(u8, Constant)>, id: u8, i: int) -> Option<Constant>
    decreases ext.len() - i,
{
    if 0 <= i < ext.len() {
        if ext[i].0 == id {
            Some(ext[i].1)
        } else {
            extension_entry(ext, id, i + 1)
        }
    } else {
        None
    }
}

/// Variable of the context extension as an option. A variable of another type
/// is an error.
pub open spec fn variable(g: GetVar, ctx: Context) -> Result<ValueView, ErrorView> {
    match extension_entry(ctx.extension@, g.var_id, 0) {
        None => Ok(ValueView::Opt(None)),
        Some(k) => if k.tpe@ == g.var_tpe@ {
            Ok(ValueView::Opt(Some(Box::new(value::literal_view(k.v)))))
        } else {
            Err(
                ErrorView::VariableType { var_id: g.var_id, var_tpe: g.var_tpe@, found: k.tpe@ },
            )
        },
    }
}

} // verus!
