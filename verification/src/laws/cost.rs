//! Laws of the cost of evaluation.
use vstd::prelude::*;
use crate::chain::Context;
use crate::cost;
use crate::error::ErrorView;
use crate::expr::{
    Apply, BinOp, BinOpKind, BlockValue, CollMap, Collection, Expr, FuncArg, FuncValue, If, MethodCall,
    Tuple, ValDef,
};
use crate::semantics::{self, EnvView, Outcome};
use crate::value::ValueView;

verus! {

/// Accumulated cost never shrinks and stays representable, and a result comes
/// only with a cost under the limit (or with nothing charged at all).
pub open spec fn bounded<T>(o: Outcome<T>, lim: int, c: int) -> bool {
    &&& c <= o.cost <= u64::MAX
    &&& o.res is Ok ==> o.cost == c || o.cost <= lim
}

/// Evaluation accumulates cost, and a value comes only with a cost under the
/// limit.
pub proof fn law_cost_is_bounded(e: Expr, env: EnvView, ctx: Context, lim: int, c: int)
    requires
        0 <= c <= u64::MAX,
        lim <= u64::MAX,
    ensures
        c <= semantics::expr_outcome(e, env, ctx, lim, c).cost <= u64::MAX,
        semantics::expr_outcome(e, env, ctx, lim, c).res is Ok ==> semantics::expr_outcome(
            e,
            env,
            ctx,
            lim,
            c,
        ).cost <= lim,
    decreases semantics::budget(lim, c), e, 0int,
{
    match e {
        Expr::BlockValue(b) => {
            let amount = cost::per_item_cost(1, b.items@.len());
            if c + amount <= lim {
                lemma_defs_bounded(b.items@, 0, env, ctx, lim, c + amount);
                let defs = semantics::defs_outcome(b.items@, 0, env, ctx, lim, c + amount);
                if defs.res is Ok {
                    law_cost_is_bounded(*b.result, defs.res->Ok_0, ctx, lim, defs.cost);
                }
            }
        },
        Expr::Apply(a) => {
            lemma_apply_bounded(a, env, ctx, lim, c);
        },
        Expr::Tuple(t) => {
            lemma_tuple_bounded(t, env, ctx, lim, c);
        },
        Expr::BinOp(b) => {
            let amount = match b.kind {
                BinOpKind::Plus => 15int,
                BinOpKind::Eq => 3int,
            };
            if c + amount <= lim {
                law_cost_is_bounded(*b.left, env, ctx, lim, c + amount);
                let l = semantics::expr_outcome(*b.left, env, ctx, lim, c + amount);
                if l.res is Ok {
                    law_cost_is_bounded(*b.right, env, ctx, lim, l.cost);
                }
            }
        },
        Expr::Collection(k) => {
            if c + 20 <= lim {
                lemma_exprs_bounded(k.items@, 0, Seq::empty(), env, ctx, lim, c + 20);
            }
        },
        Expr::CollMap(m) => {
            lemma_coll_map_bounded(m, env, ctx, lim, c);
        },
        Expr::If(i) => {
            if c + 10 <= lim {
                law_cost_is_bounded(*i.condition, env, ctx, lim, c + 10);
                let cond = semantics::expr_outcome(*i.condition, env, ctx, lim, c + 10);
                law_cost_is_bounded(*i.true_branch, env, ctx, lim, cond.cost);
                law_cost_is_bounded(*i.false_branch, env, ctx, lim, cond.cost);
            }
        },
        Expr::OptionGet(input) => {
            if c + 15 <= lim {
                law_cost_is_bounded(*input, env, ctx, lim, c + 15);
            }
        },
        Expr::OptionIsDefined(input) => {
            if c + 10 <= lim {
                law_cost_is_bounded(*input, env, ctx, lim, c + 10);
            }
        },
        Expr::PropertyCall(p) => {
            if c + 4 <= lim {
                law_cost_is_bounded(*p.obj, env, ctx, lim, c + 4);
            }
        },
        Expr::MethodCall(m) => {
            if c + 4 <= lim {
                law_cost_is_bounded(*m.obj, env, ctx, lim, c + 4);
                let o = semantics::expr_outcome(*m.obj, env, ctx, lim, c + 4);
                lemma_exprs_bounded(m.args@, 0, Seq::empty(), env, ctx, lim, o.cost);
            }
        },
        _ => {},
    }
}

pub(crate) proof fn lemma_exprs_bounded(
    es: Seq<Expr>,
    i: int,
    done: Seq<ValueView>,
    env: EnvView,
    ctx: Context,
    lim: int,
    c: int,
)
    requires
        0 <= c <= u64::MAX,
        lim <= u64::MAX,
    ensures
        bounded(semantics::exprs_outcome(es, i, done, env, ctx, lim, c), lim, c),
    decreases semantics::budget(lim, c), es, es.len() - i,
{
    if 0 <= i < es.len() {
        law_cost_is_bounded(es[i], env, ctx, lim, c);
        let o = semantics::expr_outcome(es[i], env, ctx, lim, c);
        if o.res is Ok {
            lemma_exprs_bounded(es, i + 1, done.push(o.res->Ok_0), env, ctx, lim, o.cost);
        }
    }
}

proof fn lemma_defs_bounded(
    defs: Seq<ValDef>,
    i: int,
    env: EnvView,
    ctx: Context,
    lim: int,
    c: int,
)
    requires
        0 <= c <= u64::MAX,
        lim <= u64::MAX,
    ensures
        bounded(semantics::defs_outcome(defs, i, env, ctx, lim, c), lim, c),
    decreases semantics::budget(lim, c), defs, defs.len() - i,
{
    if 0 <= i < defs.len() {
        law_cost_is_bounded(*defs[i].rhs, env, ctx, lim, c);
        let o = semantics::expr_outcome(*defs[i].rhs, env, ctx, lim, c);
        if o.res is Ok && o.cost + cost::ADD_TO_ENV_COST <= lim {
            lemma_defs_bounded(
                defs,
                i + 1,
                env.insert(defs[i].id, o.res->Ok_0),
                ctx,
                lim,
                o.cost + cost::ADD_TO_ENV_COST,
            );
        }
    }
}

proof fn lemma_apply_bounded(a: Apply, env: EnvView, ctx: Context, lim: int, c: int)
    requires
        0 <= c <= u64::MAX,
        lim <= u64::MAX,
    ensures
        bounded(semantics::apply_outcome(a, env, ctx, lim, c), lim, c),
        semantics::apply_outcome(a, env, ctx, lim, c).res is Ok ==> semantics::apply_outcome(
            a,
            env,
            ctx,
            lim,
            c,
        ).cost <= lim,
    decreases semantics::budget(lim, c), a, 0int,
{
    if c + 30 <= lim {
        law_cost_is_bounded(*a.func, env, ctx, lim, c + 30);
        let f = semantics::expr_outcome(*a.func, env, ctx, lim, c + 30);
        lemma_exprs_bounded(a.args@, 0, Seq::empty(), env, ctx, lim, f.cost);
        let args = semantics::exprs_outcome(a.args@, 0, Seq::empty(), env, ctx, lim, f.cost);
        if f.res is Ok && args.res is Ok && f.res->Ok_0 is Lambda {
            lemma_invoke_bounded(
                f.res->Ok_0->func,
                f.res->Ok_0->env,
                args.res->Ok_0,
                ctx,
                lim,
                args.cost,
            );
        }
    }
}

proof fn lemma_tuple_bounded(t: Tuple, env: EnvView, ctx: Context, lim: int, c: int)
    requires
        0 <= c <= u64::MAX,
        lim <= u64::MAX,
    ensures
        bounded(semantics::tuple_outcome(t, env, ctx, lim, c), lim, c),
        semantics::tuple_outcome(t, env, ctx, lim, c).res is Ok ==> semantics::tuple_outcome(
            t,
            env,
            ctx,
            lim,
            c,
        ).cost <= lim,
    decreases semantics::budget(lim, c), t, 0int,
{
    if c + 15 <= lim {
        lemma_exprs_bounded(t.items@, 0, Seq::empty(), env, ctx, lim, c + 15);
    }
}

proof fn lemma_coll_map_bounded(m: CollMap, env: EnvView, ctx: Context, lim: int, c: int)
    requires
        0 <= c <= u64::MAX,
        lim <= u64::MAX,
    ensures
        bounded(semantics::coll_map_outcome(m, env, ctx, lim, c), lim, c),
        semantics::coll_map_outcome(m, env, ctx, lim, c).res is Ok ==> semantics::coll_map_outcome(
            m,
            env,
            ctx,
            lim,
            c,
        ).cost <= lim,
    decreases semantics::budget(lim, c), m, 0int,
{
    law_cost_is_bounded(*m.input, env, ctx, lim, c);
    let input = semantics::expr_outcome(*m.input, env, ctx, lim, c);
    if input.res is Ok && input.res->Ok_0 is Coll {
        let items = input.res->Ok_0->Coll_0;
        law_cost_is_bounded(*m.mapper, env, ctx, lim, input.cost);
        let mapper = semantics::expr_outcome(*m.mapper, env, ctx, lim, input.cost);
        let amount = cost::per_item_cost(20, items.len());
        if mapper.res is Ok && mapper.res->Ok_0 is Lambda && mapper.cost + amount <= lim {
            lemma_map_bounded(
                mapper.res->Ok_0->func,
                mapper.res->Ok_0->env,
                items,
                0,
                Seq::empty(),
                ctx,
                lim,
                mapper.cost + amount,
            );
        }
    }
}

pub(crate) proof fn lemma_invoke_bounded(
    func: FuncValue,
    captured: EnvView,
    vals: Seq<ValueView>,
    ctx: Context,
    lim: int,
    c: int,
)
    requires
        0 <= c <= u64::MAX,
        lim <= u64::MAX,
    ensures
        bounded(semantics::invoke_outcome(func, captured, vals, ctx, lim, c), lim, c),
        semantics::invoke_outcome(func, captured, vals, ctx, lim, c).res is Ok
            ==> semantics::invoke_outcome(func, captured, vals, ctx, lim, c).cost <= lim,
    decreases semantics::budget(lim, c), func, 0int,
{
    lemma_bind_bounded(func.args@, vals, 0, captured, lim, c);
    let scope = semantics::bind_outcome(func.args@, vals, 0, captured, lim, c);
    if scope.res is Ok {
        law_cost_is_bounded(*func.body, scope.res->Ok_0, ctx, lim, scope.cost);
    }
}

proof fn lemma_bind_bounded(
    params: Seq<FuncArg>,
    vals: Seq<ValueView>,
    i: int,
    env: EnvView,
    lim: int,
    c: int,
)
    requires
        0 <= c <= u64::MAX,
        lim <= u64::MAX,
    ensures
        bounded(semantics::bind_outcome(params, vals, i, env, lim, c), lim, c),
    decreases params.len() - i,
{
    if 0 <= i < params.len() && i < vals.len() && c + cost::ADD_TO_ENV_COST <= lim {
        lemma_bind_bounded(
            params,
            vals,
            i + 1,
            env.insert(params[i].idx, vals[i]),
            lim,
            c + cost::ADD_TO_ENV_COST,
        );
    }
}

proof fn lemma_map_bounded(
    func: FuncValue,
    captured: EnvView,
    items: Seq<ValueView>,
    i: int,
    done: Seq<ValueView>,
    ctx: Context,
    lim: int,
    c: int,
)
    requires
        0 <= c <= u64::MAX,
        lim <= u64::MAX,
    ensures
        bounded(semantics::map_outcome(func, captured, items, i, done, ctx, lim, c), lim, c),
    decreases semantics::budget(lim, c), func, items.len() - i + 1,
{
    if 0 <= i < items.len() {
        lemma_invoke_bounded(func, captured, seq![items[i]], ctx, lim, c);
        let o = semantics::invoke_outcome(func, captured, seq![items[i]], ctx, lim, c);
        if o.res is Ok {
            lemma_map_bounded(
                func,
                captured,
                items,
                i + 1,
                done.push(o.res->Ok_0),
                ctx,
                lim,
                o.cost,
            );
        }
    }
}

/// The evaluation did not run into its limit.
pub open spec fn completed<T>(o: Outcome<T>) -> bool {
    o.res != Err::<T, ErrorView>(ErrorView::CostLimitExceeded)
}

/// The outcome `p` under a higher limit belongs to the outcome `o` under the
/// limit `lim`: it is the same, or it costs more than `lim`.
pub open spec fn extended<T>(o: Outcome<T>, p: Outcome<T>, lim: int) -> bool {
    if completed(o) {
        p == o
    } else {
        p.cost > lim || !completed(p)
    }
}

/// A limit does nothing but stop: an evaluation that does not run into its
/// limit has the same result and the same cost under any higher limit. One that
/// does costs more than the limit under any higher one, or runs into that one
/// too.
pub proof fn law_limit_only_stops(
    e: Expr,
    env: EnvView,
    ctx: Context,
    lim: int,
    more: int,
    c: int,
)
    requires
        0 <= c <= u64::MAX,
        lim <= more <= u64::MAX,
    ensures
        extended(
            semantics::expr_outcome(e, env, ctx, lim, c),
            semantics::expr_outcome(e, env, ctx, more, c),
            lim,
        ),
    decreases semantics::budget(lim, c), e, 0int,
{
    match e {
        Expr::BlockValue(b) => {
            lemma_block_extended(b, env, ctx, lim, more, c);
        },
        Expr::Apply(a) => {
            lemma_apply_extended(a, env, ctx, lim, more, c);
        },
        Expr::Tuple(t) => {
            lemma_tuple_extended(t, env, ctx, lim, more, c);
        },
        Expr::BinOp(b) => {
            lemma_bin_op_extended(b, env, ctx, lim, more, c);
        },
        Expr::Collection(k) => {
            lemma_collection_extended(k, env, ctx, lim, more, c);
        },
        Expr::CollMap(m) => {
            lemma_coll_map_extended(m, env, ctx, lim, more, c);
        },
        Expr::If(i) => {
            lemma_if_extended(i, env, ctx, lim, more, c);
        },
        Expr::OptionGet(input) => {
            law_cost_is_bounded(*input, env, ctx, more, cost::after_charge(c, 15));
            if c + 15 <= lim {
                law_limit_only_stops(*input, env, ctx, lim, more, c + 15);
            }
        },
        Expr::OptionIsDefined(input) => {
            law_cost_is_bounded(*input, env, ctx, more, cost::after_charge(c, 10));
            if c + 10 <= lim {
                law_limit_only_stops(*input, env, ctx, lim, more, c + 10);
            }
        },
        Expr::PropertyCall(p) => {
            law_cost_is_bounded(*p.obj, env, ctx, more, cost::after_charge(c, 4));
            if c + 4 <= lim {
                law_limit_only_stops(*p.obj, env, ctx, lim, more, c + 4);
            }
        },
        Expr::MethodCall(m) => {
            lemma_method_call_extended(m, env, ctx, lim, more, c);
        },
        _ => {},
    }
}

/// An evaluation succeeds under a limit exactly if it succeeds without one and
/// its cost is not above the limit, and then it is the same evaluation.
pub proof fn law_success_needs_its_cost(e: Expr, env: EnvView, ctx: Context, lim: int, c: int)
    requires
        0 <= c <= u64::MAX,
        lim <= u64::MAX,
    ensures
        ({
            let o = semantics::expr_outcome(e, env, ctx, lim, c);
            let free = semantics::expr_outcome(e, env, ctx, u64::MAX as int, c);
            &&& o.res is Ok <==> free.res is Ok && free.cost <= lim
            &&& o.res is Ok ==> o == free
        }),
{
    law_limit_only_stops(e, env, ctx, lim, u64::MAX as int, c);
    law_cost_is_bounded(e, env, ctx, lim, c);
    law_cost_is_bounded(e, env, ctx, u64::MAX as int, c);
}

proof fn lemma_block_extended(b: BlockValue, env: EnvView, ctx: Context, lim: int, more: int, c: int)
    requires
        0 <= c <= u64::MAX,
        lim <= more <= u64::MAX,
    ensures
        extended(
            semantics::expr_outcome(Expr::BlockValue(b), env, ctx, lim, c),
            semantics::expr_outcome(Expr::BlockValue(b), env, ctx, more, c),
            lim,
        ),
    decreases semantics::budget(lim, c), b, 0int,
{
    let amount = cost::per_item_cost(1, b.items@.len());
    if c + amount <= more {
        lemma_defs_bounded(b.items@, 0, env, ctx, more, c + amount);
        let defs = semantics::defs_outcome(b.items@, 0, env, ctx, more, c + amount);
        if defs.res is Ok {
            law_cost_is_bounded(*b.result, defs.res->Ok_0, ctx, more, defs.cost);
        }
    }
    if c + amount <= lim {
        lemma_defs_bounded(b.items@, 0, env, ctx, lim, c + amount);
        lemma_defs_extended(b.items@, 0, env, ctx, lim, more, c + amount);
        let defs = semantics::defs_outcome(b.items@, 0, env, ctx, lim, c + amount);
        if defs.res is Ok {
            law_limit_only_stops(*b.result, defs.res->Ok_0, ctx, lim, more, defs.cost);
        }
    }
}

proof fn lemma_bin_op_extended(b: BinOp, env: EnvView, ctx: Context, lim: int, more: int, c: int)
    requires
        0 <= c <= u64::MAX,
        lim <= more <= u64::MAX,
    ensures
        extended(
            semantics::expr_outcome(Expr::BinOp(b), env, ctx, lim, c),
            semantics::expr_outcome(Expr::BinOp(b), env, ctx, more, c),
            lim,
        ),
    decreases semantics::budget(lim, c), b, 0int,
{
    let amount = match b.kind {
        BinOpKind::Plus => 15int,
        BinOpKind::Eq => 3int,
    };
    if c + amount <= more {
        law_cost_is_bounded(*b.left, env, ctx, more, c + amount);
        let l = semantics::expr_outcome(*b.left, env, ctx, more, c + amount);
        law_cost_is_bounded(*b.right, env, ctx, more, l.cost);
    }
    if c + amount <= lim {
        law_cost_is_bounded(*b.left, env, ctx, lim, c + amount);
        law_limit_only_stops(*b.left, env, ctx, lim, more, c + amount);
        let l = semantics::expr_outcome(*b.left, env, ctx, lim, c + amount);
        if l.res is Ok {
            law_limit_only_stops(*b.right, env, ctx, lim, more, l.cost);
        }
    }
}

proof fn lemma_if_extended(i: If, env: EnvView, ctx: Context, lim: int, more: int, c: int)
    requires
        0 <= c <= u64::MAX,
        lim <= more <= u64::MAX,
    ensures
        extended(
            semantics::expr_outcome(Expr::If(i), env, ctx, lim, c),
            semantics::expr_outcome(Expr::If(i), env, ctx, more, c),
            lim,
        ),
    decreases semantics::budget(lim, c), i, 0int,
{
    if c + 10 <= more {
        law_cost_is_bounded(*i.condition, env, ctx, more, c + 10);
        let cond = semantics::expr_outcome(*i.condition, env, ctx, more, c + 10);
        law_cost_is_bounded(*i.true_branch, env, ctx, more, cond.cost);
        law_cost_is_bounded(*i.false_branch, env, ctx, more, cond.cost);
    }
    if c + 10 <= lim {
        law_cost_is_bounded(*i.condition, env, ctx, lim, c + 10);
        law_limit_only_stops(*i.condition, env, ctx, lim, more, c + 10);
        let cond = semantics::expr_outcome(*i.condition, env, ctx, lim, c + 10);
        if cond.res == Ok::<ValueView, ErrorView>(ValueView::Boolean(true)) {
            law_limit_only_stops(*i.true_branch, env, ctx, lim, more, cond.cost);
        } else if cond.res == Ok::<ValueView, ErrorView>(ValueView::Boolean(false)) {
            law_limit_only_stops(*i.false_branch, env, ctx, lim, more, cond.cost);
        }
    }
}

proof fn lemma_method_call_extended(m: MethodCall, env: EnvView, ctx: Context, lim: int, more: int, c: int)
    requires
        0 <= c <= u64::MAX,
        lim <= more <= u64::MAX,
    ensures
        extended(
            semantics::expr_outcome(Expr::MethodCall(m), env, ctx, lim, c),
            semantics::expr_outcome(Expr::MethodCall(m), env, ctx, more, c),
            lim,
        ),
    decreases semantics::budget(lim, c), m, 0int,
{
    if c + 4 <= more {
        law_cost_is_bounded(*m.obj, env, ctx, more, c + 4);
        let o = semantics::expr_outcome(*m.obj, env, ctx, more, c + 4);
        lemma_exprs_bounded(m.args@, 0, Seq::empty(), env, ctx, more, o.cost);
    }
    if c + 4 <= lim {
        law_cost_is_bounded(*m.obj, env, ctx, lim, c + 4);
        law_limit_only_stops(*m.obj, env, ctx, lim, more, c + 4);
        let o = semantics::expr_outcome(*m.obj, env, ctx, lim, c + 4);
        if o.res is Ok {
            lemma_exprs_extended(m.args@, 0, Seq::empty(), env, ctx, lim, more, o.cost);
        }
    }
}

proof fn lemma_collection_extended(k: Collection, env: EnvView, ctx: Context, lim: int, more: int, c: int)
    requires
        0 <= c <= u64::MAX,
        lim <= more <= u64::MAX,
    ensures
        extended(
            semantics::expr_outcome(Expr::Collection(k), env, ctx, lim, c),
            semantics::expr_outcome(Expr::Collection(k), env, ctx, more, c),
            lim,
        ),
    decreases semantics::budget(lim, c), k, 0int,
{
    if c + 20 <= more {
        lemma_exprs_bounded(k.items@, 0, Seq::empty(), env, ctx, more, c + 20);
    }
    if c + 20 <= lim {
        lemma_exprs_extended(k.items@, 0, Seq::empty(), env, ctx, lim, more, c + 20);
    }
}

proof fn lemma_tuple_extended(t: Tuple, env: EnvView, ctx: Context, lim: int, more: int, c: int)
    requires
        0 <= c <= u64::MAX,
        lim <= more <= u64::MAX,
    ensures
        extended(
            semantics::tuple_outcome(t, env, ctx, lim, c),
            semantics::tuple_outcome(t, env, ctx, more, c),
            lim,
        ),
    decreases semantics::budget(lim, c), t, 0int,
{
    if c + 15 <= more {
        lemma_exprs_bounded(t.items@, 0, Seq::empty(), env, ctx, more, c + 15);
    }
    if t.items@.len() == 2 && c + 15 <= lim {
        lemma_exprs_extended(t.items@, 0, Seq::empty(), env, ctx, lim, more, c + 15);
    }
}

proof fn lemma_exprs_extended(
    es: Seq<Expr>,
    i: int,
    done: Seq<ValueView>,
    env: EnvView,
    ctx: Context,
    lim: int,
    more: int,
    c: int,
)
    requires
        0 <= c <= u64::MAX,
        lim <= more <= u64::MAX,
    ensures
        extended(
            semantics::exprs_outcome(es, i, done, env, ctx, lim, c),
            semantics::exprs_outcome(es, i, done, env, ctx, more, c),
            lim,
        ),
    decreases semantics::budget(lim, c), es, es.len() - i,
{
    if 0 <= i < es.len() {
        law_cost_is_bounded(es[i], env, ctx, more, c);
        let o = semantics::expr_outcome(es[i], env, ctx, more, c);
        if o.res is Ok {
            lemma_exprs_bounded(es, i + 1, done.push(o.res->Ok_0), env, ctx, more, o.cost);
        }
    }
    if 0 <= i < es.len() {
        law_cost_is_bounded(es[i], env, ctx, lim, c);
        law_limit_only_stops(es[i], env, ctx, lim, more, c);
        let o = semantics::expr_outcome(es[i], env, ctx, lim, c);
        if o.res is Ok {
            lemma_exprs_extended(es, i + 1, done.push(o.res->Ok_0), env, ctx, lim, more, o.cost);
        }
    }
}

proof fn lemma_defs_extended(
    defs: Seq<ValDef>,
    i: int,
    env: EnvView,
    ctx: Context,
    lim: int,
    more: int,
    c: int,
)
    requires
        0 <= c <= u64::MAX,
        lim <= more <= u64::MAX,
    ensures
        extended(
            semantics::defs_outcome(defs, i, env, ctx, lim, c),
            semantics::defs_outcome(defs, i, env, ctx, more, c),
            lim,
        ),
    decreases semantics::budget(lim, c), defs, defs.len() - i,
{
    if 0 <= i < defs.len() {
        law_cost_is_bounded(*defs[i].rhs, env, ctx, more, c);
        let o = semantics::expr_outcome(*defs[i].rhs, env, ctx, more, c);
        if o.res is Ok && o.cost + cost::ADD_TO_ENV_COST <= more {
            lemma_defs_bounded(
                defs,
                i + 1,
                env.insert(defs[i].id, o.res->Ok_0),
                ctx,
                more,
                o.cost + cost::ADD_TO_ENV_COST,
            );
        }
    }
    if 0 <= i < defs.len() {
        law_cost_is_bounded(*defs[i].rhs, env, ctx, lim, c);
        law_limit_only_stops(*defs[i].rhs, env, ctx, lim, more, c);
        let o = semantics::expr_outcome(*defs[i].rhs, env, ctx, lim, c);
        if o.res is Ok && o.cost + cost::ADD_TO_ENV_COST <= lim {
            lemma_defs_extended(
                defs,
                i + 1,
                env.insert(defs[i].id, o.res->Ok_0),
                ctx,
                lim,
                more,
                o.cost + cost::ADD_TO_ENV_COST,
            );
        }
    }
}

proof fn lemma_apply_extended(a: Apply, env: EnvView, ctx: Context, lim: int, more: int, c: int)
    requires
        0 <= c <= u64::MAX,
        lim <= more <= u64::MAX,
    ensures
        extended(
            semantics::apply_outcome(a, env, ctx, lim, c),
            semantics::apply_outcome(a, env, ctx, more, c),
            lim,
        ),
    decreases semantics::budget(lim, c), a, 0int,
{
    if c + 30 <= more {
        law_cost_is_bounded(*a.func, env, ctx, more, c + 30);
        let f = semantics::expr_outcome(*a.func, env, ctx, more, c + 30);
        lemma_exprs_bounded(a.args@, 0, Seq::empty(), env, ctx, more, f.cost);
        let args = semantics::exprs_outcome(a.args@, 0, Seq::empty(), env, ctx, more, f.cost);
        if f.res is Ok && args.res is Ok && f.res->Ok_0 is Lambda {
            lemma_invoke_bounded(
                f.res->Ok_0->func,
                f.res->Ok_0->env,
                args.res->Ok_0,
                ctx,
                more,
                args.cost,
            );
        }
    }
    if c + 30 <= lim {
        law_cost_is_bounded(*a.func, env, ctx, lim, c + 30);
        law_limit_only_stops(*a.func, env, ctx, lim, more, c + 30);
        let f = semantics::expr_outcome(*a.func, env, ctx, lim, c + 30);
        if f.res is Ok {
            lemma_exprs_bounded(a.args@, 0, Seq::empty(), env, ctx, lim, f.cost);
            lemma_exprs_extended(a.args@, 0, Seq::empty(), env, ctx, lim, more, f.cost);
            let args = semantics::exprs_outcome(a.args@, 0, Seq::empty(), env, ctx, lim, f.cost);
            if args.res is Ok && f.res->Ok_0 is Lambda && semantics::first_type_var(
                f.res->Ok_0->func.args@,
                0,
            ) is None {
                lemma_invoke_extended(
                    f.res->Ok_0->func,
                    f.res->Ok_0->env,
                    args.res->Ok_0,
                    ctx,
                    lim,
                    more,
                    args.cost,
                );
            }
        }
    }
}

proof fn lemma_coll_map_extended(m: CollMap, env: EnvView, ctx: Context, lim: int, more: int, c: int)
    requires
        0 <= c <= u64::MAX,
        lim <= more <= u64::MAX,
    ensures
        extended(
            semantics::coll_map_outcome(m, env, ctx, lim, c),
            semantics::coll_map_outcome(m, env, ctx, more, c),
            lim,
        ),
    decreases semantics::budget(lim, c), m, 0int,
{
    law_cost_is_bounded(*m.input, env, ctx, more, c);
    let free = semantics::expr_outcome(*m.input, env, ctx, more, c);
    if free.res is Ok && free.res->Ok_0 is Coll {
        let items = free.res->Ok_0->Coll_0;
        law_cost_is_bounded(*m.mapper, env, ctx, more, free.cost);
        let mapper = semantics::expr_outcome(*m.mapper, env, ctx, more, free.cost);
        let amount = cost::per_item_cost(20, items.len());
        if mapper.res is Ok && mapper.res->Ok_0 is Lambda && mapper.cost + amount <= more {
            lemma_map_bounded(
                mapper.res->Ok_0->func,
                mapper.res->Ok_0->env,
                items,
                0,
                Seq::empty(),
                ctx,
                more,
                mapper.cost + amount,
            );
        }
    }
    law_cost_is_bounded(*m.input, env, ctx, lim, c);
    law_limit_only_stops(*m.input, env, ctx, lim, more, c);
    let input = semantics::expr_outcome(*m.input, env, ctx, lim, c);
    if input.res is Ok && input.res->Ok_0 is Coll {
        let items = input.res->Ok_0->Coll_0;
        law_cost_is_bounded(*m.mapper, env, ctx, lim, input.cost);
        law_limit_only_stops(*m.mapper, env, ctx, lim, more, input.cost);
        let mapper = semantics::expr_outcome(*m.mapper, env, ctx, lim, input.cost);
        let amount = cost::per_item_cost(20, items.len());
        if mapper.res is Ok && mapper.res->Ok_0 is Lambda && mapper.cost + amount <= lim {
            lemma_map_extended(
                mapper.res->Ok_0->func,
                mapper.res->Ok_0->env,
                items,
                0,
                Seq::empty(),
                ctx,
                lim,
                more,
                mapper.cost + amount,
            );
        }
    }
}

proof fn lemma_invoke_extended(
    func: FuncValue,
    captured: EnvView,
    vals: Seq<ValueView>,
    ctx: Context,
    lim: int,
    more: int,
    c: int,
)
    requires
        0 <= c <= u64::MAX,
        lim <= more <= u64::MAX,
    ensures
        extended(
            semantics::invoke_outcome(func, captured, vals, ctx, lim, c),
            semantics::invoke_outcome(func, captured, vals, ctx, more, c),
            lim,
        ),
    decreases semantics::budget(lim, c), func, 0int,
{
    lemma_bind_bounded(func.args@, vals, 0, captured, more, c);
    let free = semantics::bind_outcome(func.args@, vals, 0, captured, more, c);
    if free.res is Ok {
        law_cost_is_bounded(*func.body, free.res->Ok_0, ctx, more, free.cost);
    }
    lemma_bind_bounded(func.args@, vals, 0, captured, lim, c);
    lemma_bind_extended(func.args@, vals, 0, captured, lim, more, c);
    let scope = semantics::bind_outcome(func.args@, vals, 0, captured, lim, c);
    if scope.res is Ok {
        law_limit_only_stops(*func.body, scope.res->Ok_0, ctx, lim, more, scope.cost);
    }
}

proof fn lemma_bind_extended(
    params: Seq<FuncArg>,
    vals: Seq<ValueView>,
    i: int,
    env: EnvView,
    lim: int,
    more: int,
    c: int,
)
    requires
        0 <= c <= u64::MAX,
        lim <= more <= u64::MAX,
    ensures
        extended(
            semantics::bind_outcome(params, vals, i, env, lim, c),
            semantics::bind_outcome(params, vals, i, env, more, c),
            lim,
        ),
    decreases params.len() - i,
{
    if 0 <= i < params.len() && i < vals.len() && c + cost::ADD_TO_ENV_COST <= more {
        lemma_bind_bounded(
            params,
            vals,
            i + 1,
            env.insert(params[i].idx, vals[i]),
            more,
            c + cost::ADD_TO_ENV_COST,
        );
    }
    if 0 <= i < params.len() && i < vals.len() && c + cost::ADD_TO_ENV_COST <= lim {
        lemma_bind_extended(
            params,
            vals,
            i + 1,
            env.insert(params[i].idx, vals[i]),
            lim,
            more,
            c + cost::ADD_TO_ENV_COST,
        );
    }
}

proof fn lemma_map_extended(
    func: FuncValue,
    captured: EnvView,
    items: Seq<ValueView>,
    i: int,
    done: Seq<ValueView>,
    ctx: Context,
    lim: int,
    more: int,
    c: int,
)
    requires
        0 <= c <= u64::MAX,
        lim <= more <= u64::MAX,
    ensures
        extended(
            semantics::map_outcome(func, captured, items, i, done, ctx, lim, c),
            semantics::map_outcome(func, captured, items, i, done, ctx, more, c),
            lim,
        ),
    decreases semantics::budget(lim, c), func, items.len() - i + 1,
{
    if 0 <= i < items.len() {
        lemma_invoke_bounded(func, captured, seq![items[i]], ctx, more, c);
        let o = semantics::invoke_outcome(func, captured, seq![items[i]], ctx, more, c);
        if o.res is Ok {
            lemma_map_bounded(
                func,
                captured,
                items,
                i + 1,
                done.push(o.res->Ok_0),
                ctx,
                more,
                o.cost,
            );
        }
    }
    if 0 <= i < items.len() {
        lemma_invoke_bounded(func, captured, seq![items[i]], ctx, lim, c);
        lemma_invoke_extended(func, captured, seq![items[i]], ctx, lim, more, c);
        let o = semantics::invoke_outcome(func, captured, seq![items[i]], ctx, lim, c);
        if o.res is Ok {
            lemma_map_extended(
                func,
                captured,
                items,
                i + 1,
                done.push(o.res->Ok_0),
                ctx,
                lim,
                more,
                o.cost,
            );
        }
    }
}

} // verus!
