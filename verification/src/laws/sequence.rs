//! Laws of expressions that are evaluated one after the other.
use vstd::prelude::*;
use crate::chain::Context;
use crate::error::ErrorView;
use crate::expr::{Apply, Collection, Expr, FuncArg, FuncValue, MethodCall, Tuple};
use crate::eval::sbox;
use crate::laws;
use crate::semantics::{self, EnvView, Outcome};
use crate::value::ValueView;

verus! {

/// The expression evaluates to `v`, from the accumulated cost `c` to `d`.
pub open spec fn gives(
    e: Expr,
    env: EnvView,
    ctx: Context,
    lim: int,
    c: int,
    v: ValueView,
    d: int,
) -> bool {
    let o = semantics::expr_outcome(e, env, ctx, lim, c);
    o.res == Ok::<ValueView, ErrorView>(v) && o.cost == d
}

/// The expression fails with `e`, from the accumulated cost `c` to `d`.
pub open spec fn fails(
    x: Expr,
    env: EnvView,
    ctx: Context,
    lim: int,
    c: int,
    e: ErrorView,
    d: int,
) -> bool {
    let o = semantics::expr_outcome(x, env, ctx, lim, c);
    o.res == Err::<ValueView, ErrorView>(e) && o.cost == d
}

/// The first `n` expressions evaluate to `vals`, each from the cost at which
/// the one before it ended: `costs[j]` is the cost before the expression `j`,
/// `costs[0]` the one before them all.
pub open spec fn chain(
    es: Seq<Expr>,
    n: int,
    env: EnvView,
    ctx: Context,
    lim: int,
    vals: Seq<ValueView>,
    costs: Seq<int>,
) -> bool {
    &&& vals.len() == n
    &&& costs.len() == n + 1
    &&& forall|j: int|
        0 <= j < n ==> gives(
            #[trigger] es[j],
            env,
            ctx,
            lim,
            costs[j],
            vals[j],
            costs[j + 1],
        )
}

proof fn lemma_chain_from(
    es: Seq<Expr>,
    n: int,
    i: int,
    env: EnvView,
    ctx: Context,
    lim: int,
    vals: Seq<ValueView>,
    costs: Seq<int>,
)
    requires
        0 <= i <= n <= es.len(),
        chain(es, n, env, ctx, lim, vals, costs),
        0 <= costs[i] <= u64::MAX,
        lim <= u64::MAX,
    ensures
        0 <= costs[n] <= u64::MAX,
        semantics::exprs_outcome(es, i, vals.take(i), env, ctx, lim, costs[i])
            == semantics::exprs_outcome(es, n, vals, env, ctx, lim, costs[n]),
    decreases n - i,
{
    if i < n {
        assert(gives(es[i], env, ctx, lim, costs[i], vals[i], costs[i + 1]));
        laws::cost::law_cost_is_bounded(es[i], env, ctx, lim, costs[i]);
        assert(vals.take(i).push(vals[i]) =~= vals.take(i + 1));
        lemma_chain_from(es, n, i + 1, env, ctx, lim, vals, costs);
    } else {
        assert(vals.take(n) =~= vals);
    }
}

/// Expressions that all evaluate give all their values, in their order, and
/// end at the cost at which the last one ended.
pub proof fn law_every_expression_is_evaluated(
    es: Seq<Expr>,
    env: EnvView,
    ctx: Context,
    lim: int,
    vals: Seq<ValueView>,
    costs: Seq<int>,
)
    requires
        chain(es, es.len() as int, env, ctx, lim, vals, costs),
        0 <= costs[0] <= u64::MAX,
        lim <= u64::MAX,
    ensures
        semantics::exprs_outcome(es, 0, Seq::empty(), env, ctx, lim, costs[0]) == (Outcome {
            res: Ok::<Seq<ValueView>, ErrorView>(vals),
            cost: costs.last(),
        }),
{
    assert(vals.take(0) =~= Seq::empty());
    lemma_chain_from(es, es.len() as int, 0, env, ctx, lim, vals, costs);
}

/// Expressions of which one fails fail like the first of them that does, where
/// it does.
pub proof fn law_first_failure_counts(
    es: Seq<Expr>,
    k: int,
    env: EnvView,
    ctx: Context,
    lim: int,
    vals: Seq<ValueView>,
    costs: Seq<int>,
    e: ErrorView,
    d: int,
)
    requires
        0 <= k < es.len(),
        chain(es, k, env, ctx, lim, vals, costs),
        fails(es[k], env, ctx, lim, costs[k], e, d),
        0 <= costs[0] <= u64::MAX,
        lim <= u64::MAX,
    ensures
        semantics::exprs_outcome(es, 0, Seq::empty(), env, ctx, lim, costs[0]) == (Outcome {
            res: Err::<Seq<ValueView>, ErrorView>(e),
            cost: d,
        }),
{
    assert(vals.take(0) =~= Seq::empty());
    lemma_chain_from(es, k, 0, env, ctx, lim, vals, costs);
}

/// Values and costs of the expressions from `i` on, up to the first failure.
proof fn lemma_chain_exists(
    es: Seq<Expr>,
    i: int,
    env: EnvView,
    ctx: Context,
    lim: int,
    vals: Seq<ValueView>,
    costs: Seq<int>,
) -> (r: (int, Seq<ValueView>, Seq<int>))
    requires
        0 <= i <= es.len(),
        chain(es, i, env, ctx, lim, vals, costs),
    ensures
        i <= r.0 <= es.len(),
        chain(es, r.0, env, ctx, lim, r.1, r.2),
        r.2[0] == costs[0],
        r.0 < es.len() ==> semantics::expr_outcome(es[r.0], env, ctx, lim, r.2[r.0]).res is Err,
    decreases es.len() - i,
{
    if i == es.len() {
        (i, vals, costs)
    } else {
        let o = semantics::expr_outcome(es[i], env, ctx, lim, costs[i]);
        match o.res {
            Err(_) => (i, vals, costs),
            Ok(v) => {
                let more_vals = vals.push(v);
                let more_costs = costs.push(o.cost);
                assert forall|j: int| 0 <= j < i + 1 implies gives(
                    #[trigger] es[j],
                    env,
                    ctx,
                    lim,
                    more_costs[j],
                    more_vals[j],
                    more_costs[j + 1],
                ) by {
                    if j < i {
                        assert(gives(es[j], env, ctx, lim, costs[j], vals[j], costs[j + 1]));
                    }
                }
                lemma_chain_exists(es, i + 1, env, ctx, lim, more_vals, more_costs)
            },
        }
    }
}

/// Expressions give as many values as there are expressions, the value of each
/// one in its place, evaluated where the one before it ended; or they fail like
/// one of them, and those before it do not fail.
pub proof fn law_expressions_are_evaluated_in_order(
    es: Seq<Expr>,
    env: EnvView,
    ctx: Context,
    lim: int,
    c: int,
)
    requires
        0 <= c <= u64::MAX,
        lim <= u64::MAX,
    ensures
        ({
            let o = semantics::exprs_outcome(es, 0, Seq::empty(), env, ctx, lim, c);
            match o.res {
                Ok(vals) => {
                    &&& vals.len() == es.len()
                    &&& exists|costs: Seq<int>|
                        #![trigger chain(es, es.len() as int, env, ctx, lim, vals, costs)]
                        costs[0] == c && costs.last() == o.cost && chain(
                            es,
                            es.len() as int,
                            env,
                            ctx,
                            lim,
                            vals,
                            costs,
                        )
                },
                Err(e) => exists|k: int, vals: Seq<ValueView>, costs: Seq<int>|
                    #![trigger chain(es, k, env, ctx, lim, vals, costs)]
                    0 <= k < es.len() && costs[0] == c && chain(es, k, env, ctx, lim, vals, costs)
                        && fails(es[k], env, ctx, lim, costs[k], e, o.cost),
            }
        }),
{
    let start = Seq::<int>::empty().push(c);
    let (k, vals, costs) = lemma_chain_exists(es, 0, env, ctx, lim, Seq::empty(), start);
    if k == es.len() {
        law_every_expression_is_evaluated(es, env, ctx, lim, vals, costs);
    } else {
        let o = semantics::expr_outcome(es[k], env, ctx, lim, costs[k]);
        law_first_failure_counts(es, k, env, ctx, lim, vals, costs, o.res->Err_0, o.cost);
        assert(fails(es[k], env, ctx, lim, costs[k], o.res->Err_0, o.cost));
    }
}

/// A collection of expressions evaluates to the collection of all their
/// values, in their order.
pub proof fn law_collection_holds_every_value(
    k: Collection,
    env: EnvView,
    ctx: Context,
    lim: int,
    c: int,
    vals: Seq<ValueView>,
    costs: Seq<int>,
)
    requires
        0 <= c,
        c + 20 <= lim <= u64::MAX,
        chain(k.items@, k.items@.len() as int, env, ctx, lim, vals, costs),
        costs[0] == c + 20,
    ensures
        semantics::expr_outcome(Expr::Collection(k), env, ctx, lim, c) == (Outcome {
            res: Ok::<ValueView, ErrorView>(ValueView::Coll(vals)),
            cost: costs.last(),
        }),
{
    law_every_expression_is_evaluated(k.items@, env, ctx, lim, vals, costs);
}

/// A collection of expressions fails like the first of them that does.
pub proof fn law_collection_fails_with_its_first_failure(
    k: Collection,
    n: int,
    env: EnvView,
    ctx: Context,
    lim: int,
    c: int,
    vals: Seq<ValueView>,
    costs: Seq<int>,
    e: ErrorView,
    d: int,
)
    requires
        0 <= c,
        c + 20 <= lim <= u64::MAX,
        0 <= n < k.items@.len(),
        chain(k.items@, n, env, ctx, lim, vals, costs),
        costs[0] == c + 20,
        fails(k.items@[n], env, ctx, lim, costs[n], e, d),
    ensures
        semantics::expr_outcome(Expr::Collection(k), env, ctx, lim, c) == (Outcome {
            res: Err::<ValueView, ErrorView>(e),
            cost: d,
        }),
{
    law_first_failure_counts(k.items@, n, env, ctx, lim, vals, costs, e, d);
}

/// An application of a lambda to as many arguments as it has parameters, each
/// of another id, binds every one of them. Its body is evaluated in the scope
/// that the lambda captured with each parameter bound to the value of the
/// argument in its place, at five more per argument.
pub proof fn law_application_binds_every_argument(
    a: Apply,
    env: EnvView,
    ctx: Context,
    lim: int,
    c: int,
    func: FuncValue,
    captured: EnvView,
    vals: Seq<ValueView>,
    costs: Seq<int>,
    scope: EnvView,
)
    requires
        0 <= c,
        c + 30 <= lim <= u64::MAX,
        gives(
            *a.func,
            env,
            ctx,
            lim,
            c + 30,
            ValueView::Lambda { func, env: captured },
            costs[0],
        ),
        chain(a.args@, a.args@.len() as int, env, ctx, lim, vals, costs),
        func.args@.len() == a.args@.len(),
        forall|j: int| 0 <= j < func.args@.len() ==> !((#[trigger] func.args@[j]).tpe is STypeVar),
        forall|j: int, k: int|
            0 <= j < k < func.args@.len() ==> (#[trigger] func.args@[j]).idx != (
            #[trigger] func.args@[k]).idx,
        costs.last() + 5 * a.args@.len() <= lim,
        // the scope
        forall|id: u32| #[trigger]
            scope.dom().contains(id) <==> captured.dom().contains(id) || exists|j: int|
                0 <= j < func.args@.len() && (#[trigger] func.args@[j]).idx == id,
        forall|j: int|
            0 <= j < func.args@.len() ==> scope[(#[trigger] func.args@[j]).idx] == vals[j],
        forall|id: u32|
            captured.dom().contains(id) && (forall|j: int|
                0 <= j < func.args@.len() ==> (#[trigger] func.args@[j]).idx != id)
                ==> #[trigger] scope[id] == captured[id],
    ensures
        semantics::expr_outcome(Expr::Apply(a), env, ctx, lim, c) == semantics::expr_outcome(
            *func.body,
            scope,
            ctx,
            lim,
            costs.last() + 5 * a.args@.len(),
        ),
{
    laws::cost::law_cost_is_bounded(*a.func, env, ctx, lim, c + 30);
    law_every_expression_is_evaluated(a.args@, env, ctx, lim, vals, costs);
    laws::cost::lemma_exprs_bounded(a.args@, 0, Seq::empty(), env, ctx, lim, costs[0]);
    lemma_no_type_var(func.args@, 0);
    laws::apply::law_binding(func.args@, vals, 0, captured, lim, costs.last());
    let bound = semantics::bind_outcome(func.args@, vals, 0, captured, lim, costs.last());
    let made = bound.res->Ok_0;
    let n = func.args@.len() as int;
    assert forall|j: int| 0 <= j < n implies made.dom().contains((#[trigger] func.args@[j]).idx)
        && made[func.args@[j].idx] == vals[j] by {
        assert(laws::apply::unbound(func.args@, j + 1, n, func.args@[j].idx));
    }
    assert forall|id: u32| made.dom().contains(id) <==> scope.dom().contains(id) by {
        if exists|j: int| 0 <= j < n && (#[trigger] func.args@[j]).idx == id {
            let j = choose|j: int| 0 <= j < n && (#[trigger] func.args@[j]).idx == id;
            assert(made.dom().contains(func.args@[j].idx));
        } else {
            assert(laws::apply::unbound(func.args@, 0, n, id));
        }
    }
    assert forall|id: u32| made.dom().contains(id) implies made[id] == scope[id] by {
        if exists|j: int| 0 <= j < n && (#[trigger] func.args@[j]).idx == id {
            let j = choose|j: int| 0 <= j < n && (#[trigger] func.args@[j]).idx == id;
            assert(made[func.args@[j].idx] == vals[j]);
        } else {
            assert(laws::apply::unbound(func.args@, 0, n, id));
            assert(captured.dom().contains(id));
        }
    }
    assert(made =~= scope);
    assert(semantics::invoke_outcome(func, captured, vals, ctx, lim, costs.last())
        == semantics::expr_outcome(*func.body, scope, ctx, lim, bound.cost));
    assert(semantics::apply_outcome(a, env, ctx, lim, c) == semantics::invoke_outcome(
        func,
        captured,
        vals,
        ctx,
        lim,
        costs.last(),
    ));
}

proof fn lemma_no_type_var(params: Seq<FuncArg>, i: int)
    requires
        0 <= i <= params.len(),
        forall|j: int| i <= j < params.len() ==> !((#[trigger] params[j]).tpe is STypeVar),
    ensures
        semantics::first_type_var(params, i) is None,
    decreases params.len() - i,
{
    if i < params.len() {
        assert(!(params[i].tpe is STypeVar));
        lemma_no_type_var(params, i + 1);
    }
}

/// An application fails like its function, or like the first argument that
/// does.
pub proof fn law_application_fails_with_its_first_failure(
    a: Apply,
    k: int,
    env: EnvView,
    ctx: Context,
    lim: int,
    c: int,
    f: ValueView,
    vals: Seq<ValueView>,
    costs: Seq<int>,
    e: ErrorView,
    d: int,
)
    requires
        0 <= c,
        c + 30 <= lim <= u64::MAX,
    ensures
        fails(*a.func, env, ctx, lim, c + 30, e, d) ==> fails(
            Expr::Apply(a),
            env,
            ctx,
            lim,
            c,
            e,
            d,
        ),
        gives(*a.func, env, ctx, lim, c + 30, f, costs[0]) && 0 <= k < a.args@.len() && chain(
            a.args@,
            k,
            env,
            ctx,
            lim,
            vals,
            costs,
        ) && fails(a.args@[k], env, ctx, lim, costs[k], e, d) ==> fails(
            Expr::Apply(a),
            env,
            ctx,
            lim,
            c,
            e,
            d,
        ),
{
    assert(semantics::expr_outcome(Expr::Apply(a), env, ctx, lim, c) == semantics::apply_outcome(
        a,
        env,
        ctx,
        lim,
        c,
    ));
    laws::cost::law_cost_is_bounded(*a.func, env, ctx, lim, c + 30);
    if gives(*a.func, env, ctx, lim, c + 30, f, costs[0]) && 0 <= k < a.args@.len() && chain(
        a.args@,
        k,
        env,
        ctx,
        lim,
        vals,
        costs,
    ) && fails(a.args@[k], env, ctx, lim, costs[k], e, d) {
        law_first_failure_counts(a.args@, k, env, ctx, lim, vals, costs, e, d);
    }
}

/// A method is called on the value of its object, with the values of all its
/// arguments, where the last of them ended.
pub proof fn law_method_is_called_on_its_object(
    m: MethodCall,
    env: EnvView,
    ctx: Context,
    lim: int,
    c: int,
    obj: ValueView,
    vals: Seq<ValueView>,
    costs: Seq<int>,
)
    requires
        0 <= c,
        c + 4 <= lim <= u64::MAX,
        gives(*m.obj, env, ctx, lim, c + 4, obj, costs[0]),
        chain(m.args@, m.args@.len() as int, env, ctx, lim, vals, costs),
    ensures
        semantics::expr_outcome(Expr::MethodCall(m), env, ctx, lim, c) == sbox::method_outcome(
            m.method,
            obj,
            vals,
            m.elem_tpe,
            ctx,
            lim,
            costs.last(),
        ),
{
    laws::cost::law_cost_is_bounded(*m.obj, env, ctx, lim, c + 4);
    law_every_expression_is_evaluated(m.args@, env, ctx, lim, vals, costs);
}

/// A method call fails like its object, or like the first argument that does.
pub proof fn law_method_call_fails_with_its_first_failure(
    m: MethodCall,
    k: int,
    env: EnvView,
    ctx: Context,
    lim: int,
    c: int,
    obj: ValueView,
    vals: Seq<ValueView>,
    costs: Seq<int>,
    e: ErrorView,
    d: int,
)
    requires
        0 <= c,
        c + 4 <= lim <= u64::MAX,
    ensures
        fails(*m.obj, env, ctx, lim, c + 4, e, d) ==> fails(
            Expr::MethodCall(m),
            env,
            ctx,
            lim,
            c,
            e,
            d,
        ),
        gives(*m.obj, env, ctx, lim, c + 4, obj, costs[0]) && 0 <= k < m.args@.len() && chain(
            m.args@,
            k,
            env,
            ctx,
            lim,
            vals,
            costs,
        ) && fails(m.args@[k], env, ctx, lim, costs[k], e, d) ==> fails(
            Expr::MethodCall(m),
            env,
            ctx,
            lim,
            c,
            e,
            d,
        ),
{
    laws::cost::law_cost_is_bounded(*m.obj, env, ctx, lim, c + 4);
    if gives(*m.obj, env, ctx, lim, c + 4, obj, costs[0]) && 0 <= k < m.args@.len() && chain(
        m.args@,
        k,
        env,
        ctx,
        lim,
        vals,
        costs,
    ) && fails(m.args@[k], env, ctx, lim, costs[k], e, d) {
        law_first_failure_counts(m.args@, k, env, ctx, lim, vals, costs, e, d);
    }
}

/// A tuple expression has the outcome of its tuple.
pub proof fn law_tuple_expression(t: Tuple, env: EnvView, ctx: Context, lim: int, c: int)
    ensures
        semantics::expr_outcome(Expr::Tuple(t), env, ctx, lim, c) == semantics::tuple_outcome(
            t,
            env,
            ctx,
            lim,
            c,
        ),
{
}

} // verus!
