//! Laws of lambdas, applications and tuples.
use vstd::prelude::*;
use crate::chain::Context;
use crate::cost;
use crate::error::ErrorView;
use crate::expr::{Apply, CollMap, Expr, FuncArg, FuncValue, If, Tuple};
use crate::laws;
use crate::semantics::{self, EnvView, Outcome};
use crate::value::ValueView;

verus! {

/// Number of parameters that get a value.
pub open spec fn bound_count(params: Seq<FuncArg>, vals: Seq<ValueView>) -> nat {
    if params.len() <= vals.len() {
        params.len()
    } else {
        vals.len()
    }
}

/// None of the parameters from `i` up to `n` has this id.
pub open spec fn unbound(params: Seq<FuncArg>, i: int, n: int, id: u32) -> bool {
    forall|j: int| i <= j < n ==> (#[trigger] params[j]).idx != id
}

/// `scope` is `env` with the parameters from `i` on bound: the last parameter
/// of an id counts, and what no parameter names is as it was.
pub open spec fn extends(
    scope: EnvView,
    env: EnvView,
    params: Seq<FuncArg>,
    vals: Seq<ValueView>,
    i: int,
) -> bool {
    let n = bound_count(params, vals) as int;
    &&& forall|id: u32|
        #![trigger scope.dom().contains(id)]
        #![trigger scope[id]]
        unbound(params, i, n, id) ==> (scope.dom().contains(id) <==> env.dom().contains(id))
            && scope[id] == env[id]
    &&& forall|j: int|
        i <= j < n && unbound(params, j + 1, n, params[j].idx) ==> scope.dom().contains(
            (#[trigger] params[j]).idx,
        ) && scope[params[j].idx] == vals[j]
}

/// Binding costs the same for each parameter. It gives a scope if the limit
/// leaves room for all of them, and the error of the limit otherwise. The scope
/// holds the values of the parameters over what was captured.
pub proof fn law_binding(
    params: Seq<FuncArg>,
    vals: Seq<ValueView>,
    i: int,
    env: EnvView,
    lim: int,
    c: int,
)
    requires
        0 <= i <= bound_count(params, vals),
        0 <= c <= lim <= u64::MAX,
    ensures
        ({
            let amount = (bound_count(params, vals) - i) * cost::ADD_TO_ENV_COST;
            let o = semantics::bind_outcome(params, vals, i, env, lim, c);
            match o.res {
                Ok(scope) => {
                    &&& c + amount <= lim
                    &&& o.cost == c + amount
                    &&& extends(scope, env, params, vals, i)
                },
                Err(e) => c + amount > lim && e == ErrorView::CostLimitExceeded,
            }
        }),
    decreases params.len() - i,
{
    let n = bound_count(params, vals) as int;
    if i < n {
        if c + cost::ADD_TO_ENV_COST <= lim {
            let inner = env.insert(params[i].idx, vals[i]);
            law_binding(params, vals, i + 1, inner, lim, c + cost::ADD_TO_ENV_COST);
            let o = semantics::bind_outcome(params, vals, i, env, lim, c);
            if o.res is Ok {
                let scope = o.res->Ok_0;
                assert forall|id: u32|
                    #![trigger scope.dom().contains(id)]
                    #![trigger scope[id]]
                    unbound(params, i, n, id) implies (scope.dom().contains(id)
                    <==> env.dom().contains(id)) && scope[id] == env[id] by {
                    assert(params[i].idx != id);
                    assert(unbound(params, i + 1, n, id));
                }
                assert forall|j: int|
                    i <= j < n && unbound(
                        params,
                        j + 1,
                        n,
                        params[j].idx,
                    ) implies scope.dom().contains((#[trigger] params[j]).idx)
                    && scope[params[j].idx] == vals[j] by {
                    if j == i {
                        assert(scope.dom().contains(params[i].idx));
                    }
                }
            }
        }
    }
}

/// The function of an application, evaluated.
pub open spec fn func_outcome(a: Apply, env: EnvView, ctx: Context, lim: int, c: int) -> Outcome<
    ValueView,
> {
    semantics::expr_outcome(*a.func, env, ctx, lim, c + 30)
}

/// The arguments of an application, evaluated after its function.
pub open spec fn args_outcome(a: Apply, env: EnvView, ctx: Context, lim: int, c: int) -> Outcome<
    Seq<ValueView>,
> {
    semantics::exprs_outcome(
        a.args@,
        0,
        Seq::empty(),
        env,
        ctx,
        lim,
        func_outcome(a, env, ctx, lim, c).cost,
    )
}

/// An application of a lambda evaluates the body of the lambda in the scope
/// that the lambda captured, extended with the arguments, at a cost of five per
/// argument.
pub proof fn law_application_runs_in_the_captured_scope(
    a: Apply,
    env: EnvView,
    ctx: Context,
    lim: int,
    c: int,
    func: FuncValue,
    captured: EnvView,
)
    requires
        0 <= c <= u64::MAX,
        c + 30 <= lim <= u64::MAX,
        func_outcome(a, env, ctx, lim, c).res == Ok::<ValueView, ErrorView>(
            ValueView::Lambda { func, env: captured },
        ),
        args_outcome(a, env, ctx, lim, c).res is Ok,
        semantics::first_type_var(func.args@, 0) is None,
    ensures
        ({
            let vals = args_outcome(a, env, ctx, lim, c).res->Ok_0;
            let before = args_outcome(a, env, ctx, lim, c).cost;
            let after = before + bound_count(func.args@, vals) * 5;
            let o = semantics::apply_outcome(a, env, ctx, lim, c);
            if after <= lim {
                exists|scope: EnvView| #[trigger]
                    extends(scope, captured, func.args@, vals, 0) && o == semantics::expr_outcome(
                        *func.body,
                        scope,
                        ctx,
                        lim,
                        after,
                    )
            } else {
                o.res == Err::<ValueView, ErrorView>(ErrorView::CostLimitExceeded)
            }
        }),
{
    laws::cost::law_cost_is_bounded(*a.func, env, ctx, lim, c + 30);
    let f = func_outcome(a, env, ctx, lim, c);
    laws::cost::lemma_exprs_bounded(a.args@, 0, Seq::empty(), env, ctx, lim, f.cost);
    let args = args_outcome(a, env, ctx, lim, c);
    law_binding(func.args@, args.res->Ok_0, 0, captured, lim, args.cost);
    let scope = semantics::bind_outcome(func.args@, args.res->Ok_0, 0, captured, lim, args.cost);
    if scope.res is Ok {
        assert(extends(scope.res->Ok_0, captured, func.args@, args.res->Ok_0, 0));
    }
}

/// The scope of the caller is seen by the function and by the arguments only:
/// where these evaluate alike, so does the application.
pub proof fn law_application_does_not_see_the_caller(
    a: Apply,
    env: EnvView,
    b: Apply,
    other: EnvView,
    ctx: Context,
    lim: int,
    c: int,
)
    requires
        0 <= c <= u64::MAX,
        lim <= u64::MAX,
        func_outcome(a, env, ctx, lim, c) == func_outcome(b, other, ctx, lim, c),
        args_outcome(a, env, ctx, lim, c) == args_outcome(b, other, ctx, lim, c),
    ensures
        semantics::apply_outcome(a, env, ctx, lim, c) == semantics::apply_outcome(
            b,
            other,
            ctx,
            lim,
            c,
        ),
{
    if c + 30 <= lim {
        laws::cost::law_cost_is_bounded(*a.func, env, ctx, lim, c + 30);
        laws::cost::law_cost_is_bounded(*b.func, other, ctx, lim, c + 30);
    }
}

/// A lambda can be made and bound whatever the types of its parameters are.
/// It is a value with the scope that it was made in.
pub proof fn law_lambda_keeps_its_scope(f: FuncValue, env: EnvView, ctx: Context, lim: int, c: int)
    requires
        c + 5 <= lim,
    ensures
        semantics::expr_outcome(Expr::FuncValue(f), env, ctx, lim, c) == (Outcome {
            res: Ok::<ValueView, ErrorView>(ValueView::Lambda { func: f, env }),
            cost: c + 5,
        }),
{
}

proof fn lemma_first_type_var(params: Seq<FuncArg>, i: int, k: int)
    requires
        0 <= i <= k < params.len(),
        params[k].tpe is STypeVar,
        forall|j: int| i <= j < k ==> !((#[trigger] params[j]).tpe is STypeVar),
    ensures
        semantics::first_type_var(params, i) == Some(params[k]),
    decreases k - i,
{
    if i < k {
        assert(!(params[i].tpe is STypeVar));
        lemma_first_type_var(params, i + 1, k);
    }
}

/// A lambda with a parameter whose type is a type variable is refused when it
/// is applied, after its arguments are evaluated and before its body is. The
/// first such parameter is named.
pub proof fn law_type_variable_is_refused_on_application(
    a: Apply,
    env: EnvView,
    ctx: Context,
    lim: int,
    c: int,
    func: FuncValue,
    captured: EnvView,
    k: int,
)
    requires
        0 <= c <= u64::MAX,
        c + 30 <= lim <= u64::MAX,
        func_outcome(a, env, ctx, lim, c).res == Ok::<ValueView, ErrorView>(
            ValueView::Lambda { func, env: captured },
        ),
        args_outcome(a, env, ctx, lim, c).res is Ok,
        0 <= k < func.args@.len(),
        func.args@[k].tpe is STypeVar,
        forall|j: int| 0 <= j < k ==> !((#[trigger] func.args@[j]).tpe is STypeVar),
    ensures
        semantics::apply_outcome(a, env, ctx, lim, c) == semantics::failed::<ValueView>(
            ErrorView::UnknownArgType { tpe: func.args@[k].tpe@, idx: func.args@[k].idx },
            args_outcome(a, env, ctx, lim, c).cost,
        ),
{
    laws::cost::law_cost_is_bounded(*a.func, env, ctx, lim, c + 30);
    lemma_first_type_var(func.args@, 0, k);
}

/// What is no lambda cannot be applied.
pub proof fn law_only_lambdas_are_applied(a: Apply, env: EnvView, ctx: Context, lim: int, c: int)
    requires
        0 <= c <= u64::MAX,
        c + 30 <= lim <= u64::MAX,
        func_outcome(a, env, ctx, lim, c).res is Ok,
        !(func_outcome(a, env, ctx, lim, c).res->Ok_0 is Lambda),
        args_outcome(a, env, ctx, lim, c).res is Ok,
    ensures
        semantics::apply_outcome(a, env, ctx, lim, c) == semantics::failed::<ValueView>(
            ErrorView::NotALambda(func_outcome(a, env, ctx, lim, c).res->Ok_0),
            args_outcome(a, env, ctx, lim, c).cost,
        ),
{
    laws::cost::law_cost_is_bounded(*a.func, env, ctx, lim, c + 30);
}

/// A lambda that a lambda returns keeps the argument of the outer one:
/// `((a) => (b) => body)(x)` is the lambda `(b) => body` in a scope where `a`
/// is the value of `x`.
pub proof fn law_currying_keeps_the_outer_argument(
    a: Apply,
    outer: FuncValue,
    inner: FuncValue,
    env: EnvView,
    ctx: Context,
    lim: int,
    c: int,
    x: ValueView,
)
    requires
        0 <= c <= u64::MAX,
        lim <= u64::MAX,
        *a.func == Expr::FuncValue(outer),
        outer.args@.len() == 1,
        !(outer.args@[0].tpe is STypeVar),
        *outer.body == Expr::FuncValue(inner),
        args_outcome(a, env, ctx, lim, c).res == Ok::<Seq<ValueView>, ErrorView>(seq![x]),
        c + 35 <= lim,
        args_outcome(a, env, ctx, lim, c).cost + 10 <= lim,
    ensures
        semantics::apply_outcome(a, env, ctx, lim, c) == (Outcome {
            res: Ok::<ValueView, ErrorView>(
                ValueView::Lambda { func: inner, env: env.insert(outer.args@[0].idx, x) },
            ),
            cost: args_outcome(a, env, ctx, lim, c).cost + 10,
        }),
{
    let f = func_outcome(a, env, ctx, lim, c);
    assert(f.res == Ok::<ValueView, ErrorView>(ValueView::Lambda { func: outer, env }));
    assert(f.cost == c + 35);
    let args = args_outcome(a, env, ctx, lim, c);
    laws::cost::lemma_exprs_bounded(a.args@, 0, Seq::empty(), env, ctx, lim, f.cost);
    reveal_with_fuel(semantics::bind_outcome, 2);
    reveal_with_fuel(semantics::first_type_var, 2);
    let scope = semantics::bind_outcome(outer.args@, seq![x], 0, env, lim, args.cost);
    assert(scope.res == Ok::<EnvView, ErrorView>(env.insert(outer.args@[0].idx, x)));
    assert(scope.cost == args.cost + 5);
    law_lambda_keeps_its_scope(inner, scope.res->Ok_0, ctx, lim, scope.cost);
}

/// The lambda maps the item to `v` at some accumulated cost.
#[verifier::opaque]
pub open spec fn maps_to(
    func: FuncValue,
    captured: EnvView,
    item: ValueView,
    ctx: Context,
    lim: int,
    v: ValueView,
) -> bool {
    exists|c: int|
        #![trigger semantics::invoke_outcome(func, captured, seq![item], ctx, lim, c)]
        semantics::invoke_outcome(func, captured, seq![item], ctx, lim, c).res == Ok::<
            ValueView,
            ErrorView,
        >(v)
}

/// A collection is mapped item by item, each time in the scope that the lambda
/// captured.
pub proof fn law_map_runs_in_the_captured_scope(
    func: FuncValue,
    captured: EnvView,
    items: Seq<ValueView>,
    i: int,
    done: Seq<ValueView>,
    ctx: Context,
    lim: int,
    c: int,
)
    requires
        0 <= i <= items.len(),
        done.len() == i,
    ensures
        match semantics::map_outcome(func, captured, items, i, done, ctx, lim, c).res {
            Ok(out) => {
                &&& out.len() == items.len()
                &&& done.is_prefix_of(out)
                &&& forall|j: int|
                    i <= j < items.len() ==> maps_to(
                        func,
                        captured,
                        items[j],
                        ctx,
                        lim,
                        #[trigger] out[j],
                    )
            },
            Err(_) => true,
        },
    decreases items.len() - i,
{
    if i < items.len() {
        let o = semantics::invoke_outcome(func, captured, seq![items[i]], ctx, lim, c);
        if o.res is Ok {
            let v = o.res->Ok_0;
            assert(maps_to(func, captured, items[i], ctx, lim, v)) by {
                reveal(maps_to);
            }
            let d = semantics::later(c, o.cost);
            let rest = semantics::map_outcome(
                func,
                captured,
                items,
                i + 1,
                done.push(v),
                ctx,
                lim,
                d,
            );
            law_map_runs_in_the_captured_scope(
                func,
                captured,
                items,
                i + 1,
                done.push(v),
                ctx,
                lim,
                d,
            );
            if rest.res is Ok {
                assert(done.push(v)[i] == v);
            }
        }
    }
}

/// The mapper of a collection, evaluated after the collection.
pub open spec fn mapper_outcome(m: CollMap, env: EnvView, ctx: Context, lim: int, c: int) -> Outcome<
    ValueView,
> {
    semantics::expr_outcome(
        *m.mapper,
        env,
        ctx,
        lim,
        semantics::expr_outcome(*m.input, env, ctx, lim, c).cost,
    )
}

/// The scope of the caller is seen by the collection and by the expression of
/// the mapper only: where these evaluate alike, so does the map.
pub proof fn law_map_does_not_see_the_caller(
    m: CollMap,
    env: EnvView,
    n: CollMap,
    other: EnvView,
    ctx: Context,
    lim: int,
    c: int,
)
    requires
        0 <= c <= u64::MAX,
        lim <= u64::MAX,
        semantics::expr_outcome(*m.input, env, ctx, lim, c) == semantics::expr_outcome(
            *n.input,
            other,
            ctx,
            lim,
            c,
        ),
        mapper_outcome(m, env, ctx, lim, c) == mapper_outcome(n, other, ctx, lim, c),
    ensures
        semantics::coll_map_outcome(m, env, ctx, lim, c) == semantics::coll_map_outcome(
            n,
            other,
            ctx,
            lim,
            c,
        ),
{
    laws::cost::law_cost_is_bounded(*m.input, env, ctx, lim, c);
}

/// A tuple that is no pair is refused, and nothing is charged for it.
pub proof fn law_only_pairs_are_evaluated(t: Tuple, env: EnvView, ctx: Context, lim: int, c: int)
    requires
        t.items@.len() != 2,
    ensures
        semantics::tuple_outcome(t, env, ctx, lim, c) == semantics::failed::<ValueView>(
            ErrorView::TupleArity(t.items@.len()),
            c,
        ),
{
}

/// A pair evaluates to the pair of the values of its items, the first item
/// first. It fails where one of them does.
pub proof fn law_pair_of_values(t: Tuple, env: EnvView, ctx: Context, lim: int, c: int)
    requires
        t.items@.len() == 2,
        0 <= c,
        c + 15 <= lim <= u64::MAX,
    ensures
        ({
            let fst = semantics::expr_outcome(t.items@[0], env, ctx, lim, c + 15);
            let snd = semantics::expr_outcome(t.items@[1], env, ctx, lim, fst.cost);
            let o = semantics::tuple_outcome(t, env, ctx, lim, c);
            match (fst.res, snd.res) {
                (Err(e), _) => o == semantics::failed::<ValueView>(e, fst.cost),
                (Ok(_), Err(e)) => o == semantics::failed::<ValueView>(e, snd.cost),
                (Ok(v), Ok(w)) => o == (Outcome {
                    res: Ok::<ValueView, ErrorView>(ValueView::Tup(seq![v, w])),
                    cost: snd.cost,
                }),
            }
        }),
{
    let none = Seq::<ValueView>::empty();
    let fst = semantics::expr_outcome(t.items@[0], env, ctx, lim, c + 15);
    let snd = semantics::expr_outcome(t.items@[1], env, ctx, lim, fst.cost);
    laws::cost::law_cost_is_bounded(t.items@[0], env, ctx, lim, c + 15);
    laws::cost::law_cost_is_bounded(t.items@[1], env, ctx, lim, fst.cost);
    let all = semantics::exprs_outcome(t.items@, 0, none, env, ctx, lim, c + 15);
    if fst.res is Ok {
        let one = none.push(fst.res->Ok_0);
        let from_one = semantics::exprs_outcome(t.items@, 1, one, env, ctx, lim, fst.cost);
        assert(all == from_one);
        if snd.res is Ok {
            let two = one.push(snd.res->Ok_0);
            assert(from_one == semantics::exprs_outcome(
                t.items@,
                2,
                two,
                env,
                ctx,
                lim,
                snd.cost,
            ));
            assert(two =~= seq![fst.res->Ok_0, snd.res->Ok_0]);
        }
    }
}

/// The branch that is not taken has no part in the outcome.
pub proof fn law_dead_branch_is_not_evaluated(
    i: If,
    j: If,
    taken: bool,
    env: EnvView,
    ctx: Context,
    lim: int,
    c: int,
)
    requires
        i.condition == j.condition,
        semantics::expr_outcome(*i.condition, env, ctx, lim, c + 10).res == Ok::<
            ValueView,
            ErrorView,
        >(ValueView::Boolean(taken)),
        if taken {
            i.true_branch == j.true_branch
        } else {
            i.false_branch == j.false_branch
        },
    ensures
        semantics::expr_outcome(Expr::If(i), env, ctx, lim, c) == semantics::expr_outcome(
            Expr::If(j),
            env,
            ctx,
            lim,
            c,
        ),
{
}

} // verus!
