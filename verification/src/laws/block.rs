//! Laws of blocks and of the map of a collection.
use vstd::prelude::*;
use crate::chain::Context;
use crate::cost;
use crate::error::{ErrorView, Expected};
use crate::expr::{Apply, BlockValue, CollMap, Expr, FuncValue, ValDef};
use crate::laws;
use crate::laws::sequence;
use crate::semantics::{self, EnvView, Outcome};
use crate::value::ValueView;

verus! {

/// Begun chunks of ten; there is always one.
pub open spec fn chunks(n: nat) -> int {
    if n == 0 {
        1
    } else {
        (n as int + 9) / 10
    }
}

/// The first `n` definitions evaluate to `vals`. Each is evaluated in the
/// scope of those before it, where the one before it was bound, and its binding
/// costs five.
pub open spec fn defined(
    defs: Seq<ValDef>,
    n: int,
    ctx: Context,
    lim: int,
    vals: Seq<ValueView>,
    scopes: Seq<EnvView>,
    costs: Seq<int>,
) -> bool {
    &&& vals.len() == n
    &&& scopes.len() == n + 1
    &&& costs.len() == n + 1
    &&& forall|j: int|
        0 <= j < n ==> sequence::gives(
            *(#[trigger] defs[j]).rhs,
            scopes[j],
            ctx,
            lim,
            costs[j],
            vals[j],
            costs[j + 1] - 5,
        ) && scopes[j + 1] == scopes[j].insert(defs[j].id, vals[j]) && costs[j + 1] <= lim
}

proof fn lemma_defined_from(
    defs: Seq<ValDef>,
    n: int,
    i: int,
    ctx: Context,
    lim: int,
    vals: Seq<ValueView>,
    scopes: Seq<EnvView>,
    costs: Seq<int>,
)
    requires
        0 <= i <= n <= defs.len(),
        defined(defs, n, ctx, lim, vals, scopes, costs),
        0 <= costs[i] <= u64::MAX,
        lim <= u64::MAX,
    ensures
        costs[i] <= costs[n] <= u64::MAX,
        semantics::defs_outcome(defs, i, scopes[i], ctx, lim, costs[i]) == semantics::defs_outcome(
            defs,
            n,
            scopes[n],
            ctx,
            lim,
            costs[n],
        ),
    decreases n - i,
{
    if i < n {
        let e = *defs[i].rhs;
        assert(sequence::gives(e, scopes[i], ctx, lim, costs[i], vals[i], costs[i + 1] - 5));
        laws::cost::law_cost_is_bounded(e, scopes[i], ctx, lim, costs[i]);
        lemma_defined_from(defs, n, i + 1, ctx, lim, vals, scopes, costs);
    }
}

/// A block evaluates its result in the scope of all its definitions, each of
/// which sees those before it.
pub proof fn law_block_sees_every_definition(
    b: BlockValue,
    env: EnvView,
    ctx: Context,
    lim: int,
    c: int,
    vals: Seq<ValueView>,
    scopes: Seq<EnvView>,
    costs: Seq<int>,
)
    requires
        0 <= c,
        c + 1 + chunks(b.items@.len()) <= lim <= u64::MAX,
        defined(b.items@, b.items@.len() as int, ctx, lim, vals, scopes, costs),
        scopes[0] == env,
        costs[0] == c + 1 + chunks(b.items@.len()),
    ensures
        semantics::expr_outcome(Expr::BlockValue(b), env, ctx, lim, c) == semantics::expr_outcome(
            *b.result,
            scopes.last(),
            ctx,
            lim,
            costs.last(),
        ),
{
    lemma_defined_from(b.items@, b.items@.len() as int, 0, ctx, lim, vals, scopes, costs);
}

/// A block fails like the first of its definitions that does, or with the
/// error of the limit where a binding does not fit under it.
pub proof fn law_block_fails_with_its_first_failure(
    b: BlockValue,
    k: int,
    env: EnvView,
    ctx: Context,
    lim: int,
    c: int,
    vals: Seq<ValueView>,
    scopes: Seq<EnvView>,
    costs: Seq<int>,
)
    requires
        0 <= c,
        c + 1 + chunks(b.items@.len()) <= lim <= u64::MAX,
        0 <= k < b.items@.len(),
        defined(b.items@, k, ctx, lim, vals, scopes, costs),
        scopes[0] == env,
        costs[0] == c + 1 + chunks(b.items@.len()),
    ensures
        ({
            let last = semantics::expr_outcome(*b.items@[k].rhs, scopes[k], ctx, lim, costs[k]);
            let o = semantics::expr_outcome(Expr::BlockValue(b), env, ctx, lim, c);
            match last.res {
                Err(e) => o.res == Err::<ValueView, ErrorView>(e) && o.cost == last.cost,
                Ok(_) => last.cost + 5 > lim ==> o.res == Err::<ValueView, ErrorView>(
                    ErrorView::CostLimitExceeded,
                ) && (last.cost + 5 <= u64::MAX ==> o.cost == last.cost + 5),
            }
        }),
{
    lemma_defined_from(b.items@, k, 0, ctx, lim, vals, scopes, costs);
    laws::cost::law_cost_is_bounded(*b.items@[k].rhs, scopes[k], ctx, lim, costs[k]);
}

/// A lambda is invoked by evaluating its body in the scope that it captured,
/// extended with one binding per parameter that has a value, the values in
/// their order, at five per binding.
pub proof fn law_invocation(
    func: FuncValue,
    captured: EnvView,
    vals: Seq<ValueView>,
    ctx: Context,
    lim: int,
    c: int,
    scopes: Seq<EnvView>,
)
    requires
        0 <= c <= lim <= u64::MAX,
        scopes.len() == laws::apply::bound_count(func.args@, vals) + 1,
        scopes[0] == captured,
        forall|j: int|
            0 <= j < laws::apply::bound_count(func.args@, vals) ==> scopes[j + 1]
                == scopes[j].insert((#[trigger] func.args@[j]).idx, vals[j]),
    ensures
        ({
            let after = c + 5 * laws::apply::bound_count(func.args@, vals);
            let o = semantics::invoke_outcome(func, captured, vals, ctx, lim, c);
            if after <= lim {
                o == semantics::expr_outcome(*func.body, scopes.last(), ctx, lim, after)
            } else {
                o.res == Err::<ValueView, ErrorView>(ErrorView::CostLimitExceeded)
            }
        }),
{
    lemma_bind_from(func, vals, 0, lim, c, scopes);
    if c + 5 * laws::apply::bound_count(func.args@, vals) > lim {
        laws::apply::law_binding(func.args@, vals, 0, captured, lim, c);
    }
}

proof fn lemma_bind_from(
    func: FuncValue,
    vals: Seq<ValueView>,
    i: int,
    lim: int,
    c: int,
    scopes: Seq<EnvView>,
)
    requires
        0 <= i <= laws::apply::bound_count(func.args@, vals),
        scopes.len() == laws::apply::bound_count(func.args@, vals) + 1,
        forall|j: int|
            0 <= j < laws::apply::bound_count(func.args@, vals) ==> scopes[j + 1]
                == scopes[j].insert((#[trigger] func.args@[j]).idx, vals[j]),
    ensures
        c + 5 * (laws::apply::bound_count(func.args@, vals) - i) <= lim
            ==> semantics::bind_outcome(func.args@, vals, i, scopes[i], lim, c) == (Outcome {
            res: Ok::<EnvView, ErrorView>(scopes.last()),
            cost: c + 5 * (laws::apply::bound_count(func.args@, vals) - i),
        }),
    decreases func.args@.len() - i,
{
    if i < laws::apply::bound_count(func.args@, vals) {
        assert(scopes[i + 1] == scopes[i].insert(func.args@[i].idx, vals[i]));
        lemma_bind_from(func, vals, i + 1, lim, c + cost::ADD_TO_ENV_COST, scopes);
    }
}

/// The lambda maps each of the first `n` items to `vals`, each where the one
/// before it ended.
pub open spec fn mapped(
    func: FuncValue,
    captured: EnvView,
    items: Seq<ValueView>,
    n: int,
    ctx: Context,
    lim: int,
    vals: Seq<ValueView>,
    costs: Seq<int>,
) -> bool {
    &&& vals.len() == n
    &&& costs.len() == n + 1
    &&& forall|j: int|
        0 <= j < n ==> semantics::invoke_outcome(
            func,
            captured,
            seq![#[trigger] items[j]],
            ctx,
            lim,
            costs[j],
        ) == (Outcome { res: Ok::<ValueView, ErrorView>(vals[j]), cost: costs[j + 1] })
}

proof fn lemma_mapped_from(
    func: FuncValue,
    captured: EnvView,
    items: Seq<ValueView>,
    n: int,
    i: int,
    ctx: Context,
    lim: int,
    vals: Seq<ValueView>,
    costs: Seq<int>,
)
    requires
        0 <= i <= n <= items.len(),
        mapped(func, captured, items, n, ctx, lim, vals, costs),
        0 <= costs[i] <= u64::MAX,
        lim <= u64::MAX,
    ensures
        costs[i] <= costs[n] <= u64::MAX,
        semantics::map_outcome(func, captured, items, i, vals.take(i), ctx, lim, costs[i])
            == semantics::map_outcome(func, captured, items, n, vals, ctx, lim, costs[n]),
    decreases n - i,
{
    if i < n {
        let o = semantics::invoke_outcome(func, captured, seq![items[i]], ctx, lim, costs[i]);
        assert(o.res == Ok::<ValueView, ErrorView>(vals[i]) && o.cost == costs[i + 1]);
        laws::cost::lemma_invoke_bounded(func, captured, seq![items[i]], ctx, lim, costs[i]);
        assert(vals.take(i).push(vals[i]) =~= vals.take(i + 1));
        lemma_mapped_from(func, captured, items, n, i + 1, ctx, lim, vals, costs);
    } else {
        assert(vals.take(n) =~= vals);
    }
}

/// A map whose parts are a collection and a lambda goes over the items.
proof fn lemma_map_expression(
    m: CollMap,
    env: EnvView,
    ctx: Context,
    lim: int,
    c: int,
    items: Seq<ValueView>,
    func: FuncValue,
    captured: EnvView,
    c1: int,
    c2: int,
)
    requires
        0 <= c <= u64::MAX,
        lim <= u64::MAX,
        sequence::gives(*m.input, env, ctx, lim, c, ValueView::Coll(items), c1),
        sequence::gives(
            *m.mapper,
            env,
            ctx,
            lim,
            c1,
            ValueView::Lambda { func, env: captured },
            c2,
        ),
        c2 + 20 + chunks(items.len()) <= lim,
    ensures
        ({
            let out = semantics::map_outcome(
                func,
                captured,
                items,
                0,
                Seq::empty(),
                ctx,
                lim,
                c2 + 20 + chunks(items.len()),
            );
            let o = semantics::expr_outcome(Expr::CollMap(m), env, ctx, lim, c);
            &&& o.cost == out.cost
            &&& match out.res {
                Ok(vs) => o.res == Ok::<ValueView, ErrorView>(ValueView::Coll(vs)),
                Err(e) => o.res == Err::<ValueView, ErrorView>(e),
            }
        }),
{
    laws::cost::law_cost_is_bounded(*m.input, env, ctx, lim, c);
    laws::cost::law_cost_is_bounded(*m.mapper, env, ctx, lim, c1);
    assert(semantics::expr_outcome(Expr::CollMap(m), env, ctx, lim, c)
        == semantics::coll_map_outcome(m, env, ctx, lim, c));
    assert(cost::per_item_cost(20, items.len()) == 20 + chunks(items.len()));
}

/// A map gives the collection of what the lambda gives for every item, in the
/// order of the items.
pub proof fn law_map_holds_every_item(
    m: CollMap,
    env: EnvView,
    ctx: Context,
    lim: int,
    c: int,
    items: Seq<ValueView>,
    func: FuncValue,
    captured: EnvView,
    c1: int,
    c2: int,
    vals: Seq<ValueView>,
    costs: Seq<int>,
)
    requires
        0 <= c <= u64::MAX,
        lim <= u64::MAX,
        sequence::gives(*m.input, env, ctx, lim, c, ValueView::Coll(items), c1),
        sequence::gives(
            *m.mapper,
            env,
            ctx,
            lim,
            c1,
            ValueView::Lambda { func, env: captured },
            c2,
        ),
        costs[0] == c2 + 20 + chunks(items.len()),
        costs[0] <= lim,
        mapped(func, captured, items, items.len() as int, ctx, lim, vals, costs),
    ensures
        semantics::expr_outcome(Expr::CollMap(m), env, ctx, lim, c) == (Outcome {
            res: Ok::<ValueView, ErrorView>(ValueView::Coll(vals)),
            cost: costs.last(),
        }),
{
    laws::cost::law_cost_is_bounded(*m.input, env, ctx, lim, c);
    laws::cost::law_cost_is_bounded(*m.mapper, env, ctx, lim, c1);
    assert(vals.take(0) =~= Seq::empty());
    lemma_mapped_from(func, captured, items, items.len() as int, 0, ctx, lim, vals, costs);
    lemma_map_expression(m, env, ctx, lim, c, items, func, captured, c1, c2);
}

/// A map fails like the first item for which the lambda does.
pub proof fn law_map_fails_with_its_first_failure(
    m: CollMap,
    env: EnvView,
    ctx: Context,
    lim: int,
    c: int,
    items: Seq<ValueView>,
    func: FuncValue,
    captured: EnvView,
    c1: int,
    c2: int,
    k: int,
    vals: Seq<ValueView>,
    costs: Seq<int>,
    e: ErrorView,
)
    requires
        0 <= c <= u64::MAX,
        lim <= u64::MAX,
        sequence::gives(*m.input, env, ctx, lim, c, ValueView::Coll(items), c1),
        sequence::gives(
            *m.mapper,
            env,
            ctx,
            lim,
            c1,
            ValueView::Lambda { func, env: captured },
            c2,
        ),
        costs[0] == c2 + 20 + chunks(items.len()),
        costs[0] <= lim,
        0 <= k < items.len(),
        mapped(func, captured, items, k, ctx, lim, vals, costs),
        semantics::invoke_outcome(func, captured, seq![items[k]], ctx, lim, costs[k]).res == Err::<
            ValueView,
            ErrorView,
        >(e),
    ensures
        semantics::expr_outcome(Expr::CollMap(m), env, ctx, lim, c) == (Outcome {
            res: Err::<ValueView, ErrorView>(e),
            cost: semantics::invoke_outcome(
                func,
                captured,
                seq![items[k]],
                ctx,
                lim,
                costs[k],
            ).cost,
        }),
{
    laws::cost::law_cost_is_bounded(*m.input, env, ctx, lim, c);
    laws::cost::law_cost_is_bounded(*m.mapper, env, ctx, lim, c1);
    assert(vals.take(0) =~= Seq::empty());
    lemma_mapped_from(func, captured, items, k, 0, ctx, lim, vals, costs);
    lemma_map_expression(m, env, ctx, lim, c, items, func, captured, c1, c2);
}

/// What a map does when its parts are not what it needs: an input that fails or
/// is no collection, a mapper that fails or is no lambda, a limit that leaves
/// no room.
pub proof fn law_map_needs_a_collection_and_a_lambda(
    m: CollMap,
    env: EnvView,
    ctx: Context,
    lim: int,
    c: int,
)
    requires
        0 <= c <= u64::MAX,
        lim <= u64::MAX,
    ensures
        ({
            let input = semantics::expr_outcome(*m.input, env, ctx, lim, c);
            let mapper = semantics::expr_outcome(*m.mapper, env, ctx, lim, input.cost);
            let o = semantics::expr_outcome(Expr::CollMap(m), env, ctx, lim, c);
            match (input.res, mapper.res) {
                (Err(e), _) => o == (Outcome {
                    res: Err::<ValueView, ErrorView>(e),
                    cost: input.cost,
                }),
                (Ok(ValueView::Coll(_)), Err(e)) => o == (Outcome {
                    res: Err::<ValueView, ErrorView>(e),
                    cost: mapper.cost,
                }),
                (Ok(ValueView::Coll(items)), Ok(ValueView::Lambda { .. })) => mapper.cost + 20
                    + chunks(items.len()) > lim ==> o.res == Err::<ValueView, ErrorView>(
                    ErrorView::CostLimitExceeded,
                ),
                (Ok(ValueView::Coll(_)), Ok(v)) => o == (Outcome {
                    res: Err::<ValueView, ErrorView>(
                        ErrorView::TryExtractFrom(Expected::Lambda, v),
                    ),
                    cost: mapper.cost,
                }),
                (Ok(v), _) => o == (Outcome {
                    res: Err::<ValueView, ErrorView>(ErrorView::TryExtractFrom(Expected::Coll, v)),
                    cost: input.cost,
                }),
            }
        }),
{
    assert(semantics::expr_outcome(Expr::CollMap(m), env, ctx, lim, c)
        == semantics::coll_map_outcome(m, env, ctx, lim, c));
    laws::cost::law_cost_is_bounded(*m.input, env, ctx, lim, c);
}

/// An application as an expression is that application.
pub proof fn law_apply_expression(a: Apply, env: EnvView, ctx: Context, lim: int, c: int)
    ensures
        semantics::expr_outcome(Expr::Apply(a), env, ctx, lim, c) == semantics::apply_outcome(
            a,
            env,
            ctx,
            lim,
            c,
        ),
{
}

} // verus!
