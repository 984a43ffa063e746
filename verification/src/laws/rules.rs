//! Laws of the single expressions: what each one is, given what its parts are.
use vstd::prelude::*;
use crate::chain::{Constant, Context};
use crate::error::{ErrorView, Expected, Missing};
use crate::eval::sbox;
use crate::expr::{BinOp, BinOpKind, Expr, GetVar, GlobalVars, If, PropertyCall, ValUse};
use crate::laws;
use crate::laws::block;
use crate::semantics::{self, EnvView, Outcome};
use crate::value::{self, ValueView};

verus! {

/// What an expression charges before any part of it is evaluated.
pub open spec fn own_cost(e: Expr) -> int {
    match e {
        Expr::Const(_) => 5,
        Expr::ConstPlaceholder(_) => 1,
        Expr::GlobalVars(GlobalVars::Height) => 26,
        Expr::GlobalVars(GlobalVars::SelfBox) => 10,
        Expr::ValUse(_) => 5,
        Expr::BlockValue(b) => 1 + block::chunks(b.items@.len()),
        Expr::FuncValue(_) => 5,
        Expr::Apply(_) => 30,
        Expr::Tuple(t) => if t.items@.len() == 2 {
            15
        } else {
            0
        },
        Expr::BinOp(b) => match b.kind {
            BinOpKind::Plus => 15,
            BinOpKind::Eq => 3,
        },
        Expr::Collection(_) => 20,
        Expr::CollMap(_) => 0,
        Expr::If(_) => 10,
        Expr::GetVar(_) => 10,
        Expr::OptionGet(_) => 15,
        Expr::OptionIsDefined(_) => 10,
        Expr::PropertyCall(_) => 4,
        Expr::MethodCall(_) => 4,
    }
}

/// An expression charges before it evaluates anything. Where the charge is
/// over the limit, that is its outcome, and the charge stays added.
pub proof fn law_charge_comes_first(e: Expr, env: EnvView, ctx: Context, lim: int, c: int)
    requires
        0 <= c <= u64::MAX,
        own_cost(e) > 0,
        c + own_cost(e) > lim,
    ensures
        semantics::expr_outcome(e, env, ctx, lim, c) == (Outcome {
            res: Err::<ValueView, ErrorView>(ErrorView::CostLimitExceeded),
            cost: if c + own_cost(e) <= u64::MAX {
                c + own_cost(e)
            } else {
                u64::MAX as int
            },
        }),
{
    match e {
        Expr::Apply(a) => {
            assert(semantics::expr_outcome(e, env, ctx, lim, c) == semantics::apply_outcome(
                a,
                env,
                ctx,
                lim,
                c,
            ));
        },
        Expr::Tuple(t) => {
            assert(semantics::expr_outcome(e, env, ctx, lim, c) == semantics::tuple_outcome(
                t,
                env,
                ctx,
                lim,
                c,
            ));
        },
        _ => {},
    }
}

/// A constant evaluates to its literal.
pub proof fn law_constant(k: Constant, env: EnvView, ctx: Context, lim: int, c: int)
    requires
        c + 5 <= lim,
    ensures
        semantics::expr_outcome(Expr::Const(k), env, ctx, lim, c) == (Outcome {
            res: Ok::<ValueView, ErrorView>(value::literal_view(k.v)),
            cost: c + 5,
        }),
{
}

/// A placeholder evaluates to the constant of the context with its index, and
/// is an error where there is none.
pub proof fn law_placeholder(i: u32, env: EnvView, ctx: Context, lim: int, c: int)
    requires
        c + 1 <= lim,
    ensures
        i < ctx.constants@.len() ==> semantics::expr_outcome(
            Expr::ConstPlaceholder(i),
            env,
            ctx,
            lim,
            c,
        ) == (Outcome {
            res: Ok::<ValueView, ErrorView>(value::literal_view(ctx.constants@[i as int].v)),
            cost: c + 1,
        }),
        i >= ctx.constants@.len() ==> semantics::expr_outcome(
            Expr::ConstPlaceholder(i),
            env,
            ctx,
            lim,
            c,
        ) == (Outcome {
            res: Err::<ValueView, ErrorView>(ErrorView::NotFound(Missing::Constant(i))),
            cost: c + 1,
        }),
{
}

/// `HEIGHT` and `SELF` are the height and the box of the context.
pub proof fn law_global_variables(env: EnvView, ctx: Context, lim: int, c: int)
    ensures
        c + 26 <= lim ==> semantics::expr_outcome(
            Expr::GlobalVars(GlobalVars::Height),
            env,
            ctx,
            lim,
            c,
        ) == (Outcome {
            res: Ok::<ValueView, ErrorView>(ValueView::Int(ctx.height)),
            cost: c + 26,
        }),
        c + 10 <= lim ==> semantics::expr_outcome(
            Expr::GlobalVars(GlobalVars::SelfBox),
            env,
            ctx,
            lim,
            c,
        ) == (Outcome {
            res: Ok::<ValueView, ErrorView>(ValueView::CBox(ctx.self_box)),
            cost: c + 10,
        }),
{
}

/// A use of an id evaluates to what the scope binds to it, and is an error
/// where the scope binds nothing.
pub proof fn law_use_of_a_binding(u: ValUse, env: EnvView, ctx: Context, lim: int, c: int)
    requires
        c + 5 <= lim,
    ensures
        env.dom().contains(u.val_id) ==> semantics::expr_outcome(
            Expr::ValUse(u),
            env,
            ctx,
            lim,
            c,
        ) == (Outcome { res: Ok::<ValueView, ErrorView>(env[u.val_id]), cost: c + 5 }),
        !env.dom().contains(u.val_id) ==> semantics::expr_outcome(
            Expr::ValUse(u),
            env,
            ctx,
            lim,
            c,
        ) == (Outcome {
            res: Err::<ValueView, ErrorView>(ErrorView::NotFound(Missing::ValId(u.val_id))),
            cost: c + 5,
        }),
{
}

/// The operands are evaluated from left to right, and the operation fails
/// where one of them does.
pub proof fn law_operands_are_evaluated_in_order(
    b: BinOp,
    env: EnvView,
    ctx: Context,
    lim: int,
    c: int,
)
    requires
        0 <= c,
        c + own_cost(Expr::BinOp(b)) <= lim <= u64::MAX,
    ensures
        ({
            let l = semantics::expr_outcome(
                *b.left,
                env,
                ctx,
                lim,
                c + own_cost(Expr::BinOp(b)),
            );
            let r = semantics::expr_outcome(*b.right, env, ctx, lim, l.cost);
            let o = semantics::expr_outcome(Expr::BinOp(b), env, ctx, lim, c);
            match (l.res, r.res) {
                (Err(e), _) => o.res == Err::<ValueView, ErrorView>(e) && o.cost == l.cost,
                (Ok(_), Err(e)) => o.res == Err::<ValueView, ErrorView>(e) && o.cost == r.cost,
                (Ok(x), Ok(y)) => o.cost == r.cost && o.res == semantics::bin_op(b.kind, x, y),
            }
        }),
{
    laws::cost::law_cost_is_bounded(
        *b.left,
        env,
        ctx,
        lim,
        c + own_cost(Expr::BinOp(b)),
    );
}

/// The sum of two numbers of one type is their sum where that type holds it,
/// and an error where it does not.
pub proof fn law_sums(a: i8, b: i8, x: i32, y: i32, n: i64, m: i64)
    ensures
        match semantics::bin_op(BinOpKind::Plus, ValueView::Byte(a), ValueView::Byte(b)) {
            Ok(v) => v is Byte && v->Byte_0 == a + b,
            Err(e) => e == ErrorView::ArithmeticOverflow && !(-128 <= a + b <= 127),
        },
        match semantics::bin_op(BinOpKind::Plus, ValueView::Int(x), ValueView::Int(y)) {
            Ok(v) => v is Int && v->Int_0 == x + y,
            Err(e) => e == ErrorView::ArithmeticOverflow && !(-0x8000_0000 <= x + y
                <= 0x7fff_ffff),
        },
        match semantics::bin_op(BinOpKind::Plus, ValueView::Long(n), ValueView::Long(m)) {
            Ok(v) => v is Long && v->Long_0 == n + m,
            Err(e) => e == ErrorView::ArithmeticOverflow && !(-0x8000_0000_0000_0000 <= n + m
                <= 0x7fff_ffff_ffff_ffff),
        },
{
}

/// Two values of one primitive type are compared by what they are.
pub proof fn law_comparisons(p: bool, q: bool, a: i8, b: i8, x: i32, y: i32, n: i64, m: i64)
    ensures
        semantics::bin_op(BinOpKind::Eq, ValueView::Boolean(p), ValueView::Boolean(q)) == Ok::<
            ValueView,
            ErrorView,
        >(ValueView::Boolean(p == q)),
        semantics::bin_op(BinOpKind::Eq, ValueView::Byte(a), ValueView::Byte(b)) == Ok::<
            ValueView,
            ErrorView,
        >(ValueView::Boolean(a == b)),
        semantics::bin_op(BinOpKind::Eq, ValueView::Int(x), ValueView::Int(y)) == Ok::<
            ValueView,
            ErrorView,
        >(ValueView::Boolean(x == y)),
        semantics::bin_op(BinOpKind::Eq, ValueView::Long(n), ValueView::Long(m)) == Ok::<
            ValueView,
            ErrorView,
        >(ValueView::Boolean(n == m)),
{
}

/// Numbers of one type.
pub open spec fn same_number_type(l: ValueView, r: ValueView) -> bool {
    ||| l is Byte && r is Byte
    ||| l is Int && r is Int
    ||| l is Long && r is Long
}

/// Operands that are neither numbers of one type nor, for a comparison, two
/// booleans are refused, and named in their order.
pub proof fn law_other_operands_are_refused(kind: BinOpKind, l: ValueView, r: ValueView)
    requires
        !same_number_type(l, r),
        !(kind == BinOpKind::Eq && l is Boolean && r is Boolean),
    ensures
        semantics::bin_op(kind, l, r) == Err::<ValueView, ErrorView>(ErrorView::Operands(l, r)),
{
}

/// A condition takes the branch that it says, where the condition ended. It
/// fails where the condition does, or is no boolean.
pub proof fn law_condition_takes_its_branch(i: If, env: EnvView, ctx: Context, lim: int, c: int)
    requires
        0 <= c,
        c + 10 <= lim <= u64::MAX,
    ensures
        ({
            let cond = semantics::expr_outcome(*i.condition, env, ctx, lim, c + 10);
            let o = semantics::expr_outcome(Expr::If(i), env, ctx, lim, c);
            match cond.res {
                Err(e) => o.res == Err::<ValueView, ErrorView>(e) && o.cost == cond.cost,
                Ok(ValueView::Boolean(true)) => o == semantics::expr_outcome(
                    *i.true_branch,
                    env,
                    ctx,
                    lim,
                    cond.cost,
                ),
                Ok(ValueView::Boolean(false)) => o == semantics::expr_outcome(
                    *i.false_branch,
                    env,
                    ctx,
                    lim,
                    cond.cost,
                ),
                Ok(v) => o.cost == cond.cost && o.res == Err::<ValueView, ErrorView>(
                    ErrorView::TryExtractFrom(Expected::Boolean, v),
                ),
            }
        }),
{
    laws::cost::law_cost_is_bounded(*i.condition, env, ctx, lim, c + 10);
}

/// `get` gives what an option holds. An empty option, and what is no option, is
/// an error.
pub proof fn law_option_get(input: Box<Expr>, env: EnvView, ctx: Context, lim: int, c: int)
    requires
        c + 15 <= lim,
    ensures
        ({
            let x = semantics::expr_outcome(*input, env, ctx, lim, c + 15);
            let o = semantics::expr_outcome(Expr::OptionGet(input), env, ctx, lim, c);
            &&& o.cost == x.cost
            &&& match x.res {
                Err(e) => o.res == Err::<ValueView, ErrorView>(e),
                Ok(ValueView::Opt(Some(v))) => o.res == Ok::<ValueView, ErrorView>(*v),
                Ok(ValueView::Opt(None)) => o.res == Err::<ValueView, ErrorView>(
                    ErrorView::NotFound(Missing::OptionValue),
                ),
                Ok(v) => o.res == Err::<ValueView, ErrorView>(
                    ErrorView::TryExtractFrom(Expected::Option, v),
                ),
            }
        }),
{
}

/// `isDefined` says whether an option holds something. What is no option is an
/// error.
pub proof fn law_option_is_defined(input: Box<Expr>, env: EnvView, ctx: Context, lim: int, c: int)
    requires
        c + 10 <= lim,
    ensures
        ({
            let x = semantics::expr_outcome(*input, env, ctx, lim, c + 10);
            let o = semantics::expr_outcome(Expr::OptionIsDefined(input), env, ctx, lim, c);
            &&& o.cost == x.cost
            &&& match x.res {
                Err(e) => o.res == Err::<ValueView, ErrorView>(e),
                Ok(ValueView::Opt(Some(_))) => o.res == Ok::<ValueView, ErrorView>(
                    ValueView::Boolean(true),
                ),
                Ok(ValueView::Opt(None)) => o.res == Ok::<ValueView, ErrorView>(
                    ValueView::Boolean(false),
                ),
                Ok(v) => o.res == Err::<ValueView, ErrorView>(
                    ErrorView::TryExtractFrom(Expected::Option, v),
                ),
            }
        }),
{
}

/// A property is read of the value of its object, where the object ended.
pub proof fn law_property_is_read_of_its_object(
    p: PropertyCall,
    env: EnvView,
    ctx: Context,
    lim: int,
    c: int,
)
    requires
        c + 4 <= lim,
    ensures
        ({
            let obj = semantics::expr_outcome(*p.obj, env, ctx, lim, c + 4);
            let o = semantics::expr_outcome(Expr::PropertyCall(p), env, ctx, lim, c);
            match obj.res {
                Err(e) => o.res == Err::<ValueView, ErrorView>(e) && o.cost == obj.cost,
                Ok(v) => o == sbox::property_outcome(p.method, v, lim, obj.cost),
            }
        }),
{
}

proof fn lemma_first_entry(ext: Seq<(u8, Constant)>, id: u8, i: int, k: int)
    requires
        0 <= i <= k < ext.len(),
        ext[k].0 == id,
        forall|j: int| i <= j < k ==> (#[trigger] ext[j]).0 != id,
    ensures
        semantics::extension_entry(ext, id, i) == Some(ext[k].1),
    decreases k - i,
{
    if i < k {
        assert(ext[i].0 != id);
        lemma_first_entry(ext, id, i + 1, k);
    }
}

proof fn lemma_no_entry(ext: Seq<(u8, Constant)>, id: u8, i: int)
    requires
        0 <= i <= ext.len(),
        forall|j: int| i <= j < ext.len() ==> (#[trigger] ext[j]).0 != id,
    ensures
        semantics::extension_entry(ext, id, i) is None,
    decreases ext.len() - i,
{
    if i < ext.len() {
        assert(ext[i].0 != id);
        lemma_no_entry(ext, id, i + 1);
    }
}

/// A variable that the context extension has gives its value at its own type,
/// and an error that names it and both types at any other.
pub proof fn law_variable_is_read_at_its_type(
    g: GetVar,
    k: int,
    env: EnvView,
    ctx: Context,
    lim: int,
    c: int,
)
    requires
        c + 10 <= lim,
        0 <= k < ctx.extension@.len(),
        ctx.extension@[k].0 == g.var_id,
        forall|j: int| 0 <= j < k ==> (#[trigger] ctx.extension@[j]).0 != g.var_id,
    ensures
        ({
            let entry = ctx.extension@[k].1;
            let o = semantics::expr_outcome(Expr::GetVar(g), env, ctx, lim, c);
            &&& o.cost == c + 10
            &&& entry.tpe@ == g.var_tpe@ ==> o.res == Ok::<ValueView, ErrorView>(
                ValueView::Opt(Some(Box::new(value::literal_view(entry.v)))),
            )
            &&& entry.tpe@ != g.var_tpe@ ==> o.res == Err::<ValueView, ErrorView>(
                ErrorView::VariableType {
                    var_id: g.var_id,
                    var_tpe: g.var_tpe@,
                    found: entry.tpe@,
                },
            )
        }),
{
    lemma_first_entry(ctx.extension@, g.var_id, 0, k);
}

/// A variable that the context extension does not have gives an empty option.
pub proof fn law_absent_variable_is_none(
    g: GetVar,
    env: EnvView,
    ctx: Context,
    lim: int,
    c: int,
)
    requires
        c + 10 <= lim,
        forall|j: int|
            0 <= j < ctx.extension@.len() ==> (#[trigger] ctx.extension@[j]).0 != g.var_id,
    ensures
        semantics::expr_outcome(Expr::GetVar(g), env, ctx, lim, c) == (Outcome {
            res: Ok::<ValueView, ErrorView>(ValueView::Opt(None)),
            cost: c + 10,
        }),
{
    lemma_no_entry(ctx.extension@, g.var_id, 0);
}

} // verus!
