//! Laws of what values, literals, types, environments and errors stand for.
use vstd::prelude::*;
use crate::chain::{Literal, SigmaBoolean};
use crate::cost::{self, CostAccumulator};
use crate::env::Env;
use crate::error::{self, ErrorView, EvalError, Missing};
use crate::expr::FuncValue;
use crate::semantics::{self, Outcome};
use crate::text;
use crate::types::{self, SType, STypeView};
use crate::value::{self, Lambda, Value, ValueView};

verus! {

/// A primitive value stands for itself.
pub proof fn law_primitive_values(b: bool, i: i8, n: i32, m: i64, p: SigmaBoolean)
    ensures
        Value::Boolean(b)@ == ValueView::Boolean(b),
        Value::Byte(i)@ == ValueView::Byte(i),
        Value::Int(n)@ == ValueView::Int(n),
        Value::Long(m)@ == ValueView::Long(m),
        Value::SigmaProp(p)@ == ValueView::SigmaProp(p),
        value::literal_view(Literal::Boolean(b)) == ValueView::Boolean(b),
        value::literal_view(Literal::Byte(i)) == ValueView::Byte(i),
        value::literal_view(Literal::Int(n)) == ValueView::Int(n),
        value::literal_view(Literal::Long(m)) == ValueView::Long(m),
        value::literal_view(Literal::SigmaProp(p)) == ValueView::SigmaProp(p),
{
}

/// A compound value stands for what its parts stand for, in their order. A
/// lambda stands for its expression and the bindings that it holds.
pub proof fn law_compound_values<'a>(v: Value<'a>)
    ensures
        match v {
            Value::CBox(b) => v@ == ValueView::CBox(*b),
            Value::Coll(items) => v@ is Coll && v@->Coll_0.len() == items@.len() && forall|i: int|
                0 <= i < items@.len() ==> v@->Coll_0[i] == (#[trigger] items@[i])@,
            Value::Tup(items) => v@ is Tup && v@->Tup_0.len() == items@.len() && forall|i: int|
                0 <= i < items@.len() ==> v@->Tup_0[i] == (#[trigger] items@[i])@,
            Value::Opt(None) => v@ == ValueView::Opt(None),
            Value::Opt(Some(x)) => v@ is Opt && v@->Opt_0 is Some && *v@->Opt_0->Some_0 == (*x)@,
            Value::Lambda(l) => v@ == (ValueView::Lambda { func: *l.func, env: l.env@ }),
            _ => true,
        },
{
}

/// A compound literal stands for what its parts stand for, in their order.
pub proof fn law_compound_literals(l: Literal)
    ensures
        ({
            let v = value::literal_view(l);
            match l {
                Literal::CBox(b) => v == ValueView::CBox(b),
                Literal::Coll(items) => v is Coll && v->Coll_0.len() == items@.len() && forall|
                    i: int,
                |
                    0 <= i < items@.len() ==> v->Coll_0[i] == value::literal_view(
                        #[trigger] items@[i],
                    ),
                Literal::Tup(items) => v is Tup && v->Tup_0.len() == items@.len() && forall|i: int|
                    0 <= i < items@.len() ==> v->Tup_0[i] == value::literal_view(
                        #[trigger] items@[i],
                    ),
                Literal::Opt(None) => v == ValueView::Opt(None),
                Literal::Opt(Some(x)) => v is Opt && v->Opt_0 is Some && *v->Opt_0->Some_0
                    == value::literal_view(*x),
                _ => true,
            }
        }),
{
}

/// Values of a sequence stand in the order of the sequence.
pub proof fn law_values_of_a_sequence<'a>(s: Seq<Value<'a>>)
    ensures
        value::views(s).len() == s.len(),
        forall|i: int| 0 <= i < s.len() ==> value::views(s)[i] == (#[trigger] s[i])@,
{
}

/// Wire bytes show as a collection of as many bytes in the same order, each
/// byte from 128 on as the negative number that is 256 below it.
pub proof fn law_bytes_are_signed(bytes: Seq<u8>)
    ensures
        value::bytes_view(bytes) is Coll,
        value::bytes_view(bytes)->Coll_0.len() == bytes.len(),
        forall|k: int|
            #![trigger bytes[k]]
            0 <= k < bytes.len() ==> value::bytes_view(bytes)->Coll_0[k] is Byte
                && value::bytes_view(bytes)->Coll_0[k]->Byte_0 == if bytes[k] < 128 {
                bytes[k] as int
            } else {
                bytes[k] - 256
            },
{
}

/// No two sequences of wire bytes show alike.
pub proof fn law_bytes_show_apart(a: Seq<u8>, b: Seq<u8>)
    ensures
        value::bytes_view(a) == value::bytes_view(b) ==> a == b,
{
    if value::bytes_view(a) == value::bytes_view(b) {
        law_bytes_are_signed(a);
        law_bytes_are_signed(b);
        assert(value::bytes_view(a)->Coll_0.len() == value::bytes_view(b)->Coll_0.len());
        assert forall|k: int| 0 <= k < a.len() implies a[k] == b[k] by {
            assert(value::bytes_view(a)->Coll_0[k] == value::bytes_view(b)->Coll_0[k]);
        }
        assert(a =~= b);
    }
}

/// A height and a byte in the upper half of their range show as negative
/// numbers, in the lower half as they are.
pub proof fn law_signed_heights_and_bytes(n: u32, b: u8)
    ensures
        value::signed_int(n) == if n < 0x8000_0000 {
            n as int
        } else {
            n - 0x1_0000_0000
        },
        value::signed_byte(b) == if b < 0x80 {
            b as int
        } else {
            b - 0x100
        },
{
}

/// A type stands for the same type over what its parts stand for.
pub proof fn law_types(t: SType)
    ensures
        match t {
            SType::SBoolean => t@ == STypeView::SBoolean,
            SType::SByte => t@ == STypeView::SByte,
            SType::SInt => t@ == STypeView::SInt,
            SType::SLong => t@ == STypeView::SLong,
            SType::SSigmaProp => t@ == STypeView::SSigmaProp,
            SType::SBox => t@ == STypeView::SBox,
            SType::SColl(elem) => t@ == STypeView::SColl(Box::new(types::stype_view(*elem))),
            SType::SOption(elem) => t@ == STypeView::SOption(Box::new(types::stype_view(*elem))),
            SType::STuple(items) => t@ is STuple && t@->STuple_0.len() == items@.len() && forall|
                i: int,
            |
                0 <= i < items@.len() ==> t@->STuple_0[i] == (#[trigger] items@[i])@,
            SType::STypeVar(name) => t@ == STypeView::STypeVar(name@),
        },
{
}

/// The binding that was made last counts; a binding of another id is as it
/// was before.
pub proof fn law_last_binding_counts<'a>(store: Seq<(u32, Value<'a>)>, id: u32, v: Value<'a>)
    ensures
        value::bindings(Seq::<(u32, Value<'a>)>::empty()).dom() == Set::<u32>::empty(),
        value::bindings(store.push((id, v))).dom().contains(id),
        value::bindings(store.push((id, v)))[id] == v@,
        forall|other: u32|
            #![trigger value::bindings(store).dom().contains(other)]
            other != id ==> (value::bindings(store.push((id, v))).dom().contains(other)
                <==> value::bindings(store).dom().contains(other)) && value::bindings(
                store.push((id, v)),
            )[other] == value::bindings(store)[other],
{
    assert(store.push((id, v)).drop_last() =~= store);
    assert(value::bindings(Seq::<(u32, Value<'a>)>::empty()).dom() =~= Set::<u32>::empty());
}

/// An environment and a lambda hold the bindings of their store.
pub proof fn law_environment_is_its_store<'a>(env: Env<'a>, func: &'a FuncValue)
    ensures
        env@ == value::bindings(env.store@),
        Value::Lambda(Lambda { func, env })@ == (ValueView::Lambda { func: *func, env: env@ }),
{
}

/// An error stands for itself, over what its parts stand for.
pub proof fn law_errors<'a>(e: EvalError<'a>)
    ensures
        match e {
            EvalError::CostLimitExceeded => e@ == ErrorView::CostLimitExceeded,
            EvalError::TupleArity(n) => e@ is TupleArity && e@->TupleArity_0 == n,
            EvalError::UnknownArgType { tpe, idx } => e@ == (ErrorView::UnknownArgType {
                tpe: tpe@,
                idx,
            }),
            EvalError::NotALambda(v) => e@ == ErrorView::NotALambda(v@),
            EvalError::RegisterType { reg_idx, expected, actual } => e@ == (
            ErrorView::RegisterType { reg_idx, expected: expected@, actual: actual@ }),
            EvalError::VariableType { var_id, var_tpe, found } => e@ == (ErrorView::VariableType {
                var_id,
                var_tpe: var_tpe@,
                found: found@,
            }),
            EvalError::TryExtractFrom(expected, v) => e@ == ErrorView::TryExtractFrom(expected, v@),
            EvalError::Operands(a, b) => e@ == ErrorView::Operands(a@, b@),
            EvalError::ArithmeticOverflow => e@ == ErrorView::ArithmeticOverflow,
            EvalError::NotFound(m) => e@ == ErrorView::NotFound(m),
            EvalError::ScriptVersionError { required_version, activated_version } => e@ == (
            ErrorView::ScriptVersionError { required_version, activated_version }),
        },
{
}

/// The text of a tuple of a wrong size ends with the size, so that two sizes
/// are told apart; the other text is fixed; no other error has one.
pub proof fn law_messages(n: nat, m: nat, e: ErrorView)
    ensures
        error::message(ErrorView::TupleArity(n)) == Some(
            "Tuple: sigma-state allows only 2-element tuples, got "@ + text::decimal(n),
        ),
        error::message(ErrorView::TupleArity(n)) == error::message(ErrorView::TupleArity(m)) ==> n
            == m,
        error::message(ErrorView::NotFound(Missing::RegisterIndex)) == Some(
            "register index is missing"@,
        ),
        error::message(e) is Some ==> e is TupleArity || e == ErrorView::NotFound(
            Missing::RegisterIndex,
        ),
{
    let head = "Tuple: sigma-state allows only 2-element tuples, got "@;
    if error::message(ErrorView::TupleArity(n)) == error::message(ErrorView::TupleArity(m)) {
        let a = head + text::decimal(n);
        let b = head + text::decimal(m);
        assert(a == b);
        assert(a.skip(head.len() as int) =~= text::decimal(n));
        assert(b.skip(head.len() as int) =~= text::decimal(m));
        text::law_decimal_numbers_differ(n, m);
    }
}

/// What a caller sees of an outcome: the value or the error, the cost in the
/// accumulator, and the limit as it was.
pub proof fn law_outcome_is_seen<'a>(
    r: Result<Value<'a>, EvalError<'a>>,
    before: CostAccumulator,
    after: CostAccumulator,
    o: Outcome<ValueView>,
)
    ensures
        semantics::has_outcome(r, before, after, o) ==> {
            &&& match r {
                Ok(v) => o.res == Ok::<ValueView, ErrorView>(v@),
                Err(e) => o.res == Err::<ValueView, ErrorView>(e@),
            }
            &&& after.jit_cost == o.cost
            &&& after.jit_cost >= before.jit_cost
            &&& after.jit_cost_limit == before.jit_cost_limit
        },
        semantics::accumulated(before, after, o.cost) ==> after.jit_cost == o.cost
            && after.jit_cost_limit == before.jit_cost_limit,
{
}

/// The limit of an accumulator is the one that it was given, or else the
/// highest cost there is.
pub proof fn law_limit_of_an_accumulator(a: CostAccumulator)
    ensures
        a.jit_cost_limit matches Some(limit) ==> a.limit() == limit,
        a.jit_cost_limit is None ==> a.limit() == 0xffff_ffff_ffff_ffff,
{
}

/// A charge adds its amount; a sum that is too large stops at the highest cost
/// there is.
pub proof fn law_charges_add_up(c: int, amount: int)
    requires
        0 <= c <= u64::MAX,
        0 <= amount,
    ensures
        c + amount <= 0xffff_ffff_ffff_ffff ==> cost::after_charge(c, amount) == c + amount,
        c + amount > 0xffff_ffff_ffff_ffff ==> cost::after_charge(c, amount)
            == 0xffff_ffff_ffff_ffff,
{
}

/// Items are charged in chunks of ten on top of a base: `q` chunks hold up to
/// `10 * q` items, and there is always one.
pub proof fn law_items_are_charged_in_chunks(base: int, items: nat, q: int)
    requires
        q >= 1,
        items <= 10 * q,
        q == 1 || items > 10 * (q - 1),
    ensures
        cost::per_item_cost(base, items) == base + q,
{
}

} // verus!
