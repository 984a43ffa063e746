//! Methods of a box.
use vstd::prelude::*;
use crate::chain::{Context, ErgoBox, ErgoTreeVersion, RegisterValue, Token};
use crate::cost::CostAccumulator;
use crate::error::{ErrorView, EvalError, Expected, Missing};
use crate::expr::SBoxMethod;
use crate::semantics::{self, Outcome};
use crate::types::{SType, STypeView};
use crate::value::{self, Value, ValueView};

verus! {

/// Box method without arguments.
pub open spec fn property_outcome(method: SBoxMethod, obj: ValueView, lim: int, c: int) -> Outcome<
    ValueView,
> {
    match method {
        SBoxMethod::Value => semantics::charged(
            c,
            8,
            lim,
            match obj {
                ValueView::CBox(b) => Ok(ValueView::Long(value::signed_long(b.value))),
                v => Err(ErrorView::TryExtractFrom(Expected::Box, v)),
            },
        ),
        SBoxMethod::Tokens => semantics::charged(
            c,
            15,
            lim,
            match obj {
                ValueView::CBox(b) => Ok(tokens_view(b.tokens@)),
                v => Err(ErrorView::TryExtractFrom(Expected::Box, v)),
            },
        ),
        SBoxMethod::PropositionBytes => semantics::charged(
            c,
            10,
            lim,
            match obj {
                ValueView::CBox(b) => image_view(b.script_bytes),
                v => Err(ErrorView::TryExtractFrom(Expected::Box, v)),
            },
        ),
        SBoxMethod::Bytes => semantics::charged(
            c,
            12,
            lim,
            match obj {
                ValueView::CBox(b) => image_view(b.bytes),
                v => Err(ErrorView::TryExtractFrom(Expected::Box, v)),
            },
        ),
        SBoxMethod::BytesWithoutRef => semantics::charged(
            c,
            12,
            lim,
            match obj {
                ValueView::CBox(b) => image_view(b.bytes_without_ref),
                v => Err(ErrorView::TryExtractFrom(Expected::Box, v)),
            },
        ),
        SBoxMethod::Id => semantics::charged(
            c,
            12,
            lim,
            match obj {
                ValueView::CBox(b) => Ok(value::bytes_view(b.box_id@)),
                v => Err(ErrorView::TryExtractFrom(Expected::Box, v)),
            },
        ),
        SBoxMethod::CreationInfo => semantics::charged(
            c,
            16,
            lim,
            match obj {
                ValueView::CBox(b) => Ok(creation_info_view(b)),
                v => Err(ErrorView::TryExtractFrom(Expected::Box, v)),
            },
        ),
        SBoxMethod::GetRegV5 | SBoxMethod::GetReg => semantics::failed(
            ErrorView::NotFound(Missing::Method),
            c,
        ),
    }
}

pub open spec fn image_view(image: Option<Vec<u8>>) -> Result<ValueView, ErrorView> {
    match image {
        Some(bytes) => Ok(value::bytes_view(bytes@)),
        None => Err(ErrorView::NotFound(Missing::BoxBytes)),
    }
}

pub open spec fn tokens_view(tokens: Seq<Token>) -> ValueView {
    ValueView::Coll(
        Seq::new(
            tokens.len(),
            |i: int|
                ValueView::Tup(
                    seq![
                        value::bytes_view(tokens[i].id@),
                        ValueView::Long(value::signed_long(tokens[i].amount)),
                    ],
                ),
        ),
    )
}

pub open spec fn creation_info_view(b: ErgoBox) -> ValueView {
    ValueView::Tup(
        seq![ValueView::Int(value::signed_int(b.creation_height)), value::bytes_view(b.creation_ref@)],
    )
}

pub open spec fn method_outcome(
    method: SBoxMethod,
    obj: ValueView,
    args: Seq<ValueView>,
    elem_tpe: SType,
    ctx: Context,
    lim: int,
    c: int,
) -> Outcome<ValueView> {
    match method {
        SBoxMethod::GetReg => get_reg_outcome(obj, args, elem_tpe, ctx, lim, c),
        _ => property_outcome(method, obj, lim, c),
    }
}

pub open spec fn get_reg_outcome(
    obj: ValueView,
    args: Seq<ValueView>,
    elem_tpe: SType,
    ctx: Context,
    lim: int,
    c: int,
) -> Outcome<ValueView> {
    semantics::charged(c, 50, lim, get_reg(obj, args, elem_tpe, ctx))
}

pub open spec fn get_reg(
    obj: ValueView,
    args: Seq<ValueView>,
    elem_tpe: SType,
    ctx: Context,
) -> Result<ValueView, ErrorView> {
    if ctx.tree_version.version < 3 {
        Err(
            ErrorView::ScriptVersionError {
                required_version: ErgoTreeVersion { version: 3 },
                activated_version: ctx.tree_version,
            },
        )
    } else if args.len() == 0 {
        Err(ErrorView::NotFound(Missing::RegisterIndex))
    } else {
        match args[0] {
            ValueView::Int(idx) => if 0 <= idx < 10 {
                match obj {
                    ValueView::CBox(b) => match register(b, idx as int) {
                        Err(()) => Err(ErrorView::NotFound(Missing::Register(idx as u8))),
                        Ok(None) => Ok(ValueView::Opt(None)),
                        Ok(Some((tpe, v))) => if tpe == elem_tpe@ {
                            Ok(ValueView::Opt(Some(Box::new(v))))
                        } else {
                            Err(
                                ErrorView::RegisterType {
                                    reg_idx: idx,
                                    expected: elem_tpe@,
                                    actual: tpe,
                                },
                            )
                        },
                    },
                    v => Err(ErrorView::TryExtractFrom(Expected::Box, v)),
                }
            } else {
                Ok(ValueView::Opt(None))
            },
            v => Err(ErrorView::TryExtractFrom(Expected::Int, v)),
        }
    }
}

/// Content of a register and its type.
pub open spec fn register(b: ErgoBox, id: int) -> Result<Option<(STypeView, ValueView)>, ()> {
    let bytes_tpe = STypeView::SColl(Box::new(STypeView::SByte));
    if id == 0 {
        Ok(Some((STypeView::SLong, ValueView::Long(value::signed_long(b.value)))))
    } else if id == 1 {
        match b.script_bytes {
            Some(bytes) => Ok(Some((bytes_tpe, value::bytes_view(bytes@)))),
            None => Err(()),
        }
    } else if id == 2 {
        Ok(
            Some(
                (
                    STypeView::SColl(
                        Box::new(STypeView::STuple(seq![bytes_tpe, STypeView::SLong])),
                    ),
                    tokens_view(b.tokens@),
                ),
            ),
        )
    } else if id == 3 {
        Ok(Some((STypeView::STuple(seq![STypeView::SInt, bytes_tpe]), creation_info_view(b))))
    } else if 0 <= id - 4 < b.additional_registers@.len() {
        match b.additional_registers@[id - 4] {
            RegisterValue::Parsed(k) => Ok(Some((k.tpe@, value::literal_view(k.v)))),
            RegisterValue::Invalid => Err(()),
        }
    } else {
        Ok(None)
    }
}

/// The box that a value is.
fn extract_box<'a>(obj: Value<'a>) -> (r: Result<&'a ErgoBox, EvalError<'a>>)
    ensures
        match r {
            Ok(b) => obj@ == ValueView::CBox(*b),
            Err(e) => !(obj@ is CBox) && e@ == ErrorView::TryExtractFrom(Expected::Box, obj@),
        },
{
    match obj {
        Value::CBox(b) => Ok(b),
        v => Err(EvalError::TryExtractFrom(Expected::Box, v)),
    }
}

/// `Box.value`: the amount, read as a signed number.
pub fn value_eval<'a>(obj: Value<'a>, cost: &mut CostAccumulator) -> (r: Result<
    Value<'a>,
    EvalError<'a>,
>)
    ensures
        semantics::has_outcome(
            r,
            *old(cost),
            *final(cost),
            property_outcome(
                SBoxMethod::Value,
                obj@,
                old(cost).limit(),
                old(cost).jit_cost as int,
            ),
        ),
{
    cost.add_jit_cost(8)?;
    let b = extract_box(obj)?;
    Ok(Value::Long(value::as_i64(b.value)))
}

/// `Box.tokens`: pairs of token id and amount, the amount read as a signed number.
pub fn tokens_eval<'a>(obj: Value<'a>, cost: &mut CostAccumulator) -> (r: Result<
    Value<'a>,
    EvalError<'a>,
>)
    ensures
        semantics::has_outcome(
            r,
            *old(cost),
            *final(cost),
            property_outcome(
                SBoxMethod::Tokens,
                obj@,
                old(cost).limit(),
                old(cost).jit_cost as int,
            ),
        ),
{
    cost.add_jit_cost(15)?;
    let b = extract_box(obj)?;
    Ok(tokens_value(&b.tokens))
}

/// `Box.propositionBytes`
pub fn proposition_bytes_eval<'a>(obj: Value<'a>, cost: &mut CostAccumulator) -> (r: Result<
    Value<'a>,
    EvalError<'a>,
>)
    ensures
        semantics::has_outcome(
            r,
            *old(cost),
            *final(cost),
            property_outcome(
                SBoxMethod::PropositionBytes,
                obj@,
                old(cost).limit(),
                old(cost).jit_cost as int,
            ),
        ),
{
    cost.add_jit_cost(10)?;
    let b = extract_box(obj)?;
    image_value(&b.script_bytes)
}

/// `Box.bytes`: the image that the box was read from.
pub fn bytes_eval<'a>(obj: Value<'a>, cost: &mut CostAccumulator) -> (r: Result<
    Value<'a>,
    EvalError<'a>,
>)
    ensures
        semantics::has_outcome(
            r,
            *old(cost),
            *final(cost),
            property_outcome(
                SBoxMethod::Bytes,
                obj@,
                old(cost).limit(),
                old(cost).jit_cost as int,
            ),
        ),
{
    cost.add_jit_cost(12)?;
    let b = extract_box(obj)?;
    image_value(&b.bytes)
}

/// `Box.bytesWithoutRef`: the canonical image without the creation reference.
pub fn bytes_without_ref_eval<'a>(obj: Value<'a>, cost: &mut CostAccumulator) -> (r: Result<
    Value<'a>,
    EvalError<'a>,
>)
    ensures
        semantics::has_outcome(
            r,
            *old(cost),
            *final(cost),
            property_outcome(
                SBoxMethod::BytesWithoutRef,
                obj@,
                old(cost).limit(),
                old(cost).jit_cost as int,
            ),
        ),
{
    cost.add_jit_cost(12)?;
    let b = extract_box(obj)?;
    image_value(&b.bytes_without_ref)
}

/// `Box.id`
pub fn id_eval<'a>(obj: Value<'a>, cost: &mut CostAccumulator) -> (r: Result<
    Value<'a>,
    EvalError<'a>,
>)
    ensures
        semantics::has_outcome(
            r,
            *old(cost),
            *final(cost),
            property_outcome(
                SBoxMethod::Id,
                obj@,
                old(cost).limit(),
                old(cost).jit_cost as int,
            ),
        ),
{
    cost.add_jit_cost(12)?;
    let b = extract_box(obj)?;
    Ok(value::bytes_value(&b.box_id))
}

/// `Box.creationInfo`: creation height, and transaction id with output index.
pub fn creation_info_eval<'a>(obj: Value<'a>, cost: &mut CostAccumulator) -> (r: Result<
    Value<'a>,
    EvalError<'a>,
>)
    ensures
        semantics::has_outcome(
            r,
            *old(cost),
            *final(cost),
            property_outcome(
                SBoxMethod::CreationInfo,
                obj@,
                old(cost).limit(),
                old(cost).jit_cost as int,
            ),
        ),
{
    cost.add_jit_cost(16)?;
    let b = extract_box(obj)?;
    Ok(creation_info_value(b))
}

/// The bytes of an image.
fn image_value<'a>(image: &Option<Vec<u8>>) -> (r: Result<Value<'a>, EvalError<'a>>)
    ensures
        semantics::result_view(r) == image_view(*image),
{
    match image {
        Some(bytes) => Ok(value::bytes_value(bytes)),
        None => Err(EvalError::NotFound(Missing::BoxBytes)),
    }
}

fn tokens_value<'a>(tokens: &Vec<Token>) -> (r: Value<'a>)
    ensures
        r@ == tokens_view(tokens@),
{
    let mut out: Vec<Value<'a>> = Vec::new();
    let mut i: usize = 0;
    while i < tokens.len()
        invariant
            i <= tokens@.len(),
            out@.len() == i,
            forall|j: int|
                0 <= j < i ==> (#[trigger] out@[j])@ == tokens_view(tokens@)->Coll_0[j],
        decreases tokens@.len() - i,
    {
        let pair = pair_value(
            value::bytes_value(&tokens[i].id),
            Value::Long(value::as_i64(tokens[i].amount)),
        );
        out.push(pair);
        i += 1;
    }
    let r = Value::Coll(out);
    assert(r@->Coll_0 =~= tokens_view(tokens@)->Coll_0);
    r
}

fn creation_info_value<'a>(b: &ErgoBox) -> (r: Value<'a>)
    ensures
        r@ == creation_info_view(*b),
{
    pair_value(Value::Int(value::as_i32(b.creation_height)), value::bytes_value(&b.creation_ref))
}

fn pair_value<'a>(first: Value<'a>, second: Value<'a>) -> (r: Value<'a>)
    ensures
        r@ == ValueView::Tup(seq![first@, second@]),
{
    let mut items: Vec<Value<'a>> = Vec::new();
    items.push(first);
    items.push(second);
    let r = Value::Tup(items);
    assert(r@->Tup_0 =~= seq![first@, second@]);
    r
}

fn pair_type(first: SType, second: SType) -> (r: SType)
    ensures
        r@ == STypeView::STuple(seq![first@, second@]),
{
    let mut items: Vec<SType> = Vec::new();
    items.push(first);
    items.push(second);
    let r = SType::STuple(items);
    assert(r@->STuple_0 =~= seq![first@, second@]);
    r
}

fn bytes_type() -> (r: SType)
    ensures
        r@ == STypeView::SColl(Box::new(STypeView::SByte)),
{
    let elem = SType::SByte;
    assert(elem@ == STypeView::SByte);
    SType::SColl(Box::new(elem))
}

impl ErgoBox {
    /// Type and value of a register. R0 to R3 are made of the box itself, the
    /// others are those that were added to it.
    pub fn get_register<'a>(&'a self, id: u8) -> (r: Result<Option<(SType, Value<'a>)>, ()>)
        ensures
            match r {
                Ok(Some((tpe, v))) => register(*self, id as int) == Ok::<
                    Option<(STypeView, ValueView)>,
                    (),
                >(Some((tpe@, v@))),
                Ok(None) => register(*self, id as int) == Ok::<
                    Option<(STypeView, ValueView)>,
                    (),
                >(None),
                Err(()) => register(*self, id as int) is Err,
            },
    {
        if id == 0 {
            Ok(Some((SType::SLong, Value::Long(value::as_i64(self.value)))))
        } else if id == 1 {
            match &self.script_bytes {
                Some(bytes) => Ok(Some((bytes_type(), value::bytes_value(bytes)))),
                None => Err(()),
            }
        } else if id == 2 {
            let tpe = SType::SColl(Box::new(pair_type(bytes_type(), SType::SLong)));
            Ok(Some((tpe, tokens_value(&self.tokens))))
        } else if id == 3 {
            Ok(Some((pair_type(SType::SInt, bytes_type()), creation_info_value(self))))
        } else {
            let i: usize = (id - 4) as usize;
            if i < self.additional_registers.len() {
                match &self.additional_registers[i] {
                    RegisterValue::Parsed(k) => Ok(
                        Some((k.tpe.duplicate(), Value::from_literal(&k.v))),
                    ),
                    RegisterValue::Invalid => Err(()),
                }
            } else {
                Ok(None)
            }
        }
    }
}

/// `Box.getReg[T]`: the register with a dynamic index. An index that no
/// register has, or a register that holds nothing, gives an empty option; a
/// register that holds a value of another type is an error.
pub fn get_reg_eval<'a>(
    obj: Value<'a>,
    args: Vec<Value<'a>>,
    elem_tpe: &'a SType,
    ctx: &'a Context,
    cost: &mut CostAccumulator,
) -> (r: Result<Value<'a>, EvalError<'a>>)
    ensures
        semantics::has_outcome(
            r,
            *old(cost),
            *final(cost),
            get_reg_outcome(
                obj@,
                value::views(args@),
                *elem_tpe,
                *ctx,
                old(cost).limit(),
                old(cost).jit_cost as int,
            ),
        ),
{
    cost.add_jit_cost(50)?;
    if ctx.tree_version.version < 3 {
        return Err(
            EvalError::ScriptVersionError {
                required_version: ErgoTreeVersion { version: 3 },
                activated_version: ctx.tree_version,
            },
        );
    }
    if args.len() == 0 {
        return Err(EvalError::NotFound(Missing::RegisterIndex));
    }
    let reg_idx: i32 = match &args[0] {
        Value::Int(idx) => *idx,
        v => {
            return Err(EvalError::TryExtractFrom(Expected::Int, v.duplicate()));
        },
    };
    if reg_idx < 0 || reg_idx >= 10 {
        return Ok(Value::Opt(None));
    }
    let b = extract_box(obj)?;
    match b.get_register(reg_idx as u8) {
        Err(()) => Err(EvalError::NotFound(Missing::Register(reg_idx as u8))),
        Ok(None) => Ok(Value::Opt(None)),
        Ok(Some((tpe, v))) => if tpe.same(elem_tpe) {
            Ok(Value::Opt(Some(Box::new(v))))
        } else {
            Err(EvalError::RegisterType { reg_idx, expected: elem_tpe, actual: tpe })
        },
    }
}

/// Method of a box without arguments.
pub fn property_eval<'a>(method: SBoxMethod, obj: Value<'a>, cost: &mut CostAccumulator) -> (r:
    Result<Value<'a>, EvalError<'a>>)
    ensures
        semantics::has_outcome(
            r,
            *old(cost),
            *final(cost),
            property_outcome(method, obj@, old(cost).limit(), old(cost).jit_cost as int),
        ),
{
    match method {
        SBoxMethod::Value => value_eval(obj, cost),
        SBoxMethod::Tokens => tokens_eval(obj, cost),
        SBoxMethod::PropositionBytes => proposition_bytes_eval(obj, cost),
        SBoxMethod::Bytes => bytes_eval(obj, cost),
        SBoxMethod::BytesWithoutRef => bytes_without_ref_eval(obj, cost),
        SBoxMethod::Id => id_eval(obj, cost),
        SBoxMethod::CreationInfo => creation_info_eval(obj, cost),
        SBoxMethod::GetRegV5 | SBoxMethod::GetReg => Err(EvalError::NotFound(Missing::Method)),
    }
}

/// Method of a box with arguments.
pub fn method_eval<'a>(
    method: SBoxMethod,
    obj: Value<'a>,
    args: Vec<Value<'a>>,
    elem_tpe: &'a SType,
    ctx: &'a Context,
    cost: &mut CostAccumulator,
) -> (r: Result<Value<'a>, EvalError<'a>>)
    ensures
        semantics::has_outcome(
            r,
            *old(cost),
            *final(cost),
            method_outcome(
                method,
                obj@,
                value::views(args@),
                *elem_tpe,
                *ctx,
                old(cost).limit(),
                old(cost).jit_cost as int,
            ),
        ),
{
    match method {
        SBoxMethod::GetReg => get_reg_eval(obj, args, elem_tpe, ctx, cost),
        _ => property_eval(method, obj, cost),
    }
}

} // verus!
