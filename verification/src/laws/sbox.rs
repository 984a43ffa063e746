//! Laws of the methods of a box.
use vstd::prelude::*;
use crate::chain::{Context, ErgoBox, ErgoTreeVersion, RegisterValue};
use crate::error::{ErrorView, Expected, Missing};
use crate::eval::sbox;
use crate::expr::{Expr, MethodCall, SBoxMethod};
use crate::laws::sequence;
use crate::semantics::{self, EnvView, Outcome};
use crate::types::{SType, STypeView};
use crate::value::{self, ValueView};

verus! {

/// An amount below `2^63` shows as it is, one from `2^63` on as a negative
/// number, and no two amounts show alike.
pub proof fn law_signed_view(n: u64, m: u64)
    ensures
        n < 0x8000_0000_0000_0000 ==> value::signed_long(n) == n,
        n >= 0x8000_0000_0000_0000 ==> value::signed_long(n) == n - 0x1_0000_0000_0000_0000
            && value::signed_long(n) < 0,
        value::signed_long(n) == value::signed_long(m) ==> n == m,
{
}

/// `value` of a box and its register R0 are the same number.
pub proof fn law_value_is_register_zero(
    b: ErgoBox,
    elem_tpe: SType,
    ctx: Context,
    lim: int,
    c: int,
)
    requires
        c + 50 <= lim,
        ctx.tree_version.version >= 3,
        elem_tpe == SType::SLong,
    ensures
        sbox::property_outcome(SBoxMethod::Value, ValueView::CBox(b), lim, c).res == Ok::<
            ValueView,
            ErrorView,
        >(ValueView::Long(value::signed_long(b.value))),
        sbox::get_reg_outcome(
            ValueView::CBox(b),
            seq![ValueView::Int(0)],
            elem_tpe,
            ctx,
            lim,
            c,
        ).res == Ok::<ValueView, ErrorView>(
            ValueView::Opt(Some(Box::new(ValueView::Long(value::signed_long(b.value))))),
        ),
{
}

/// An index outside of R0 to R9 gives no value and no error, whatever the
/// object is.
pub proof fn law_register_out_of_range_is_none(
    obj: ValueView,
    idx: i32,
    elem_tpe: SType,
    ctx: Context,
    lim: int,
    c: int,
)
    requires
        c + 50 <= lim,
        ctx.tree_version.version >= 3,
        idx < 0 || idx > 9,
    ensures
        sbox::get_reg_outcome(obj, seq![ValueView::Int(idx)], elem_tpe, ctx, lim, c) == (Outcome {
            res: Ok::<ValueView, ErrorView>(ValueView::Opt(None)),
            cost: c + 50,
        }),
{
}

/// A register from R4 on that the box does not have gives no value and no
/// error.
pub proof fn law_absent_register_is_none(
    b: ErgoBox,
    idx: i32,
    elem_tpe: SType,
    ctx: Context,
    lim: int,
    c: int,
)
    requires
        c + 50 <= lim,
        ctx.tree_version.version >= 3,
        4 + b.additional_registers@.len() <= idx <= 9,
    ensures
        sbox::get_reg_outcome(
            ValueView::CBox(b),
            seq![ValueView::Int(idx)],
            elem_tpe,
            ctx,
            lim,
            c,
        ) == (Outcome {
            res: Ok::<ValueView, ErrorView>(ValueView::Opt(None)),
            cost: c + 50,
        }),
{
}

/// A register that the box has gives its value at its own type, and an error
/// at any other. A register that cannot be read is an error at every type.
pub proof fn law_present_register_is_read_at_its_type(
    b: ErgoBox,
    idx: i32,
    elem_tpe: SType,
    ctx: Context,
    lim: int,
    c: int,
)
    requires
        c + 50 <= lim,
        ctx.tree_version.version >= 3,
        4 <= idx <= 9,
        idx - 4 < b.additional_registers@.len(),
    ensures
        ({
            let o = sbox::get_reg_outcome(
                ValueView::CBox(b),
                seq![ValueView::Int(idx)],
                elem_tpe,
                ctx,
                lim,
                c,
            );
            &&& o.cost == c + 50
            &&& match b.additional_registers@[idx - 4] {
                RegisterValue::Parsed(k) => if k.tpe@ == elem_tpe@ {
                    o.res == Ok::<ValueView, ErrorView>(
                        ValueView::Opt(Some(Box::new(value::literal_view(k.v)))),
                    )
                } else {
                    o.res == Err::<ValueView, ErrorView>(
                        ErrorView::RegisterType {
                            reg_idx: idx,
                            expected: elem_tpe@,
                            actual: k.tpe@,
                        },
                    )
                },
                RegisterValue::Invalid => o.res == Err::<ValueView, ErrorView>(
                    ErrorView::NotFound(Missing::Register(idx as u8)),
                ),
            }
        }),
{
}

/// Before the third version `getReg` is refused, whatever it is called with.
pub proof fn law_get_reg_needs_the_third_version(
    obj: ValueView,
    args: Seq<ValueView>,
    elem_tpe: SType,
    ctx: Context,
    lim: int,
    c: int,
)
    requires
        c + 50 <= lim,
        ctx.tree_version.version < 3,
    ensures
        sbox::get_reg_outcome(obj, args, elem_tpe, ctx, lim, c) == semantics::failed::<ValueView>(
            ErrorView::ScriptVersionError {
                required_version: ErgoTreeVersion { version: 3 },
                activated_version: ctx.tree_version,
            },
            c + 50,
        ),
{
}

/// `getReg` of the first versions is never evaluated.
pub proof fn law_old_get_reg_has_no_evaluation(
    obj: ValueView,
    args: Seq<ValueView>,
    elem_tpe: SType,
    ctx: Context,
    lim: int,
    c: int,
)
    ensures
        sbox::method_outcome(SBoxMethod::GetRegV5, obj, args, elem_tpe, ctx, lim, c)
            == semantics::failed::<ValueView>(ErrorView::NotFound(Missing::Method), c),
{
}

/// Fixed cost of a method of a box.
pub open spec fn method_cost(method: SBoxMethod) -> int {
    match method {
        SBoxMethod::Value => 8,
        SBoxMethod::PropositionBytes => 10,
        SBoxMethod::Bytes => 12,
        SBoxMethod::BytesWithoutRef => 12,
        SBoxMethod::Id => 12,
        SBoxMethod::CreationInfo => 16,
        SBoxMethod::GetRegV5 => 0,
        SBoxMethod::Tokens => 15,
        SBoxMethod::GetReg => 50,
    }
}

/// A method costs the same whether it succeeds or fails, and over the limit it
/// fails with the error of the limit before it looks at the box.
pub proof fn law_methods_have_a_fixed_cost(
    method: SBoxMethod,
    obj: ValueView,
    args: Seq<ValueView>,
    elem_tpe: SType,
    ctx: Context,
    lim: int,
    c: int,
)
    requires
        0 <= c <= lim <= u64::MAX,
    ensures
        ({
            let o = sbox::method_outcome(method, obj, args, elem_tpe, ctx, lim, c);
            if c + method_cost(method) <= lim {
                o.cost == c + method_cost(method) && o.res != Err::<ValueView, ErrorView>(
                    ErrorView::CostLimitExceeded,
                )
            } else {
                o.res == Err::<ValueView, ErrorView>(ErrorView::CostLimitExceeded)
            }
        }),
{
}

/// `v` is the collection of as many bytes as `bytes`, in the same order, each
/// byte from 128 on as the number that is 256 below it.
pub open spec fn shows_bytes(v: ValueView, bytes: Seq<u8>) -> bool {
    &&& v is Coll
    &&& v->Coll_0.len() == bytes.len()
    &&& forall|k: int|
        #![trigger bytes[k]]
        #![trigger v->Coll_0[k]]
        0 <= k < bytes.len() ==> v->Coll_0[k] is Byte && v->Coll_0[k]->Byte_0 == if bytes[k]
            < 128 {
            bytes[k] as int
        } else {
            bytes[k] - 256
        }
}

/// `v` is the number `n`, or the one that is `2^64` below it where `n` is not
/// below `2^63`.
pub open spec fn shows_amount(v: ValueView, n: u64) -> bool {
    v is Long && v->Long_0 == if n < 0x8000_0000_0000_0000 {
        n as int
    } else {
        n - 0x1_0000_0000_0000_0000
    }
}

/// `v` is a collection of one pair per token, in their order: the id of the
/// token, byte by byte, and its amount.
pub open spec fn shows_tokens(v: ValueView, b: ErgoBox) -> bool {
    &&& v is Coll
    &&& v->Coll_0.len() == b.tokens@.len()
    &&& forall|j: int|
        #![trigger b.tokens@[j]]
        0 <= j < b.tokens@.len() ==> {
            let pair = v->Coll_0[j];
            &&& pair is Tup
            &&& pair->Tup_0.len() == 2
            &&& shows_bytes(pair->Tup_0[0], b.tokens@[j].id@)
            &&& shows_amount(pair->Tup_0[1], b.tokens@[j].amount)
        }
}

/// `v` is the pair of the height of a box and of its whole reference, byte by
/// byte.
pub open spec fn shows_creation_info(v: ValueView, b: ErgoBox) -> bool {
    &&& v is Tup
    &&& v->Tup_0.len() == 2
    &&& v->Tup_0[0] is Int
    &&& v->Tup_0[0]->Int_0 == if b.creation_height < 0x8000_0000 {
        b.creation_height as int
    } else {
        b.creation_height - 0x1_0000_0000
    }
    &&& shows_bytes(v->Tup_0[1], b.creation_ref@)
}

/// `value` of a box is its amount.
pub proof fn law_value_is_the_amount(b: ErgoBox, lim: int, c: int)
    requires
        c + 8 <= lim,
    ensures
        ({
            let o = sbox::property_outcome(SBoxMethod::Value, ValueView::CBox(b), lim, c);
            o.cost == c + 8 && o.res is Ok && shows_amount(o.res->Ok_0, b.value)
        }),
{
}

/// `tokens` of a box are all its tokens in their order, with their whole ids
/// and their amounts.
pub proof fn law_tokens_are_those_of_the_box(b: ErgoBox, lim: int, c: int)
    requires
        c + 15 <= lim,
    ensures
        ({
            let o = sbox::property_outcome(SBoxMethod::Tokens, ValueView::CBox(b), lim, c);
            o.cost == c + 15 && o.res is Ok && shows_tokens(o.res->Ok_0, b)
        }),
{
}

/// `creationInfo` of a box is its height and its whole reference, transaction
/// id and output index.
pub proof fn law_creation_info_is_height_and_reference(b: ErgoBox, lim: int, c: int)
    requires
        c + 16 <= lim,
    ensures
        ({
            let o = sbox::property_outcome(SBoxMethod::CreationInfo, ValueView::CBox(b), lim, c);
            o.cost == c + 16 && o.res is Ok && shows_creation_info(o.res->Ok_0, b)
        }),
{
}

/// Two boxes have the same creation info only if they have the same height and
/// the same reference, output index included.
pub proof fn law_creation_info_tells_boxes_apart(a: ErgoBox, b: ErgoBox, lim: int, c: int)
    requires
        c + 16 <= lim,
        sbox::property_outcome(SBoxMethod::CreationInfo, ValueView::CBox(a), lim, c)
            == sbox::property_outcome(SBoxMethod::CreationInfo, ValueView::CBox(b), lim, c),
    ensures
        a.creation_height == b.creation_height,
        a.creation_ref@ == b.creation_ref@,
{
    law_creation_info_is_height_and_reference(a, lim, c);
    law_creation_info_is_height_and_reference(b, lim, c);
    let v = sbox::property_outcome(
        SBoxMethod::CreationInfo,
        ValueView::CBox(a),
        lim,
        c,
    ).res->Ok_0;
    lemma_bytes_are_shown_apart(v->Tup_0[1], a.creation_ref@, b.creation_ref@);
}

proof fn lemma_bytes_are_shown_apart(v: ValueView, a: Seq<u8>, b: Seq<u8>)
    requires
        shows_bytes(v, a),
        shows_bytes(v, b),
    ensures
        a == b,
{
    assert forall|k: int| 0 <= k < a.len() implies a[k] == b[k] by {
        assert(v->Coll_0[k] is Byte);
    }
    assert(a =~= b);
}

/// Two boxes have the same tokens in a script only if they hold the same
/// tokens in the same order.
pub proof fn law_tokens_tell_boxes_apart(a: ErgoBox, b: ErgoBox, lim: int, c: int)
    requires
        c + 15 <= lim,
        sbox::property_outcome(SBoxMethod::Tokens, ValueView::CBox(a), lim, c)
            == sbox::property_outcome(SBoxMethod::Tokens, ValueView::CBox(b), lim, c),
    ensures
        a.tokens@.len() == b.tokens@.len(),
        forall|j: int|
            #![trigger a.tokens@[j]]
            0 <= j < a.tokens@.len() ==> a.tokens@[j].id@ == b.tokens@[j].id@
                && a.tokens@[j].amount == b.tokens@[j].amount,
{
    law_tokens_are_those_of_the_box(a, lim, c);
    law_tokens_are_those_of_the_box(b, lim, c);
    let v = sbox::property_outcome(SBoxMethod::Tokens, ValueView::CBox(a), lim, c).res->Ok_0;
    assert forall|j: int|
        #![trigger a.tokens@[j]]
        0 <= j < a.tokens@.len() implies a.tokens@[j].id@ == b.tokens@[j].id@
        && a.tokens@[j].amount == b.tokens@[j].amount by {
        let other = b.tokens@[j];
        lemma_bytes_are_shown_apart(v->Coll_0[j]->Tup_0[0], a.tokens@[j].id@, other.id@);
    }
}

/// What a method that reads an image gives for it: the bytes of the image, or
/// an error where there is none.
pub open spec fn reads_image(o: Outcome<ValueView>, image: Option<Vec<u8>>) -> bool {
    match image {
        Some(bytes) => o.res is Ok && shows_bytes(o.res->Ok_0, bytes@),
        None => o.res == Err::<ValueView, ErrorView>(ErrorView::NotFound(Missing::BoxBytes)),
    }
}

/// `propositionBytes`, `bytes` and `bytesWithoutRef` of a box are its script,
/// the image that it was read from and its image without the reference, byte by
/// byte.
pub proof fn law_images_are_those_of_the_box(b: ErgoBox, lim: int, c: int)
    requires
        c + 12 <= lim,
    ensures
        ({
            let script = sbox::property_outcome(
                SBoxMethod::PropositionBytes,
                ValueView::CBox(b),
                lim,
                c,
            );
            let bytes = sbox::property_outcome(SBoxMethod::Bytes, ValueView::CBox(b), lim, c);
            let without_ref = sbox::property_outcome(
                SBoxMethod::BytesWithoutRef,
                ValueView::CBox(b),
                lim,
                c,
            );
            &&& script.cost == c + 10 && reads_image(script, b.script_bytes)
            &&& bytes.cost == c + 12 && reads_image(bytes, b.bytes)
            &&& without_ref.cost == c + 12 && reads_image(without_ref, b.bytes_without_ref)
        }),
{
}

/// `id` of a box is its id, byte by byte.
pub proof fn law_id_is_that_of_the_box(b: ErgoBox, lim: int, c: int)
    requires
        c + 12 <= lim,
    ensures
        ({
            let o = sbox::property_outcome(SBoxMethod::Id, ValueView::CBox(b), lim, c);
            o.cost == c + 12 && o.res is Ok && shows_bytes(o.res->Ok_0, b.box_id@)
        }),
{
}

/// What is no box has no methods of a box: it is named in the error.
pub proof fn law_methods_need_a_box(method: SBoxMethod, obj: ValueView, lim: int, c: int)
    requires
        !(obj is CBox),
        method != SBoxMethod::GetReg,
        method != SBoxMethod::GetRegV5,
        c + method_cost(method) <= lim,
    ensures
        sbox::property_outcome(method, obj, lim, c) == (Outcome {
            res: Err::<ValueView, ErrorView>(ErrorView::TryExtractFrom(Expected::Box, obj)),
            cost: c + method_cost(method),
        }),
{
}

/// A charge of a method that is over the limit stays added.
pub proof fn law_charge_of_a_method_stays(
    method: SBoxMethod,
    obj: ValueView,
    args: Seq<ValueView>,
    elem_tpe: SType,
    ctx: Context,
    lim: int,
    c: int,
)
    requires
        0 <= c <= lim,
        c + method_cost(method) > lim,
        c + method_cost(method) <= u64::MAX,
    ensures
        sbox::method_outcome(method, obj, args, elem_tpe, ctx, lim, c) == (Outcome {
            res: Err::<ValueView, ErrorView>(ErrorView::CostLimitExceeded),
            cost: c + method_cost(method),
        }),
{
}

/// Every method but `getReg` is the same with and without the form of a call
/// with arguments; `getReg` has that form only.
pub proof fn law_forms_of_a_method(
    method: SBoxMethod,
    obj: ValueView,
    args: Seq<ValueView>,
    elem_tpe: SType,
    ctx: Context,
    lim: int,
    c: int,
)
    ensures
        method != SBoxMethod::GetReg ==> sbox::method_outcome(
            method,
            obj,
            args,
            elem_tpe,
            ctx,
            lim,
            c,
        ) == sbox::property_outcome(method, obj, lim, c),
        sbox::method_outcome(SBoxMethod::GetReg, obj, args, elem_tpe, ctx, lim, c)
            == sbox::get_reg_outcome(obj, args, elem_tpe, ctx, lim, c),
        sbox::property_outcome(SBoxMethod::GetReg, obj, lim, c) == (Outcome {
            res: Err::<ValueView, ErrorView>(ErrorView::NotFound(Missing::Method)),
            cost: c,
        }),
{
}

/// `o` is what `getReg` gives for a register that holds a value of the type
/// `tpe` that `holds` tells: the value at that type, an error that names both
/// types at any other.
pub open spec fn reads_register(
    o: Outcome<ValueView>,
    idx: i32,
    elem_tpe: SType,
    tpe: STypeView,
    holds: spec_fn(ValueView) -> bool,
) -> bool {
    if elem_tpe@ == tpe {
        &&& o.res is Ok
        &&& o.res->Ok_0 is Opt
        &&& o.res->Ok_0->Opt_0 is Some
        &&& holds(*o.res->Ok_0->Opt_0->Some_0)
    } else {
        o.res == Err::<ValueView, ErrorView>(
            ErrorView::RegisterType { reg_idx: idx, expected: elem_tpe@, actual: tpe },
        )
    }
}

/// The type of bytes.
pub open spec fn bytes_tpe() -> STypeView {
    STypeView::SColl(Box::new(STypeView::SByte))
}

/// R0 to R3 of a box are its amount, its script, its tokens and its creation
/// info.
pub proof fn law_mandatory_registers(
    b: ErgoBox,
    args: Seq<ValueView>,
    idx: i32,
    elem_tpe: SType,
    ctx: Context,
    lim: int,
    c: int,
)
    requires
        c + 50 <= lim,
        ctx.tree_version.version >= 3,
        args.len() > 0,
        args[0] == ValueView::Int(idx),
        0 <= idx <= 3,
    ensures
        ({
            let o = sbox::get_reg_outcome(ValueView::CBox(b), args, elem_tpe, ctx, lim, c);
            &&& o.cost == c + 50
            &&& idx == 0 ==> reads_register(
                o,
                0,
                elem_tpe,
                STypeView::SLong,
                |v: ValueView| shows_amount(v, b.value),
            )
            &&& idx == 1 ==> match b.script_bytes {
                Some(bytes) => reads_register(
                    o,
                    1,
                    elem_tpe,
                    bytes_tpe(),
                    |v: ValueView| shows_bytes(v, bytes@),
                ),
                None => o.res == Err::<ValueView, ErrorView>(
                    ErrorView::NotFound(Missing::Register(1)),
                ),
            }
            &&& idx == 2 ==> reads_register(
                o,
                2,
                elem_tpe,
                STypeView::SColl(
                    Box::new(STypeView::STuple(seq![bytes_tpe(), STypeView::SLong])),
                ),
                |v: ValueView| shows_tokens(v, b),
            )
            &&& idx == 3 ==> reads_register(
                o,
                3,
                elem_tpe,
                STypeView::STuple(seq![STypeView::SInt, bytes_tpe()]),
                |v: ValueView| shows_creation_info(v, b),
            )
        }),
{
}

/// R4 to R9 of a box are the registers that were added to it, in their order.
/// One that cannot be read is an error, and one that the box does not have is
/// an empty option. Only the first argument counts.
pub proof fn law_added_registers(
    b: ErgoBox,
    args: Seq<ValueView>,
    idx: i32,
    elem_tpe: SType,
    ctx: Context,
    lim: int,
    c: int,
)
    requires
        c + 50 <= lim,
        ctx.tree_version.version >= 3,
        args.len() > 0,
        args[0] == ValueView::Int(idx),
        4 <= idx <= 9,
    ensures
        ({
            let o = sbox::get_reg_outcome(ValueView::CBox(b), args, elem_tpe, ctx, lim, c);
            &&& o.cost == c + 50
            &&& if idx - 4 < b.additional_registers@.len() {
                match b.additional_registers@[idx - 4] {
                    RegisterValue::Parsed(k) => reads_register(
                        o,
                        idx,
                        elem_tpe,
                        k.tpe@,
                        |v: ValueView| v == value::literal_view(k.v),
                    ),
                    RegisterValue::Invalid => o.res == Err::<ValueView, ErrorView>(
                        ErrorView::NotFound(Missing::Register(idx as u8)),
                    ),
                }
            } else {
                o.res == Ok::<ValueView, ErrorView>(ValueView::Opt(None))
            }
        }),
{
}

/// What `getReg` does when it is not called with an index on a box: without an
/// argument, with one that is no index, with an index that no register has, on
/// what is no box. They are looked at in this order.
pub proof fn law_get_reg_needs_an_index_and_a_box(
    obj: ValueView,
    args: Seq<ValueView>,
    elem_tpe: SType,
    ctx: Context,
    lim: int,
    c: int,
)
    requires
        c + 50 <= lim,
        ctx.tree_version.version >= 3,
    ensures
        ({
            let o = sbox::get_reg_outcome(obj, args, elem_tpe, ctx, lim, c);
            &&& o.cost == c + 50
            &&& args.len() == 0 ==> o.res == Err::<ValueView, ErrorView>(
                ErrorView::NotFound(Missing::RegisterIndex),
            )
            &&& args.len() > 0 ==> match args[0] {
                ValueView::Int(idx) => if idx < 0 || idx > 9 {
                    o.res == Ok::<ValueView, ErrorView>(ValueView::Opt(None))
                } else {
                    !(obj is CBox) ==> o.res == Err::<ValueView, ErrorView>(
                        ErrorView::TryExtractFrom(Expected::Box, obj),
                    )
                },
                v => o.res == Err::<ValueView, ErrorView>(
                    ErrorView::TryExtractFrom(Expected::Int, v),
                ),
            }
        }),
{
}

/// `getReg` sees nothing of the context but the version: on the same object it
/// gives the same in any context of the same version, whatever the box of the
/// context is.
pub proof fn law_get_reg_does_not_see_the_context(
    obj: ValueView,
    args: Seq<ValueView>,
    elem_tpe: SType,
    ctx: Context,
    other: Context,
    lim: int,
    c: int,
)
    requires
        ctx.tree_version == other.tree_version,
    ensures
        sbox::get_reg_outcome(obj, args, elem_tpe, ctx, lim, c) == sbox::get_reg_outcome(
            obj,
            args,
            elem_tpe,
            other,
            lim,
            c,
        ),
{
}

/// `obj.getReg[T](i)` is the register `i` of the box that `obj` evaluates to.
pub proof fn law_register_is_that_of_the_object(
    m: MethodCall,
    env: EnvView,
    ctx: Context,
    lim: int,
    c: int,
    b: ErgoBox,
    idx: i32,
    c1: int,
    c2: int,
)
    requires
        0 <= c,
        c + 4 <= lim <= u64::MAX,
        m.method == SBoxMethod::GetReg,
        m.args@.len() == 1,
        sequence::gives(*m.obj, env, ctx, lim, c + 4, ValueView::CBox(b), c1),
        sequence::gives(m.args@[0], env, ctx, lim, c1, ValueView::Int(idx), c2),
        c2 + 50 <= lim,
        ctx.tree_version.version >= 3,
        4 <= idx <= 9,
    ensures
        ({
            let o = semantics::expr_outcome(Expr::MethodCall(m), env, ctx, lim, c);
            &&& o.cost == c2 + 50
            &&& if idx - 4 < b.additional_registers@.len() {
                match b.additional_registers@[idx - 4] {
                    RegisterValue::Parsed(k) => reads_register(
                        o,
                        idx,
                        m.elem_tpe,
                        k.tpe@,
                        |v: ValueView| v == value::literal_view(k.v),
                    ),
                    RegisterValue::Invalid => o.res == Err::<ValueView, ErrorView>(
                        ErrorView::NotFound(Missing::Register(idx as u8)),
                    ),
                }
            } else {
                o.res == Ok::<ValueView, ErrorView>(ValueView::Opt(None))
            }
        }),
{
    let vals = seq![ValueView::Int(idx)];
    let costs = seq![c1, c2];
    assert(sequence::chain(m.args@, 1, env, ctx, lim, vals, costs));
    sequence::law_method_is_called_on_its_object(
        m,
        env,
        ctx,
        lim,
        c,
        ValueView::CBox(b),
        vals,
        costs,
    );
    law_added_registers(b, vals, idx, m.elem_tpe, ctx, lim, c2);
}

/// From R4 on the registers of a box are those that were added to it, in their
/// order, each with its type and its value.
pub proof fn law_registers_stand_in_their_order(b: ErgoBox, id: int)
    requires
        id >= 4,
    ensures
        id - 4 >= b.additional_registers@.len() ==> sbox::register(b, id) == Ok::<
            Option<(STypeView, ValueView)>,
            (),
        >(None),
        id - 4 < b.additional_registers@.len() ==> match b.additional_registers@[id - 4] {
            RegisterValue::Parsed(k) => sbox::register(b, id) == Ok::<
                Option<(STypeView, ValueView)>,
                (),
            >(Some((k.tpe@, value::literal_view(k.v)))),
            RegisterValue::Invalid => sbox::register(b, id) is Err,
        },
{
}

} // verus!
