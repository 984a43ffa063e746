//! Values that expressions evaluate to.
use vstd::prelude::*;
use crate::chain::{ErgoBox, Literal, SigmaBoolean};
use crate::env::Env;
use crate::expr::FuncValue;

verus! {

/// A lambda together with the environment that it was created in.
pub struct Lambda<'a> {
    pub func: &'a FuncValue,
    pub env: Env<'a>,
}

pub enum Value<'a> {
    Boolean(bool),
    Byte(i8),
    Int(i32),
    Long(i64),
    SigmaProp(SigmaBoolean),
    CBox(&'a ErgoBox),
    Coll(Vec<Value<'a>>),
    Tup(Vec<Value<'a>>),
    Opt(Option<Box<Value<'a>>>),
    Lambda(Lambda<'a>),
}

/// What a [`Value`] stands for. A lambda is its expression and the bindings
/// that it captured.
pub enum ValueView {
    Boolean(bool),
    Byte(i8),
    Int(i32),
    Long(i64),
    SigmaProp(SigmaBoolean),
    CBox(ErgoBox),
    Coll(Seq<ValueView>),
    Tup(Seq<ValueView>),
    Opt(Option<Box<ValueView>>),
    Lambda { func: FuncValue, env: Map<u32, ValueView> },
}

pub open spec fn value_view(v: Value) -> ValueView
    decreases v,
{
    match v {
        Value::Boolean(b) => ValueView::Boolean(b),
        Value::Byte(n) => ValueView::Byte(n),
        Value::Int(n) => ValueView::Int(n),
        Value::Long(n) => ValueView::Long(n),
        Value::SigmaProp(p) => ValueView::SigmaProp(p),
        Value::CBox(b) => ValueView::CBox(*b),
        Value::Coll(items) => ValueView::Coll(
            Seq::new(
                items@.len(),
                |i: int|
                    if 0 <= i < items@.len() {
                        value_view(items@[i])
                    } else {
                        arbitrary()
                    },
            ),
        ),
        Value::Tup(items) => ValueView::Tup(
            Seq::new(
                items@.len(),
                |i: int|
                    if 0 <= i < items@.len() {
                        value_view(items@[i])
                    } else {
                        arbitrary()
                    },
            ),
        ),
        Value::Opt(None) => ValueView::Opt(None),
        Value::Opt(Some(x)) => ValueView::Opt(Some(Box::new(value_view(*x)))),
        Value::Lambda(l) => ValueView::Lambda { func: *l.func, env: bindings(l.env.store@) },
    }
}

/// Bindings of a store: the last entry of an id counts.
pub open spec fn bindings(store: Seq<(u32, Value)>) -> Map<u32, ValueView>
    decreases store,
{
    if store.len() == 0 {
        Map::empty()
    } else {
        bindings(store.drop_last()).insert(store.last().0, value_view(store.last().1))
    }
}

impl<'a> View for Value<'a> {
    type V = ValueView;

    open spec fn view(&self) -> ValueView {
        value_view(*self)
    }
}

pub open spec fn literal_view(l: Literal) -> ValueView
    decreases l,
{
    match l {
        Literal::Boolean(b) => ValueView::Boolean(b),
        Literal::Byte(n) => ValueView::Byte(n),
        Literal::Int(n) => ValueView::Int(n),
        Literal::Long(n) => ValueView::Long(n),
        Literal::SigmaProp(p) => ValueView::SigmaProp(p),
        Literal::CBox(b) => ValueView::CBox(b),
        Literal::Coll(items) => ValueView::Coll(
            Seq::new(
                items@.len(),
                |i: int|
                    if 0 <= i < items@.len() {
                        literal_view(items@[i])
                    } else {
                        arbitrary()
                    },
            ),
        ),
        Literal::Tup(items) => ValueView::Tup(
            Seq::new(
                items@.len(),
                |i: int|
                    if 0 <= i < items@.len() {
                        literal_view(items@[i])
                    } else {
                        arbitrary()
                    },
            ),
        ),
        Literal::Opt(None) => ValueView::Opt(None),
        Literal::Opt(Some(x)) => ValueView::Opt(Some(Box::new(literal_view(*x)))),
    }
}

/// The value of a sequence of wire bytes: a collection of signed bytes.
pub open spec fn bytes_view(bytes: Seq<u8>) -> ValueView {
    ValueView::Coll(Seq::new(bytes.len(), |i: int| ValueView::Byte(signed_byte(bytes[i]))))
}

/// Two's complement reading of a byte.
pub open spec fn signed_byte(b: u8) -> i8 {
    if b < 128 {
        b as i8
    } else {
        (b - 256) as i8
    }
}

/// Two's complement reading of a 64-bit word.
pub open spec fn signed_long(n: u64) -> i64 {
    if n <= i64::MAX {
        n as i64
    } else {
        (n - 0x1_0000_0000_0000_0000) as i64
    }
}

/// Two's complement reading of a 32-bit word.
pub open spec fn signed_int(n: u32) -> i32 {
    if n <= i32::MAX {
        n as i32
    } else {
        (n - 0x1_0000_0000) as i32
    }
}

/// The `Long` that a script sees for an amount: amounts from `2^63` on show as
/// negative numbers.
pub fn as_i64(n: u64) -> (r: i64)
    ensures
        r == signed_long(n),
{
    if n <= 0x7fff_ffff_ffff_ffff {
        n as i64
    } else {
        -((0xffff_ffff_ffff_ffff - n) as i64) - 1
    }
}

/// The `Int` that a script sees for a height.
pub fn as_i32(n: u32) -> (r: i32)
    ensures
        r == signed_int(n),
{
    if n <= 0x7fff_ffff {
        n as i32
    } else {
        -((0xffff_ffff - n) as i32) - 1
    }
}

/// The `Byte` that a script sees for a wire byte.
pub fn as_i8(b: u8) -> (r: i8)
    ensures
        r == signed_byte(b),
{
    if b < 128 {
        b as i8
    } else {
        -((255 - b) as i8) - 1
    }
}

/// The collection of signed bytes that a script sees for wire bytes.
pub fn bytes_value<'a>(bytes: &Vec<u8>) -> (r: Value<'a>)
    ensures
        r@ == bytes_view(bytes@),
{
    let mut out: Vec<Value<'a>> = Vec::new();
    let mut i: usize = 0;
    while i < bytes.len()
        invariant
            i <= bytes@.len(),
            out@.len() == i,
            forall|j: int|
                0 <= j < i ==> (#[trigger] out@[j])@ == ValueView::Byte(signed_byte(bytes@[j])),
        decreases bytes@.len() - i,
    {
        out.push(Value::Byte(as_i8(bytes[i])));
        i += 1;
    }
    let r = Value::Coll(out);
    assert(r@->Coll_0 =~= bytes_view(bytes@)->Coll_0);
    r
}

/// Values of a sequence, item by item.
pub open spec fn views(s: Seq<Value>) -> Seq<ValueView> {
    Seq::new(s.len(), |i: int| value_view(s[i]))
}

impl<'a> Value<'a> {
    /// A copy of this value.
    pub fn duplicate(&self) -> (r: Value<'a>)
        ensures
            r@ == self@,
        decreases self,
    {
        match self {
            Value::Boolean(b) => Value::Boolean(*b),
            Value::Byte(n) => Value::Byte(*n),
            Value::Int(n) => Value::Int(*n),
            Value::Long(n) => Value::Long(*n),
            Value::SigmaProp(p) => Value::SigmaProp(*p),
            Value::CBox(b) => Value::CBox(*b),
            Value::Coll(items) => {
                let r = Value::Coll(Self::duplicate_all(items));
                assert(r@->Coll_0 =~= self@->Coll_0);
                r
            },
            Value::Tup(items) => {
                let r = Value::Tup(Self::duplicate_all(items));
                assert(r@->Tup_0 =~= self@->Tup_0);
                r
            },
            Value::Opt(None) => Value::Opt(None),
            Value::Opt(Some(x)) => Value::Opt(Some(Box::new(x.duplicate()))),
            Value::Lambda(l) => Value::Lambda(Lambda { func: l.func, env: l.env.duplicate() }),
        }
    }

    fn duplicate_all(items: &Vec<Value<'a>>) -> (r: Vec<Value<'a>>)
        ensures
            r@.len() == items@.len(),
            forall|j: int| 0 <= j < items@.len() ==> (#[trigger] r@[j])@ == items@[j]@,
        decreases items,
    {
        let mut out: Vec<Value<'a>> = Vec::new();
        let mut i: usize = 0;
        while i < items.len()
            invariant
                i <= items@.len(),
                out@.len() == i,
                forall|j: int| 0 <= j < i ==> (#[trigger] out@[j])@ == items@[j]@,
            decreases items@.len() - i,
        {
            out.push(items[i].duplicate());
            i += 1;
        }
        out
    }

    /// The value of a literal.
    pub fn from_literal(l: &'a Literal) -> (r: Value<'a>)
        ensures
            r@ == literal_view(*l),
        decreases l,
    {
        match l {
            Literal::Boolean(b) => Value::Boolean(*b),
            Literal::Byte(n) => Value::Byte(*n),
            Literal::Int(n) => Value::Int(*n),
            Literal::Long(n) => Value::Long(*n),
            Literal::SigmaProp(p) => Value::SigmaProp(*p),
            Literal::CBox(b) => Value::CBox(b),
            Literal::Coll(items) => {
                let r = Value::Coll(Self::from_literals(items));
                assert(r@->Coll_0 =~= literal_view(*l)->Coll_0);
                r
            },
            Literal::Tup(items) => {
                let r = Value::Tup(Self::from_literals(items));
                assert(r@->Tup_0 =~= literal_view(*l)->Tup_0);
                r
            },
            Literal::Opt(None) => Value::Opt(None),
            Literal::Opt(Some(x)) => Value::Opt(Some(Box::new(Self::from_literal(x)))),
        }
    }

    fn from_literals(items: &'a Vec<Literal>) -> (r: Vec<Value<'a>>)
        ensures
            r@.len() == items@.len(),
            forall|j: int| 0 <= j < items@.len() ==> (#[trigger] r@[j])@ == literal_view(items@[j]),
        decreases items,
    {
        let mut out: Vec<Value<'a>> = Vec::new();
        let mut i: usize = 0;
        while i < items.len()
            invariant
                i <= items@.len(),
                out@.len() == i,
                forall|j: int| 0 <= j < i ==> (#[trigger] out@[j])@ == literal_view(items@[j]),
            decreases items@.len() - i,
        {
            out.push(Self::from_literal(&items[i]));
            i += 1;
        }
        out
    }
}

} // verus!
