//! Types of the expression language.
use vstd::prelude::*;

verus! {

/// Type of a value or of an expression.
pub enum SType {
    SBoolean,
    SByte,
    SInt,
    SLong,
    SSigmaProp,
    SBox,
    SColl(Box<SType>),
    SOption(Box<SType>),
    STuple(Vec<SType>),
    /// Type variable of a polymorphic definition, known by its name.
    STypeVar(String),
}

/// What an [`SType`] stands for: the same tree over mathematical sequences.
pub enum STypeView {
    SBoolean,
    SByte,
    SInt,
    SLong,
    SSigmaProp,
    SBox,
    SColl(Box<STypeView>),
    SOption(Box<STypeView>),
    STuple(Seq<STypeView>),
    STypeVar(Seq<char>),
}

pub open spec fn stype_view(t: SType) -> STypeView
    decreases t,
{
    match t {
        SType::SBoolean => STypeView::SBoolean,
        SType::SByte => STypeView::SByte,
        SType::SInt => STypeView::SInt,
        SType::SLong => STypeView::SLong,
        SType::SSigmaProp => STypeView::SSigmaProp,
        SType::SBox => STypeView::SBox,
        SType::SColl(elem) => STypeView::SColl(Box::new(stype_view(*elem))),
        SType::SOption(elem) => STypeView::SOption(Box::new(stype_view(*elem))),
        SType::STuple(items) => STypeView::STuple(
            Seq::new(
                items@.len(),
                |i: int|
                    if 0 <= i < items@.len() {
                        stype_view(items@[i])
                    } else {
                        arbitrary()
                    },
            ),
        ),
        SType::STypeVar(name) => STypeView::STypeVar(name@),
    }
}

impl View for SType {
    type V = STypeView;

    open spec fn view(&self) -> STypeView {
        stype_view(*self)
    }
}

impl SType {
    /// A copy of this type.
    pub fn duplicate(&self) -> (r: SType)
        ensures
            r@ == self@,
        decreases self,
    {
        match self {
            SType::SBoolean => SType::SBoolean,
            SType::SByte => SType::SByte,
            SType::SInt => SType::SInt,
            SType::SLong => SType::SLong,
            SType::SSigmaProp => SType::SSigmaProp,
            SType::SBox => SType::SBox,
            SType::SColl(elem) => SType::SColl(Box::new(elem.duplicate())),
            SType::SOption(elem) => SType::SOption(Box::new(elem.duplicate())),
            SType::STuple(items) => {
                let mut out: Vec<SType> = Vec::new();
                let mut i: usize = 0;
                while i < items.len()
                    invariant
                        i <= items@.len(),
                        out@.len() == i,
                        forall|j: int| 0 <= j < i ==> (#[trigger] out@[j])@ == items@[j]@,
                        decreases_to!(self => items),
                    decreases items@.len() - i,
                {
                    out.push(items[i].duplicate());
                    i += 1;
                }
                let r = SType::STuple(out);
                assert(r@->STuple_0 =~= self@->STuple_0);
                r
            },
            SType::STypeVar(name) => SType::STypeVar(name.clone()),
        }
    }

    /// Whether two types are the same.
    pub fn same(&self, other: &SType) -> (r: bool)
        ensures
            r == (self@ == other@),
        decreases self,
    {
        match (self, other) {
            (SType::SBoolean, SType::SBoolean) => true,
            (SType::SByte, SType::SByte) => true,
            (SType::SInt, SType::SInt) => true,
            (SType::SLong, SType::SLong) => true,
            (SType::SSigmaProp, SType::SSigmaProp) => true,
            (SType::SBox, SType::SBox) => true,
            (SType::SColl(a), SType::SColl(b)) => a.same(b),
            (SType::SOption(a), SType::SOption(b)) => a.same(b),
            (SType::STuple(a), SType::STuple(b)) => {
                let ghost left = self@->STuple_0;
                let ghost right = other@->STuple_0;
                if a.len() != b.len() {
                    assert(left.len() != right.len());
                    return false;
                }
                let mut i: usize = 0;
                while i < a.len()
                    invariant
                        i <= a@.len(),
                        a@.len() == b@.len(),
                        self@ == STypeView::STuple(left),
                        other@ == STypeView::STuple(right),
                        left.len() == a@.len(),
                        right.len() == a@.len(),
                        forall|j: int| 0 <= j < a@.len() ==> #[trigger] left[j] == a@[j]@,
                        forall|j: int| 0 <= j < a@.len() ==> #[trigger] right[j] == b@[j]@,
                        forall|j: int| 0 <= j < i ==> left[j] == right[j],
                        decreases_to!(self => a),
                    decreases a@.len() - i,
                {
                    if !a[i].same(&b[i]) {
                        assert(left[i as int] != right[i as int]);
                        return false;
                    }
                    i += 1;
                }
                assert(left =~= right);
                true
            },
            (SType::STypeVar(a), SType::STypeVar(b)) => *a == *b,
            _ => false,
        }
    }
}

} // verus!
