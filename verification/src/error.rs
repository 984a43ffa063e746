//! Errors of evaluation.
use vstd::prelude::*;
use vstd::string::StringExecFns;
use crate::chain::ErgoTreeVersion;
use crate::text;
use crate::types::{SType, STypeView};
use crate::value::{Value, ValueView};

verus! {

/// Kind of value that an operation needed.
#[derive(Clone, Copy, PartialEq, Eq, Structural)]
pub enum Expected {
    Boolean,
    Int,
    Box,
    Coll,
    Option,
    Lambda,
}

#[derive(Clone, Copy, PartialEq, Eq, Structural)]
pub enum Missing {
    /// No value is bound to this id.
    ValId(u32),
    /// No constant has this index.
    Constant(u32),
    /// `getReg` was called without an index.
    RegisterIndex,
    /// The register with this id does not hold a readable constant.
    Register(u8),
    /// The method has no evaluation.
    Method,
    /// The option is empty.
    OptionValue,
    /// The box has no serialized form.
    BoxBytes,
}

pub enum EvalError<'a> {
    /// The accumulated cost is above the limit.
    CostLimitExceeded,
    /// A tuple with a number of items other than two.
    TupleArity(usize),
    /// Application of a lambda whose parameter type is a type variable.
    UnknownArgType { tpe: &'a SType, idx: u32 },
    /// The function of an application is no lambda.
    NotALambda(Value<'a>),
    /// A register holds a value of another type.
    RegisterType { reg_idx: i32, expected: &'a SType, actual: SType },
    /// A context variable holds a value of another type.
    VariableType { var_id: u8, var_tpe: &'a SType, found: &'a SType },
    /// A value of another kind than the operation needs.
    TryExtractFrom(Expected, Value<'a>),
    /// Operands that the operation does not take.
    Operands(Value<'a>, Value<'a>),
    /// Result outside of the range of its type.
    ArithmeticOverflow,
    NotFound(Missing),
    ScriptVersionError { required_version: ErgoTreeVersion, activated_version: ErgoTreeVersion },
}

pub enum ErrorView {
    CostLimitExceeded,
    TupleArity(nat),
    UnknownArgType { tpe: STypeView, idx: u32 },
    NotALambda(ValueView),
    RegisterType { reg_idx: i32, expected: STypeView, actual: STypeView },
    VariableType { var_id: u8, var_tpe: STypeView, found: STypeView },
    TryExtractFrom(Expected, ValueView),
    Operands(ValueView, ValueView),
    ArithmeticOverflow,
    NotFound(Missing),
    ScriptVersionError { required_version: ErgoTreeVersion, activated_version: ErgoTreeVersion },
}

pub open spec fn error_view(e: EvalError) -> ErrorView {
    match e {
        EvalError::CostLimitExceeded => ErrorView::CostLimitExceeded,
        EvalError::TupleArity(n) => ErrorView::TupleArity(n as nat),
        EvalError::UnknownArgType { tpe, idx } => ErrorView::UnknownArgType { tpe: tpe@, idx },
        EvalError::NotALambda(v) => ErrorView::NotALambda(v@),
        EvalError::RegisterType { reg_idx, expected, actual } => ErrorView::RegisterType {
            reg_idx,
            expected: expected@,
            actual: actual@,
        },
        EvalError::VariableType { var_id, var_tpe, found } => ErrorView::VariableType {
            var_id,
            var_tpe: var_tpe@,
            found: found@,
        },
        EvalError::TryExtractFrom(expected, found) => ErrorView::TryExtractFrom(
            expected,
            found@,
        ),
        EvalError::Operands(a, b) => ErrorView::Operands(a@, b@),
        EvalError::ArithmeticOverflow => ErrorView::ArithmeticOverflow,
        EvalError::NotFound(m) => ErrorView::NotFound(m),
        EvalError::ScriptVersionError { required_version, activated_version } =>
            ErrorView::ScriptVersionError { required_version, activated_version },
    }
}

impl<'a> View for EvalError<'a> {
    type V = ErrorView;

    open spec fn view(&self) -> ErrorView {
        error_view(*self)
    }
}

/// Text of an error that needs no more than a number to be told.
pub open spec fn message(e: ErrorView) -> Option<Seq<char>> {
    match e {
        ErrorView::TupleArity(n) => Some(
            "Tuple: sigma-state allows only 2-element tuples, got "@ + text::decimal(n),
        ),
        ErrorView::NotFound(Missing::RegisterIndex) => Some("register index is missing"@),
        _ => None,
    }
}

impl<'a> EvalError<'a> {
    /// The text of this error, if it needs no more than a number to be told.
    pub fn message(&self) -> (r: Option<String>)
        ensures
            match (r, message(self@)) {
                (Some(msg), Some(text)) => msg@ == text,
                (None, None) => true,
                _ => false,
            },
    {
        match self {
            EvalError::TupleArity(n) => {
                let mut msg = String::from_str(
                    "Tuple: sigma-state allows only 2-element tuples, got ",
                );
                text::append_decimal(&mut msg, *n as u64);
                Some(msg)
            },
            EvalError::NotFound(Missing::RegisterIndex) => Some(
                String::from_str("register index is missing"),
            ),
            _ => None,
        }
    }
}

} // verus!
