//! Expressions of the language.
use vstd::prelude::*;
use crate::chain::Constant;
use crate::types::SType;

verus! {

/// Parameter of a lambda: the id it binds and its declared type.
pub struct FuncArg {
    pub idx: u32,
    pub tpe: SType,
}

/// Lambda expression.
pub struct FuncValue {
    pub args: Vec<FuncArg>,
    pub body: Box<Expr>,
}

/// Application of a function to arguments.
pub struct Apply {
    pub func: Box<Expr>,
    pub args: Vec<Expr>,
}

/// Tuple of expressions.
pub struct Tuple {
    pub items: Vec<Expr>,
}

/// Definition inside a block. `tpe_args` is empty for a plain value and names
/// the type parameters of a polymorphic definition.
pub struct ValDef {
    pub id: u32,
    pub tpe_args: Vec<String>,
    pub rhs: Box<Expr>,
}

/// Definitions that are in scope of a result expression.
pub struct BlockValue {
    pub items: Vec<ValDef>,
    pub result: Box<Expr>,
}

/// Use of a bound value.
pub struct ValUse {
    pub val_id: u32,
    pub tpe: SType,
}

#[derive(Clone, Copy, PartialEq, Eq, Structural)]
pub enum BinOpKind {
    Plus,
    Eq,
}

pub struct BinOp {
    pub kind: BinOpKind,
    pub left: Box<Expr>,
    pub right: Box<Expr>,
}

/// Collection of expressions of one type.
pub struct Collection {
    pub elem_tpe: SType,
    pub items: Vec<Expr>,
}

/// `input.map(mapper)`
pub struct CollMap {
    pub input: Box<Expr>,
    pub mapper: Box<Expr>,
}

/// `if (condition) true_branch else false_branch`
pub struct If {
    pub condition: Box<Expr>,
    pub true_branch: Box<Expr>,
    pub false_branch: Box<Expr>,
}

/// Variable of the context extension, read at a type.
pub struct GetVar {
    pub var_id: u8,
    pub var_tpe: SType,
}

#[derive(Clone, Copy, PartialEq, Eq, Structural)]
pub enum GlobalVars {
    Height,
    SelfBox,
}

/// Methods of a box.
#[derive(Clone, Copy, PartialEq, Eq, Structural)]
pub enum SBoxMethod {
    Value,
    PropositionBytes,
    Bytes,
    BytesWithoutRef,
    Id,
    CreationInfo,
    /// `getReg` of the first script versions: known to the method table, never evaluated.
    GetRegV5,
    Tokens,
    GetReg,
}

/// Method of a box without arguments.
pub struct PropertyCall {
    pub obj: Box<Expr>,
    pub method: SBoxMethod,
}

/// Method of a box with arguments. `elem_tpe` is the `T` of `getReg[T]`, whose
/// result is an `Option[T]`.
pub struct MethodCall {
    pub obj: Box<Expr>,
    pub method: SBoxMethod,
    pub args: Vec<Expr>,
    pub elem_tpe: SType,
}

pub enum Expr {
    Const(Constant),
    ConstPlaceholder(u32),
    GlobalVars(GlobalVars),
    ValUse(ValUse),
    BlockValue(BlockValue),
    FuncValue(FuncValue),
    Apply(Apply),
    Tuple(Tuple),
    BinOp(BinOp),
    Collection(Collection),
    CollMap(CollMap),
    If(If),
    GetVar(GetVar),
    OptionGet(Box<Expr>),
    OptionIsDefined(Box<Expr>),
    PropertyCall(PropertyCall),
    MethodCall(MethodCall),
}

} // verus!
