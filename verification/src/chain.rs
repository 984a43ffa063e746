//! Boxes, transactions and headers, and the context that a script is evaluated in.
use vstd::prelude::*;
use crate::autolykos_solution::BigNat;
use crate::expr::Expr;
use crate::types::SType;

verus! {

/// Sigma proposition that needs no proof.
#[derive(Clone, Copy, PartialEq, Eq, Structural)]
pub enum SigmaBoolean {
    TrivialProp(bool),
}

/// Value of a constant.
pub enum Literal {
    Boolean(bool),
    Byte(i8),
    Int(i32),
    Long(i64),
    SigmaProp(SigmaBoolean),
    CBox(ErgoBox),
    Coll(Vec<Literal>),
    Tup(Vec<Literal>),
    Opt(Option<Box<Literal>>),
}

/// Typed constant.
pub struct Constant {
    pub tpe: SType,
    pub v: Literal,
}

/// Token held by a box.
pub struct Token {
    pub id: Vec<u8>,
    pub amount: u64,
}

/// Content of one of the registers from R4 on.
pub enum RegisterValue {
    Parsed(Constant),
    /// Bytes that do not parse as a constant.
    Invalid,
}

/// A box, with the byte images that belong to it. An image is `None` when the
/// box has no serialized form of that kind.
pub struct ErgoBox {
    pub value: u64,
    pub tokens: Vec<Token>,
    /// R4, R5, ... without gaps.
    pub additional_registers: Vec<RegisterValue>,
    pub creation_height: u32,
    /// Transaction id followed by the output index.
    pub creation_ref: Vec<u8>,
    pub script_bytes: Option<Vec<u8>>,
    pub bytes: Option<Vec<u8>>,
    pub bytes_without_ref: Option<Vec<u8>>,
    pub box_id: Vec<u8>,
}

/// Version of the script language.
#[derive(Clone, Copy, PartialEq, Eq, Structural)]
pub struct ErgoTreeVersion {
    pub version: u8,
}

/// What a script can read.
pub struct Context {
    pub height: i32,
    pub self_box: ErgoBox,
    pub extension: Vec<(u8, Constant)>,
    pub constants: Vec<Constant>,
    pub tree_version: ErgoTreeVersion,
}

/// Script of a box.
pub struct ErgoTree {
    pub version: ErgoTreeVersion,
    /// Whether the constants stand apart from the root.
    pub constant_segregation: bool,
    pub root: Expr,
}

/// Box that is not yet part of a transaction.
pub struct ErgoBoxCandidate {
    pub value: u64,
    pub ergo_tree: ErgoTree,
    pub tokens: Option<Vec<Token>>,
    pub additional_registers: Vec<Constant>,
    pub creation_height: u32,
}

/// Box as an output of a transaction.
pub struct OutputBox {
    pub candidate: ErgoBoxCandidate,
    pub transaction_id: [u8; 32],
    pub index: u16,
}

/// What a transaction needs of a box that it spends.
pub struct SpentBox {
    pub box_id: Vec<u8>,
    pub value: u64,
    pub ergo_tree: ErgoTree,
}

/// Input of a transaction: the spent box and what proves the right to spend it.
pub struct Input {
    pub box_id: Vec<u8>,
    pub proof: Vec<u8>,
    pub extension: Vec<(u8, Constant)>,
}

pub struct Transaction {
    pub inputs: Vec<Input>,
    /// Ids of the boxes that are read and not spent.
    pub data_inputs: Option<Vec<Vec<u8>>>,
    pub output_candidates: Vec<ErgoBoxCandidate>,
}

/// Protocol parameters that are open to the votes of miners.
#[derive(Clone, Copy, PartialEq, Eq, Structural)]
pub struct Parameters {
    pub block_version: i32,
    pub storage_fee_factor: i32,
    pub min_value_per_byte: i32,
    pub max_block_size: i32,
    pub max_block_cost: i32,
    pub token_access_cost: i32,
    pub input_cost: i32,
    pub data_input_cost: i32,
    pub output_cost: i32,
}

/// Solution of the puzzle of a block.
pub struct AutolykosSolution {
    /// Public key of the miner, in compressed form.
    pub miner_pk: Vec<u8>,
    pub pow_onetime_pk: Option<Vec<u8>>,
    pub nonce: Vec<u8>,
    pub pow_distance: Option<BigNat>,
}

/// Header of a block.
pub struct Header {
    pub version: u8,
    pub id: [u8; 32],
    pub parent_id: [u8; 32],
    pub ad_proofs_root: [u8; 32],
    pub state_root: [u8; 33],
    pub transaction_root: [u8; 32],
    pub timestamp: u64,
    pub n_bits: u64,
    pub height: u32,
    pub extension_root: [u8; 32],
    pub autolykos_solution: AutolykosSolution,
    pub votes: [u8; 3],
    pub unparsed_bytes: Vec<u8>,
}

/// State of the chain that a script can see.
pub struct ErgoStateContext {
    /// Header that the pre-header of the next block is taken from.
    pub pre_header: Header,
    /// The last ten headers.
    pub headers: Vec<Header>,
    pub parameters: Parameters,
}

} // verus!
