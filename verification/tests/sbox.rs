use sigma_rust::chain::{
    Constant, Context, ErgoBox, ErgoTreeVersion, Literal, RegisterValue, SigmaBoolean, Token,
};
use sigma_rust::cost::CostAccumulator;
use sigma_rust::env::Env;
use sigma_rust::error::{EvalError, Expected, Missing};
use sigma_rust::expr::{
    Expr, GetVar, GlobalVars, If, MethodCall, PropertyCall, SBoxMethod,
};
use sigma_rust::serialization::SigmaByteReader;
use sigma_rust::types::SType;
use sigma_rust::value::Value;

fn any_box() -> ErgoBox {
    ErgoBox {
        value: 67_500_000_000,
        tokens: vec![
            Token {
                id: vec![3; 32],
                amount: 17,
            },
            Token {
                id: vec![0xf0; 32],
                amount: 1,
            },
        ],
        additional_registers: vec![],
        creation_height: 700_000,
        creation_ref: vec![1; 34],
        script_bytes: Some(vec![0x10, 0xff]),
        bytes: Some(vec![1, 2, 3]),
        bytes_without_ref: Some(vec![1, 2]),
        box_id: vec![9; 32],
    }
}

fn context_with(self_box: ErgoBox) -> Context {
    Context {
        height: 100,
        self_box,
        extension: vec![],
        constants: vec![],
        tree_version: ErgoTreeVersion { version: 3 },
    }
}

fn self_box() -> Box<Expr> {
    Box::new(Expr::GlobalVars(GlobalVars::SelfBox))
}

fn property(method: SBoxMethod) -> Expr {
    Expr::PropertyCall(PropertyCall {
        obj: self_box(),
        method,
    })
}

fn get_reg(args: Vec<Expr>, elem_tpe: SType) -> Expr {
    Expr::MethodCall(MethodCall {
        obj: self_box(),
        method: SBoxMethod::GetReg,
        args,
        elem_tpe,
    })
}

fn constant(n: i32) -> Constant {
    Constant {
        tpe: SType::SInt,
        v: Literal::Int(n),
    }
}

fn run<'a>(e: &'a Expr, ctx: &'a Context) -> (Result<Value<'a>, EvalError<'a>>, u64) {
    let mut cost = CostAccumulator::new(None);
    let r = e.eval(&Env::empty(), ctx, &mut cost);
    (r, cost.jit_cost_value())
}

fn as_long(v: &Value) -> i64 {
    match v {
        Value::Long(n) => *n,
        _ => panic!("no Long"),
    }
}

fn as_bytes(v: &Value) -> Vec<i8> {
    match v {
        Value::Coll(items) => items
            .iter()
            .map(|b| match b {
                Value::Byte(b) => *b,
                _ => panic!("no Byte"),
            })
            .collect(),
        _ => panic!("no collection"),
    }
}

fn as_tokens(v: &Value) -> Vec<(Vec<i8>, i64)> {
    match v {
        Value::Coll(items) => items
            .iter()
            .map(|t| match t {
                Value::Tup(pair) => (as_bytes(&pair[0]), as_long(&pair[1])),
                _ => panic!("no pair"),
            })
            .collect(),
        _ => panic!("no collection"),
    }
}

fn ok<'a>(e: &'a Expr, ctx: &'a Context) -> Value<'a> {
    match run(e, ctx).0 {
        Ok(v) => v,
        Err(_) => panic!("evaluation failed"),
    }
}

fn option_long(e: &Expr, ctx: &Context) -> Option<i64> {
    match ok(e, ctx) {
        Value::Opt(Some(v)) => Some(as_long(&v)),
        Value::Opt(None) => None,
        _ => panic!("no option"),
    }
}

fn hx(s: &str) -> Vec<u8> {
    (0..s.len())
        .step_by(2)
        .map(|i| u8::from_str_radix(&s[i..i + 2], 16).unwrap())
        .collect()
}

// A box on the wire whose tree is either a public key or `sigmaProp` of a
// segregated constant, and whose registers are group elements. The id is not
// part of the bytes.
fn read_box(r: &mut SigmaByteReader, wire: &[u8]) -> ErgoBox {
    let start = r.position();
    let value = r.get_u64().unwrap();
    let tree_len = if wire[r.position()] == 0x00 { 36 } else { 7 };
    let script_bytes = r.get_bytes(tree_len).unwrap();
    let creation_height = r.get_u32().unwrap();
    let token_count = r.get_u8().unwrap();
    let mut tokens = vec![];
    for _ in 0..token_count {
        let id = r.get_bytes(32).unwrap();
        let amount = r.get_u64().unwrap();
        tokens.push(Token { id, amount });
    }
    let register_count = r.get_u8().unwrap();
    let mut canonical = wire[start..r.position()].to_vec();
    let mut additional_registers = vec![];
    for _ in 0..register_count {
        assert_eq!(r.get_u8().unwrap(), 0x07);
        let mut element = r.get_bytes(33).unwrap();
        if element[0] == 0 {
            // every form of the point at infinity stands for one element
            element = vec![0; 33];
        }
        canonical.push(0x07);
        canonical.extend_from_slice(&element);
        additional_registers.push(RegisterValue::Invalid);
    }
    let mut creation_ref = r.get_bytes(32).unwrap();
    creation_ref.extend_from_slice(&r.get_u16().unwrap().to_be_bytes());
    ErgoBox {
        value,
        tokens,
        additional_registers,
        creation_height,
        creation_ref,
        script_bytes: Some(script_bytes),
        bytes: Some(wire[start..r.position()].to_vec()),
        bytes_without_ref: Some(canonical),
        box_id: vec![0; 32],
    }
}

fn read_type(r: &mut SigmaByteReader) -> SType {
    match r.get_u8().unwrap() {
        0x01 => SType::SBoolean,
        0x04 => SType::SInt,
        0x05 => SType::SLong,
        0x63 => SType::SBox,
        t => panic!("type {t:#x}"),
    }
}

fn read_method(r: &mut SigmaByteReader) -> SBoxMethod {
    assert_eq!(r.get_u8().unwrap(), 0x63);
    match r.get_u8().unwrap() {
        1 => SBoxMethod::Value,
        2 => SBoxMethod::PropositionBytes,
        3 => SBoxMethod::Bytes,
        4 => SBoxMethod::BytesWithoutRef,
        5 => SBoxMethod::Id,
        6 => SBoxMethod::CreationInfo,
        7 => SBoxMethod::GetRegV5,
        8 => SBoxMethod::Tokens,
        19 => SBoxMethod::GetReg,
        m => panic!("method {m}"),
    }
}

fn read_expr(r: &mut SigmaByteReader) -> Expr {
    match r.get_u8().unwrap() {
        0x73 => Expr::ConstPlaceholder(r.get_u32().unwrap()),
        0x95 => {
            let condition = Box::new(read_expr(r));
            let true_branch = Box::new(read_expr(r));
            let false_branch = Box::new(read_expr(r));
            Expr::If(If {
                condition,
                true_branch,
                false_branch,
            })
        }
        0xa7 => Expr::GlobalVars(GlobalVars::SelfBox),
        0xdb => {
            let method = read_method(r);
            let obj = Box::new(read_expr(r));
            Expr::PropertyCall(PropertyCall { obj, method })
        }
        0xdc => {
            let method = read_method(r);
            let obj = Box::new(read_expr(r));
            let n = r.get_u32().unwrap();
            let args = (0..n).map(|_| read_expr(r)).collect();
            let elem_tpe = match method {
                SBoxMethod::GetReg => read_type(r),
                _ => SType::STypeVar("T".to_string()),
            };
            Expr::MethodCall(MethodCall {
                obj,
                method,
                args,
                elem_tpe,
            })
        }
        0xe3 => {
            let var_id = r.get_u8().unwrap();
            let var_tpe = read_type(r);
            Expr::GetVar(GetVar { var_id, var_tpe })
        }
        0xe4 => Expr::OptionGet(Box::new(read_expr(r))),
        0xe6 => Expr::OptionIsDefined(Box::new(read_expr(r))),
        op => panic!("operation {op:#x}"),
    }
}

// A tree with segregated constants: its root and the constants.
fn parse_tree(hex: &str) -> (Expr, Vec<Constant>) {
    let bytes = hx(hex);
    let mut r = SigmaByteReader::from_bytes(&bytes);
    let header = r.get_u8().unwrap();
    if header & 0x08 != 0 {
        let size = r.get_u32().unwrap() as usize;
        assert_eq!(r.position() + size, bytes.len());
    }
    let n = r.get_u32().unwrap();
    let mut constants = vec![];
    for _ in 0..n {
        let tpe = read_type(&mut r);
        let v = match &tpe {
            SType::SBoolean => Literal::Boolean(r.get_u8().unwrap() != 0),
            SType::SBox => Literal::CBox(read_box(&mut r, &bytes)),
            _ => panic!("constant"),
        };
        constants.push(Constant { tpe, v });
    }
    let expr = read_expr(&mut r);
    assert_eq!(r.position(), bytes.len());
    (expr, constants)
}

// SELF with exactly R4 = Long(7) and variable 1 = `idx`.
fn ctx_with_r4_long7_and_var1(idx: i32, constants: Vec<Constant>) -> Context {
    let b = ErgoBox {
        additional_registers: vec![RegisterValue::Parsed(Constant {
            tpe: SType::SLong,
            v: Literal::Long(7),
        })],
        ..any_box()
    };
    Context {
        extension: vec![(1, constant(idx))],
        constants,
        ..context_with(b)
    }
}

#[test]
fn eval_box_value() {
    let expr = property(SBoxMethod::Value);
    let ctx = context_with(any_box());
    assert_eq!(as_long(&ok(&expr, &ctx)), 67_500_000_000);
}

#[test]
fn eval_box_signed_view_u64() {
    fn ctx_with_self_box(bytes_hex: &str) -> Context {
        let bytes = hx(bytes_hex);
        let mut r = SigmaByteReader::from_bytes(&bytes);
        let b = read_box(&mut r, &bytes);
        assert_eq!(r.position(), bytes.len());
        context_with(b)
    }
    let value_expr = property(SBoxMethod::Value);
    let r0_expr = Expr::OptionGet(Box::new(get_reg(
        vec![Expr::Const(constant(0))],
        SType::SLong,
    )));
    let tokens_expr = property(SBoxMethod::Tokens);

    // box value = 2^63 → SELF.value / SELF.R0[Long].get = Long(-2^63)
    let ctx = ctx_with_self_box("808080808080808080010008cd0279be667ef9dcbbac55a06295ce870b07029bfcdb2dce28d959f2815b16f81798000000000000000000000000000000000000000000000000000000000000000000000000");
    assert_eq!(as_long(&ok(&value_expr, &ctx)), i64::MIN);
    assert_eq!(as_long(&ok(&r0_expr, &ctx)), i64::MIN);

    // box value = u64::MAX → Long(-1)
    let ctx = ctx_with_self_box("ffffffffffffffffff010008cd0279be667ef9dcbbac55a06295ce870b07029bfcdb2dce28d959f2815b16f81798000000000000000000000000000000000000000000000000000000000000000000000000");
    assert_eq!(as_long(&ok(&value_expr, &ctx)), -1i64);
    assert_eq!(as_long(&ok(&r0_expr, &ctx)), -1i64);

    // token amount = 2^63 → SELF.tokens(0)._2 = Long(-2^63)
    let ctx = ctx_with_self_box("c0843d0008cd0279be667ef9dcbbac55a06295ce870b07029bfcdb2dce28d959f2815b16f81798000107070707070707070707070707070707070707070707070707070707070707078080808080808080800100000000000000000000000000000000000000000000000000000000000000000000");
    assert_eq!(as_tokens(&ok(&tokens_expr, &ctx))[0].1, i64::MIN);

    // token amount = u64::MAX → SELF.tokens(0)._2 = Long(-1)
    let ctx = ctx_with_self_box("c0843d0008cd0279be667ef9dcbbac55a06295ce870b07029bfcdb2dce28d959f2815b16f8179800010707070707070707070707070707070707070707070707070707070707070707ffffffffffffffffff0100000000000000000000000000000000000000000000000000000000000000000000");
    assert_eq!(as_tokens(&ok(&tokens_expr, &ctx))[0].1, -1i64);
}

#[test]
fn eval_box_tokens() {
    let expr = property(SBoxMethod::Tokens);
    let ctx = context_with(any_box());
    assert_eq!(
        as_tokens(&ok(&expr, &ctx)),
        vec![(vec![3; 32], 17), (vec![-16; 32], 1)]
    );
}

#[test]
fn eval_reg_out() {
    let expr = get_reg(vec![Expr::Const(constant(0))], SType::SLong);
    (0..3).for_each(|version| {
        let ctx = Context {
            tree_version: ErgoTreeVersion { version },
            ..context_with(any_box())
        };
        assert!(run(&expr, &ctx).0.is_err())
    });
    let ctx = context_with(any_box());
    assert_eq!(option_long(&expr, &ctx).unwrap(), 67_500_000_000);
}

// Attempt to extract SigmaProp from register of type SLong
#[test]
fn eval_reg_out_wrong_type() {
    let expr = get_reg(vec![Expr::Const(constant(0))], SType::SSigmaProp);
    (0..3).for_each(|version| {
        let ctx = Context {
            tree_version: ErgoTreeVersion { version },
            ..context_with(any_box())
        };
        match run(&expr, &ctx) {
            (
                Err(EvalError::ScriptVersionError {
                    required_version,
                    activated_version,
                }),
                cost,
            ) => {
                assert!(required_version.version == 3);
                assert!(activated_version.version == version);
                assert_eq!(cost, 4 + 10 + 5 + 50);
            }
            _ => panic!("Expected rejection by version"),
        }
    });
    let ctx = context_with(any_box());
    match run(&expr, &ctx).0 {
        Err(EvalError::RegisterType {
            reg_idx,
            expected,
            actual,
        }) => {
            assert_eq!(reg_idx, 0);
            assert!(expected.same(&SType::SSigmaProp));
            assert!(actual.same(&SType::SLong));
        }
        _ => panic!("Expected rejection by type"),
    }
}

#[test]
fn eval_reg_dynamic_index_absent_or_out_of_range_is_none() {
    const GET_REG_LONG: &str = "1b0b00dc6313a701e4e3010405";
    let run_at = |idx: i32| -> Option<i64> {
        let (expr, constants) = parse_tree(GET_REG_LONG);
        let ctx = ctx_with_r4_long7_and_var1(idx, constants);
        option_long(&expr, &ctx)
    };
    assert_eq!(run_at(4), Some(7), "present register of matching type");
    assert_eq!(run_at(5), None, "absent register R5");
    assert_eq!(run_at(10), None, "index beyond R9");
    assert_eq!(run_at(-1), None, "negative index");
    assert_eq!(run_at(1_000_000), None, "index beyond i8 range");

    // The wrong-type boundary stays an error: getReg[Int] over the Long R4.
    const GET_REG_INT: &str = "1b0b00dc6313a701e4e3010404";
    let (expr, constants) = parse_tree(GET_REG_INT);
    let ctx = ctx_with_r4_long7_and_var1(4, constants);
    assert!(
        run(&expr, &ctx).0.is_err(),
        "present register of the wrong type must error"
    );
}

#[test]
fn eval_accessor_method_forms_blessed_vectors() {
    fn run_tree(tree_hex: &str) -> (Expr, Context) {
        let (root, constants) = parse_tree(tree_hex);
        let ctx = Context {
            constants,
            tree_version: ErgoTreeVersion { version: 0 },
            ..context_with(any_box())
        };
        (root, ctx)
    }
    fn bytes_of(root: &Expr, ctx: &Context) -> (Vec<i8>, u64) {
        match run(root, ctx) {
            (Ok(v), cost) => (as_bytes(&v), cost),
            _ => panic!("evaluation failed"),
        }
    }

    // value (99:1)
    let (root, ctx) = run_tree("100163c0843d10010101d1730000000107000000000000000000000000000000000000000000000000000000000000000000111111111111111111111111111111111111111111111111111111111111111100db63017300");
    match run(&root, &ctx) {
        (Ok(value), cost) => {
            assert_eq!(as_long(&value), 1_000_000);
            assert_eq!(cost, 13);
        }
        _ => panic!("evaluation failed"),
    }

    // propositionBytes (99:2) = CP(1)+envelope(4)+ExtractScriptBytes(10)
    let (root, ctx) = run_tree("100163c0843d10010101d1730000000107000000000000000000000000000000000000000000000000000000000000000000111111111111111111111111111111111111111111111111111111111111111100db63027300");
    let (pb, cost) = bytes_of(&root, &ctx);
    assert_eq!(pb, vec![16, 1, 1, 1, -47, 115, 0]);
    assert_eq!(cost, 15);

    // bytes (99:3) — the image that was read. CP(1)+envelope(4)+ExtractBytes(12)
    let (root, ctx) = run_tree("100163c0843d10010101d173000000010700aaaaaaaaaaaaaaaaaaaaaaaaaaaaaaaaaaaaaaaaaaaaaaaaaaaaaaaaaaaaaaaa111111111111111111111111111111111111111111111111111111111111111100db63037300");
    let (bytes, cost) = bytes_of(&root, &ctx);
    assert_eq!(
        bytes,
        vec![
            -64, -124, 61, 16, 1, 1, 1, -47, 115, 0, 0, 0, 1, 7, 0, -86, -86, -86, -86, -86, -86,
            -86, -86, -86, -86, -86, -86, -86, -86, -86, -86, -86, -86, -86, -86, -86, -86, -86,
            -86, -86, -86, -86, -86, -86, -86, -86, -86, 17, 17, 17, 17, 17, 17, 17, 17, 17, 17,
            17, 17, 17, 17, 17, 17, 17, 17, 17, 17, 17, 17, 17, 17, 17, 17, 17, 17, 17, 17, 17, 17,
            0
        ]
    );
    assert_eq!(cost, 17);

    // bytesWithoutRef (99:4) — the canonical image without the reference.
    // CP(1)+envelope(4)+ExtractBytesWithNoRef(12)
    let (root, ctx) = run_tree("100163c0843d10010101d173000000010700aaaaaaaaaaaaaaaaaaaaaaaaaaaaaaaaaaaaaaaaaaaaaaaaaaaaaaaaaaaaaaaa111111111111111111111111111111111111111111111111111111111111111100db63047300");
    let (bwr, cost) = bytes_of(&root, &ctx);
    assert_eq!(
        bwr,
        vec![
            -64, -124, 61, 16, 1, 1, 1, -47, 115, 0, 0, 0, 1, 7, 0, 0, 0, 0, 0, 0, 0, 0, 0, 0, 0,
            0, 0, 0, 0, 0, 0, 0, 0, 0, 0, 0, 0, 0, 0, 0, 0, 0, 0, 0, 0, 0, 0
        ]
    );
    assert_eq!(cost, 17);

    // id (99:5). CP(1)+envelope(4)+ExtractId(12)
    let (root, mut ctx) = run_tree("100163c0843d10010101d173000000010700aaaaaaaaaaaaaaaaaaaaaaaaaaaaaaaaaaaaaaaaaaaaaaaaaaaaaaaaaaaaaaaa111111111111111111111111111111111111111111111111111111111111111100db63057300");
    // the hash of the image, which the box is given along with it
    match &mut ctx.constants[0].v {
        Literal::CBox(b) => {
            b.box_id = hx("893d9e5a43fdd36173a28f8af4037d87d10c7d55bc3cf390ea794143aac1f5ac")
        }
        _ => unreachable!(),
    }
    let (id, cost) = bytes_of(&root, &ctx);
    assert_eq!(
        id,
        vec![
            -119, 61, -98, 90, 67, -3, -45, 97, 115, -94, -113, -118, -12, 3, 125, -121, -47, 12,
            125, 85, -68, 60, -13, -112, -22, 121, 65, 67, -86, -63, -11, -84
        ]
    );
    assert_eq!(cost, 17);

    // creationInfo (99:6) — (height, txid‖index bytes). CP(1)+envelope(4)+ExtractCreationInfo(16)
    let (root, ctx) = run_tree("100163c0843d10010101d1730000000107000000000000000000000000000000000000000000000000000000000000000000111111111111111111111111111111111111111111111111111111111111111100db63067300");
    match run(&root, &ctx) {
        (Ok(Value::Tup(ci)), cost) => {
            assert_eq!(ci.len(), 2);
            assert!(matches!(ci[0], Value::Int(0)));
            assert_eq!(
                as_bytes(&ci[1]),
                vec![
                    17, 17, 17, 17, 17, 17, 17, 17, 17, 17, 17, 17, 17, 17, 17, 17, 17, 17, 17, 17,
                    17, 17, 17, 17, 17, 17, 17, 17, 17, 17, 17, 17, 0, 0
                ]
            );
            assert_eq!(cost, 21);
        }
        _ => panic!("evaluation failed"),
    }
}

#[test]
fn eval_getregv5_parses_but_does_not_eval() {
    // { SELF.getRegV5(getVar[Int](1).get) } — live, must error at eval.
    let (expr, constants) = parse_tree("1b0a00dc6307a701e4e30104");
    let ctx = ctx_with_r4_long7_and_var1(4, constants);
    assert!(run(&expr, &ctx).0.is_err());

    // { if (true) true else SELF.getRegV5(getVar[Int](1).get).isDefined }
    // — dead branch, the tree must parse and evaluate to true.
    let (expr, constants) = parse_tree("1b1402010101019573007301e6dc6307a701e4e30104");
    let ctx = ctx_with_r4_long7_and_var1(4, constants);
    assert!(matches!(run(&expr, &ctx).0, Ok(Value::Boolean(true))));
}

#[test]
fn mandatory_registers() {
    let bytes_tpe = || SType::SColl(Box::new(SType::SByte));
    let ctx = context_with(any_box());
    let read = |idx: i32, tpe: SType, check: fn(&Value) -> bool| {
        let expr = get_reg(vec![Expr::Const(constant(idx))], tpe);
        let r = run(&expr, &ctx);
        match r.0 {
            Ok(Value::Opt(Some(v))) => check(&v),
            _ => false,
        }
    };
    assert!(read(1, bytes_tpe(), |v| as_bytes(v) == vec![16, -1]));
    assert!(read(
        2,
        SType::SColl(Box::new(SType::STuple(vec![bytes_tpe(), SType::SLong]))),
        |v| as_tokens(v).len() == 2
    ));
    assert!(read(
        3,
        SType::STuple(vec![SType::SInt, bytes_tpe()]),
        |v| match v {
            Value::Tup(ci) => matches!(ci[0], Value::Int(700_000)),
            _ => false,
        }
    ));
}

#[test]
fn out_of_range_index_does_not_look_at_the_object() {
    let expr = Expr::MethodCall(MethodCall {
        obj: Box::new(Expr::GlobalVars(GlobalVars::Height)),
        method: SBoxMethod::GetReg,
        args: vec![Expr::Const(constant(10))],
        elem_tpe: SType::SLong,
    });
    let ctx = context_with(any_box());
    assert!(matches!(run(&expr, &ctx).0, Ok(Value::Opt(None))));
}

#[test]
fn get_reg_errors() {
    let ctx = context_with(any_box());
    // no index
    let expr = get_reg(vec![], SType::SLong);
    match run(&expr, &ctx).0 {
        Err(e) => {
            assert!(matches!(e, EvalError::NotFound(Missing::RegisterIndex)));
            assert_eq!(e.message(), Some("register index is missing".to_string()));
        }
        Ok(_) => panic!("register without an index"),
    }
    // an index that is no Int
    let expr = get_reg(
        vec![Expr::Const(Constant {
            tpe: SType::SSigmaProp,
            v: Literal::SigmaProp(SigmaBoolean::TrivialProp(true)),
        })],
        SType::SLong,
    );
    assert!(matches!(
        run(&expr, &ctx).0,
        Err(EvalError::TryExtractFrom(Expected::Int, _))
    ));
    // an object that is no box
    let expr = Expr::MethodCall(MethodCall {
        obj: Box::new(Expr::GlobalVars(GlobalVars::Height)),
        method: SBoxMethod::GetReg,
        args: vec![Expr::Const(constant(4))],
        elem_tpe: SType::SLong,
    });
    assert!(matches!(
        run(&expr, &ctx).0,
        Err(EvalError::TryExtractFrom(Expected::Box, Value::Int(100)))
    ));
    // a register that cannot be read
    let ctx = context_with(ErgoBox {
        additional_registers: vec![RegisterValue::Invalid],
        ..any_box()
    });
    let expr = get_reg(vec![Expr::Const(constant(4))], SType::SLong);
    assert!(matches!(
        run(&expr, &ctx).0,
        Err(EvalError::NotFound(Missing::Register(4)))
    ));
}

#[test]
fn methods_charge_before_they_look() {
    let costs = vec![
        (SBoxMethod::Value, 8),
        (SBoxMethod::PropositionBytes, 10),
        (SBoxMethod::Bytes, 12),
        (SBoxMethod::BytesWithoutRef, 12),
        (SBoxMethod::Id, 12),
        (SBoxMethod::CreationInfo, 16),
        (SBoxMethod::Tokens, 15),
    ];
    let ctx = context_with(any_box());
    for (method, amount) in costs {
        // on a box
        let on_box = property(method);
        let (r, cost) = run(&on_box, &ctx);
        assert!(r.is_ok());
        assert_eq!(cost, 4 + 10 + amount);
        // on something else
        let on_int = Expr::PropertyCall(PropertyCall {
            obj: Box::new(Expr::GlobalVars(GlobalVars::Height)),
            method,
        });
        let (r, cost) = run(&on_int, &ctx);
        assert!(matches!(
            r,
            Err(EvalError::TryExtractFrom(Expected::Box, _))
        ));
        assert_eq!(cost, 4 + 26 + amount);
        // over the limit
        let mut cost = CostAccumulator::new(Some(4 + 26 + amount - 1));
        let r = on_int.eval(&Env::empty(), &ctx, &mut cost);
        assert!(matches!(r, Err(EvalError::CostLimitExceeded)));
        assert_eq!(cost.jit_cost_value(), 4 + 26 + amount);
    }
}

#[test]
fn box_without_images() {
    let ctx = context_with(ErgoBox {
        script_bytes: None,
        bytes: None,
        bytes_without_ref: None,
        ..any_box()
    });
    for method in [
        SBoxMethod::PropositionBytes,
        SBoxMethod::Bytes,
        SBoxMethod::BytesWithoutRef,
    ] {
        assert!(matches!(
            run(&property(method), &ctx).0,
            Err(EvalError::NotFound(Missing::BoxBytes))
        ));
    }
    let expr = get_reg(
        vec![Expr::Const(constant(1))],
        SType::SColl(Box::new(SType::SByte)),
    );
    assert!(matches!(
        run(&expr, &ctx).0,
        Err(EvalError::NotFound(Missing::Register(1)))
    ));
}

#[test]
fn context_variables() {
    let ctx = ctx_with_r4_long7_and_var1(4, vec![]);
    let get_var = |var_id: u8, var_tpe: SType| Expr::GetVar(GetVar { var_id, var_tpe });
    assert!(matches!(
        run(&get_var(2, SType::SInt), &ctx).0,
        Ok(Value::Opt(None))
    ));
    let e = Expr::OptionGet(Box::new(get_var(2, SType::SInt)));
    assert!(matches!(
        run(&e, &ctx).0,
        Err(EvalError::NotFound(Missing::OptionValue))
    ));
    assert!(matches!(
        run(&get_var(1, SType::SLong), &ctx).0,
        Err(EvalError::VariableType { var_id: 1, .. })
    ));
    assert!(matches!(
        run(&Expr::ConstPlaceholder(0), &ctx).0,
        Err(EvalError::NotFound(Missing::Constant(0)))
    ));
}
