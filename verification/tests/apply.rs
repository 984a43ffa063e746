use sigma_rust::chain::{Constant, Context, ErgoBox, ErgoTreeVersion, Literal};
use sigma_rust::cost::CostAccumulator;
use sigma_rust::env::Env;
use sigma_rust::error::{EvalError, Missing};
use sigma_rust::expr::{
    Apply, BinOp, BinOpKind, BlockValue, CollMap, Collection, Expr, FuncArg, FuncValue, ValDef,
    ValUse,
};
use sigma_rust::serialization::SigmaByteReader;
use sigma_rust::types::SType;
use sigma_rust::value::Value;

fn any_box() -> ErgoBox {
    ErgoBox {
        value: 1_000_000,
        tokens: vec![],
        additional_registers: vec![],
        creation_height: 5,
        creation_ref: vec![0; 34],
        script_bytes: Some(vec![]),
        bytes: None,
        bytes_without_ref: None,
        box_id: vec![0; 32],
    }
}

fn any_context() -> Context {
    Context {
        height: 100,
        self_box: any_box(),
        extension: vec![],
        constants: vec![],
        tree_version: ErgoTreeVersion { version: 3 },
    }
}

fn int_const(n: i32) -> Expr {
    Expr::Const(Constant {
        tpe: SType::SInt,
        v: Literal::Int(n),
    })
}

fn boolean(b: bool) -> Expr {
    Expr::Const(Constant {
        tpe: SType::SBoolean,
        v: Literal::Boolean(b),
    })
}

fn val_use(val_id: u32) -> Expr {
    Expr::ValUse(ValUse {
        val_id,
        tpe: SType::SInt,
    })
}

fn lambda(params: Vec<(u32, SType)>, body: Expr) -> Expr {
    Expr::FuncValue(FuncValue {
        args: params
            .into_iter()
            .map(|(idx, tpe)| FuncArg { idx, tpe })
            .collect(),
        body: Box::new(body),
    })
}

fn apply(func: Expr, args: Vec<Expr>) -> Expr {
    Expr::Apply(Apply {
        func: Box::new(func),
        args,
    })
}

fn bin_op(kind: BinOpKind, left: Expr, right: Expr) -> Expr {
    Expr::BinOp(BinOp {
        kind,
        left: Box::new(left),
        right: Box::new(right),
    })
}

fn val_def(id: u32, rhs: Expr) -> ValDef {
    ValDef {
        id,
        tpe_args: vec![],
        rhs: Box::new(rhs),
    }
}

fn block(items: Vec<ValDef>, result: Expr) -> Expr {
    Expr::BlockValue(BlockValue {
        items,
        result: Box::new(result),
    })
}

fn eval_with_limit<'a>(
    e: &'a Expr,
    ctx: &'a Context,
    limit: Option<u64>,
) -> (Result<Value<'a>, EvalError<'a>>, u64) {
    let mut cost = CostAccumulator::new(limit);
    let r = e.eval(&Env::empty(), ctx, &mut cost);
    (r, cost.jit_cost_value())
}

fn eval_int(e: &Expr, ctx: &Context) -> Option<i32> {
    match eval_with_limit(e, ctx, None).0 {
        Ok(Value::Int(n)) => Some(n),
        _ => None,
    }
}

fn eval_bool(e: &Expr, ctx: &Context) -> Option<bool> {
    match eval_with_limit(e, ctx, None).0 {
        Ok(Value::Boolean(b)) => Some(b),
        _ => None,
    }
}

fn hx(s: &str) -> Vec<u8> {
    (0..s.len())
        .step_by(2)
        .map(|i| u8::from_str_radix(&s[i..i + 2], 16).unwrap())
        .collect()
}

fn read_type(r: &mut SigmaByteReader) -> SType {
    match r.get_u8().unwrap() {
        0x04 => SType::SInt,
        0x67 => {
            let len = r.get_u8().unwrap() as usize;
            SType::STypeVar(String::from_utf8(r.get_bytes(len).unwrap()).unwrap())
        }
        t => panic!("type {t:#x}"),
    }
}

fn read_expr(r: &mut SigmaByteReader) -> Expr {
    match r.get_u8().unwrap() {
        0x72 => val_use(r.get_u32().unwrap()),
        0x73 => Expr::ConstPlaceholder(r.get_u32().unwrap()),
        0x9a => {
            let left = read_expr(r);
            let right = read_expr(r);
            bin_op(BinOpKind::Plus, left, right)
        }
        0xd8 => {
            let n = r.get_u32().unwrap();
            let items = (0..n).map(|_| read_def(r)).collect();
            let result = read_expr(r);
            block(items, result)
        }
        0xd9 => {
            let n = r.get_u32().unwrap();
            let params = (0..n)
                .map(|_| {
                    let id = r.get_u32().unwrap();
                    let tpe = read_type(r);
                    (id, tpe)
                })
                .collect();
            let body = read_expr(r);
            lambda(params, body)
        }
        0xda => {
            let func = read_expr(r);
            let n = r.get_u32().unwrap();
            let args = (0..n).map(|_| read_expr(r)).collect();
            apply(func, args)
        }
        op => panic!("operation {op:#x}"),
    }
}

fn read_def(r: &mut SigmaByteReader) -> ValDef {
    let op = r.get_u8().unwrap();
    let id = r.get_u32().unwrap();
    let mut tpe_args = vec![];
    if op == 0xd7 {
        let n = r.get_u8().unwrap();
        for _ in 0..n {
            match read_type(r) {
                SType::STypeVar(name) => tpe_args.push(name),
                _ => panic!("type parameter"),
            }
        }
    } else {
        assert_eq!(op, 0xd6);
    }
    ValDef {
        id,
        tpe_args,
        rhs: Box::new(read_expr(r)),
    }
}

// A sized tree of the third version with segregated Int constants.
fn parse_tree(hex: &str) -> (Expr, Context) {
    let bytes = hx(hex);
    let mut r = SigmaByteReader::from_bytes(&bytes);
    assert_eq!(r.get_u8().unwrap(), 0x1b);
    let size = r.get_u32().unwrap() as usize;
    assert_eq!(r.position() + size, bytes.len());
    let n = r.get_u32().unwrap();
    let constants = (0..n)
        .map(|_| {
            let tpe = read_type(&mut r);
            let zigzag = r.get_u32().unwrap();
            let v = Literal::Int((zigzag >> 1) as i32 ^ -((zigzag & 1) as i32));
            Constant { tpe, v }
        })
        .collect();
    let expr = read_expr(&mut r);
    assert_eq!(r.position(), bytes.len());
    (
        expr,
        Context {
            constants,
            ..any_context()
        },
    )
}

#[test]
fn fundef_polymorphic_apply_boundary() {
    // { val id[T] = {(x: Int) => x}; id(7) } — tpeArgs=[T], concrete arg type
    // { val id[T] = {(x: T) => x}; 5 }      — type-var arg, bound but never applied
    let accepts: &[(&str, i32)] = &[
        ("1b1701040ed801d70101670154d90102047202da7201017300", 7),
        ("1b1501040ad801d70101670154d9010267015472027300", 5),
    ];
    // Applying through the type var — all reject:
    // (x: T) => x  /  (x: T) => 5  /  (x: T) => x + x, each applied as id(7)
    let rejects: &[&str] = &[
        "1b1901040ed801d70101670154d901026701547202da7201017300",
        "1b1b02040a040ed801d70101670154d901026701547300da7201017301",
        "1b1c01040ed801d70101670154d901026701549a72027202da7201017300",
    ];
    for (hex, expected) in accepts {
        let (expr, ctx) = parse_tree(hex);
        assert_eq!(
            eval_int(&expr, &ctx).unwrap(),
            *expected,
            "{hex}: value mismatch"
        );
    }
    for hex in rejects {
        let (expr, ctx) = parse_tree(hex);
        let r = eval_with_limit(&expr, &ctx, None).0;
        assert!(
            r.is_err(),
            "{hex}: applying a type-var-typed lambda argument must reject"
        );
        match r {
            Err(EvalError::UnknownArgType { tpe, idx }) => {
                assert!(tpe.same(&SType::STypeVar("T".to_string())));
                assert_eq!(idx, 2);
            }
            _ => panic!("{hex}: another error"),
        }
    }
}

#[test]
fn curried_lambda_captures_environment() {
    // { val add = {(a: Int) => {(b: Int) => a + b}}; add(3)(1) }
    let (expr, ctx) =
        parse_tree("1b200204060402d801d601d9010204d90103049a72027203dada7201017300017301");
    assert_eq!(
        eval_int(&expr, &ctx).unwrap(),
        4,
        "add(3)(1) must evaluate to 4 — the returned lambda must keep its captured `a`"
    );
}

#[test]
fn escaped_lambda_into_hof_keeps_captured_env() {
    let inner_lambda = lambda(
        vec![(3, SType::SInt)],
        bin_op(BinOpKind::Plus, val_use(2), val_use(3)),
    );
    let mk = lambda(vec![(2, SType::SInt)], inner_lambda);
    let f = apply(val_use(1), vec![int_const(3)]);
    let expr = block(
        vec![val_def(1, mk), val_def(4, f)],
        Expr::CollMap(CollMap {
            input: Box::new(Expr::Collection(Collection {
                elem_tpe: SType::SInt,
                items: vec![int_const(1), int_const(2)],
            })),
            mapper: Box::new(val_use(4)),
        }),
    );
    let ctx = any_context();
    let out: Vec<i32> = match eval_with_limit(&expr, &ctx, None).0 {
        Ok(Value::Coll(items)) => items
            .iter()
            .map(|v| match v {
                Value::Int(n) => *n,
                _ => panic!("no Int"),
            })
            .collect(),
        _ => panic!("no collection"),
    };
    assert_eq!(
        out,
        vec![4, 5],
        "the escaped lambda must keep `a = 3` when invoked by Coll.map"
    );
}

#[test]
fn eval_user_defined_func_call() {
    let arg = int_const(1);
    let bin_op = bin_op(BinOpKind::Eq, val_use(1), val_use(2));
    let body = block(vec![val_def(2, int_const(1))], bin_op);
    let apply = apply(lambda(vec![(1, SType::SInt)], body), vec![arg]);
    let ctx = any_context();
    assert!(eval_bool(&apply, &ctx).unwrap());
}

// Application of a lambda of `n_args` parameters to as many constants.
fn constant_application(n_args: u32) -> Expr {
    let args = (1..=n_args).map(|i| (i, SType::SInt)).collect();
    let arg_exprs = (1..=n_args).map(|_| int_const(1)).collect();
    apply(lambda(args, boolean(true)), arg_exprs)
}

#[test]
fn apply_charges_add_to_env_per_arg_binding() {
    let run = |n_args: u32| -> u64 {
        let expr = constant_application(n_args);
        let ctx = any_context();
        let (r, cost) = eval_with_limit(&expr, &ctx, None);
        assert!(matches!(r, Ok(Value::Boolean(true))));
        cost
    };
    // Each extra arg adds: arg Const eval (5) + ADD_TO_ENV_COST (5) = 10.
    // Apply (30), FuncValue (5) and the body Const (5) are identical
    // across both runs, so they cancel in the delta.
    let delta_1 = run(1);
    let delta_2 = run(2);
    assert_eq!(
        delta_2 - delta_1,
        10,
        "Apply must charge ADD_TO_ENV_COST (5 JIT) per lambda-arg binding \
         on top of the per-arg value eval (5); got {} JIT delta between a \
         2-arg and 1-arg application, expected 10.",
        delta_2 - delta_1,
    );
    // 30 + 5 + 1 * 10 + 5
    assert_eq!(delta_1, 50);
}

#[test]
fn limit_only_stops() {
    let expr = constant_application(2);
    let ctx = any_context();
    let (r, cost) = eval_with_limit(&expr, &ctx, Some(60));
    assert!(matches!(r, Ok(Value::Boolean(true))));
    assert_eq!(cost, 60);
    // one below: the last charge stays added
    let (r, cost) = eval_with_limit(&expr, &ctx, Some(59));
    assert!(matches!(r, Err(EvalError::CostLimitExceeded)));
    assert_eq!(cost, 60);
    // the second binding is one too many
    let (r, cost) = eval_with_limit(&expr, &ctx, Some(54));
    assert!(matches!(r, Err(EvalError::CostLimitExceeded)));
    assert_eq!(cost, 55);
    // nothing fits
    let (r, cost) = eval_with_limit(&expr, &ctx, Some(0));
    assert!(matches!(r, Err(EvalError::CostLimitExceeded)));
    assert_eq!(cost, 30);
}

#[test]
fn cost_saturates() {
    let mut cost = CostAccumulator {
        jit_cost: u64::MAX - 1,
        jit_cost_limit: None,
    };
    let e = int_const(1);
    let ctx = any_context();
    let r = e.eval(&Env::empty(), &ctx, &mut cost);
    assert!(matches!(r, Err(EvalError::CostLimitExceeded)));
    assert_eq!(cost.jit_cost_value(), u64::MAX);
}

#[test]
fn body_does_not_see_the_scope_of_the_caller() {
    // { val f = (x: Int) => y; val y = 1; f(2) } with y not in scope of f
    let expr = block(
        vec![
            val_def(1, lambda(vec![(2, SType::SInt)], val_use(3))),
            val_def(3, int_const(1)),
        ],
        apply(val_use(1), vec![int_const(2)]),
    );
    let ctx = any_context();
    assert!(matches!(
        eval_with_limit(&expr, &ctx, None).0,
        Err(EvalError::NotFound(Missing::ValId(3)))
    ));
}

#[test]
fn parameters_hide_what_was_captured() {
    // { val y = 1; val f = (y: Int) => y; f(2) + y }
    let expr = block(
        vec![
            val_def(3, int_const(1)),
            val_def(1, lambda(vec![(3, SType::SInt)], val_use(3))),
        ],
        bin_op(BinOpKind::Plus, apply(val_use(1), vec![int_const(2)]), val_use(3)),
    );
    assert_eq!(eval_int(&expr, &any_context()), Some(3));
}

#[test]
fn arguments_pair_up_as_far_as_both_go() {
    // an argument too many is evaluated and dropped
    let expr = apply(
        lambda(vec![(1, SType::SInt)], val_use(1)),
        vec![int_const(7), int_const(8)],
    );
    let ctx = any_context();
    let (r, cost) = eval_with_limit(&expr, &ctx, None);
    assert!(matches!(r, Ok(Value::Int(7))));
    assert_eq!(cost, 30 + 5 + 2 * 5 + 5 + 5);
    // a parameter without an argument stays unbound
    let expr = apply(
        lambda(vec![(1, SType::SInt), (2, SType::SInt)], val_use(2)),
        vec![int_const(7)],
    );
    assert!(matches!(
        eval_with_limit(&expr, &ctx, None).0,
        Err(EvalError::NotFound(Missing::ValId(2)))
    ));
}

#[test]
fn only_lambdas_are_applied() {
    let expr = apply(int_const(1), vec![int_const(2)]);
    let ctx = any_context();
    let (r, cost) = eval_with_limit(&expr, &ctx, None);
    assert!(matches!(r, Err(EvalError::NotALambda(Value::Int(1)))));
    // the arguments are evaluated first
    assert_eq!(cost, 40);
}

#[test]
fn sums_are_checked() {
    let ctx = any_context();
    let expr = bin_op(BinOpKind::Plus, int_const(i32::MAX), int_const(1));
    assert!(matches!(
        eval_with_limit(&expr, &ctx, None).0,
        Err(EvalError::ArithmeticOverflow)
    ));
    let expr = bin_op(BinOpKind::Plus, int_const(i32::MAX), int_const(i32::MIN));
    assert_eq!(eval_int(&expr, &ctx), Some(-1));
    let expr = bin_op(BinOpKind::Plus, int_const(1), boolean(true));
    assert!(matches!(
        eval_with_limit(&expr, &ctx, None).0,
        Err(EvalError::Operands(Value::Int(1), Value::Boolean(true)))
    ));
}
