use sigma_rust::chain::{Constant, Context, ErgoBox, ErgoTreeVersion, Literal};
use sigma_rust::cost::CostAccumulator;
use sigma_rust::env::Env;
use sigma_rust::error::{EvalError, Missing};
use sigma_rust::expr::{Expr, GlobalVars, Tuple, ValUse};
use sigma_rust::types::SType;
use sigma_rust::value::Value;

fn any_context() -> Context {
    Context {
        height: 100,
        self_box: ErgoBox {
            value: 1,
            tokens: vec![],
            additional_registers: vec![],
            creation_height: 0,
            creation_ref: vec![0; 34],
            script_bytes: None,
            bytes: None,
            bytes_without_ref: None,
            box_id: vec![0; 32],
        },
        extension: vec![],
        constants: vec![],
        tree_version: ErgoTreeVersion { version: 0 },
    }
}

fn long(n: i64) -> Expr {
    Expr::Const(Constant {
        tpe: SType::SLong,
        v: Literal::Long(n),
    })
}

fn tuple(items: Vec<Expr>) -> Expr {
    match Tuple::new(items) {
        Ok(t) => Expr::Tuple(t),
        Err(_) => panic!("number of items"),
    }
}

fn run<'a>(e: &'a Expr, ctx: &'a Context) -> (Result<Value<'a>, EvalError<'a>>, u64) {
    let mut cost = CostAccumulator::new(None);
    let r = e.eval(&Env::empty(), ctx, &mut cost);
    (r, cost.jit_cost_value())
}

#[test]
fn eval() {
    let e1 = long(1);
    let e2 = Expr::GlobalVars(GlobalVars::Height);
    let exprs = vec![e1, e2];
    let tuple = tuple(exprs);
    let ctx = any_context();
    let res = run(&tuple, &ctx).0;
    assert!(matches!(res, Ok(Value::Tup(_))));
}

#[test]
fn eval_rejects_non_pair_tuple() {
    let tuple = tuple(vec![long(1), long(2), long(3)]);
    let ctx = any_context();
    let (res, cost) = run(&tuple, &ctx);
    assert!(
        res.is_err(),
        "arity-3 Tuple must be rejected at eval"
    );
    // nothing is charged
    assert_eq!(cost, 0);
    match res {
        Err(e) => assert_eq!(
            e.message(),
            Some("Tuple: sigma-state allows only 2-element tuples, got 3".to_string())
        ),
        Ok(_) => unreachable!(),
    }
}

#[test]
fn pair_of_values() {
    let tuple = tuple(vec![long(1), Expr::GlobalVars(GlobalVars::Height)]);
    let ctx = any_context();
    match run(&tuple, &ctx) {
        (Ok(Value::Tup(items)), cost) => {
            assert_eq!(items.len(), 2);
            assert!(matches!(items[0], Value::Long(1)));
            assert!(matches!(items[1], Value::Int(100)));
            assert_eq!(cost, 15 + 5 + 26);
        }
        _ => panic!("no pair"),
    }
}

#[test]
fn first_failing_item_is_the_failure_of_the_pair() {
    let unbound = |val_id: u32| {
        Expr::ValUse(ValUse {
            val_id,
            tpe: SType::SLong,
        })
    };
    let tuple = tuple(vec![unbound(8), unbound(9)]);
    let ctx = any_context();
    let (res, cost) = run(&tuple, &ctx);
    assert!(matches!(
        res,
        Err(EvalError::NotFound(Missing::ValId(8)))
    ));
    assert_eq!(cost, 20);
}

#[test]
fn tuples_have_two_to_255_items() {
    let items = |n: usize| -> Vec<Expr> { (0..n).map(|_| long(0)).collect() };
    assert!(Tuple::new(items(0)).is_err());
    assert!(Tuple::new(items(1)).is_err());
    assert!(Tuple::new(items(2)).is_ok());
    assert!(Tuple::new(items(255)).is_ok());
    match Tuple::new(items(256)) {
        Ok(_) => panic!("too many items"),
        Err(back) => assert_eq!(back.len(), 256),
    }
}
