use posh::eval::{eval_graph, InputValue};
use posh::expr::{BinOp, Builtin, Graph, TraceError, UnOp};
use posh::pod::HostScalar;
use posh::schema::{FieldDef, Registry};
use posh::ty::{ScalarTy, Ty};

fn input_u32(path: &str, v: u32) -> InputValue {
    InputValue { path: path.to_string(), scalars: vec![HostScalar::U32(v)] }
}

#[test]
fn tracing_appends_one_node_per_operation() {
    let reg = Registry::new();
    let mut g = Graph::new();
    let x = g.input(&reg, "x".to_string(), Ty::Scalar(ScalarTy::U32)).unwrap();
    let two = g.const_u32(&reg, 2);
    let sum = g.binary(&reg, BinOp::Add, x, two).unwrap();
    let prod = g.binary(&reg, BinOp::Mul, sum, x).unwrap();
    assert_eq!((x, two, sum, prod), (0, 1, 2, 3));
    assert_eq!(g.len(), 4);
    assert_eq!(g.node_ty(prod), Ty::Scalar(ScalarTy::U32));
}

#[test]
fn host_evaluation_matches_generated_order() {
    let reg = Registry::new();
    let mut g = Graph::new();
    let x = g.input(&reg, "x".to_string(), Ty::Scalar(ScalarTy::U32)).unwrap();
    let two = g.const_u32(&reg, 2);
    let sum = g.binary(&reg, BinOp::Add, x, two).unwrap();
    let prod = g.binary(&reg, BinOp::Mul, sum, x).unwrap();
    let env = vec![input_u32("x", 5)];
    let r = eval_graph(&reg, &g, &env, prod);
    assert_eq!(r, Some(vec![HostScalar::U32(35)]));
}

#[test]
fn integer_arithmetic_wraps_at_32_bits() {
    let reg = Registry::new();
    let mut g = Graph::new();
    let a = g.const_u32(&reg, u32::MAX);
    let b = g.const_u32(&reg, 1);
    let sum = g.binary(&reg, BinOp::Add, a, b).unwrap();
    assert_eq!(eval_graph(&reg, &g, &Vec::new(), sum), Some(vec![HostScalar::U32(0)]));

    let mut g2 = Graph::new();
    let c = g2.const_i32(&reg, i32::MIN);
    let neg = g2.unary(&reg, UnOp::Neg, c).unwrap();
    assert_eq!(eval_graph(&reg, &g2, &Vec::new(), neg), Some(vec![HostScalar::I32(i32::MIN)]));
}

#[test]
fn signed_division_truncates_toward_zero() {
    let reg = Registry::new();
    let mut g = Graph::new();
    let a = g.const_i32(&reg, -7);
    let b = g.const_i32(&reg, 2);
    let q = g.binary(&reg, BinOp::Div, a, b).unwrap();
    assert_eq!(eval_graph(&reg, &g, &Vec::new(), q), Some(vec![HostScalar::I32(-3)]));
}

#[test]
fn division_by_zero_has_no_host_value() {
    let reg = Registry::new();
    let mut g = Graph::new();
    let a = g.const_u32(&reg, 9);
    let b = g.const_u32(&reg, 0);
    let q = g.binary(&reg, BinOp::Div, a, b).unwrap();
    assert_eq!(eval_graph(&reg, &g, &Vec::new(), q), None);
}

#[test]
fn branch_true_yields_then_value() {
    let reg = Registry::new();
    let mut g = Graph::new();
    let c = g.const_bool(&reg, true);
    let a = g.const_u32(&reg, 1);
    let b = g.const_u32(&reg, 2);
    let br = g.branch(&reg, c, a, b).unwrap();
    assert_eq!(eval_graph(&reg, &g, &Vec::new(), br), Some(vec![HostScalar::U32(1)]));
}

#[test]
fn branch_false_yields_else_value() {
    let reg = Registry::new();
    let mut g = Graph::new();
    let c = g.const_bool(&reg, false);
    let a = g.const_u32(&reg, 1);
    let b = g.const_u32(&reg, 2);
    let br = g.branch(&reg, c, a, b).unwrap();
    assert_eq!(eval_graph(&reg, &g, &Vec::new(), br), Some(vec![HostScalar::U32(2)]));
}

#[test]
fn branch_with_mismatched_arms_fails() {
    let reg = Registry::new();
    let mut g = Graph::new();
    let c = g.const_bool(&reg, true);
    let a = g.const_u32(&reg, 1);
    let b = g.const_i32(&reg, 2);
    let r = g.branch(&reg, c, a, b);
    assert_eq!(
        r,
        Err(TraceError::TypeMismatch {
            left: Ty::Scalar(ScalarTy::U32),
            right: Ty::Scalar(ScalarTy::I32),
        })
    );
}

#[test]
fn branch_taking_discard_arm_has_no_value() {
    let reg = Registry::new();
    let mut g = Graph::new();
    let c = g.const_bool(&reg, false);
    let a = g.const_u32(&reg, 1);
    let d = g.discard(&reg, Ty::Scalar(ScalarTy::U32)).unwrap();
    let br = g.branch(&reg, c, a, d).unwrap();
    assert_eq!(eval_graph(&reg, &g, &Vec::new(), br), None);
}

#[test]
fn binary_rejects_mixed_scalar_kinds() {
    let reg = Registry::new();
    let mut g = Graph::new();
    let a = g.const_u32(&reg, 1);
    let b = g.const_i32(&reg, 1);
    let r = g.binary(&reg, BinOp::Add, a, b);
    assert_eq!(
        r,
        Err(TraceError::TypeMismatch {
            left: Ty::Scalar(ScalarTy::U32),
            right: Ty::Scalar(ScalarTy::I32),
        })
    );
}

#[test]
fn projection_of_missing_field_fails() {
    let reg = Registry::new();
    let mut g = Graph::new();
    let a = g.const_u32(&reg, 1);
    let r = g.field(&reg, a, 0);
    assert_eq!(r, Err(TraceError::NoSuchField { base: Ty::Scalar(ScalarTy::U32), index: 0 }));
}

#[test]
fn struct_construction_and_projection_round_trip() {
    let mut reg = Registry::new();
    let s = reg
        .register_struct(
            "Pair".to_string(),
            vec![
                FieldDef { name: "u".to_string(), ty: Ty::Scalar(ScalarTy::U32) },
                FieldDef { name: "v".to_string(), ty: Ty::Vec2(ScalarTy::U32) },
            ],
        )
        .unwrap();
    let mut g = Graph::new();
    let a = g.const_u32(&reg, 3);
    let b = g.const_u32(&reg, 4);
    let c = g.const_u32(&reg, 5);
    let v = g.call(&reg, Builtin::MakeVec2, vec![b, c]).unwrap();
    let p = g.struct_ctor(&reg, s, vec![a, v]).unwrap();
    let back = g.field(&reg, p, 1).unwrap();
    let comp = g.field(&reg, back, 1).unwrap();
    assert_eq!(
        eval_graph(&reg, &g, &Vec::new(), comp),
        Some(vec![HostScalar::U32(5)])
    );
}

#[test]
fn input_with_wrong_kinds_has_no_value() {
    let reg = Registry::new();
    let mut g = Graph::new();
    let x = g.input(&reg, "x".to_string(), Ty::Scalar(ScalarTy::U32)).unwrap();
    let env = vec![InputValue {
        path: "x".to_string(),
        scalars: vec![HostScalar::I32(1)],
    }];
    assert_eq!(eval_graph(&reg, &g, &env, x), None);
}

#[test]
fn vector_arithmetic_is_componentwise() {
    let reg = Registry::new();
    let mut g = Graph::new();
    let a = g.const_u32(&reg, 10);
    let b = g.const_u32(&reg, 20);
    let v1 = g.call(&reg, Builtin::MakeVec2, vec![a, b]).unwrap();
    let c = g.const_u32(&reg, 1);
    let d = g.const_u32(&reg, 2);
    let v2 = g.call(&reg, Builtin::MakeVec2, vec![c, d]).unwrap();
    let sum = g.binary(&reg, BinOp::Add, v1, v2).unwrap();
    assert_eq!(
        eval_graph(&reg, &g, &Vec::new(), sum),
        Some(vec![HostScalar::U32(11), HostScalar::U32(22)])
    );
}
