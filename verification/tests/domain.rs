use std::collections::BTreeMap;
use topple::absint::domain::{AbstractDomain, AbstractValueDomain};
use topple::absint::lattice::{FlatLattice, Lattice, LatticeMap};
use topple::ast::{BinOp, Expr, Id, LVar, Literal, RVar, Type, Typed, UnOp};
use topple::sign_domain::{CondSignDomain, Sign, SignDomain, SignValueDomain};

type Flat = FlatLattice<Sign>;
type SignMap = LatticeMap<u64, Flat>;

fn var(n: u64) -> Expr {
    Expr::RVar(RVar::Id(Id(n)))
}

fn lit(n: i64) -> Expr {
    Expr::Literal(Literal::Integer(n))
}

fn bin(l: Expr, op: BinOp, r: Expr) -> Expr {
    Expr::BinExp(Box::new(l), op, Box::new(r))
}

fn state() -> SignMap {
    LatticeMap::BottomMap(BTreeMap::from([
        (0, FlatLattice::Value(Sign::Pos)),
        (1, FlatLattice::Value(Sign::Zero)),
        (2, FlatLattice::Value(Sign::Neg)),
    ]))
}

#[test]
fn eval_variables() {
    let s = state();
    assert_eq!(SignDomain::eval_rvar(RVar::Id(Id(0)), &s), FlatLattice::Value(Sign::Pos));
    assert_eq!(SignDomain::eval_rvar(RVar::Id(Id(9)), &s), FlatLattice::Bottom);
    assert_eq!(SignDomain::eval_rvar(RVar::Deref(Box::new(RVar::Id(Id(0)))), &s), FlatLattice::Top);
    assert_eq!(SignDomain::eval_rvar(RVar::Field(Box::new(RVar::Id(Id(0))), Id(1)), &s), FlatLattice::Top);
    assert_eq!(SignDomain::eval_rvar(RVar::Ref(Box::new(RVar::Id(Id(0)))), &s), FlatLattice::Top);
    let t = SignMap::top();
    assert_eq!(SignDomain::eval_rvar(RVar::Id(Id(9)), &t), FlatLattice::Top);
}

#[test]
fn eval_expressions() {
    let s = state();
    assert_eq!(SignDomain::eval_expr(bin(var(0), BinOp::Mul, var(2)), &s), FlatLattice::Value(Sign::Neg));
    assert_eq!(SignDomain::eval_expr(bin(var(0), BinOp::Mul, var(1)), &s), FlatLattice::Value(Sign::Zero));
    assert_eq!(SignDomain::eval_expr(bin(var(0), BinOp::Add, lit(3)), &s), FlatLattice::Value(Sign::Pos));
    assert_eq!(SignDomain::eval_expr(bin(var(0), BinOp::Add, var(2)), &s), FlatLattice::Top);
    assert_eq!(SignDomain::eval_expr(bin(var(2), BinOp::Div, var(2)), &s), FlatLattice::Value(Sign::Pos));
    assert_eq!(SignDomain::eval_expr(bin(var(0), BinOp::Div, var(1)), &s), FlatLattice::Bottom);
    assert_eq!(SignDomain::eval_expr(bin(var(0), BinOp::Sub, var(0)), &s), FlatLattice::Top);
    assert_eq!(
        SignDomain::eval_expr(Expr::UnExp(UnOp::Neg, Box::new(var(0))), &s),
        FlatLattice::Value(Sign::Neg)
    );
    assert_eq!(SignDomain::eval_expr(Expr::UnExp(UnOp::Not, Box::new(var(0))), &s), FlatLattice::Top);
    assert_eq!(SignDomain::eval_expr(Expr::Call(RVar::Id(Id(5)), vec![var(0)]), &s), FlatLattice::Top);
    assert_eq!(SignDomain::eval_expr(Expr::Alloc(Box::new(var(0))), &s), FlatLattice::Top);
    let cast = Expr::Cast(Typed { inner: Box::new(var(0)), typ: Type::Integer });
    assert_eq!(SignDomain::eval_expr(cast, &s), FlatLattice::Top);
}

#[test]
fn literals() {
    assert_eq!(SignValueDomain::of_literal(Literal::Integer(7)), FlatLattice::Value(Sign::Pos));
    assert_eq!(SignValueDomain::of_literal(Literal::Integer(0)), FlatLattice::Value(Sign::Zero));
    // a negative literal is given the positive sign
    assert_eq!(SignValueDomain::of_literal(Literal::Integer(-4)), FlatLattice::Value(Sign::Pos));
    assert_eq!(SignValueDomain::of_literal(Literal::Boolean(true)), FlatLattice::Top);
    assert_eq!(SignValueDomain::of_literal(Literal::Unit), FlatLattice::Top);
    assert_eq!(SignValueDomain::of_literal(Literal::Null), FlatLattice::Top);
    assert_eq!(SignValueDomain::of_literal(Literal::Record { fields: vec![] }), FlatLattice::Top);
}

#[test]
fn assign_and_input() {
    let s = state();
    let after = SignDomain::transfer_assign(LVar::Var(Id(1)), bin(var(0), BinOp::Mul, var(2)), s);
    assert_eq!(after.read(&1), FlatLattice::Value(Sign::Neg));
    assert_eq!(after.read(&0), FlatLattice::Value(Sign::Pos));
    let after = SignDomain::transfer_input(LVar::Var(Id(0)), after);
    assert_eq!(after.read(&0), FlatLattice::Top);
    assert_eq!(after.read(&2), FlatLattice::Value(Sign::Neg));
    assert_eq!(SignDomain::transfer_assign(LVar::Deref(Id(0)), lit(1), state()), SignMap::top());
    assert_eq!(SignDomain::transfer_input(LVar::Field(Id(0), Id(1)), state()), SignMap::top());
    assert_eq!(SignDomain::transfer_decl(Id(4), state()), state());
    assert_eq!(SignDomain::transfer_condition(bin(var(0), BinOp::Gt, lit(0)), state()), state());
}

#[test]
fn widen_states() {
    let a = LatticeMap::BottomMap(BTreeMap::from([(0, FlatLattice::Value(Sign::Pos))]));
    let b = LatticeMap::BottomMap(BTreeMap::from([
        (0, FlatLattice::Value(Sign::Neg)),
        (1, FlatLattice::Value(Sign::Zero)),
    ]));
    let expected = LatticeMap::BottomMap(BTreeMap::from([
        (0, FlatLattice::Top),
        (1, FlatLattice::Value(Sign::Zero)),
    ]));
    assert_eq!(SignDomain::widen(a, b), expected);
}

#[test]
fn conditions_refine_signs() {
    let s = SignMap::top();
    let gt = CondSignDomain::transfer_condition(bin(var(3), BinOp::Gt, lit(0)), s.clone());
    assert_eq!(gt.read(&3), FlatLattice::Value(Sign::Pos));
    let lt = CondSignDomain::transfer_condition(bin(var(3), BinOp::Lt, lit(0)), s.clone());
    assert_eq!(lt.read(&3), FlatLattice::Value(Sign::Neg));
    let eq = CondSignDomain::transfer_condition(bin(var(3), BinOp::Eq, lit(0)), s.clone());
    assert_eq!(eq.read(&3), FlatLattice::Value(Sign::Zero));
    let other = CondSignDomain::transfer_condition(bin(var(3), BinOp::Gt, lit(1)), s.clone());
    assert_eq!(other, s);
    let neq = CondSignDomain::transfer_condition(bin(var(3), BinOp::Neq, lit(0)), s.clone());
    assert_eq!(neq, s);
    let negated = CondSignDomain::transfer_condition(
        Expr::UnExp(UnOp::Not, Box::new(bin(var(3), BinOp::Gt, lit(0)))),
        s.clone(),
    );
    assert_eq!(negated, s);
}

#[test]
fn sign_arithmetic_tables() {
    let p = FlatLattice::Value(Sign::Pos);
    let n = FlatLattice::Value(Sign::Neg);
    let z = FlatLattice::Value(Sign::Zero);
    assert_eq!(SignValueDomain::of_binary(BinOp::Add, n.clone(), z.clone()), n);
    assert_eq!(SignValueDomain::of_binary(BinOp::Add, n.clone(), p.clone()), FlatLattice::Top);
    assert_eq!(SignValueDomain::of_binary(BinOp::Add, FlatLattice::Top, FlatLattice::Bottom), FlatLattice::Bottom);
    assert_eq!(SignValueDomain::of_binary(BinOp::Mul, FlatLattice::Top, z.clone()), z);
    assert_eq!(SignValueDomain::of_binary(BinOp::Mul, n.clone(), n.clone()), p);
    assert_eq!(SignValueDomain::of_binary(BinOp::Div, z.clone(), FlatLattice::Top), z);
    assert_eq!(SignValueDomain::of_binary(BinOp::Div, p.clone(), n.clone()), n);
    assert_eq!(SignValueDomain::of_binary(BinOp::Lt, p.clone(), n.clone()), FlatLattice::Top);
    assert_eq!(SignValueDomain::of_unary(UnOp::Neg, n.clone()), p);
    assert_eq!(SignValueDomain::of_unary(UnOp::Neg, FlatLattice::Bottom), FlatLattice::Bottom);
    assert_eq!(SignValueDomain::widen(p.clone(), n.clone()), FlatLattice::Top);
}
