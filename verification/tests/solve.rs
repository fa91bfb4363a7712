use std::collections::BTreeMap;
use topple::absint::denotational::solve;
use topple::absint::lattice::{FlatLattice, Lattice, LatticeMap};
use topple::ast::{BinOp, Expr, Id, LVar, Literal, RVar, Stmt, Type};
use topple::sign_domain::{CondSignDomain, Sign, SignDomain};

type SignMap = LatticeMap<u64, FlatLattice<Sign>>;

fn var(n: u64) -> Expr {
    Expr::RVar(RVar::Id(Id(n)))
}

fn lit(n: i64) -> Expr {
    Expr::Literal(Literal::Integer(n))
}

fn bin(l: Expr, op: BinOp, r: Expr) -> Expr {
    Expr::BinExp(Box::new(l), op, Box::new(r))
}

/// x; y; x = 100; y = 1; while x > 0 { y = x * y; x = x - -1; }
fn factorial_program() -> Stmt {
    let x = Id(0);
    let y = Id(1);
    Stmt::StmtList(vec![
        Stmt::Var(x, None),
        Stmt::Var(y, Some(Type::Integer)),
        Stmt::Assign(LVar::Var(x), lit(100)),
        Stmt::Assign(LVar::Var(y), lit(1)),
        Stmt::While(
            bin(var(0), BinOp::Gt, lit(0)),
            Box::new(Stmt::StmtList(vec![
                Stmt::Assign(LVar::Var(y), bin(var(0), BinOp::Mul, var(1))),
                Stmt::Assign(LVar::Var(x), bin(var(0), BinOp::Sub, lit(-1))),
            ])),
        ),
    ])
}

#[test]
fn example_with_conditions() {
    let result = solve::<CondSignDomain>(factorial_program(), SignMap::top());
    let expected = LatticeMap::TopMap(BTreeMap::from([
        (0, FlatLattice::Top),
        (1, FlatLattice::Value(Sign::Pos)),
    ]));
    assert_eq!(result, expected);
}

#[test]
fn example_without_conditions() {
    let result = solve::<SignDomain>(factorial_program(), SignMap::top());
    let expected = LatticeMap::TopMap(BTreeMap::from([(0, FlatLattice::Top), (1, FlatLattice::Top)]));
    assert_eq!(result, expected);
}

#[test]
fn straight_line_statements() {
    let prog = Stmt::StmtList(vec![
        Stmt::Assign(LVar::Var(Id(0)), lit(0)),
        Stmt::Output(var(0)),
        Stmt::Assign(LVar::Var(Id(1)), bin(var(0), BinOp::Add, lit(2))),
        Stmt::Return(var(1)),
    ]);
    let result = solve::<SignDomain>(prog, SignMap::bottom());
    let expected = LatticeMap::BottomMap(BTreeMap::from([
        (0, FlatLattice::Value(Sign::Zero)),
        (1, FlatLattice::Value(Sign::Pos)),
    ]));
    assert_eq!(result, expected);
    assert_eq!(solve::<SignDomain>(Stmt::StmtList(vec![]), SignMap::bottom()), SignMap::bottom());
}

#[test]
fn input_and_indirect_writes() {
    let prog = Stmt::StmtList(vec![Stmt::Assign(LVar::Var(Id(0)), lit(5)), Stmt::Input(LVar::Var(Id(0)))]);
    let result = solve::<SignDomain>(prog, SignMap::bottom());
    assert_eq!(result, LatticeMap::BottomMap(BTreeMap::from([(0, FlatLattice::Top)])));
    let prog = Stmt::Assign(LVar::Deref(Id(0)), lit(5));
    assert_eq!(solve::<SignDomain>(prog, SignMap::bottom()), SignMap::top());
}

#[test]
fn branches_join() {
    // if x == 0 { y = x } else { y = 1 }
    let prog = Stmt::IfThenElse(
        bin(var(0), BinOp::Eq, lit(0)),
        Box::new(Stmt::Assign(LVar::Var(Id(1)), var(0))),
        Box::new(Stmt::Assign(LVar::Var(Id(1)), lit(1))),
    );
    let result = solve::<CondSignDomain>(prog, SignMap::top());
    // the join of two top maps walks the smaller one (the else branch's), so x
    // keeps the then branch's value
    let expected = LatticeMap::TopMap(BTreeMap::from([
        (0, FlatLattice::Value(Sign::Zero)),
        (1, FlatLattice::Top),
    ]));
    assert_eq!(result, expected);
}

#[test]
fn branches_with_different_values_join_to_top() {
    // if c { x = y } else { x = z } with y positive and z negative
    let init = LatticeMap::TopMap(BTreeMap::from([
        (1, FlatLattice::Value(Sign::Pos)),
        (2, FlatLattice::Value(Sign::Neg)),
    ]));
    let prog = Stmt::IfThenElse(
        var(3),
        Box::new(Stmt::Assign(LVar::Var(Id(0)), var(1))),
        Box::new(Stmt::Assign(LVar::Var(Id(0)), var(2))),
    );
    let result = solve::<SignDomain>(prog, init);
    assert_eq!(result.read(&0), FlatLattice::Top);
    assert_eq!(result.read(&1), FlatLattice::Value(Sign::Pos));
    assert_eq!(result.read(&2), FlatLattice::Value(Sign::Neg));
}

#[test]
fn loop_that_never_runs_its_body_effectively() {
    // while x > 0 { } from bottom: the body is empty
    let prog = Stmt::While(bin(var(0), BinOp::Gt, lit(0)), Box::new(Stmt::StmtList(vec![])));
    let init = SignMap::bottom().update(0, FlatLattice::Value(Sign::Neg));
    let result = solve::<SignDomain>(prog, init.clone());
    assert_eq!(result, init);
}

#[test]
fn bounded_solve_agrees_when_loops_converge() {
    let result = topple::absint::denotational::solve_bounded::<CondSignDomain>(factorial_program(), SignMap::top(), 10);
    let expected = LatticeMap::TopMap(BTreeMap::from([
        (0, FlatLattice::Top),
        (1, FlatLattice::Value(Sign::Pos)),
    ]));
    assert_eq!(result, Some(expected));
}

#[test]
fn bounded_solve_gives_up_past_the_bound() {
    // the loop reaches its fixpoint at the first step of its iteration, so no
    // step allowed is not enough
    let result = topple::absint::denotational::solve_bounded::<CondSignDomain>(factorial_program(), SignMap::top(), 0);
    assert_eq!(result, None);
    let result = topple::absint::denotational::solve_bounded::<CondSignDomain>(factorial_program(), SignMap::top(), 1);
    assert!(result.is_some());
}

#[test]
fn bounded_solve_without_loops() {
    let prog = Stmt::StmtList(vec![Stmt::Assign(LVar::Var(Id(0)), lit(0))]);
    let result = topple::absint::denotational::solve_bounded::<SignDomain>(prog, SignMap::bottom(), 0);
    assert_eq!(result, Some(LatticeMap::BottomMap(BTreeMap::from([(0, FlatLattice::Value(Sign::Zero))]))));
}
