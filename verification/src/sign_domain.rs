//! The domain of signs: each integer variable is abstracted by whether it is
//! negative, zero or positive, and loop conditions that compare a variable
//! with zero refine its sign.

use crate::absint::domain::{law_widen_bottom_states, AbstractDomain, AbstractValueDomain, StateDomain};
use crate::absint::keys::lemma_u64_key_order;
use crate::absint::lattice::{flat_join, law_flat_associative, law_flat_bounds, law_flat_commutative, law_flat_idempotent_absorption, update_view, FlatLattice, FlatValue, Lattice, LatticeMap, LatticeMapView};
use crate::ast::{BinOp, Expr, ExprModel, Id, LVar, Literal, LiteralModel, RVar, UnOp};
use vstd::prelude::*;

verus! {

#[derive(Debug, PartialEq, Eq, Clone, Copy, Structural)]
pub enum Sign {
    Neg,
    Zero,
    Pos,
}

impl FlatValue for Sign {
    fn value_eq(&self, other: &Self) -> (r: bool) {
        *self == *other
    }

    fn value_clone(&self) -> (r: Self) {
        *self
    }
}

/// The abstract value of a literal: for an integer, `Zero` when it is zero
/// and `Pos` otherwise (a negative literal is given `Pos` as well); top for
/// every other literal.
pub open spec fn sign_of_literal(lit: LiteralModel) -> FlatLattice<Sign> {
    match lit {
        LiteralModel::Integer(n) => if n == 0 {
            FlatLattice::Value(Sign::Zero)
        } else {
            FlatLattice::Value(Sign::Pos)
        },
        _ => FlatLattice::Top,
    }
}

/// The abstract value of a unary operation.
pub open spec fn sign_of_unary(op: UnOp, arg: FlatLattice<Sign>) -> FlatLattice<Sign> {
    match op {
        UnOp::Not => FlatLattice::Top,
        UnOp::Neg => match arg {
            FlatLattice::Value(Sign::Neg) => FlatLattice::Value(Sign::Pos),
            FlatLattice::Value(Sign::Zero) => FlatLattice::Value(Sign::Zero),
            FlatLattice::Value(Sign::Pos) => FlatLattice::Value(Sign::Neg),
            _ => arg,
        },
    }
}

/// The sign of a product or quotient of two non-zero values of known sign.
pub open spec fn sign_product(a: Sign, b: Sign) -> Sign {
    if a == b {
        Sign::Pos
    } else {
        Sign::Neg
    }
}

/// The abstract value of a binary operation; only `+`, `*` and `/` are
/// tracked, every other operation gives top.
pub open spec fn sign_of_binary(op: BinOp, a: FlatLattice<Sign>, b: FlatLattice<Sign>) -> FlatLattice<Sign> {
    match op {
        BinOp::Add => if a is Bottom || b is Bottom {
            FlatLattice::Bottom
        } else if a is Top || b is Top {
            FlatLattice::Top
        } else if b == FlatLattice::Value(Sign::Zero) {
            a
        } else if a == FlatLattice::Value(Sign::Zero) {
            b
        } else if a == b {
            a
        } else {
            FlatLattice::Top
        },
        BinOp::Mul => if a is Bottom || b is Bottom {
            FlatLattice::Bottom
        } else if a == FlatLattice::Value(Sign::Zero) || b == FlatLattice::Value(Sign::Zero) {
            FlatLattice::Value(Sign::Zero)
        } else if a is Top || b is Top {
            FlatLattice::Top
        } else {
            FlatLattice::Value(sign_product(a->Value_0, b->Value_0))
        },
        BinOp::Div => if b == FlatLattice::Value(Sign::Zero) || b is Bottom || a is Bottom {
            FlatLattice::Bottom
        } else if a == FlatLattice::Value(Sign::Zero) {
            FlatLattice::Value(Sign::Zero)
        } else if a is Top || b is Top {
            FlatLattice::Top
        } else {
            FlatLattice::Value(sign_product(a->Value_0, b->Value_0))
        },
        _ => FlatLattice::Top,
    }
}

/// The value domain of signs.
pub struct SignValueDomain;

impl AbstractValueDomain for SignValueDomain {
    type Value = FlatLattice<Sign>;

    open spec fn spec_of_literal(lit: LiteralModel) -> FlatLattice<Sign> {
        sign_of_literal(lit)
    }

    open spec fn spec_of_unary(op: UnOp, arg: FlatLattice<Sign>) -> FlatLattice<Sign> {
        sign_of_unary(op, arg)
    }

    open spec fn spec_of_binary(op: BinOp, arg1: FlatLattice<Sign>, arg2: FlatLattice<Sign>) -> FlatLattice<Sign> {
        sign_of_binary(op, arg1, arg2)
    }

    open spec fn spec_widen(a: FlatLattice<Sign>, b: FlatLattice<Sign>) -> FlatLattice<Sign> {
        flat_join(a, b)
    }

    fn of_literal(lit: Literal) -> (r: Self::Value) {
        match lit {
            Literal::Unit => FlatLattice::Top,
            Literal::Integer(n) => {
                if n > 0 {
                    FlatLattice::Value(Sign::Pos)
                } else if n == 0 {
                    FlatLattice::Value(Sign::Zero)
                } else {
                    FlatLattice::Value(Sign::Pos)
                }
            },
            Literal::Boolean(_) => FlatLattice::Top,
            Literal::Record { fields: _ } => FlatLattice::Top,
            Literal::Null => FlatLattice::Top,
        }
    }

    fn of_unary(op: UnOp, arg: Self::Value) -> (r: Self::Value) {
        match op {
            UnOp::Not => FlatLattice::Top,
            UnOp::Neg => match arg {
                FlatLattice::Value(Sign::Neg) => FlatLattice::Value(Sign::Pos),
                FlatLattice::Value(Sign::Zero) => FlatLattice::Value(Sign::Zero),
                FlatLattice::Value(Sign::Pos) => FlatLattice::Value(Sign::Neg),
                FlatLattice::Bottom | FlatLattice::Top => arg,
            },
        }
    }

    fn of_binary(op: BinOp, arg1: Self::Value, arg2: Self::Value) -> (r: Self::Value) {
        match op {
            BinOp::Add => match (arg1, arg2) {
                (_, FlatLattice::Bottom) | (FlatLattice::Bottom, _) => FlatLattice::Bottom,
                (_, FlatLattice::Top) | (FlatLattice::Top, _) => FlatLattice::Top,
                (other, FlatLattice::Value(Sign::Zero)) | (FlatLattice::Value(Sign::Zero), other) => other,
                (FlatLattice::Value(Sign::Pos), FlatLattice::Value(Sign::Pos)) => FlatLattice::Value(Sign::Pos),
                (FlatLattice::Value(Sign::Neg), FlatLattice::Value(Sign::Neg)) => FlatLattice::Value(Sign::Neg),
                (FlatLattice::Value(Sign::Pos), FlatLattice::Value(Sign::Neg))
                | (FlatLattice::Value(Sign::Neg), FlatLattice::Value(Sign::Pos)) => FlatLattice::Top,
            },
            BinOp::Mul => match (arg1, arg2) {
                (_, FlatLattice::Bottom) | (FlatLattice::Bottom, _) => FlatLattice::Bottom,
                (_, FlatLattice::Value(Sign::Zero)) | (FlatLattice::Value(Sign::Zero), _) => FlatLattice::Value(Sign::Zero),
                (_, FlatLattice::Top) | (FlatLattice::Top, _) => FlatLattice::Top,
                (FlatLattice::Value(Sign::Pos), FlatLattice::Value(Sign::Pos))
                | (FlatLattice::Value(Sign::Neg), FlatLattice::Value(Sign::Neg)) => FlatLattice::Value(Sign::Pos),
                (FlatLattice::Value(Sign::Pos), FlatLattice::Value(Sign::Neg))
                | (FlatLattice::Value(Sign::Neg), FlatLattice::Value(Sign::Pos)) => FlatLattice::Value(Sign::Neg),
            },
            BinOp::Div => match (arg1, arg2) {
                (_, FlatLattice::Value(Sign::Zero)) | (_, FlatLattice::Bottom) | (FlatLattice::Bottom, _) => FlatLattice::Bottom,
                (FlatLattice::Value(Sign::Zero), _) => FlatLattice::Value(Sign::Zero),
                (_, FlatLattice::Top) | (FlatLattice::Top, _) => FlatLattice::Top,
                (FlatLattice::Value(Sign::Pos), FlatLattice::Value(Sign::Pos))
                | (FlatLattice::Value(Sign::Neg), FlatLattice::Value(Sign::Neg)) => FlatLattice::Value(Sign::Pos),
                (FlatLattice::Value(Sign::Pos), FlatLattice::Value(Sign::Neg))
                | (FlatLattice::Value(Sign::Neg), FlatLattice::Value(Sign::Pos)) => FlatLattice::Value(Sign::Neg),
            },
            _ => FlatLattice::Top,
        }
    }

    fn widen(a: Self::Value, b: Self::Value) -> (r: Self::Value) {
        a.join(b)
    }
}

/// The state domain over signs.
pub type SignDomain = StateDomain<SignValueDomain>;

/// What a loop or branch condition tells of the sign of a variable: a
/// comparison `x == 0`, `x < 0` or `x > 0` gives `x` that sign.
pub open spec fn sign_test(cond: ExprModel) -> Option<(Id, Sign)> {
    match cond {
        ExprModel::BinExp(l, op, r) => match *l {
            ExprModel::RVar(RVar::Id(id)) => if *r == ExprModel::Literal(LiteralModel::Integer(0)) {
                match op {
                    BinOp::Eq => Some((id, Sign::Zero)),
                    BinOp::Lt => Some((id, Sign::Neg)),
                    BinOp::Gt => Some((id, Sign::Pos)),
                    _ => None,
                }
            } else {
                None
            },
            _ => None,
        },
        _ => None,
    }
}

/// The sign domain, refined by the conditions of loops and branches.
pub struct CondSignDomain;

impl AbstractDomain for CondSignDomain {
    type State = LatticeMap<u64, FlatLattice<Sign>>;

    open spec fn spec_widen(
        a: LatticeMapView<u64, FlatLattice<Sign>>,
        b: LatticeMapView<u64, FlatLattice<Sign>>,
    ) -> LatticeMapView<u64, FlatLattice<Sign>> {
        SignDomain::spec_widen(a, b)
    }

    open spec fn spec_transfer_decl(var: Id, state: LatticeMapView<u64, FlatLattice<Sign>>) -> LatticeMapView<u64, FlatLattice<Sign>> {
        SignDomain::spec_transfer_decl(var, state)
    }

    open spec fn spec_transfer_assign(
        lhs: LVar,
        rhs: ExprModel,
        state: LatticeMapView<u64, FlatLattice<Sign>>,
    ) -> LatticeMapView<u64, FlatLattice<Sign>> {
        SignDomain::spec_transfer_assign(lhs, rhs, state)
    }

    open spec fn spec_transfer_input(var: LVar, state: LatticeMapView<u64, FlatLattice<Sign>>) -> LatticeMapView<u64, FlatLattice<Sign>> {
        SignDomain::spec_transfer_input(var, state)
    }

    open spec fn spec_transfer_condition(
        cond: ExprModel,
        state: LatticeMapView<u64, FlatLattice<Sign>>,
    ) -> LatticeMapView<u64, FlatLattice<Sign>> {
        match sign_test(cond) {
            Some((id, sign)) => update_view(state, id.0, FlatLattice::Value(sign)),
            None => state,
        }
    }

    fn widen(a: Self::State, b: Self::State) -> (r: Self::State) {
        SignDomain::widen(a, b)
    }

    fn transfer_decl(var: Id, state: Self::State) -> (r: Self::State) {
        SignDomain::transfer_decl(var, state)
    }

    fn transfer_assign(lhs: LVar, rhs: Expr, state: Self::State) -> (r: Self::State) {
        SignDomain::transfer_assign(lhs, rhs, state)
    }

    fn transfer_input(var: LVar, state: Self::State) -> (r: Self::State) {
        SignDomain::transfer_input(var, state)
    }

    fn transfer_condition(cond: Expr, state: Self::State) -> (r: Self::State) {
        proof {
            lemma_u64_key_order();
        }
        let ghost m = cond@;
        match cond {
            Expr::BinExp(l, op, r) => {
                proof {
                    assert(m == ExprModel::BinExp(Box::new((*l)@), op, Box::new((*r)@)));
                }
                match *l {
                    Expr::RVar(RVar::Id(id)) => match *r {
                        Expr::Literal(Literal::Integer(n)) => {
                            if n == 0 {
                                match op {
                                    BinOp::Eq => state.update(id.0, FlatLattice::Value(Sign::Zero)),
                                    BinOp::Lt => state.update(id.0, FlatLattice::Value(Sign::Neg)),
                                    BinOp::Gt => state.update(id.0, FlatLattice::Value(Sign::Pos)),
                                    _ => state,
                                }
                            } else {
                                state
                            }
                        },
                        other => {
                            proof {
                                assert(other@ != ExprModel::Literal(LiteralModel::Integer(0)));
                            }
                            state
                        },
                    },
                    other => {
                        proof {
                            assert(!(other@ is RVar && other@->RVar_0 is Id));
                        }
                        state
                    },
                }
            },
            _ => state,
        }
    }
}

/// The signs of a sum and of a product do not depend on the order of the
/// operands.
pub proof fn law_sign_add_mul_commutative(a: FlatLattice<Sign>, b: FlatLattice<Sign>)
    ensures
        sign_of_binary(BinOp::Add, a, b) == sign_of_binary(BinOp::Add, b, a),
        sign_of_binary(BinOp::Mul, a, b) == sign_of_binary(BinOp::Mul, b, a),
{
}

// ---------------------------------------------------------------------------
// Soundness of the sign domain
// ---------------------------------------------------------------------------

/// The sign of an integer.
pub open spec fn sign_of(x: int) -> Sign {
    if x < 0 {
        Sign::Neg
    } else if x == 0 {
        Sign::Zero
    } else {
        Sign::Pos
    }
}

/// The abstract value `v` describes the integer `x`: it is top, or the sign
/// of `x`.
pub open spec fn describes(v: FlatLattice<Sign>, x: int) -> bool {
    v is Top || v == FlatLattice::Value(sign_of(x))
}

/// The abstract sum describes every sum of integers that the operands
/// describe; in particular two values of the same sign add to that sign.
pub proof fn law_sign_add_sound(a: FlatLattice<Sign>, b: FlatLattice<Sign>, x: int, y: int)
    requires
        describes(a, x),
        describes(b, y),
    ensures
        describes(sign_of_binary(BinOp::Add, a, b), x + y),
{
}

/// The abstract product describes every product of integers that the
/// operands describe.
pub proof fn law_sign_mul_sound(a: FlatLattice<Sign>, b: FlatLattice<Sign>, x: int, y: int)
    requires
        describes(a, x),
        describes(b, y),
    ensures
        describes(sign_of_binary(BinOp::Mul, a, b), x * y),
{
    if x > 0 && y > 0 {
        assert(x * y > 0) by (nonlinear_arith)
            requires
                x > 0,
                y > 0,
        ;
    } else if x < 0 && y < 0 {
        assert(x * y > 0) by (nonlinear_arith)
            requires
                x < 0,
                y < 0,
        ;
    } else if x > 0 && y < 0 {
        assert(x * y < 0) by (nonlinear_arith)
            requires
                x > 0,
                y < 0,
        ;
    } else if x < 0 && y > 0 {
        assert(x * y < 0) by (nonlinear_arith)
            requires
                x < 0,
                y > 0,
        ;
    }
}

/// The abstract negation describes the negation of every integer that the
/// operand describes.
pub proof fn law_sign_neg_sound(a: FlatLattice<Sign>, x: int)
    requires
        describes(a, x),
    ensures
        describes(sign_of_unary(UnOp::Neg, a), -x),
{
}

/// A literal that is not negative is described by its abstract value.
pub proof fn law_sign_literal_sound(n: i64)
    requires
        n >= 0,
    ensures
        describes(sign_of_literal(LiteralModel::Integer(n)), n as int),
{
}

/// Whether `v op c` holds for a comparison operator; false for any other.
pub open spec fn comparison_holds(op: BinOp, v: int, c: int) -> bool {
    match op {
        BinOp::Lt => v < c,
        BinOp::Gt => v > c,
        BinOp::Leq => v <= c,
        BinOp::Geq => v >= c,
        BinOp::Eq => v == c,
        BinOp::Neq => v != c,
        _ => false,
    }
}

/// Refining a state by a comparison of a variable with an integer keeps it
/// a description of every value of the variable that satisfies the
/// comparison and that the state described.
pub proof fn law_condition_sound(
    id: Id,
    op: BinOp,
    c: i64,
    state: LatticeMapView<u64, FlatLattice<Sign>>,
    v: int,
)
    requires
        comparison_holds(op, v, c as int),
        describes(LatticeMap::<u64, FlatLattice<Sign>>::spec_read(state, id.0), v),
    ensures
        describes(
            LatticeMap::<u64, FlatLattice<Sign>>::spec_read(
                CondSignDomain::spec_transfer_condition(
                    ExprModel::BinExp(
                        Box::new(ExprModel::RVar(RVar::Id(id))),
                        op,
                        Box::new(ExprModel::Literal(LiteralModel::Integer(c))),
                    ),
                    state,
                ),
                id.0,
            ),
            v,
        ),
{
}

/// Refining a state by a condition changes at most what the variable that
/// the condition compares reads.
pub proof fn law_condition_other_variables(
    cond: ExprModel,
    state: LatticeMapView<u64, FlatLattice<Sign>>,
    key: u64,
)
    requires
        !(cond matches ExprModel::BinExp(l, _, _) && *l matches ExprModel::RVar(RVar::Id(id)) && id.0 == key),
    ensures
        LatticeMap::<u64, FlatLattice<Sign>>::spec_read(CondSignDomain::spec_transfer_condition(cond, state), key)
            == LatticeMap::<u64, FlatLattice<Sign>>::spec_read(state, key),
{
}

/// The sign domain widens two bottom states by the flat join of what they
/// read under each variable, so each state reads below the widening.
pub proof fn law_sign_widen_bottom_states(
    a: LatticeMapView<u64, FlatLattice<Sign>>,
    b: LatticeMapView<u64, FlatLattice<Sign>>,
    key: u64,
)
    requires
        !a.is_top,
        !b.is_top,
    ensures
        ({
            let w = SignDomain::spec_widen(a, b);
            let ra = LatticeMap::<u64, FlatLattice<Sign>>::spec_read(a, key);
            let rb = LatticeMap::<u64, FlatLattice<Sign>>::spec_read(b, key);
            let rw = LatticeMap::<u64, FlatLattice<Sign>>::spec_read(w, key);
            &&& rw == flat_join(ra, rb)
            &&& flat_join(ra, rw) == rw
            &&& flat_join(rb, rw) == rw
        }),
{
    assert forall|x: FlatLattice<Sign>, y: FlatLattice<Sign>|
        #[trigger] SignValueDomain::spec_widen(x, y) == SignValueDomain::spec_widen(y, x) by {
        law_flat_commutative(x, y);
    }
    assert forall|x: FlatLattice<Sign>|
        #[trigger] SignValueDomain::spec_widen(FlatLattice::Bottom, x) == x by {
        law_flat_bounds(x);
    }
    law_widen_bottom_states::<SignValueDomain>(a, b, key);
    let ra = LatticeMap::<u64, FlatLattice<Sign>>::spec_read(a, key);
    let rb = LatticeMap::<u64, FlatLattice<Sign>>::spec_read(b, key);
    law_flat_associative(ra, ra, rb);
    law_flat_idempotent_absorption(ra, rb);
    law_flat_associative(rb, ra, rb);
    law_flat_associative(rb, rb, ra);
    law_flat_idempotent_absorption(rb, ra);
}

/// The abstract quotient describes every exact quotient of integers that the
/// operands describe.
pub proof fn law_sign_div_sound(a: FlatLattice<Sign>, b: FlatLattice<Sign>, x: int, y: int)
    requires
        describes(a, x),
        describes(b, y),
        y != 0,
        x % y == 0,
    ensures
        describes(sign_of_binary(BinOp::Div, a, b), x / y),
{
    let q = x / y;
    assert(x == y * q) by (nonlinear_arith)
        requires
            y != 0,
            x % y == 0,
            q == x / y,
    ;
    if x == 0 {
        assert(q == 0) by (nonlinear_arith)
            requires
                x == y * q,
                y != 0,
                x == 0,
        ;
    } else if (x > 0) == (y > 0) {
        assert(q > 0) by (nonlinear_arith)
            requires
                x == y * q,
                y != 0,
                x != 0,
                (x > 0) == (y > 0),
        ;
    } else {
        assert(q < 0) by (nonlinear_arith)
            requires
                x == y * q,
                y != 0,
                x != 0,
                (x > 0) != (y > 0),
        ;
    }
}

/// The integer value of an expression in an environment that gives each
/// variable (by its number) a value, for the arithmetic that the sign domain
/// tracks: variables, literals that are not negative, negation, `+`, `-`,
/// `*`, and `/` where it is exact. `None` for anything else.
pub open spec fn integer_value(e: ExprModel, env: spec_fn(u64) -> int) -> Option<int>
    decreases e,
{
    match e {
        ExprModel::RVar(RVar::Id(id)) => Some(env(id.0)),
        ExprModel::Literal(LiteralModel::Integer(n)) => if n >= 0 {
            Some(n as int)
        } else {
            None
        },
        ExprModel::UnExp(UnOp::Neg, inner) => match integer_value(*inner, env) {
            Some(v) => Some(-v),
            None => None,
        },
        ExprModel::BinExp(l, op, r) => match (integer_value(*l, env), integer_value(*r, env)) {
            (Some(x), Some(y)) => match op {
                BinOp::Add => Some(x + y),
                BinOp::Sub => Some(x - y),
                BinOp::Mul => Some(x * y),
                BinOp::Div => if y != 0 && x % y == 0 {
                    Some(x / y)
                } else {
                    None
                },
                _ => None,
            },
            _ => None,
        },
        _ => None,
    }
}

/// Evaluating an expression in the sign domain describes its integer value
/// in every environment that the state describes.
pub proof fn law_sign_eval_sound(
    e: ExprModel,
    env: spec_fn(u64) -> int,
    state: LatticeMapView<u64, FlatLattice<Sign>>,
)
    requires
        forall|k: u64| describes(#[trigger] LatticeMap::<u64, FlatLattice<Sign>>::spec_read(state, k), env(k)),
        integer_value(e, env) is Some,
    ensures
        describes(SignDomain::spec_eval_expr(e, state), integer_value(e, env)->Some_0),
    decreases e,
{
    match e {
        ExprModel::RVar(RVar::Id(id)) => {
            assert(describes(LatticeMap::<u64, FlatLattice<Sign>>::spec_read(state, id.0), env(id.0)));
        },
        ExprModel::Literal(LiteralModel::Integer(n)) => {
            law_sign_literal_sound(n);
        },
        ExprModel::UnExp(UnOp::Neg, inner) => {
            law_sign_eval_sound(*inner, env, state);
            law_sign_neg_sound(SignDomain::spec_eval_expr(*inner, state), integer_value(*inner, env)->Some_0);
        },
        ExprModel::BinExp(l, op, r) => {
            law_sign_eval_sound(*l, env, state);
            law_sign_eval_sound(*r, env, state);
            let a = SignDomain::spec_eval_expr(*l, state);
            let b = SignDomain::spec_eval_expr(*r, state);
            let x = integer_value(*l, env)->Some_0;
            let y = integer_value(*r, env)->Some_0;
            match op {
                BinOp::Add => law_sign_add_sound(a, b, x, y),
                BinOp::Mul => law_sign_mul_sound(a, b, x, y),
                BinOp::Div => law_sign_div_sound(a, b, x, y),
                _ => {},
            }
        },
        _ => {},
    }
}

} // verus!
