//! Abstract domains: the interface that the solver runs on, the interface
//! of abstract values, and the domain of states that map each variable to
//! an abstract value.

use super::keys::{key_order, lemma_u64_key_order};
use super::lattice::{join_views, update_view, Lattice, LatticeMap, LatticeMapView};
use crate::ast::{BinOp, Expr, ExprModel, Id, LVar, Literal, LiteralModel, RVar, UnOp};
use vstd::prelude::*;

verus! {

/// An abstract domain of program states: a lattice of states, a widening, and
/// the effect of each kind of statement. The spec functions give the meaning
/// of the executable operations.
pub trait AbstractDomain {
    type State: Lattice;

    spec fn spec_widen(a: <Self::State as View>::V, b: <Self::State as View>::V) -> <Self::State as View>::V;

    spec fn spec_transfer_decl(var: Id, state: <Self::State as View>::V) -> <Self::State as View>::V;

    spec fn spec_transfer_assign(
        lhs: LVar,
        rhs: ExprModel,
        state: <Self::State as View>::V,
    ) -> <Self::State as View>::V;

    spec fn spec_transfer_input(var: LVar, state: <Self::State as View>::V) -> <Self::State as View>::V;

    spec fn spec_transfer_condition(
        cond: ExprModel,
        state: <Self::State as View>::V,
    ) -> <Self::State as View>::V;

    fn widen(a: Self::State, b: Self::State) -> (r: Self::State)
        requires
            <Self::State as Lattice>::obeys_lattice_spec(),
        ensures
            r@ == Self::spec_widen(a@, b@),
    ;

    fn transfer_decl(var: Id, state: Self::State) -> (r: Self::State)
        requires
            <Self::State as Lattice>::obeys_lattice_spec(),
        ensures
            r@ == Self::spec_transfer_decl(var, state@),
    ;

    fn transfer_assign(lhs: LVar, rhs: Expr, state: Self::State) -> (r: Self::State)
        requires
            <Self::State as Lattice>::obeys_lattice_spec(),
        ensures
            r@ == Self::spec_transfer_assign(lhs, rhs@, state@),
    ;

    fn transfer_input(var: LVar, state: Self::State) -> (r: Self::State)
        requires
            <Self::State as Lattice>::obeys_lattice_spec(),
        ensures
            r@ == Self::spec_transfer_input(var, state@),
    ;

    fn transfer_condition(cond: Expr, state: Self::State) -> (r: Self::State)
        requires
            <Self::State as Lattice>::obeys_lattice_spec(),
        ensures
            r@ == Self::spec_transfer_condition(cond@, state@),
    ;
}

/// An abstract domain of values: a lattice of values, the abstraction of
/// literals and operators, and a widening.
pub trait AbstractValueDomain {
    type Value: Lattice;

    spec fn spec_of_literal(lit: LiteralModel) -> <Self::Value as View>::V;

    spec fn spec_of_unary(op: UnOp, arg: <Self::Value as View>::V) -> <Self::Value as View>::V;

    spec fn spec_of_binary(
        op: BinOp,
        arg1: <Self::Value as View>::V,
        arg2: <Self::Value as View>::V,
    ) -> <Self::Value as View>::V;

    spec fn spec_widen(a: <Self::Value as View>::V, b: <Self::Value as View>::V) -> <Self::Value as View>::V;

    fn of_literal(lit: Literal) -> (r: Self::Value)
        requires
            <Self::Value as Lattice>::obeys_lattice_spec(),
        ensures
            r@ == Self::spec_of_literal(lit@),
    ;

    fn of_unary(op: UnOp, arg: Self::Value) -> (r: Self::Value)
        requires
            <Self::Value as Lattice>::obeys_lattice_spec(),
        ensures
            r@ == Self::spec_of_unary(op, arg@),
    ;

    fn of_binary(op: BinOp, arg1: Self::Value, arg2: Self::Value) -> (r: Self::Value)
        requires
            <Self::Value as Lattice>::obeys_lattice_spec(),
        ensures
            r@ == Self::spec_of_binary(op, arg1@, arg2@),
    ;

    fn widen(a: Self::Value, b: Self::Value) -> (r: Self::Value)
        requires
            <Self::Value as Lattice>::obeys_lattice_spec(),
        ensures
            r@ == Self::spec_widen(a@, b@),
    ;
}

/// The domain of states that map each variable (by its number) to an
/// abstract value of `VD`.
pub struct StateDomain<VD: AbstractValueDomain> {
    _phantom: core::marker::PhantomData<VD>,
}

impl<VD: AbstractValueDomain> StateDomain<VD> {
    /// The abstract value of a variable reference: a plain variable reads its
    /// entry, any other reference is top.
    pub open spec fn spec_eval_rvar(
        rvar: RVar,
        state: LatticeMapView<u64, <VD::Value as View>::V>,
    ) -> <VD::Value as View>::V {
        match rvar {
            RVar::Id(id) => LatticeMap::<u64, VD::Value>::spec_read(state, id.0),
            _ => <VD::Value as Lattice>::spec_top(),
        }
    }

    /// The abstract value of an expression.
    pub open spec fn spec_eval_expr(
        expr: ExprModel,
        state: LatticeMapView<u64, <VD::Value as View>::V>,
    ) -> <VD::Value as View>::V
        decreases expr,
    {
        match expr {
            ExprModel::RVar(rvar) => Self::spec_eval_rvar(rvar, state),
            ExprModel::Call(_, _) => <VD::Value as Lattice>::spec_top(),
            ExprModel::Alloc(_) => <VD::Value as Lattice>::spec_top(),
            ExprModel::UnExp(op, e) => VD::spec_of_unary(op, Self::spec_eval_expr(*e, state)),
            ExprModel::BinExp(l, op, r) => VD::spec_of_binary(
                op,
                Self::spec_eval_expr(*l, state),
                Self::spec_eval_expr(*r, state),
            ),
            ExprModel::Literal(lit) => VD::spec_of_literal(lit),
            ExprModel::Cast(_, _) => <VD::Value as Lattice>::spec_top(),
        }
    }

    pub fn eval_rvar(rvar: RVar, state: &LatticeMap<u64, VD::Value>) -> (r: VD::Value)
        requires
            <VD::Value as Lattice>::obeys_lattice_spec(),
        ensures
            r@ == Self::spec_eval_rvar(rvar, state@),
    {
        proof {
            lemma_u64_key_order();
        }
        match rvar {
            RVar::Id(id) => state.read(&id.0),
            RVar::Deref(_) => VD::Value::top(),
            RVar::Field(_, _) => VD::Value::top(),
            RVar::Ref(_) => VD::Value::top(),
        }
    }

    pub fn eval_expr(expr: Expr, state: &LatticeMap<u64, VD::Value>) -> (r: VD::Value)
        requires
            <VD::Value as Lattice>::obeys_lattice_spec(),
        ensures
            r@ == Self::spec_eval_expr(expr@, state@),
        decreases expr,
    {
        match expr {
            Expr::RVar(rvar) => Self::eval_rvar(rvar, state),
            Expr::Call(_, _) => VD::Value::top(),
            Expr::Alloc(_) => VD::Value::top(),
            Expr::UnExp(un_op, e) => VD::of_unary(un_op, Self::eval_expr(*e, state)),
            Expr::BinExp(e1, bin_op, e2) => VD::of_binary(
                bin_op,
                Self::eval_expr(*e1, state),
                Self::eval_expr(*e2, state),
            ),
            Expr::Literal(literal) => VD::of_literal(literal),
            Expr::Cast(_) => VD::Value::top(),
        }
    }
}

impl<VD: AbstractValueDomain> AbstractDomain for StateDomain<VD> {
    type State = LatticeMap<u64, VD::Value>;

    open spec fn spec_widen(
        a: LatticeMapView<u64, <VD::Value as View>::V>,
        b: LatticeMapView<u64, <VD::Value as View>::V>,
    ) -> LatticeMapView<u64, <VD::Value as View>::V> {
        join_views(a, b, |x: <VD::Value as View>::V, y: <VD::Value as View>::V| VD::spec_widen(x, y))
    }

    open spec fn spec_transfer_decl(
        var: Id,
        state: LatticeMapView<u64, <VD::Value as View>::V>,
    ) -> LatticeMapView<u64, <VD::Value as View>::V> {
        state
    }

    open spec fn spec_transfer_assign(
        lhs: LVar,
        rhs: ExprModel,
        state: LatticeMapView<u64, <VD::Value as View>::V>,
    ) -> LatticeMapView<u64, <VD::Value as View>::V> {
        match lhs {
            LVar::Var(id) => update_view(state, id.0, Self::spec_eval_expr(rhs, state)),
            _ => <LatticeMap<u64, VD::Value> as Lattice>::spec_top(),
        }
    }

    open spec fn spec_transfer_input(
        var: LVar,
        state: LatticeMapView<u64, <VD::Value as View>::V>,
    ) -> LatticeMapView<u64, <VD::Value as View>::V> {
        match var {
            LVar::Var(id) => update_view(state, id.0, <VD::Value as Lattice>::spec_top()),
            _ => <LatticeMap<u64, VD::Value> as Lattice>::spec_top(),
        }
    }

    open spec fn spec_transfer_condition(
        cond: ExprModel,
        state: LatticeMapView<u64, <VD::Value as View>::V>,
    ) -> LatticeMapView<u64, <VD::Value as View>::V> {
        state
    }

    fn widen(a: Self::State, b: Self::State) -> (r: Self::State) {
        let op = |v: VD::Value, w: VD::Value| -> (r: VD::Value)
            requires
                <VD::Value as Lattice>::obeys_lattice_spec(),
            ensures
                r@ == VD::spec_widen(v@, w@),
            { VD::widen(v, w) };
        a.join_with(
            b,
            &op,
            Ghost(|x: <VD::Value as View>::V, y: <VD::Value as View>::V| VD::spec_widen(x, y)),
        )
    }

    fn transfer_decl(var: Id, state: Self::State) -> (r: Self::State) {
        state
    }

    fn transfer_assign(lhs: LVar, rhs: Expr, state: Self::State) -> (r: Self::State) {
        match lhs {
            LVar::Var(id) => {
                let val = Self::eval_expr(rhs, &state);
                state.update(id.0, val)
            },
            LVar::Deref(_) => Self::State::top(),
            LVar::Field(_, _) => Self::State::top(),
        }
    }

    fn transfer_input(var: LVar, state: Self::State) -> (r: Self::State) {
        match var {
            LVar::Var(id) => state.update(id.0, VD::Value::top()),
            LVar::Deref(_) => Self::State::top(),
            LVar::Field(_, _) => Self::State::top(),
        }
    }

    fn transfer_condition(cond: Expr, state: Self::State) -> (r: Self::State) {
        // conditions are not used to refine the state
        state
    }
}

// ---------------------------------------------------------------------------
// Laws of the state domain
// ---------------------------------------------------------------------------

/// After `x := e` the state reads `x` as the abstract value that `e` has in
/// the state before; every other variable reads as before.
pub proof fn law_assign_then_read<VD: AbstractValueDomain>(
    id: Id,
    rhs: ExprModel,
    state: LatticeMapView<u64, <VD::Value as View>::V>,
    other: u64,
)
    ensures
        LatticeMap::<u64, VD::Value>::spec_read(
            <StateDomain<VD> as AbstractDomain>::spec_transfer_assign(LVar::Var(id), rhs, state),
            id.0,
        ) == StateDomain::<VD>::spec_eval_expr(rhs, state),
        other != id.0 ==> LatticeMap::<u64, VD::Value>::spec_read(
            <StateDomain<VD> as AbstractDomain>::spec_transfer_assign(LVar::Var(id), rhs, state),
            other,
        ) == LatticeMap::<u64, VD::Value>::spec_read(state, other),
{
}

/// After reading input into `x` the state reads `x` as top; every other
/// variable reads as before.
pub proof fn law_input_then_read<VD: AbstractValueDomain>(
    id: Id,
    state: LatticeMapView<u64, <VD::Value as View>::V>,
    other: u64,
)
    ensures
        LatticeMap::<u64, VD::Value>::spec_read(
            <StateDomain<VD> as AbstractDomain>::spec_transfer_input(LVar::Var(id), state),
            id.0,
        ) == <VD::Value as Lattice>::spec_top(),
        other != id.0 ==> LatticeMap::<u64, VD::Value>::spec_read(
            <StateDomain<VD> as AbstractDomain>::spec_transfer_input(LVar::Var(id), state),
            other,
        ) == LatticeMap::<u64, VD::Value>::spec_read(state, other),
{
}

/// Writing through a pointer or into a field loses everything: afterwards
/// every variable reads as top.
pub proof fn law_indirect_write_is_top<VD: AbstractValueDomain>(
    lhs: LVar,
    rhs: ExprModel,
    state: LatticeMapView<u64, <VD::Value as View>::V>,
    key: u64,
)
    requires
        !(lhs is Var),
    ensures
        LatticeMap::<u64, VD::Value>::spec_read(
            <StateDomain<VD> as AbstractDomain>::spec_transfer_assign(lhs, rhs, state),
            key,
        ) == <VD::Value as Lattice>::spec_top(),
        LatticeMap::<u64, VD::Value>::spec_read(
            <StateDomain<VD> as AbstractDomain>::spec_transfer_input(lhs, state),
            key,
        ) == <VD::Value as Lattice>::spec_top(),
{
}

/// `a` is below `b` in the order that the join of the values induces.
pub open spec fn value_below<VD: AbstractValueDomain>(a: <VD::Value as View>::V, b: <VD::Value as View>::V) -> bool {
    <VD::Value as Lattice>::spec_join(a, b) == b
}

/// Evaluation is monotone in the state: when every variable reads below in
/// `s1` what it reads in `s2`, every expression evaluates below in `s1`, for
/// value domains whose join is idempotent and whose operators are monotone.
pub proof fn law_eval_monotone<VD: AbstractValueDomain>(
    expr: ExprModel,
    s1: LatticeMapView<u64, <VD::Value as View>::V>,
    s2: LatticeMapView<u64, <VD::Value as View>::V>,
)
    requires
        forall|x: <VD::Value as View>::V| #[trigger] <VD::Value as Lattice>::spec_join(x, x) == x,
        forall|op: UnOp, a: <VD::Value as View>::V, b: <VD::Value as View>::V|
            value_below::<VD>(a, b) ==> #[trigger] value_below::<VD>(
                VD::spec_of_unary(op, a),
                VD::spec_of_unary(op, b),
            ),
        forall|
            op: BinOp,
            a1: <VD::Value as View>::V,
            a2: <VD::Value as View>::V,
            b1: <VD::Value as View>::V,
            b2: <VD::Value as View>::V,
        |
            value_below::<VD>(a1, a2) && value_below::<VD>(b1, b2) ==> #[trigger] value_below::<VD>(
                VD::spec_of_binary(op, a1, b1),
                VD::spec_of_binary(op, a2, b2),
            ),
        forall|k: u64|
            value_below::<VD>(
                #[trigger] LatticeMap::<u64, VD::Value>::spec_read(s1, k),
                LatticeMap::<u64, VD::Value>::spec_read(s2, k),
            ),
    ensures
        value_below::<VD>(
            StateDomain::<VD>::spec_eval_expr(expr, s1),
            StateDomain::<VD>::spec_eval_expr(expr, s2),
        ),
    decreases expr,
{
    match expr {
        ExprModel::RVar(rvar) => {
            match rvar {
                RVar::Id(id) => {
                    assert(value_below::<VD>(
                        LatticeMap::<u64, VD::Value>::spec_read(s1, id.0),
                        LatticeMap::<u64, VD::Value>::spec_read(s2, id.0),
                    ));
                },
                _ => {
                    assert(value_below::<VD>(<VD::Value as Lattice>::spec_top(), <VD::Value as Lattice>::spec_top()));
                },
            }
        },
        ExprModel::UnExp(op, e) => {
            law_eval_monotone::<VD>(*e, s1, s2);
        },
        ExprModel::BinExp(l, op, r) => {
            law_eval_monotone::<VD>(*l, s1, s2);
            law_eval_monotone::<VD>(*r, s1, s2);
        },
        ExprModel::Literal(lit) => {
            assert(value_below::<VD>(VD::spec_of_literal(lit), VD::spec_of_literal(lit)));
        },
        _ => {
            assert(value_below::<VD>(<VD::Value as Lattice>::spec_top(), <VD::Value as Lattice>::spec_top()));
        },
    }
}

/// The widening of two bottom states reads, under every variable, as the
/// widening of what the two states read there, when the widening of values
/// is commutative and has bottom as identity.
pub proof fn law_widen_bottom_states<VD: AbstractValueDomain>(
    a: LatticeMapView<u64, <VD::Value as View>::V>,
    b: LatticeMapView<u64, <VD::Value as View>::V>,
    key: u64,
)
    requires
        !a.is_top,
        !b.is_top,
        forall|x: <VD::Value as View>::V, y: <VD::Value as View>::V| #[trigger] VD::spec_widen(x, y) == VD::spec_widen(y, x),
        forall|x: <VD::Value as View>::V| #[trigger] VD::spec_widen(<VD::Value as Lattice>::spec_bottom(), x) == x,
    ensures
        LatticeMap::<u64, VD::Value>::spec_read(<StateDomain<VD> as AbstractDomain>::spec_widen(a, b), key)
            == VD::spec_widen(
            LatticeMap::<u64, VD::Value>::spec_read(a, key),
            LatticeMap::<u64, VD::Value>::spec_read(b, key),
        ),
{
    let ra = LatticeMap::<u64, VD::Value>::spec_read(a, key);
    assert(VD::spec_widen(ra, <VD::Value as Lattice>::spec_bottom()) == VD::spec_widen(
        <VD::Value as Lattice>::spec_bottom(),
        ra,
    ));
}

/// The widening of a state with another reads, under every variable, at
/// least what each of them reads there (in the order that the join of the
/// values induces), when neither is a top state and the widening of values
/// is an upper bound of its arguments that has bottom as identity and is
/// commutative; the join of values is idempotent.
pub proof fn law_widen_upper_bound<VD: AbstractValueDomain>(
    a: LatticeMapView<u64, <VD::Value as View>::V>,
    b: LatticeMapView<u64, <VD::Value as View>::V>,
    key: u64,
)
    requires
        !a.is_top,
        !b.is_top,
        forall|x: <VD::Value as View>::V, y: <VD::Value as View>::V| #[trigger] VD::spec_widen(x, y) == VD::spec_widen(y, x),
        forall|x: <VD::Value as View>::V| #[trigger] VD::spec_widen(<VD::Value as Lattice>::spec_bottom(), x) == x,
        forall|x: <VD::Value as View>::V, y: <VD::Value as View>::V|
            value_below::<VD>(x, #[trigger] VD::spec_widen(x, y)),
    ensures
        ({
            let w = <StateDomain<VD> as AbstractDomain>::spec_widen(a, b);
            &&& value_below::<VD>(
                LatticeMap::<u64, VD::Value>::spec_read(a, key),
                LatticeMap::<u64, VD::Value>::spec_read(w, key),
            )
            &&& value_below::<VD>(
                LatticeMap::<u64, VD::Value>::spec_read(b, key),
                LatticeMap::<u64, VD::Value>::spec_read(w, key),
            )
        }),
{
    law_widen_bottom_states::<VD>(a, b, key);
    let ra = LatticeMap::<u64, VD::Value>::spec_read(a, key);
    let rb = LatticeMap::<u64, VD::Value>::spec_read(b, key);
    assert(value_below::<VD>(ra, VD::spec_widen(ra, rb)));
    assert(value_below::<VD>(rb, VD::spec_widen(rb, ra)));
}

} // verus!
