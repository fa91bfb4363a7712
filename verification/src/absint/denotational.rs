//! An abstract interpreter over denotational semantics (see 3.5.2 of Antoine Mine's tutorial)
//!
//! The solver gives the abstract state after running a complete statement; it
//! does not give abstract states for the points between statements.

use super::domain::AbstractDomain;
use super::lattice::Lattice;
use crate::ast::{Expr, ExprModel, Stmt, StmtModel, UnOp};
use vstd::prelude::*;

verus! {

/// The model of the negation of a condition.
pub open spec fn not_model(e: ExprModel) -> ExprModel {
    ExprModel::UnExp(UnOp::Not, Box::new(e))
}

/// The `n`-th element of the Kleene iteration of `f` from bottom.
pub open spec fn iterate<L: Lattice>(f: spec_fn(L::V) -> L::V, n: nat) -> L::V
    decreases n,
{
    if n == 0 {
        L::spec_bottom()
    } else {
        f(iterate::<L>(f, (n - 1) as nat))
    }
}

/// The `n`-th element of the iteration is a fixpoint of `f`.
pub open spec fn fixpoint_at<L: Lattice>(f: spec_fn(L::V) -> L::V, n: nat) -> bool {
    f(iterate::<L>(f, n)) == iterate::<L>(f, n)
}

/// The iteration of `f` from bottom reaches a fixpoint.
pub open spec fn converges<L: Lattice>(f: spec_fn(L::V) -> L::V) -> bool {
    exists|n: nat| fixpoint_at::<L>(f, n)
}

/// The first step at which the iteration of `f` reaches a fixpoint.
pub open spec fn first_fixpoint<L: Lattice>(f: spec_fn(L::V) -> L::V) -> nat {
    choose|n: nat| fixpoint_at::<L>(f, n) && forall|m: nat| m < n ==> !fixpoint_at::<L>(f, m)
}

/// The fixpoint that the iteration of `f` from bottom first reaches.
pub open spec fn spec_lfp<L: Lattice>(f: spec_fn(L::V) -> L::V) -> L::V {
    iterate::<L>(f, first_fixpoint::<L>(f))
}

/// When the iteration reaches a fixpoint, there is a first step at which it does.
pub proof fn lemma_first_fixpoint<L: Lattice>(f: spec_fn(L::V) -> L::V)
    requires
        converges::<L>(f),
    ensures
        fixpoint_at::<L>(f, first_fixpoint::<L>(f)),
        forall|m: nat| m < first_fixpoint::<L>(f) ==> !fixpoint_at::<L>(f, m),
{
    let n = choose|n: nat| fixpoint_at::<L>(f, n);
    lemma_fixpoint_below::<L>(f, n);
}

proof fn lemma_fixpoint_below<L: Lattice>(f: spec_fn(L::V) -> L::V, n: nat)
    requires
        fixpoint_at::<L>(f, n),
    ensures
        exists|k: nat| fixpoint_at::<L>(f, k) && forall|m: nat| m < k ==> !fixpoint_at::<L>(f, m),
    decreases n,
{
    if exists|m: nat| m < n && fixpoint_at::<L>(f, m) {
        let m = choose|m: nat| m < n && fixpoint_at::<L>(f, m);
        lemma_fixpoint_below::<L>(f, m);
    } else {
        assert(forall|m: nat| m < n ==> !fixpoint_at::<L>(f, m));
    }
}

/// One step of the iteration for a loop: widen the state with the join of
/// the entry state and the state after the body run under the condition.
pub open spec fn loop_step<D: AbstractDomain>(
    init: <D::State as View>::V,
    cond: ExprModel,
    body: StmtModel,
) -> spec_fn(<D::State as View>::V) -> <D::State as View>::V
    decreases body, 1nat,
{
    |s: <D::State as View>::V|
        D::spec_widen(
            s,
            <D::State as Lattice>::spec_join(
                init,
                spec_solve::<D>(body, D::spec_transfer_condition(cond, s)),
            ),
        )
}

/// The abstract state after running `stmt` from `init`.
pub open spec fn spec_solve<D: AbstractDomain>(stmt: StmtModel, init: <D::State as View>::V) -> <D::State as View>::V
    decreases stmt, 0nat,
{
    match stmt {
        StmtModel::Var(id, _) => D::spec_transfer_decl(id, init),
        StmtModel::Assign(lvar, expr) => D::spec_transfer_assign(lvar, expr, init),
        StmtModel::Input(lvar) => D::spec_transfer_input(lvar, init),
        StmtModel::Output(_) => init,
        StmtModel::While(expr, body) => D::spec_transfer_condition(
            not_model(expr),
            spec_lfp::<D::State>(loop_step::<D>(init, expr, *body)),
        ),
        StmtModel::IfThenElse(expr, t, f) => <D::State as Lattice>::spec_join(
            spec_solve::<D>(*t, D::spec_transfer_condition(expr, init)),
            spec_solve::<D>(*f, D::spec_transfer_condition(not_model(expr), init)),
        ),
        StmtModel::StmtList(stmts) => spec_solve_seq::<D>(stmts, init),
        StmtModel::Return(_) => init,
    }
}

/// The abstract state after running `stmts` in order from `init`.
pub open spec fn spec_solve_seq<D: AbstractDomain>(
    stmts: Seq<StmtModel>,
    init: <D::State as View>::V,
) -> <D::State as View>::V
    decreases stmts, 0nat,
{
    if stmts.len() == 0 {
        init
    } else {
        spec_solve_seq::<D>(stmts.drop_first(), spec_solve::<D>(stmts[0], init))
    }
}

/// Running `stmt` from `init` ends: for each loop that the run reaches, the
/// iteration that computes its fixpoint reaches one, and the runs of the body
/// that the iteration makes end.
pub open spec fn terminates<D: AbstractDomain>(stmt: StmtModel, init: <D::State as View>::V) -> bool
    decreases stmt, 0nat,
{
    match stmt {
        StmtModel::While(expr, body) => {
            let step = loop_step::<D>(init, expr, *body);
            &&& converges::<D::State>(step)
            &&& forall|i: nat|
                i <= first_fixpoint::<D::State>(step) ==> terminates::<D>(
                    *body,
                    D::spec_transfer_condition(expr, #[trigger] iterate::<D::State>(step, i)),
                )
        },
        StmtModel::IfThenElse(expr, t, f) => {
            &&& terminates::<D>(*t, D::spec_transfer_condition(expr, init))
            &&& terminates::<D>(*f, D::spec_transfer_condition(not_model(expr), init))
        },
        StmtModel::StmtList(stmts) => terminates_seq::<D>(stmts, init),
        _ => true,
    }
}

/// Running `stmts` in order from `init` ends.
pub open spec fn terminates_seq<D: AbstractDomain>(stmts: Seq<StmtModel>, init: <D::State as View>::V) -> bool
    decreases stmts, 0nat,
{
    if stmts.len() == 0 {
        true
    } else {
        &&& terminates::<D>(stmts[0], init)
        &&& terminates_seq::<D>(stmts.drop_first(), spec_solve::<D>(stmts[0], init))
    }
}

/// The fixpoint that the iteration of `f` from bottom first reaches, where
/// `g` is the model of `f`.
fn lfp<L: Lattice, F: Fn(L) -> L>(f: F, g: Ghost<spec_fn(L::V) -> L::V>) -> (r: L)
    requires
        L::obeys_lattice_spec(),
        converges::<L>(g@),
        forall|i: nat, s: L|
            #![trigger f.requires((s,)), iterate::<L>(g@, i)]
            i <= first_fixpoint::<L>(g@) && s@ == iterate::<L>(g@, i) ==> f.requires((s,)),
        forall|s: L, t: L| f.ensures((s,), t) ==> t@ == (g@)(s@),
    ensures
        r@ == spec_lfp::<L>(g@),
        (g@)(r@) == r@,
{
    proof {
        lemma_first_fixpoint::<L>(g@);
    }
    let ghost n = first_fixpoint::<L>(g@);
    let mut cur = L::bottom();
    let ghost mut i: nat = 0;
    proof {
        assert(cur@ == iterate::<L>(g@, 0));
    }
    let mut other = f(cur.duplicate());
    while !cur.same(&other)
        invariant
            L::obeys_lattice_spec(),
            n == first_fixpoint::<L>(g@),
            fixpoint_at::<L>(g@, n),
            forall|m: nat| m < n ==> !fixpoint_at::<L>(g@, m),
            forall|j: nat, s: L|
                #![trigger f.requires((s,)), iterate::<L>(g@, j)]
                j <= n && s@ == iterate::<L>(g@, j) ==> f.requires((s,)),
            forall|s: L, t: L| f.ensures((s,), t) ==> t@ == (g@)(s@),
            i <= n,
            cur@ == iterate::<L>(g@, i),
            other@ == iterate::<L>(g@, i + 1),
        decreases n - i,
    {
        proof {
            assert(!fixpoint_at::<L>(g@, i));
        }
        cur = other;
        proof {
            i = i + 1;
        }
        other = f(cur.duplicate());
    }
    proof {
        assert(fixpoint_at::<L>(g@, i));
    }
    cur
}

/// The negation of a condition.
fn not(e: Expr) -> (r: Expr)
    ensures
        r@ == not_model(e@),
{
    Expr::UnExp(UnOp::Not, Box::new(e))
}

/// The abstract state after running `procedure` from `init`.
#[verifier::rlimit(50)]
pub fn solve<D: AbstractDomain>(procedure: Stmt, init: D::State) -> (r: D::State)
    requires
        <D::State as Lattice>::obeys_lattice_spec(),
        terminates::<D>(procedure@, init@),
    ensures
        r@ == spec_solve::<D>(procedure@, init@),
    decreases procedure@,
{
    let ghost model = procedure@;
    match procedure {
        Stmt::Var(id, _) => D::transfer_decl(id, init),
        Stmt::Assign(lvar, expr) => D::transfer_assign(lvar, expr, init),
        Stmt::Input(lvar) => D::transfer_input(lvar, init),
        Stmt::Output(_) => init,
        Stmt::While(expr, stmt) => {
            let ghost step = loop_step::<D>(init@, expr@, (*stmt)@);
            let f = |s: D::State| -> (r: D::State)
                requires
                    <D::State as Lattice>::obeys_lattice_spec(),
                    terminates::<D>((*stmt)@, D::spec_transfer_condition(expr@, s@)),
                ensures
                    r@ == step(s@),
                {
                    let body = (&*stmt).duplicate();
                    let after = solve::<D>(body, D::transfer_condition(expr.duplicate(), s.duplicate()));
                    D::widen(s, D::State::join(init.duplicate(), after))
                };
            let fixpoint = lfp(f, Ghost(step));
            D::transfer_condition(not(expr), fixpoint)
        },
        Stmt::IfThenElse(expr, stmt, stmt1) => {
            let then_state = solve::<D>(*stmt, D::transfer_condition(expr.duplicate(), init.duplicate()));
            let else_state = solve::<D>(*stmt1, D::transfer_condition(not(expr), init));
            D::State::join(then_state, else_state)
        },
        Stmt::StmtList(stmts) => {
            let ghost ss = model->StmtList_0;
            let mut acc = init;
            let mut i: usize = 0;
            proof {
                assert(ss.skip(0) =~= ss);
            }
            while i < stmts.len()
                invariant
                    <D::State as Lattice>::obeys_lattice_spec(),
                    model == StmtModel::StmtList(ss),
                    model == procedure@,
                    ss.len() == stmts@.len(),
                    forall|j: int| 0 <= j < ss.len() ==> ss[j] == (#[trigger] stmts@[j])@,
                    i <= ss.len(),
                    spec_solve_seq::<D>(ss.skip(i as int), acc@) == spec_solve_seq::<D>(ss, init@),
                    terminates_seq::<D>(ss.skip(i as int), acc@),
                decreases ss.len() - i,
            {
                proof {
                    assert(ss.skip(i as int).drop_first() =~= ss.skip(i + 1));
                    assert(ss.skip(i as int)[0] == ss[i as int]);
                }
                let stmt = stmts[i].duplicate();
                proof {
                    assert(decreases_to!(model => model->StmtList_0));
                    assert(decreases_to!(model->StmtList_0 => model->StmtList_0[i as int]));
                    assert(stmt@ == ss[i as int]);
                }
                acc = solve::<D>(stmt, acc);
                i = i + 1;
            }
            proof {
                assert(ss.skip(i as int) =~= Seq::<StmtModel>::empty());
            }
            acc
        },
        Stmt::Return(_) => init,
    }
}

/// The iteration of `f` from bottom reaches a fixpoint within `fuel` steps.
pub open spec fn converges_within<L: Lattice>(f: spec_fn(L::V) -> L::V, fuel: nat) -> bool {
    exists|n: nat| n <= fuel && fixpoint_at::<L>(f, n)
}

/// Running `stmt` from `init` ends with every loop that the run reaches
/// finding its fixpoint within `fuel` steps of its iteration.
pub open spec fn terminates_within<D: AbstractDomain>(
    stmt: StmtModel,
    init: <D::State as View>::V,
    fuel: nat,
) -> bool
    decreases stmt, 0nat,
{
    match stmt {
        StmtModel::While(expr, body) => {
            let step = loop_step::<D>(init, expr, *body);
            &&& converges_within::<D::State>(step, fuel)
            &&& forall|i: nat|
                i <= first_fixpoint::<D::State>(step) ==> terminates_within::<D>(
                    *body,
                    D::spec_transfer_condition(expr, #[trigger] iterate::<D::State>(step, i)),
                    fuel,
                )
        },
        StmtModel::IfThenElse(expr, t, f) => {
            &&& terminates_within::<D>(*t, D::spec_transfer_condition(expr, init), fuel)
            &&& terminates_within::<D>(*f, D::spec_transfer_condition(not_model(expr), init), fuel)
        },
        StmtModel::StmtList(stmts) => terminates_within_seq::<D>(stmts, init, fuel),
        _ => true,
    }
}

/// Running `stmts` in order from `init` ends, each loop within `fuel` steps.
pub open spec fn terminates_within_seq<D: AbstractDomain>(
    stmts: Seq<StmtModel>,
    init: <D::State as View>::V,
    fuel: nat,
) -> bool
    decreases stmts, 0nat,
{
    if stmts.len() == 0 {
        true
    } else {
        &&& terminates_within::<D>(stmts[0], init, fuel)
        &&& terminates_within_seq::<D>(stmts.drop_first(), spec_solve::<D>(stmts[0], init), fuel)
    }
}

/// A run whose loops find their fixpoints within a bound ends: this is how a
/// caller of `solve` establishes its precondition.
pub proof fn lemma_terminates_within<D: AbstractDomain>(
    stmt: StmtModel,
    init: <D::State as View>::V,
    fuel: nat,
)
    requires
        terminates_within::<D>(stmt, init, fuel),
    ensures
        terminates::<D>(stmt, init),
    decreases stmt, 0nat,
{
    match stmt {
        StmtModel::While(expr, body) => {
            let step = loop_step::<D>(init, expr, *body);
            assert forall|i: nat| i <= first_fixpoint::<D::State>(step) implies terminates::<D>(
                *body,
                D::spec_transfer_condition(expr, #[trigger] iterate::<D::State>(step, i)),
            ) by {
                lemma_terminates_within::<D>(
                    *body,
                    D::spec_transfer_condition(expr, iterate::<D::State>(step, i)),
                    fuel,
                );
            }
        },
        StmtModel::IfThenElse(expr, t, f) => {
            lemma_terminates_within::<D>(*t, D::spec_transfer_condition(expr, init), fuel);
            lemma_terminates_within::<D>(*f, D::spec_transfer_condition(not_model(expr), init), fuel);
        },
        StmtModel::StmtList(stmts) => {
            lemma_terminates_within_seq::<D>(stmts, init, fuel);
        },
        _ => {},
    }
}

/// `lemma_terminates_within` for lists of statements.
pub proof fn lemma_terminates_within_seq<D: AbstractDomain>(
    stmts: Seq<StmtModel>,
    init: <D::State as View>::V,
    fuel: nat,
)
    requires
        terminates_within_seq::<D>(stmts, init, fuel),
    ensures
        terminates_seq::<D>(stmts, init),
    decreases stmts, 0nat,
{
    if stmts.len() > 0 {
        lemma_terminates_within::<D>(stmts[0], init, fuel);
        lemma_terminates_within_seq::<D>(stmts.drop_first(), spec_solve::<D>(stmts[0], init), fuel);
    }
}

/// `solve` with each loop's iteration bounded by `fuel` steps: the abstract
/// state after running `procedure` from `init` when every loop reaches its
/// fixpoint within the bound, `None` when one does not.
#[verifier::rlimit(50)]
pub fn solve_bounded<D: AbstractDomain>(procedure: Stmt, init: D::State, fuel: u64) -> (r: Option<D::State>)
    requires
        <D::State as Lattice>::obeys_lattice_spec(),
    ensures
        r is Some <==> terminates_within::<D>(procedure@, init@, fuel as nat),
        r matches Some(s) ==> s@ == spec_solve::<D>(procedure@, init@),
    decreases procedure@,
{
    let ghost model = procedure@;
    match procedure {
        Stmt::Var(id, _) => Some(D::transfer_decl(id, init)),
        Stmt::Assign(lvar, expr) => Some(D::transfer_assign(lvar, expr, init)),
        Stmt::Input(lvar) => Some(D::transfer_input(lvar, init)),
        Stmt::Output(_) => Some(init),
        Stmt::While(expr, stmt) => {
            let ghost step = loop_step::<D>(init@, expr@, (*stmt)@);
            let mut cur = D::State::bottom();
            let mut count: u64 = 0;
            proof {
                assert(cur@ == iterate::<D::State>(step, 0));
            }
            loop
                invariant
                    <D::State as Lattice>::obeys_lattice_spec(),
                    model == procedure@,
                    model == StmtModel::While(expr@, Box::new((*stmt)@)),
                    step == loop_step::<D>(init@, expr@, (*stmt)@),
                    count <= fuel,
                    cur@ == iterate::<D::State>(step, count as nat),
                    forall|m: nat| m < count ==> !fixpoint_at::<D::State>(step, m),
                    forall|m: nat|
                        m < count ==> terminates_within::<D>(
                            (*stmt)@,
                            D::spec_transfer_condition(expr@, #[trigger] iterate::<D::State>(step, m)),
                            fuel as nat,
                        ),
                decreases fuel - count,
            {
                let body = (&*stmt).duplicate();
                proof {
                    assert(decreases_to!(model => model->While_1));
                }
                let entry = D::transfer_condition(expr.duplicate(), cur.duplicate());
                match solve_bounded::<D>(body, entry, fuel) {
                    None => {
                        proof {
                            if converges_within::<D::State>(step, fuel as nat) {
                                lemma_first_fixpoint::<D::State>(step);
                                assert(count <= first_fixpoint::<D::State>(step));
                            }
                        }
                        return None;
                    },
                    Some(after) => {
                        let other = D::widen(cur.duplicate(), D::State::join(init.duplicate(), after));
                        proof {
                            assert(iterate::<D::State>(step, count as nat + 1) == step(cur@));
                        }
                        if cur.same(&other) {
                            proof {
                                assert(fixpoint_at::<D::State>(step, count as nat));
                                lemma_first_fixpoint::<D::State>(step);
                                let n = first_fixpoint::<D::State>(step);
                                assert(n == count);
                            }
                            return Some(D::transfer_condition(not(expr), cur));
                        }
                        if count == fuel {
                            proof {
                                assert(!fixpoint_at::<D::State>(step, count as nat));
                                assert(!converges_within::<D::State>(step, fuel as nat));
                            }
                            return None;
                        }
                        cur = other;
                        count = count + 1;
                    },
                }
            }
        },
        Stmt::IfThenElse(expr, stmt, stmt1) => {
            proof {
                assert(decreases_to!(model => model->IfThenElse_1));
                assert(decreases_to!(model => model->IfThenElse_2));
            }
            let then_entry = D::transfer_condition(expr.duplicate(), init.duplicate());
            let then_result = solve_bounded::<D>(*stmt, then_entry, fuel);
            match then_result {
                None => None,
                Some(then_state) => {
                    let else_entry = D::transfer_condition(not(expr), init);
                    let else_result = solve_bounded::<D>(*stmt1, else_entry, fuel);
                    match else_result {
                        None => None,
                        Some(else_state) => Some(D::State::join(then_state, else_state)),
                    }
                },
            }
        },
        Stmt::StmtList(stmts) => {
            let ghost ss = model->StmtList_0;
            let mut acc = init;
            let mut i: usize = 0;
            proof {
                assert(ss.skip(0) =~= ss);
            }
            while i < stmts.len()
                invariant
                    <D::State as Lattice>::obeys_lattice_spec(),
                    model == StmtModel::StmtList(ss),
                    model == procedure@,
                    ss.len() == stmts@.len(),
                    forall|j: int| 0 <= j < ss.len() ==> ss[j] == (#[trigger] stmts@[j])@,
                    i <= ss.len(),
                    spec_solve_seq::<D>(ss.skip(i as int), acc@) == spec_solve_seq::<D>(ss, init@),
                    terminates_within_seq::<D>(ss.skip(i as int), acc@, fuel as nat)
                        == terminates_within_seq::<D>(ss, init@, fuel as nat),
                decreases ss.len() - i,
            {
                proof {
                    assert(ss.skip(i as int).drop_first() =~= ss.skip(i + 1));
                    assert(ss.skip(i as int)[0] == ss[i as int]);
                }
                let stmt = stmts[i].duplicate();
                proof {
                    assert(decreases_to!(model => model->StmtList_0));
                    assert(decreases_to!(model->StmtList_0 => model->StmtList_0[i as int]));
                    assert(stmt@ == ss[i as int]);
                }
                match solve_bounded::<D>(stmt, acc, fuel) {
                    None => {
                        return None;
                    },
                    Some(next) => {
                        acc = next;
                    },
                }
                i = i + 1;
            }
            proof {
                assert(ss.skip(i as int) =~= Seq::<StmtModel>::empty());
            }
            Some(acc)
        },
        Stmt::Return(_) => Some(init),
    }
}

// ---------------------------------------------------------------------------
// Laws of the solver
// ---------------------------------------------------------------------------

/// When the iteration of `f` from bottom converges, the element it reaches
/// is a fixpoint of `f`.
pub proof fn law_lfp_is_fixpoint<L: Lattice>(f: spec_fn(L::V) -> L::V)
    requires
        converges::<L>(f),
    ensures
        f(spec_lfp::<L>(f)) == spec_lfp::<L>(f),
{
    lemma_first_fixpoint::<L>(f);
}

/// A loop is left with the negated condition applied to a fixpoint of its
/// step.
pub proof fn law_loop_exit_state<D: AbstractDomain>(cond: ExprModel, body: StmtModel, init: <D::State as View>::V)
    requires
        terminates::<D>(StmtModel::While(cond, Box::new(body)), init),
    ensures
        ({
            let fix = spec_lfp::<D::State>(loop_step::<D>(init, cond, body));
            &&& (loop_step::<D>(init, cond, body))(fix) == fix
            &&& spec_solve::<D>(StmtModel::While(cond, Box::new(body)), init)
                == D::spec_transfer_condition(not_model(cond), fix)
        }),
{
    law_lfp_is_fixpoint::<D::State>(loop_step::<D>(init, cond, body));
}

/// Running two lists of statements one after the other is running their
/// concatenation.
pub proof fn law_solve_seq_append<D: AbstractDomain>(
    first: Seq<StmtModel>,
    second: Seq<StmtModel>,
    init: <D::State as View>::V,
)
    ensures
        spec_solve_seq::<D>(first + second, init) == spec_solve_seq::<D>(
            second,
            spec_solve_seq::<D>(first, init),
        ),
    decreases first.len(),
{
    if first.len() == 0 {
        assert(first + second =~= second);
    } else {
        assert((first + second).drop_first() =~= first.drop_first() + second);
        law_solve_seq_append::<D>(first.drop_first(), second, spec_solve::<D>(first[0], init));
    }
}

/// Running an empty list leaves the state unchanged; running a list whose
/// first statement is `first` runs `first`, then the rest from where it ends.
pub proof fn law_solve_list_step<D: AbstractDomain>(
    first: StmtModel,
    rest: Seq<StmtModel>,
    init: <D::State as View>::V,
)
    ensures
        spec_solve::<D>(StmtModel::StmtList(Seq::empty()), init) == init,
        spec_solve::<D>(StmtModel::StmtList(seq![first] + rest), init) == spec_solve::<D>(
            StmtModel::StmtList(rest),
            spec_solve::<D>(first, init),
        ),
{
    let all = seq![first] + rest;
    assert(all.drop_first() =~= rest);
    assert(all[0] == first);
    assert(spec_solve::<D>(StmtModel::StmtList(Seq::empty()), init) == spec_solve_seq::<D>(
        Seq::empty(),
        init,
    ));
    assert(spec_solve::<D>(StmtModel::StmtList(all), init) == spec_solve_seq::<D>(all, init));
    assert(spec_solve_seq::<D>(all, init) == spec_solve_seq::<D>(rest, spec_solve::<D>(first, init)));
    assert(spec_solve::<D>(StmtModel::StmtList(rest), spec_solve::<D>(first, init))
        == spec_solve_seq::<D>(rest, spec_solve::<D>(first, init)));
}

/// `a` is below `b` in the order that the join of `L` induces.
pub open spec fn below<L: Lattice>(a: L::V, b: L::V) -> bool {
    L::spec_join(a, b) == b
}

/// For a monotone `f` on a lattice whose bottom is the identity of join,
/// the fixpoint that the iteration from bottom reaches is below every
/// fixpoint of `f`: it is the least fixpoint.
pub proof fn law_lfp_is_least<L: Lattice>(f: spec_fn(L::V) -> L::V, y: L::V)
    requires
        converges::<L>(f),
        forall|x: L::V| #[trigger] L::spec_join(L::spec_bottom(), x) == x,
        forall|a: L::V, b: L::V| below::<L>(a, b) ==> #[trigger] below::<L>(f(a), f(b)),
        f(y) == y,
    ensures
        below::<L>(spec_lfp::<L>(f), y),
{
    lemma_iterate_below::<L>(f, y, first_fixpoint::<L>(f));
}

proof fn lemma_iterate_below<L: Lattice>(f: spec_fn(L::V) -> L::V, y: L::V, n: nat)
    requires
        forall|x: L::V| #[trigger] L::spec_join(L::spec_bottom(), x) == x,
        forall|a: L::V, b: L::V| below::<L>(a, b) ==> #[trigger] below::<L>(f(a), f(b)),
        f(y) == y,
    ensures
        below::<L>(iterate::<L>(f, n), y),
    decreases n,
{
    if n == 0 {
        assert(L::spec_join(L::spec_bottom(), y) == y);
    } else {
        lemma_iterate_below::<L>(f, y, (n - 1) as nat);
        assert(below::<L>(f(iterate::<L>(f, (n - 1) as nat)), f(y)));
    }
}

} // verus!
