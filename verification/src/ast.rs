//! The abstract syntax of the analysed language, and its model: the same
//! trees with sequences in place of vectors, which the specifications use.

use vstd::prelude::*;

verus! {

/// An identifier, interned as a number.
#[derive(Debug, Clone, Copy, PartialEq, Eq, Structural)]
pub struct Id(pub u64);

/// A value paired with the type it was given.
#[derive(Debug)]
pub struct Typed<T> {
    pub inner: T,
    pub typ: Type,
}

#[derive(Debug)]
pub enum Literal {
    Unit,
    Integer(i64),
    Boolean(bool),
    Record { fields: Vec<(Typed<Id>, Box<Literal>)> },
    Null,
}

#[derive(Debug, Clone, Copy, PartialEq, Eq, Structural)]
pub enum LVar {
    Var(Id),
    Deref(Id),
    Field(Id, Id),
}

#[derive(Debug, PartialEq, Eq)]
pub enum RVar {
    Id(Id),
    Deref(Box<RVar>),
    Field(Box<RVar>, Id),
    Ref(Box<RVar>),
}

#[derive(Debug)]
pub enum Expr {
    RVar(RVar),
    Call(RVar, Vec<Expr>),
    Alloc(Box<Expr>),
    UnExp(UnOp, Box<Expr>),
    BinExp(Box<Expr>, BinOp, Box<Expr>),
    Literal(Literal),
    Cast(Typed<Box<Expr>>),
}

#[derive(Debug, Clone, Copy, PartialEq, Eq, Structural)]
pub enum UnOp {
    Not,
    Neg,
}

#[derive(Debug, Clone, Copy, PartialEq, Eq, Structural)]
pub enum BinOp {
    // Integer math:
    Add,
    Sub,
    Mul,
    Div,
    Mod,
    Pow,
    // Comparison Ops
    Lt,
    Gt,
    Leq,
    Geq,
    Eq,
    Neq,
    // Boolean Ops
    And,
    Or,
    XOr,
}

#[derive(Debug)]
pub enum Stmt {
    Var(Id, Option<Type>),
    Assign(LVar, Expr),
    Input(LVar),
    Output(Expr),
    While(Expr, Box<Stmt>),
    IfThenElse(Expr, Box<Stmt>, Box<Stmt>),
    StmtList(Vec<Stmt>),
    Return(Expr),
}

#[derive(Debug)]
pub enum Type {
    Unit,
    Integer,
    Boolean,
    Ref(Box<Type>),
    Fun { args: Vec<Type>, ret: Box<Type> },
    Array { typ: Box<Type>, len: usize },
    Record { fields: Vec<Typed<Id>> },
    Variable(Id),
}

#[derive(Debug)]
#[allow(inconsistent_fields)]
pub enum Declaration {
    Fun { name: Id, args: Vec<Typed<Id>>, ret: Type, body: Stmt },
    Type { name: Id, typ: Type },
    Var { name: Typed<Id>, val: Expr },
}

// ---------------------------------------------------------------------------
// Models
// ---------------------------------------------------------------------------

/// Model of a `Type`.
pub enum TypeModel {
    Unit,
    Integer,
    Boolean,
    Ref(Box<TypeModel>),
    Fun { args: Seq<TypeModel>, ret: Box<TypeModel> },
    Array { typ: Box<TypeModel>, len: usize },
    Record { fields: Seq<(Id, TypeModel)> },
    Variable(Id),
}

/// Model of a `Literal`.
pub enum LiteralModel {
    Unit,
    Integer(i64),
    Boolean(bool),
    Record { fields: Seq<((Id, TypeModel), LiteralModel)> },
    Null,
}

/// Model of an `Expr`; a cast holds the model of its operand and its type.
pub enum ExprModel {
    RVar(RVar),
    Call(RVar, Seq<ExprModel>),
    Alloc(Box<ExprModel>),
    UnExp(UnOp, Box<ExprModel>),
    BinExp(Box<ExprModel>, BinOp, Box<ExprModel>),
    Literal(LiteralModel),
    Cast(Box<ExprModel>, TypeModel),
}

/// Model of a `Stmt`.
pub enum StmtModel {
    Var(Id, Option<TypeModel>),
    Assign(LVar, ExprModel),
    Input(LVar),
    Output(ExprModel),
    While(ExprModel, Box<StmtModel>),
    IfThenElse(ExprModel, Box<StmtModel>, Box<StmtModel>),
    StmtList(Seq<StmtModel>),
    Return(ExprModel),
}

pub open spec fn type_model(t: Type) -> TypeModel
    decreases t,
{
    match t {
        Type::Unit => TypeModel::Unit,
        Type::Integer => TypeModel::Integer,
        Type::Boolean => TypeModel::Boolean,
        Type::Ref(inner) => TypeModel::Ref(Box::new(type_model(*inner))),
        Type::Fun { args, ret } => TypeModel::Fun {
            args: Seq::new(
                args@.len(),
                |i: int|
                    if 0 <= i < args@.len() {
                        type_model(args@[i])
                    } else {
                        TypeModel::Unit
                    },
            ),
            ret: Box::new(type_model(*ret)),
        },
        Type::Array { typ, len } => TypeModel::Array { typ: Box::new(type_model(*typ)), len },
        Type::Record { fields } => TypeModel::Record {
            fields: Seq::new(
                fields@.len(),
                |i: int|
                    if 0 <= i < fields@.len() {
                        (fields@[i].inner, type_model(fields@[i].typ))
                    } else {
                        (Id(0), TypeModel::Unit)
                    },
            ),
        },
        Type::Variable(id) => TypeModel::Variable(id),
    }
}

pub open spec fn literal_model(l: Literal) -> LiteralModel
    decreases l,
{
    match l {
        Literal::Unit => LiteralModel::Unit,
        Literal::Integer(n) => LiteralModel::Integer(n),
        Literal::Boolean(b) => LiteralModel::Boolean(b),
        Literal::Record { fields } => LiteralModel::Record {
            fields: Seq::new(
                fields@.len(),
                |i: int|
                    if 0 <= i < fields@.len() {
                        (
                            (fields@[i].0.inner, type_model(fields@[i].0.typ)),
                            literal_model(*fields@[i].1),
                        )
                    } else {
                        ((Id(0), TypeModel::Unit), LiteralModel::Unit)
                    },
            ),
        },
        Literal::Null => LiteralModel::Null,
    }
}

pub open spec fn expr_model(e: Expr) -> ExprModel
    decreases e,
{
    match e {
        Expr::RVar(r) => ExprModel::RVar(r),
        Expr::Call(f, args) => ExprModel::Call(
            f,
            Seq::new(
                args@.len(),
                |i: int|
                    if 0 <= i < args@.len() {
                        expr_model(args@[i])
                    } else {
                        ExprModel::Literal(LiteralModel::Unit)
                    },
            ),
        ),
        Expr::Alloc(inner) => ExprModel::Alloc(Box::new(expr_model(*inner))),
        Expr::UnExp(op, inner) => ExprModel::UnExp(op, Box::new(expr_model(*inner))),
        Expr::BinExp(l, op, r) => ExprModel::BinExp(
            Box::new(expr_model(*l)),
            op,
            Box::new(expr_model(*r)),
        ),
        Expr::Literal(l) => ExprModel::Literal(literal_model(l)),
        Expr::Cast(t) => ExprModel::Cast(Box::new(expr_model(*t.inner)), type_model(t.typ)),
    }
}

pub open spec fn stmt_model(s: Stmt) -> StmtModel
    decreases s,
{
    match s {
        Stmt::Var(id, t) => StmtModel::Var(
            id,
            match t {
                Some(t) => Some(type_model(t)),
                None => None,
            },
        ),
        Stmt::Assign(l, e) => StmtModel::Assign(l, expr_model(e)),
        Stmt::Input(l) => StmtModel::Input(l),
        Stmt::Output(e) => StmtModel::Output(expr_model(e)),
        Stmt::While(c, body) => StmtModel::While(expr_model(c), Box::new(stmt_model(*body))),
        Stmt::IfThenElse(c, t, f) => StmtModel::IfThenElse(
            expr_model(c),
            Box::new(stmt_model(*t)),
            Box::new(stmt_model(*f)),
        ),
        Stmt::StmtList(stmts) => StmtModel::StmtList(
            Seq::new(
                stmts@.len(),
                |i: int|
                    if 0 <= i < stmts@.len() {
                        stmt_model(stmts@[i])
                    } else {
                        StmtModel::StmtList(Seq::empty())
                    },
            ),
        ),
        Stmt::Return(e) => StmtModel::Return(expr_model(e)),
    }
}

impl View for Type {
    type V = TypeModel;

    open spec fn view(&self) -> TypeModel {
        type_model(*self)
    }
}

impl View for Literal {
    type V = LiteralModel;

    open spec fn view(&self) -> LiteralModel {
        literal_model(*self)
    }
}

impl View for Expr {
    type V = ExprModel;

    open spec fn view(&self) -> ExprModel {
        expr_model(*self)
    }
}

impl View for Stmt {
    type V = StmtModel;

    open spec fn view(&self) -> StmtModel {
        stmt_model(*self)
    }
}

// ---------------------------------------------------------------------------
// Copies
// ---------------------------------------------------------------------------

impl RVar {
    /// A copy of the variable.
    pub fn duplicate(&self) -> (r: RVar)
        ensures
            r == *self,
        decreases self,
    {
        match self {
            RVar::Id(id) => RVar::Id(*id),
            RVar::Deref(b) => RVar::Deref(Box::new((&**b).duplicate())),
            RVar::Field(b, id) => RVar::Field(Box::new((&**b).duplicate()), *id),
            RVar::Ref(b) => RVar::Ref(Box::new((&**b).duplicate())),
        }
    }
}

impl Type {
    /// A copy of the type.
    pub fn duplicate(&self) -> (r: Type)
        ensures
            r@ == self@,
        decreases self,
    {
        match self {
            Type::Unit => Type::Unit,
            Type::Integer => Type::Integer,
            Type::Boolean => Type::Boolean,
            Type::Ref(t) => Type::Ref(Box::new((&**t).duplicate())),
            Type::Fun { args, ret } => {
                let new_args = duplicate_types(args);
                let r = Type::Fun { args: new_args, ret: Box::new((&**ret).duplicate()) };
                proof {
                    assert(type_model(r)->Fun_args =~= type_model(*self)->Fun_args);
                }
                r
            },
            Type::Array { typ, len } => Type::Array { typ: Box::new((&**typ).duplicate()), len: *len },
            Type::Record { fields } => {
                let new_fields = duplicate_typed_ids(fields);
                let r = Type::Record { fields: new_fields };
                proof {
                    assert(type_model(r)->Record_fields =~= type_model(*self)->Record_fields);
                }
                r
            },
            Type::Variable(id) => Type::Variable(*id),
        }
    }
}

fn duplicate_types(ts: &Vec<Type>) -> (r: Vec<Type>)
    ensures
        r@.len() == ts@.len(),
        forall|i: int| 0 <= i < ts@.len() ==> (#[trigger] r@[i])@ == ts@[i]@,
    decreases ts,
{
    let mut r: Vec<Type> = Vec::new();
    let mut i: usize = 0;
    while i < ts.len()
        invariant
            i <= ts@.len(),
            r@.len() == i,
            forall|j: int| 0 <= j < i ==> (#[trigger] r@[j])@ == ts@[j]@,
        decreases ts@.len() - i,
    {
        r.push(ts[i].duplicate());
        i = i + 1;
    }
    r
}

fn duplicate_typed_ids(ts: &Vec<Typed<Id>>) -> (r: Vec<Typed<Id>>)
    ensures
        r@.len() == ts@.len(),
        forall|i: int|
            0 <= i < ts@.len() ==> (#[trigger] r@[i]).inner == ts@[i].inner && r@[i].typ@ == ts@[i].typ@,
    decreases ts,
{
    let mut r: Vec<Typed<Id>> = Vec::new();
    let mut i: usize = 0;
    while i < ts.len()
        invariant
            i <= ts@.len(),
            r@.len() == i,
            forall|j: int|
                0 <= j < i ==> (#[trigger] r@[j]).inner == ts@[j].inner && r@[j].typ@ == ts@[j].typ@,
        decreases ts@.len() - i,
    {
        r.push(Typed { inner: ts[i].inner, typ: ts[i].typ.duplicate() });
        i = i + 1;
    }
    r
}

impl Literal {
    /// A copy of the literal.
    pub fn duplicate(&self) -> (r: Literal)
        ensures
            r@ == self@,
        decreases self,
    {
        match self {
            Literal::Unit => Literal::Unit,
            Literal::Integer(n) => Literal::Integer(*n),
            Literal::Boolean(b) => Literal::Boolean(*b),
            Literal::Record { fields } => {
                let new_fields = duplicate_fields(fields);
                let r = Literal::Record { fields: new_fields };
                proof {
                    assert(literal_model(r)->Record_fields =~= literal_model(*self)->Record_fields);
                }
                r
            },
            Literal::Null => Literal::Null,
        }
    }
}

fn duplicate_fields(fs: &Vec<(Typed<Id>, Box<Literal>)>) -> (r: Vec<(Typed<Id>, Box<Literal>)>)
    ensures
        r@.len() == fs@.len(),
        forall|i: int|
            0 <= i < fs@.len() ==> (#[trigger] r@[i]).0.inner == fs@[i].0.inner && r@[i].0.typ@
                == fs@[i].0.typ@ && (*r@[i].1)@ == (*fs@[i].1)@,
    decreases fs,
{
    let mut r: Vec<(Typed<Id>, Box<Literal>)> = Vec::new();
    let mut i: usize = 0;
    while i < fs.len()
        invariant
            i <= fs@.len(),
            r@.len() == i,
            forall|j: int|
                0 <= j < i ==> (#[trigger] r@[j]).0.inner == fs@[j].0.inner && r@[j].0.typ@
                    == fs@[j].0.typ@ && (*r@[j].1)@ == (*fs@[j].1)@,
        decreases fs@.len() - i,
    {
        let field = &fs[i];
        let copy = (
            Typed { inner: field.0.inner, typ: field.0.typ.duplicate() },
            Box::new((&*field.1).duplicate()),
        );
        r.push(copy);
        i = i + 1;
    }
    r
}

impl Expr {
    /// A copy of the expression.
    pub fn duplicate(&self) -> (r: Expr)
        ensures
            r@ == self@,
        decreases self,
    {
        match self {
            Expr::RVar(v) => Expr::RVar(v.duplicate()),
            Expr::Call(f, args) => {
                let new_args = duplicate_exprs(args);
                let r = Expr::Call(f.duplicate(), new_args);
                proof {
                    assert(expr_model(r)->Call_1 =~= expr_model(*self)->Call_1);
                }
                r
            },
            Expr::Alloc(e) => Expr::Alloc(Box::new((&**e).duplicate())),
            Expr::UnExp(op, e) => Expr::UnExp(*op, Box::new((&**e).duplicate())),
            Expr::BinExp(l, op, r) => Expr::BinExp(
                Box::new((&**l).duplicate()),
                *op,
                Box::new((&**r).duplicate()),
            ),
            Expr::Literal(l) => Expr::Literal(l.duplicate()),
            Expr::Cast(t) => Expr::Cast(
                Typed { inner: Box::new((&*t.inner).duplicate()), typ: t.typ.duplicate() },
            ),
        }
    }
}

fn duplicate_exprs(es: &Vec<Expr>) -> (r: Vec<Expr>)
    ensures
        r@.len() == es@.len(),
        forall|i: int| 0 <= i < es@.len() ==> (#[trigger] r@[i])@ == es@[i]@,
    decreases es,
{
    let mut r: Vec<Expr> = Vec::new();
    let mut i: usize = 0;
    while i < es.len()
        invariant
            i <= es@.len(),
            r@.len() == i,
            forall|j: int| 0 <= j < i ==> (#[trigger] r@[j])@ == es@[j]@,
        decreases es@.len() - i,
    {
        r.push(es[i].duplicate());
        i = i + 1;
    }
    r
}

impl Stmt {
    /// A copy of the statement.
    pub fn duplicate(&self) -> (r: Stmt)
        ensures
            r@ == self@,
        decreases self,
    {
        match self {
            Stmt::Var(id, t) => Stmt::Var(
                *id,
                match t {
                    Some(t) => Some(t.duplicate()),
                    None => None,
                },
            ),
            Stmt::Assign(l, e) => Stmt::Assign(*l, e.duplicate()),
            Stmt::Input(l) => Stmt::Input(*l),
            Stmt::Output(e) => Stmt::Output(e.duplicate()),
            Stmt::While(c, b) => Stmt::While(c.duplicate(), Box::new((&**b).duplicate())),
            Stmt::IfThenElse(c, t, f) => Stmt::IfThenElse(
                c.duplicate(),
                Box::new((&**t).duplicate()),
                Box::new((&**f).duplicate()),
            ),
            Stmt::StmtList(stmts) => {
                let new_stmts = duplicate_stmts(stmts);
                let r = Stmt::StmtList(new_stmts);
                proof {
                    assert(stmt_model(r)->StmtList_0 =~= stmt_model(*self)->StmtList_0);
                }
                r
            },
            Stmt::Return(e) => Stmt::Return(e.duplicate()),
        }
    }
}

fn duplicate_stmts(ss: &Vec<Stmt>) -> (r: Vec<Stmt>)
    ensures
        r@.len() == ss@.len(),
        forall|i: int| 0 <= i < ss@.len() ==> (#[trigger] r@[i])@ == ss@[i]@,
    decreases ss,
{
    let mut r: Vec<Stmt> = Vec::new();
    let mut i: usize = 0;
    while i < ss.len()
        invariant
            i <= ss@.len(),
            r@.len() == i,
            forall|j: int| 0 <= j < i ==> (#[trigger] r@[j])@ == ss@[j]@,
        decreases ss@.len() - i,
    {
        r.push(ss[i].duplicate());
        i = i + 1;
    }
    r
}

// ---------------------------------------------------------------------------
// Interning
// ---------------------------------------------------------------------------

/// Gives identifiers their numbers: the `n`-th distinct name interned is
/// `Id(n)`.
pub struct Interner {
    names: Vec<String>,
}

impl View for Interner {
    type V = Seq<Seq<char>>;

    closed spec fn view(&self) -> Seq<Seq<char>> {
        self.names@.map_values(|s: String| s@)
    }
}

impl Interner {
    /// Each name is held once.
    pub open spec fn wf(&self) -> bool {
        self@.no_duplicates()
    }

    /// An interner that holds no name.
    pub fn new() -> (r: Interner)
        ensures
            r@ == Seq::<Seq<char>>::empty(),
            r.wf(),
    {
        let r = Interner { names: Vec::new() };
        proof {
            assert(r@ =~= Seq::<Seq<char>>::empty());
        }
        r
    }

    /// The identifier of `name`: its number if it was interned before, the
    /// next number otherwise, in which case `name` is added.
    pub fn intern(&mut self, name: &str) -> (id: Id)
        requires
            old(self).wf(),
            old(self)@.len() < u64::MAX,
        ensures
            final(self).wf(),
            final(self)@ == if old(self)@.contains(name@) {
                old(self)@
            } else {
                old(self)@.push(name@)
            },
            id.0 < final(self)@.len(),
            final(self)@[id.0 as int] == name@,
    {
        let owned = name.to_owned();
        let mut i: usize = 0;
        while i < self.names.len()
            invariant
                self.wf(),
                self@ == old(self)@,
                self@.len() < u64::MAX,
                owned@ == name@,
                i <= self.names@.len(),
                forall|j: int| 0 <= j < i ==> self@[j] != name@,
            decreases self.names@.len() - i,
        {
            if self.names[i] == owned {
                proof {
                    assert(self@[i as int] == name@);
                    assert(old(self)@.contains(name@));
                }
                return Id(i as u64);
            }
            i = i + 1;
        }
        proof {
            assert(!old(self)@.contains(name@));
        }
        let n = self.names.len();
        self.names.push(owned);
        proof {
            assert(self@ =~= old(self)@.push(name@));
        }
        Id(n as u64)
    }

    /// The name that `id` stands for, if it was interned.
    pub fn name(&self, id: Id) -> (r: Option<&String>)
        ensures
            r is Some <==> id.0 < self@.len(),
            r matches Some(s) ==> s@ == self@[id.0 as int],
    {
        if id.0 < self.names.len() as u64 {
            Some(&self.names[id.0 as usize])
        } else {
            None
        }
    }
}

} // verus!
