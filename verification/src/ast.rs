//! The syntax tree of the wervc language.
use vstd::prelude::*;
use crate::text::{copy_string, string_eq};
use crate::ty::{Type, TypeModel};

verus! {

#[derive(Debug, PartialEq, Eq)]
pub struct Program<E> {
    pub statements: Vec<Statement<E>>,
}

#[derive(Debug, PartialEq, Eq)]
pub enum Node<E> {
    Program(Program<E>),
    Statement(Statement<E>),
    Expression(E),
}

#[derive(Debug, PartialEq, Eq)]
pub enum Statement<E> {
    ExprStmt(E),
    ExprReturnStmt(E),
}

#[derive(Debug, PartialEq, Eq, Clone, Copy)]
pub struct Integer {
    pub value: isize,
}

#[derive(Debug, PartialEq, Eq)]
pub struct Ident {
    pub name: String,
    pub offset: isize,
}

#[derive(Debug, PartialEq, Eq, Clone, Copy)]
pub struct Boolean {
    pub value: bool,
}

#[derive(Debug, PartialEq, Eq)]
pub struct Array<E> {
    pub elements: Vec<E>,
}

#[derive(Debug, PartialEq, Eq)]
pub struct BinaryExpr<E> {
    pub kind: BinaryExprKind,
    pub lhs: Box<E>,
    pub rhs: Box<E>,
}

#[derive(Debug, PartialEq, Eq)]
pub struct LetExpr<E> {
    pub name: Box<E>,
    pub value: Box<E>,
    pub ty: Type,
}

#[derive(Debug, PartialEq, Eq)]
pub struct BlockExpr<E> {
    pub statements: Vec<Statement<E>>,
}

#[derive(Debug, PartialEq, Eq)]
pub struct CallExpr<E> {
    pub func: Box<E>,
    pub args: Vec<E>,
}

#[derive(Debug, PartialEq, Eq)]
pub struct FunctionDefExpr<E> {
    pub name: Box<E>,
    /// Each parameter with its declared type.
    pub params: Vec<(E, Type)>,
    pub return_ty: Type,
    pub body: Box<E>,
}

#[derive(Debug, PartialEq, Eq)]
pub struct IfExpr<E> {
    pub condition: Box<E>,
    pub consequence: Box<E>,
    pub alternative: Option<Box<E>>,
}

#[derive(Debug, PartialEq, Eq)]
pub struct ReturnExpr<E> {
    pub value: Box<E>,
}

#[derive(Debug, PartialEq, Eq)]
pub struct UnaryExpr<E> {
    pub kind: UnaryExprKind,
    pub expr: Box<E>,
}

#[derive(Debug, PartialEq, Eq)]
pub struct IndexExpr<E> {
    pub array: Box<E>,
    pub index: Box<E>,
}

#[derive(Debug, PartialEq, Eq)]
pub enum Expression {
    Integer(Integer),
    Ident(Ident),
    Boolean(Boolean),
    Array(Array<Expression>),
    BinaryExpr(BinaryExpr<Expression>),
    LetExpr(LetExpr<Expression>),
    BlockExpr(BlockExpr<Expression>),
    CallExpr(CallExpr<Expression>),
    FunctionDefExpr(FunctionDefExpr<Expression>),
    IfExpr(IfExpr<Expression>),
    ReturnExpr(ReturnExpr<Expression>),
    UnaryExpr(UnaryExpr<Expression>),
    IndexExpr(IndexExpr<Expression>),
}

#[derive(Debug, PartialEq, Eq, Clone, Copy, Structural)]
pub enum BinaryExprKind {
    Add,
    Sub,
    Mul,
    Div,
    Eq,
    Ne,
    Lt,
    Le,
    Gt,
    Ge,
    Assign,
}

#[derive(Debug, PartialEq, Eq, Clone, Copy, Structural)]
pub enum UnaryExprKind {
    Minus,
    Not,
    Deref,
    Addr,
}

/// The abstract value of an expression.
pub enum ExprModel {
    Integer(int),
    Ident { name: Seq<char>, offset: int },
    Boolean(bool),
    Array(Seq<ExprModel>),
    Binary { kind: BinaryExprKind, lhs: Box<ExprModel>, rhs: Box<ExprModel> },
    Let { name: Box<ExprModel>, value: Box<ExprModel>, ty: TypeModel },
    Block(Seq<StmtModel>),
    Call { func: Box<ExprModel>, args: Seq<ExprModel> },
    FnDef {
        name: Box<ExprModel>,
        params: Seq<(ExprModel, TypeModel)>,
        return_ty: TypeModel,
        body: Box<ExprModel>,
    },
    If {
        condition: Box<ExprModel>,
        consequence: Box<ExprModel>,
        alternative: Option<Box<ExprModel>>,
    },
    Return(Box<ExprModel>),
    Unary { kind: UnaryExprKind, expr: Box<ExprModel> },
    Index { array: Box<ExprModel>, index: Box<ExprModel> },
}

/// The abstract value of a statement: an expression that either ends in `;` or yields its value.
pub enum StmtModel {
    Expr(ExprModel),
    Return(ExprModel),
}

/// The abstract value of a node.
pub enum NodeModel {
    Program(Seq<StmtModel>),
    Statement(StmtModel),
    Expression(ExprModel),
}

impl View for Ident {
    type V = ExprModel;

    open spec fn view(&self) -> ExprModel {
        self.model()
    }
}

impl Ident {
    pub open spec fn model(&self) -> ExprModel {
        ExprModel::Ident { name: self.name@, offset: self.offset as int }
    }

    /// An identifier equal to this one.
    pub fn duplicate(&self) -> (r: Ident)
        ensures
            r.name@ == self.name@,
            r.offset == self.offset,
    {
        Ident { name: copy_string(&self.name), offset: self.offset }
    }
}

impl Expression {
    pub open spec fn model(&self) -> ExprModel
        decreases self,
    {
        match self {
            Expression::Integer(e) => ExprModel::Integer(e.value as int),
            Expression::Ident(e) => ExprModel::Ident { name: e.name@, offset: e.offset as int },
            Expression::Boolean(e) => ExprModel::Boolean(e.value),
            Expression::Array(e) => ExprModel::Array(expr_models(e.elements@)),
            Expression::BinaryExpr(e) => ExprModel::Binary {
                kind: e.kind,
                lhs: Box::new(e.lhs.model()),
                rhs: Box::new(e.rhs.model()),
            },
            Expression::LetExpr(e) => ExprModel::Let {
                name: Box::new(e.name.model()),
                value: Box::new(e.value.model()),
                ty: e.ty@,
            },
            Expression::BlockExpr(e) => ExprModel::Block(stmt_models(e.statements@)),
            Expression::CallExpr(e) => ExprModel::Call {
                func: Box::new(e.func.model()),
                args: expr_models(e.args@),
            },
            Expression::FunctionDefExpr(e) => ExprModel::FnDef {
                name: Box::new(e.name.model()),
                params: param_models(e.params@),
                return_ty: e.return_ty@,
                body: Box::new(e.body.model()),
            },
            Expression::IfExpr(e) => ExprModel::If {
                condition: Box::new(e.condition.model()),
                consequence: Box::new(e.consequence.model()),
                alternative: match &e.alternative {
                    Some(a) => Some(Box::new(a.model())),
                    None => None,
                },
            },
            Expression::ReturnExpr(e) => ExprModel::Return(Box::new(e.value.model())),
            Expression::UnaryExpr(e) => ExprModel::Unary { kind: e.kind, expr: Box::new(e.expr.model()) },
            Expression::IndexExpr(e) => ExprModel::Index {
                array: Box::new(e.array.model()),
                index: Box::new(e.index.model()),
            },
        }
    }
}

impl View for Expression {
    type V = ExprModel;

    open spec fn view(&self) -> ExprModel {
        self.model()
    }
}

impl Statement<Expression> {
    pub open spec fn model(&self) -> StmtModel
        decreases self,
    {
        match self {
            Statement::ExprStmt(e) => StmtModel::Expr(e.model()),
            Statement::ExprReturnStmt(e) => StmtModel::Return(e.model()),
        }
    }
}

impl View for Statement<Expression> {
    type V = StmtModel;

    open spec fn view(&self) -> StmtModel {
        self.model()
    }
}

impl View for Node<Expression> {
    type V = NodeModel;

    open spec fn view(&self) -> NodeModel {
        match self {
            Node::Program(p) => NodeModel::Program(stmt_models(p.statements@)),
            Node::Statement(s) => NodeModel::Statement(s.model()),
            Node::Expression(e) => NodeModel::Expression(e.model()),
        }
    }
}

pub open spec fn expr_models(s: Seq<Expression>) -> Seq<ExprModel>
    decreases s,
{
    if s.len() == 0 {
        Seq::empty()
    } else {
        expr_models(s.subrange(0, s.len() - 1)).push(s[s.len() - 1].model())
    }
}

pub open spec fn stmt_models(s: Seq<Statement<Expression>>) -> Seq<StmtModel>
    decreases s,
{
    if s.len() == 0 {
        Seq::empty()
    } else {
        stmt_models(s.subrange(0, s.len() - 1)).push(s[s.len() - 1].model())
    }
}

pub open spec fn param_models(s: Seq<(Expression, Type)>) -> Seq<(ExprModel, TypeModel)>
    decreases s,
{
    if s.len() == 0 {
        Seq::empty()
    } else {
        param_models(s.subrange(0, s.len() - 1)).push((s[s.len() - 1].0.model(), s[s.len() - 1].1@))
    }
}

pub proof fn lemma_expr_models(s: Seq<Expression>)
    ensures
        expr_models(s).len() == s.len(),
        forall|i: int| 0 <= i < s.len() ==> #[trigger] expr_models(s)[i] == s[i].model(),
    decreases s.len(),
{
    if s.len() > 0 {
        lemma_expr_models(s.subrange(0, s.len() - 1));
    }
}

pub proof fn lemma_stmt_models(s: Seq<Statement<Expression>>)
    ensures
        stmt_models(s).len() == s.len(),
        forall|i: int| 0 <= i < s.len() ==> #[trigger] stmt_models(s)[i] == s[i].model(),
    decreases s.len(),
{
    if s.len() > 0 {
        lemma_stmt_models(s.subrange(0, s.len() - 1));
    }
}

pub proof fn lemma_param_models(s: Seq<(Expression, Type)>)
    ensures
        param_models(s).len() == s.len(),
        forall|i: int|
            0 <= i < s.len() ==> #[trigger] param_models(s)[i] == (s[i].0.model(), s[i].1@),
    decreases s.len(),
{
    if s.len() > 0 {
        lemma_param_models(s.subrange(0, s.len() - 1));
    }
}

/// Appending an element appends its model.
pub proof fn lemma_expr_models_push(s: Seq<Expression>, e: Expression)
    ensures
        expr_models(s.push(e)) == expr_models(s).push(e.model()),
{
    assert(s.push(e).subrange(0, s.len() as int) =~= s);
}

pub proof fn lemma_stmt_models_push(s: Seq<Statement<Expression>>, e: Statement<Expression>)
    ensures
        stmt_models(s.push(e)) == stmt_models(s).push(e.model()),
{
    assert(s.push(e).subrange(0, s.len() as int) =~= s);
}

pub proof fn lemma_param_models_push(s: Seq<(Expression, Type)>, e: (Expression, Type))
    ensures
        param_models(s.push(e)) == param_models(s).push((e.0.model(), e.1@)),
{
    assert(s.push(e).subrange(0, s.len() as int) =~= s);
}

impl Expression {
    /// An expression equal to this one.
    pub fn duplicate(&self) -> (r: Expression)
        ensures
            r@ == self@,
        decreases self,
    {
        match self {
            Expression::Integer(e) => Expression::Integer(Integer { value: e.value }),
            Expression::Ident(e) => Expression::Ident(e.duplicate()),
            Expression::Boolean(e) => Expression::Boolean(Boolean { value: e.value }),
            Expression::Array(e) => Expression::Array(Array { elements: duplicate_exprs(&e.elements) }),
            Expression::BinaryExpr(e) => Expression::BinaryExpr(BinaryExpr {
                kind: e.kind,
                lhs: Box::new(e.lhs.duplicate()),
                rhs: Box::new(e.rhs.duplicate()),
            }),
            Expression::LetExpr(e) => Expression::LetExpr(LetExpr {
                name: Box::new(e.name.duplicate()),
                value: Box::new(e.value.duplicate()),
                ty: e.ty.duplicate(),
            }),
            Expression::BlockExpr(e) => Expression::BlockExpr(BlockExpr {
                statements: duplicate_stmts(&e.statements),
            }),
            Expression::CallExpr(e) => Expression::CallExpr(CallExpr {
                func: Box::new(e.func.duplicate()),
                args: duplicate_exprs(&e.args),
            }),
            Expression::FunctionDefExpr(e) => Expression::FunctionDefExpr(FunctionDefExpr {
                name: Box::new(e.name.duplicate()),
                params: duplicate_params(&e.params),
                return_ty: e.return_ty.duplicate(),
                body: Box::new(e.body.duplicate()),
            }),
            Expression::IfExpr(e) => Expression::IfExpr(IfExpr {
                condition: Box::new(e.condition.duplicate()),
                consequence: Box::new(e.consequence.duplicate()),
                alternative: match &e.alternative {
                    Some(a) => Some(Box::new(a.duplicate())),
                    None => None,
                },
            }),
            Expression::ReturnExpr(e) => Expression::ReturnExpr(ReturnExpr { value: Box::new(e.value.duplicate()) }),
            Expression::UnaryExpr(e) => Expression::UnaryExpr(UnaryExpr {
                kind: e.kind,
                expr: Box::new(e.expr.duplicate()),
            }),
            Expression::IndexExpr(e) => Expression::IndexExpr(IndexExpr {
                array: Box::new(e.array.duplicate()),
                index: Box::new(e.index.duplicate()),
            }),
        }
    }
}

impl Statement<Expression> {
    /// A statement equal to this one.
    pub fn duplicate(&self) -> (r: Statement<Expression>)
        ensures
            r@ == self@,
        decreases self,
    {
        match self {
            Statement::ExprStmt(e) => Statement::ExprStmt(e.duplicate()),
            Statement::ExprReturnStmt(e) => Statement::ExprReturnStmt(e.duplicate()),
        }
    }
}

pub fn duplicate_exprs(v: &Vec<Expression>) -> (r: Vec<Expression>)
    ensures
        expr_models(r@) == expr_models(v@),
    decreases v,
{
    let mut out: Vec<Expression> = Vec::new();
    let mut i: usize = 0;
    while i < v.len()
        invariant
            i <= v.len(),
            out@.len() == i,
            forall|j: int| 0 <= j < i ==> out@[j]@ == v@[j]@,
        decreases v.len() - i,
    {
        proof {
            assert(decreases_to!(v => v@[i as int]));
        }
        out.push(v[i].duplicate());
        i += 1;
    }
    proof {
        lemma_expr_models(out@);
        lemma_expr_models(v@);
        assert(expr_models(out@) =~= expr_models(v@));
    }
    out
}

pub fn duplicate_stmts(v: &Vec<Statement<Expression>>) -> (r: Vec<Statement<Expression>>)
    ensures
        stmt_models(r@) == stmt_models(v@),
    decreases v,
{
    let mut out: Vec<Statement<Expression>> = Vec::new();
    let mut i: usize = 0;
    while i < v.len()
        invariant
            i <= v.len(),
            out@.len() == i,
            forall|j: int| 0 <= j < i ==> out@[j]@ == v@[j]@,
        decreases v.len() - i,
    {
        proof {
            assert(decreases_to!(v => v@[i as int]));
        }
        out.push(v[i].duplicate());
        i += 1;
    }
    proof {
        lemma_stmt_models(out@);
        lemma_stmt_models(v@);
        assert(stmt_models(out@) =~= stmt_models(v@));
    }
    out
}

pub fn duplicate_params(v: &Vec<(Expression, Type)>) -> (r: Vec<(Expression, Type)>)
    ensures
        param_models(r@) == param_models(v@),
    decreases v,
{
    let mut out: Vec<(Expression, Type)> = Vec::new();
    let mut i: usize = 0;
    while i < v.len()
        invariant
            i <= v.len(),
            out@.len() == i,
            forall|j: int| 0 <= j < i ==> out@[j].0@ == v@[j].0@ && out@[j].1@ == v@[j].1@,
        decreases v.len() - i,
    {
        proof {
            assert(decreases_to!(v => v@[i as int]));
            assert(decreases_to!(v@[i as int] => v@[i as int].0));
        }
        let e = v[i].0.duplicate();
        let t = v[i].1.duplicate();
        out.push((e, t));
        i += 1;
    }
    proof {
        lemma_param_models(out@);
        lemma_param_models(v@);
        assert(param_models(out@) =~= param_models(v@));
    }
    out
}


impl Ident {
    /// Whether two identifiers have the same name and offset.
    pub fn equals(&self, other: &Ident) -> (b: bool)
        ensures
            b == (self@ == other@),
    {
        string_eq(&self.name, &other.name) && self.offset == other.offset
    }
}

impl Expression {
    /// Structural equality of two expressions.
    pub fn equals(&self, other: &Expression) -> (b: bool)
        ensures
            b == (self@ == other@),
        decreases self,
    {
        match (self, other) {
            (Expression::Integer(a), Expression::Integer(b)) => a.value == b.value,
            (Expression::Ident(a), Expression::Ident(b)) => a.equals(b),
            (Expression::Boolean(a), Expression::Boolean(b)) => a.value == b.value,
            (Expression::Array(a), Expression::Array(b)) => exprs_equal(&a.elements, &b.elements),
            (Expression::BinaryExpr(a), Expression::BinaryExpr(b)) => {
                if a.kind != b.kind {
                    return false;
                }
                let l = a.lhs.equals(&b.lhs);
                if !l {
                    assert(self@->Binary_lhs != other@->Binary_lhs);
                    return false;
                }
                let r = a.rhs.equals(&b.rhs);
                proof {
                    if !r {
                        assert(self@->Binary_rhs != other@->Binary_rhs);
                    }
                }
                r
            },
            (Expression::LetExpr(a), Expression::LetExpr(b)) => {
                let n = a.name.equals(&b.name);
                if !n {
                    assert(self@->Let_name != other@->Let_name);
                    return false;
                }
                let v = a.value.equals(&b.value);
                if !v {
                    assert(self@->Let_value != other@->Let_value);
                    return false;
                }
                a.ty.equals(&b.ty)
            },
            (Expression::BlockExpr(a), Expression::BlockExpr(b)) => stmts_equal(&a.statements, &b.statements),
            (Expression::CallExpr(a), Expression::CallExpr(b)) => {
                let f = a.func.equals(&b.func);
                if !f {
                    assert(self@->Call_func != other@->Call_func);
                    return false;
                }
                exprs_equal(&a.args, &b.args)
            },
            (Expression::FunctionDefExpr(a), Expression::FunctionDefExpr(b)) => {
                let n = a.name.equals(&b.name);
                if !n {
                    assert(self@->FnDef_name != other@->FnDef_name);
                    return false;
                }
                if !params_equal(&a.params, &b.params) {
                    return false;
                }
                if !a.return_ty.equals(&b.return_ty) {
                    return false;
                }
                let body = a.body.equals(&b.body);
                proof {
                    if !body {
                        assert(self@->FnDef_body != other@->FnDef_body);
                    }
                }
                body
            },
            (Expression::IfExpr(a), Expression::IfExpr(b)) => {
                let c = a.condition.equals(&b.condition);
                if !c {
                    assert(self@->condition != other@->condition);
                    return false;
                }
                let t = a.consequence.equals(&b.consequence);
                if !t {
                    assert(self@->consequence != other@->consequence);
                    return false;
                }
                match (&a.alternative, &b.alternative) {
                    (Some(x), Some(y)) => {
                        let e = x.equals(y);
                        proof {
                            if !e {
                                assert(self@->alternative != other@->alternative);
                            }
                        }
                        e
                    },
                    (None, None) => true,
                    _ => false,
                }
            },
            (Expression::ReturnExpr(a), Expression::ReturnExpr(b)) => {
                let v = a.value.equals(&b.value);
                proof {
                    if !v {
                        assert(self@->Return_0 != other@->Return_0);
                    }
                }
                v
            },
            (Expression::UnaryExpr(a), Expression::UnaryExpr(b)) => {
                if a.kind != b.kind {
                    return false;
                }
                let e = a.expr.equals(&b.expr);
                proof {
                    if !e {
                        assert(self@->Unary_expr != other@->Unary_expr);
                    }
                }
                e
            },
            (Expression::IndexExpr(a), Expression::IndexExpr(b)) => {
                let x = a.array.equals(&b.array);
                if !x {
                    assert(self@->array != other@->array);
                    return false;
                }
                let i = a.index.equals(&b.index);
                proof {
                    if !i {
                        assert(self@->index != other@->index);
                    }
                }
                i
            },
            _ => false,
        }
    }
}

impl Statement<Expression> {
    /// Structural equality of two statements.
    pub fn equals(&self, other: &Statement<Expression>) -> (b: bool)
        ensures
            b == (self@ == other@),
        decreases self,
    {
        match (self, other) {
            (Statement::ExprStmt(a), Statement::ExprStmt(b)) => a.equals(b),
            (Statement::ExprReturnStmt(a), Statement::ExprReturnStmt(b)) => a.equals(b),
            _ => false,
        }
    }
}

/// Element-wise equality of two lists of expressions.
pub fn exprs_equal(a: &Vec<Expression>, b: &Vec<Expression>) -> (r: bool)
    ensures
        r == (expr_models(a@) == expr_models(b@)),
    decreases a,
{
    proof {
        lemma_expr_models(a@);
        lemma_expr_models(b@);
    }
    if a.len() != b.len() {
        return false;
    }
    let mut i: usize = 0;
    while i < a.len()
        invariant
            i <= a.len(),
            a.len() == b.len(),
            expr_models(a@).len() == a.len(),
            expr_models(b@).len() == b.len(),
            forall|j: int| 0 <= j < a.len() ==> #[trigger] expr_models(a@)[j] == a@[j].model(),
            forall|j: int| 0 <= j < b.len() ==> #[trigger] expr_models(b@)[j] == b@[j].model(),
            forall|j: int| 0 <= j < i ==> a@[j]@ == b@[j]@,
        decreases a.len() - i,
    {
        proof {
            assert(decreases_to!(a => a@[i as int]));
        }
        if !a[i].equals(&b[i]) {
            assert(expr_models(a@)[i as int] != expr_models(b@)[i as int]);
            return false;
        }
        i += 1;
    }
    assert(expr_models(a@) =~= expr_models(b@));
    true
}

/// Element-wise equality of two lists of statements.
pub fn stmts_equal(a: &Vec<Statement<Expression>>, b: &Vec<Statement<Expression>>) -> (r: bool)
    ensures
        r == (stmt_models(a@) == stmt_models(b@)),
    decreases a,
{
    proof {
        lemma_stmt_models(a@);
        lemma_stmt_models(b@);
    }
    if a.len() != b.len() {
        return false;
    }
    let mut i: usize = 0;
    while i < a.len()
        invariant
            i <= a.len(),
            a.len() == b.len(),
            stmt_models(a@).len() == a.len(),
            stmt_models(b@).len() == b.len(),
            forall|j: int| 0 <= j < a.len() ==> #[trigger] stmt_models(a@)[j] == a@[j].model(),
            forall|j: int| 0 <= j < b.len() ==> #[trigger] stmt_models(b@)[j] == b@[j].model(),
            forall|j: int| 0 <= j < i ==> a@[j]@ == b@[j]@,
        decreases a.len() - i,
    {
        proof {
            assert(decreases_to!(a => a@[i as int]));
        }
        if !a[i].equals(&b[i]) {
            assert(stmt_models(a@)[i as int] != stmt_models(b@)[i as int]);
            return false;
        }
        i += 1;
    }
    assert(stmt_models(a@) =~= stmt_models(b@));
    true
}

/// Element-wise equality of two parameter lists.
pub fn params_equal(a: &Vec<(Expression, Type)>, b: &Vec<(Expression, Type)>) -> (r: bool)
    ensures
        r == (param_models(a@) == param_models(b@)),
    decreases a,
{
    proof {
        lemma_param_models(a@);
        lemma_param_models(b@);
    }
    if a.len() != b.len() {
        return false;
    }
    let mut i: usize = 0;
    while i < a.len()
        invariant
            i <= a.len(),
            a.len() == b.len(),
            param_models(a@).len() == a.len(),
            param_models(b@).len() == b.len(),
            forall|j: int| 0 <= j < a.len() ==> #[trigger] param_models(a@)[j] == (a@[j].0.model(), a@[j].1@),
            forall|j: int| 0 <= j < b.len() ==> #[trigger] param_models(b@)[j] == (b@[j].0.model(), b@[j].1@),
            forall|j: int| 0 <= j < i ==> a@[j].0@ == b@[j].0@ && a@[j].1@ == b@[j].1@,
        decreases a.len() - i,
    {
        proof {
            assert(decreases_to!(a => a@[i as int]));
            assert(decreases_to!(a@[i as int] => a@[i as int].0));
        }
        let same_expr = a[i].0.equals(&b[i].0);
        if !same_expr {
            assert(param_models(a@)[i as int] != param_models(b@)[i as int]);
            return false;
        }
        let same_ty = a[i].1.equals(&b[i].1);
        if !same_ty {
            assert(param_models(a@)[i as int] != param_models(b@)[i as int]);
            return false;
        }
        i += 1;
    }
    assert(param_models(a@) =~= param_models(b@));
    true
}

} // verus!
