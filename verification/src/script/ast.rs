//! The syntax tree of the script language.
use vstd::prelude::*;
use crate::text::{copy_string, string_eq};

verus! {

#[derive(Debug, PartialEq, Eq)]
pub enum Node {
    Program(Vec<Statement>),
    Statement(Statement),
    Expression(Expression),
}

#[derive(Debug, PartialEq, Eq)]
pub enum Statement {
    LetStmt { name: Expression, value: Expression },
    LetFnStmt { name: Expression, params: Vec<Expression>, body: Expression },
    ReturnStmt(Expression),
    WhileStmt { condition: Expression, body: Expression },
    ExprStmt(Expression),
}

#[derive(Debug, PartialEq, Eq)]
pub enum Expression {
    UnaryExpr { kind: UnaryExprKind, expr: Box<Expression> },
    IfExpr {
        condition: Box<Expression>,
        consequence: Box<Expression>,
        alternative: Option<Box<Expression>>,
    },
    BlockExpr(Vec<Statement>),
    CallExpr { name: Box<Expression>, args: Vec<Expression> },
    BinaryExpr { kind: BinaryExprKind, lhs: Box<Expression>, rhs: Box<Expression> },
    Ident(String),
    Integer(isize),
    Boolean(bool),
    Str(String),
}

#[derive(Debug, PartialEq, Eq, Clone, Copy, Structural)]
pub enum UnaryExprKind {
    Not,
    Minus,
}

#[derive(Debug, PartialEq, Eq, Clone, Copy, Structural)]
pub enum BinaryExprKind {
    Add,
    Sub,
    Mul,
    Div,
    Mod,
    Eq,
    Ne,
    Le,
    Lt,
    Ge,
    Gt,
}

/// The abstract value of an expression.
pub enum ExprModel {
    Unary { kind: UnaryExprKind, expr: Box<ExprModel> },
    If { condition: Box<ExprModel>, consequence: Box<ExprModel>, alternative: Option<Box<ExprModel>> },
    Block(Seq<StmtModel>),
    Call { name: Box<ExprModel>, args: Seq<ExprModel> },
    Binary { kind: BinaryExprKind, lhs: Box<ExprModel>, rhs: Box<ExprModel> },
    Ident(Seq<char>),
    Integer(int),
    Boolean(bool),
    Str(Seq<char>),
}

/// The abstract value of a statement.
pub enum StmtModel {
    Let { name: ExprModel, value: ExprModel },
    LetFn { name: ExprModel, params: Seq<ExprModel>, body: ExprModel },
    Return(ExprModel),
    While { condition: ExprModel, body: ExprModel },
    Expr(ExprModel),
}

/// The abstract value of a node.
pub enum NodeModel {
    Program(Seq<StmtModel>),
    Statement(StmtModel),
    Expression(ExprModel),
}

impl Expression {
    pub open spec fn model(&self) -> ExprModel
        decreases self,
    {
        match self {
            Expression::UnaryExpr { kind, expr } => ExprModel::Unary { kind: *kind, expr: Box::new(expr.model()) },
            Expression::IfExpr { condition, consequence, alternative } => ExprModel::If {
                condition: Box::new(condition.model()),
                consequence: Box::new(consequence.model()),
                alternative: match alternative {
                    Some(a) => Some(Box::new(a.model())),
                    None => None,
                },
            },
            Expression::BlockExpr(stmts) => ExprModel::Block(stmt_models(stmts@)),
            Expression::CallExpr { name, args } => ExprModel::Call {
                name: Box::new(name.model()),
                args: expr_models(args@),
            },
            Expression::BinaryExpr { kind, lhs, rhs } => ExprModel::Binary {
                kind: *kind,
                lhs: Box::new(lhs.model()),
                rhs: Box::new(rhs.model()),
            },
            Expression::Ident(name) => ExprModel::Ident(name@),
            Expression::Integer(v) => ExprModel::Integer(*v as int),
            Expression::Boolean(b) => ExprModel::Boolean(*b),
            Expression::Str(s) => ExprModel::Str(s@),
        }
    }
}

impl View for Expression {
    type V = ExprModel;

    open spec fn view(&self) -> ExprModel {
        self.model()
    }
}

impl Statement {
    pub open spec fn model(&self) -> StmtModel
        decreases self,
    {
        match self {
            Statement::LetStmt { name, value } => StmtModel::Let { name: name.model(), value: value.model() },
            Statement::LetFnStmt { name, params, body } => StmtModel::LetFn {
                name: name.model(),
                params: expr_models(params@),
                body: body.model(),
            },
            Statement::ReturnStmt(e) => StmtModel::Return(e.model()),
            Statement::WhileStmt { condition, body } => StmtModel::While {
                condition: condition.model(),
                body: body.model(),
            },
            Statement::ExprStmt(e) => StmtModel::Expr(e.model()),
        }
    }
}

impl View for Statement {
    type V = StmtModel;

    open spec fn view(&self) -> StmtModel {
        self.model()
    }
}

impl View for Node {
    type V = NodeModel;

    open spec fn view(&self) -> NodeModel {
        match self {
            Node::Program(stmts) => NodeModel::Program(stmt_models(stmts@)),
            Node::Statement(s) => NodeModel::Statement(s.model()),
            Node::Expression(e) => NodeModel::Expression(e.model()),
        }
    }
}

pub open spec fn expr_models(s: Seq<Expression>) -> Seq<ExprModel>
    decreases s,
{
    if s.len() == 0 {
        Seq::empty()
    } else {
        expr_models(s.subrange(0, s.len() - 1)).push(s[s.len() - 1].model())
    }
}

pub open spec fn stmt_models(s: Seq<Statement>) -> Seq<StmtModel>
    decreases s,
{
    if s.len() == 0 {
        Seq::empty()
    } else {
        stmt_models(s.subrange(0, s.len() - 1)).push(s[s.len() - 1].model())
    }
}

pub proof fn lemma_expr_models(s: Seq<Expression>)
    ensures
        expr_models(s).len() == s.len(),
        forall|i: int| 0 <= i < s.len() ==> #[trigger] expr_models(s)[i] == s[i].model(),
    decreases s.len(),
{
    if s.len() > 0 {
        lemma_expr_models(s.subrange(0, s.len() - 1));
    }
}

pub proof fn lemma_stmt_models(s: Seq<Statement>)
    ensures
        stmt_models(s).len() == s.len(),
        forall|i: int| 0 <= i < s.len() ==> #[trigger] stmt_models(s)[i] == s[i].model(),
    decreases s.len(),
{
    if s.len() > 0 {
        lemma_stmt_models(s.subrange(0, s.len() - 1));
    }
}

/// Appending an element appends its model.
pub proof fn lemma_expr_models_push(s: Seq<Expression>, e: Expression)
    ensures
        expr_models(s.push(e)) == expr_models(s).push(e.model()),
{
    assert(s.push(e).subrange(0, s.len() as int) =~= s);
}

pub proof fn lemma_stmt_models_push(s: Seq<Statement>, e: Statement)
    ensures
        stmt_models(s.push(e)) == stmt_models(s).push(e.model()),
{
    assert(s.push(e).subrange(0, s.len() as int) =~= s);
}

impl Expression {
    /// An expression equal to this one.
    pub fn duplicate(&self) -> (r: Expression)
        ensures
            r@ == self@,
        decreases self,
    {
        match self {
            Expression::UnaryExpr { kind, expr } => Expression::UnaryExpr { kind: *kind, expr: Box::new(expr.duplicate()) },
            Expression::IfExpr { condition, consequence, alternative } => Expression::IfExpr {
                condition: Box::new(condition.duplicate()),
                consequence: Box::new(consequence.duplicate()),
                alternative: match alternative {
                    Some(a) => Some(Box::new(a.duplicate())),
                    None => None,
                },
            },
            Expression::BlockExpr(stmts) => Expression::BlockExpr(duplicate_stmts(stmts)),
            Expression::CallExpr { name, args } => Expression::CallExpr {
                name: Box::new(name.duplicate()),
                args: duplicate_exprs(args),
            },
            Expression::BinaryExpr { kind, lhs, rhs } => Expression::BinaryExpr {
                kind: *kind,
                lhs: Box::new(lhs.duplicate()),
                rhs: Box::new(rhs.duplicate()),
            },
            Expression::Ident(name) => Expression::Ident(copy_string(name)),
            Expression::Integer(v) => Expression::Integer(*v),
            Expression::Boolean(b) => Expression::Boolean(*b),
            Expression::Str(s) => Expression::Str(copy_string(s)),
        }
    }
}

impl Statement {
    /// A statement equal to this one.
    pub fn duplicate(&self) -> (r: Statement)
        ensures
            r@ == self@,
        decreases self,
    {
        match self {
            Statement::LetStmt { name, value } => Statement::LetStmt { name: name.duplicate(), value: value.duplicate() },
            Statement::LetFnStmt { name, params, body } => Statement::LetFnStmt {
                name: name.duplicate(),
                params: duplicate_exprs(params),
                body: body.duplicate(),
            },
            Statement::ReturnStmt(e) => Statement::ReturnStmt(e.duplicate()),
            Statement::WhileStmt { condition, body } => Statement::WhileStmt {
                condition: condition.duplicate(),
                body: body.duplicate(),
            },
            Statement::ExprStmt(e) => Statement::ExprStmt(e.duplicate()),
        }
    }
}

pub fn duplicate_exprs(v: &Vec<Expression>) -> (r: Vec<Expression>)
    ensures
        expr_models(r@) == expr_models(v@),
    decreases v,
{
    let mut out: Vec<Expression> = Vec::new();
    let mut i: usize = 0;
    while i < v.len()
        invariant
            i <= v.len(),
            out@.len() == i,
            forall|j: int| 0 <= j < i ==> out@[j]@ == v@[j]@,
        decreases v.len() - i,
    {
        proof {
            assert(decreases_to!(v => v@[i as int]));
        }
        out.push(v[i].duplicate());
        i += 1;
    }
    proof {
        lemma_expr_models(out@);
        lemma_expr_models(v@);
        assert(expr_models(out@) =~= expr_models(v@));
    }
    out
}

pub fn duplicate_stmts(v: &Vec<Statement>) -> (r: Vec<Statement>)
    ensures
        stmt_models(r@) == stmt_models(v@),
    decreases v,
{
    let mut out: Vec<Statement> = Vec::new();
    let mut i: usize = 0;
    while i < v.len()
        invariant
            i <= v.len(),
            out@.len() == i,
            forall|j: int| 0 <= j < i ==> out@[j]@ == v@[j]@,
        decreases v.len() - i,
    {
        proof {
            assert(decreases_to!(v => v@[i as int]));
        }
        out.push(v[i].duplicate());
        i += 1;
    }
    proof {
        lemma_stmt_models(out@);
        lemma_stmt_models(v@);
        assert(stmt_models(out@) =~= stmt_models(v@));
    }
    out
}


impl Expression {
    /// Structural equality of two expressions.
    pub fn equals(&self, other: &Expression) -> (b: bool)
        ensures
            b == (self@ == other@),
        decreases self,
    {
        match (self, other) {
            (Expression::UnaryExpr { kind: k1, expr: e1 }, Expression::UnaryExpr { kind: k2, expr: e2 }) => {
                if *k1 != *k2 {
                    return false;
                }
                let e = e1.equals(e2);
                proof {
                    if !e {
                        assert(self@->Unary_expr != other@->Unary_expr);
                    }
                }
                e
            },
            (
                Expression::IfExpr { condition: c1, consequence: t1, alternative: a1 },
                Expression::IfExpr { condition: c2, consequence: t2, alternative: a2 },
            ) => {
                let c = c1.equals(c2);
                if !c {
                    assert(self@->condition != other@->condition);
                    return false;
                }
                let t = t1.equals(t2);
                if !t {
                    assert(self@->consequence != other@->consequence);
                    return false;
                }
                match (a1, a2) {
                    (Some(x), Some(y)) => {
                        let e = x.equals(y);
                        proof {
                            if !e {
                                assert(self@->alternative != other@->alternative);
                            }
                        }
                        e
                    },
                    (None, None) => true,
                    _ => false,
                }
            },
            (Expression::BlockExpr(s1), Expression::BlockExpr(s2)) => stmts_equal(s1, s2),
            (Expression::CallExpr { name: n1, args: a1 }, Expression::CallExpr { name: n2, args: a2 }) => {
                let n = n1.equals(n2);
                if !n {
                    assert(self@->Call_name != other@->Call_name);
                    return false;
                }
                exprs_equal(a1, a2)
            },
            (
                Expression::BinaryExpr { kind: k1, lhs: l1, rhs: r1 },
                Expression::BinaryExpr { kind: k2, lhs: l2, rhs: r2 },
            ) => {
                if *k1 != *k2 {
                    return false;
                }
                let l = l1.equals(l2);
                if !l {
                    assert(self@->lhs != other@->lhs);
                    return false;
                }
                let r = r1.equals(r2);
                proof {
                    if !r {
                        assert(self@->rhs != other@->rhs);
                    }
                }
                r
            },
            (Expression::Ident(a), Expression::Ident(b)) => string_eq(a, b),
            (Expression::Integer(a), Expression::Integer(b)) => *a == *b,
            (Expression::Boolean(a), Expression::Boolean(b)) => *a == *b,
            (Expression::Str(a), Expression::Str(b)) => string_eq(a, b),
            _ => false,
        }
    }
}

impl Statement {
    /// Structural equality of two statements.
    pub fn equals(&self, other: &Statement) -> (b: bool)
        ensures
            b == (self@ == other@),
        decreases self,
    {
        match (self, other) {
            (Statement::LetStmt { name: n1, value: v1 }, Statement::LetStmt { name: n2, value: v2 }) => {
                n1.equals(n2) && v1.equals(v2)
            },
            (
                Statement::LetFnStmt { name: n1, params: p1, body: b1 },
                Statement::LetFnStmt { name: n2, params: p2, body: b2 },
            ) => n1.equals(n2) && exprs_equal(p1, p2) && b1.equals(b2),
            (Statement::ReturnStmt(a), Statement::ReturnStmt(b)) => a.equals(b),
            (
                Statement::WhileStmt { condition: c1, body: b1 },
                Statement::WhileStmt { condition: c2, body: b2 },
            ) => c1.equals(c2) && b1.equals(b2),
            (Statement::ExprStmt(a), Statement::ExprStmt(b)) => a.equals(b),
            _ => false,
        }
    }
}

/// Element-wise equality of two lists of expressions.
pub fn exprs_equal(a: &Vec<Expression>, b: &Vec<Expression>) -> (r: bool)
    ensures
        r == (expr_models(a@) == expr_models(b@)),
    decreases a,
{
    proof {
        lemma_expr_models(a@);
        lemma_expr_models(b@);
    }
    if a.len() != b.len() {
        return false;
    }
    let mut i: usize = 0;
    while i < a.len()
        invariant
            i <= a.len(),
            a.len() == b.len(),
            expr_models(a@).len() == a.len(),
            expr_models(b@).len() == b.len(),
            forall|j: int| 0 <= j < a.len() ==> #[trigger] expr_models(a@)[j] == a@[j].model(),
            forall|j: int| 0 <= j < b.len() ==> #[trigger] expr_models(b@)[j] == b@[j].model(),
            forall|j: int| 0 <= j < i ==> a@[j]@ == b@[j]@,
        decreases a.len() - i,
    {
        proof {
            assert(decreases_to!(a => a@[i as int]));
        }
        if !a[i].equals(&b[i]) {
            assert(expr_models(a@)[i as int] != expr_models(b@)[i as int]);
            return false;
        }
        i += 1;
    }
    assert(expr_models(a@) =~= expr_models(b@));
    true
}

/// Element-wise equality of two lists of statements.
pub fn stmts_equal(a: &Vec<Statement>, b: &Vec<Statement>) -> (r: bool)
    ensures
        r == (stmt_models(a@) == stmt_models(b@)),
    decreases a,
{
    proof {
        lemma_stmt_models(a@);
        lemma_stmt_models(b@);
    }
    if a.len() != b.len() {
        return false;
    }
    let mut i: usize = 0;
    while i < a.len()
        invariant
            i <= a.len(),
            a.len() == b.len(),
            stmt_models(a@).len() == a.len(),
            stmt_models(b@).len() == b.len(),
            forall|j: int| 0 <= j < a.len() ==> #[trigger] stmt_models(a@)[j] == a@[j].model(),
            forall|j: int| 0 <= j < b.len() ==> #[trigger] stmt_models(b@)[j] == b@[j].model(),
            forall|j: int| 0 <= j < i ==> a@[j]@ == b@[j]@,
        decreases a.len() - i,
    {
        proof {
            assert(decreases_to!(a => a@[i as int]));
        }
        if !a[i].equals(&b[i]) {
            assert(stmt_models(a@)[i as int] != stmt_models(b@)[i as int]);
            return false;
        }
        i += 1;
    }
    assert(stmt_models(a@) =~= stmt_models(b@));
    true
}
} // verus!
