//! The syntax tree with a type on every expression, and its conversions from and to the
//! untyped tree.
use vstd::prelude::*;
use crate::ast::{Expression, Statement, Node, Program, Integer, Ident, Boolean, Array, BinaryExpr, BinaryExprKind,
    LetExpr, BlockExpr, CallExpr, FunctionDefExpr, IfExpr, ReturnExpr, UnaryExpr, UnaryExprKind, IndexExpr, ExprModel,
    StmtModel, NodeModel, expr_models, stmt_models, param_models, lemma_expr_models, lemma_stmt_models,
    lemma_param_models};
use crate::ty::{Type, TypeModel};

verus! {

#[derive(Debug, PartialEq, Eq)]
pub enum TypedNode {
    Program(Program<TypedExpression>),
    Statement(Statement<TypedExpression>),
    Expression(TypedExpression),
}

#[derive(Debug, PartialEq, Eq)]
pub struct TypedExpression {
    pub kind: TypedExpressionKind,
    pub ty: Type,
}

#[derive(Debug, PartialEq, Eq)]
pub enum TypedExpressionKind {
    Integer(Integer),
    Ident(Ident),
    Boolean(Boolean),
    Array(Array<TypedExpression>),
    BinaryExpr(BinaryExpr<TypedExpression>),
    LetExpr(LetExpr<TypedExpression>),
    BlockExpr(BlockExpr<TypedExpression>),
    CallExpr(CallExpr<TypedExpression>),
    FunctionDefExpr(FunctionDefExpr<TypedExpression>),
    IfExpr(IfExpr<TypedExpression>),
    ReturnExpr(ReturnExpr<TypedExpression>),
    UnaryExpr(UnaryExpr<TypedExpression>),
    IndexExpr(IndexExpr<TypedExpression>),
}

/// The abstract value of a typed expression: what it is, and its type.
pub struct TExpr {
    pub kind: TKind,
    pub ty: TypeModel,
}

pub enum TKind {
    Integer(int),
    Ident { name: Seq<char>, offset: int },
    Boolean(bool),
    Array(Seq<TExpr>),
    Binary { kind: BinaryExprKind, lhs: Box<TExpr>, rhs: Box<TExpr> },
    Let { name: Box<TExpr>, value: Box<TExpr>, ty: TypeModel },
    Block(Seq<TStmt>),
    Call { func: Box<TExpr>, args: Seq<TExpr> },
    FnDef { name: Box<TExpr>, params: Seq<(TExpr, TypeModel)>, return_ty: TypeModel, body: Box<TExpr> },
    If { condition: Box<TExpr>, consequence: Box<TExpr>, alternative: Option<Box<TExpr>> },
    Return(Box<TExpr>),
    Unary { kind: UnaryExprKind, expr: Box<TExpr> },
    Index { array: Box<TExpr>, index: Box<TExpr> },
}

pub enum TStmt {
    Expr(TExpr),
    Return(TExpr),
}

pub enum TNode {
    Program(Seq<TStmt>),
    Statement(TStmt),
    Expression(TExpr),
}

impl TypedExpression {
    pub open spec fn model(&self) -> TExpr
        decreases self,
    {
        TExpr {
            kind: match &self.kind {
                TypedExpressionKind::Integer(e) => TKind::Integer(e.value as int),
                TypedExpressionKind::Ident(e) => TKind::Ident { name: e.name@, offset: e.offset as int },
                TypedExpressionKind::Boolean(e) => TKind::Boolean(e.value),
                TypedExpressionKind::Array(e) => TKind::Array(texpr_models(e.elements@)),
                TypedExpressionKind::BinaryExpr(e) => TKind::Binary {
                    kind: e.kind,
                    lhs: Box::new(e.lhs.model()),
                    rhs: Box::new(e.rhs.model()),
                },
                TypedExpressionKind::LetExpr(e) => TKind::Let {
                    name: Box::new(e.name.model()),
                    value: Box::new(e.value.model()),
                    ty: e.ty@,
                },
                TypedExpressionKind::BlockExpr(e) => TKind::Block(tstmt_models(e.statements@)),
                TypedExpressionKind::CallExpr(e) => TKind::Call {
                    func: Box::new(e.func.model()),
                    args: texpr_models(e.args@),
                },
                TypedExpressionKind::FunctionDefExpr(e) => TKind::FnDef {
                    name: Box::new(e.name.model()),
                    params: tparam_models(e.params@),
                    return_ty: e.return_ty@,
                    body: Box::new(e.body.model()),
                },
                TypedExpressionKind::IfExpr(e) => TKind::If {
                    condition: Box::new(e.condition.model()),
                    consequence: Box::new(e.consequence.model()),
                    alternative: match &e.alternative {
                        Some(a) => Some(Box::new(a.model())),
                        None => None,
                    },
                },
                TypedExpressionKind::ReturnExpr(e) => TKind::Return(Box::new(e.value.model())),
                TypedExpressionKind::UnaryExpr(e) => TKind::Unary { kind: e.kind, expr: Box::new(e.expr.model()) },
                TypedExpressionKind::IndexExpr(e) => TKind::Index {
                    array: Box::new(e.array.model()),
                    index: Box::new(e.index.model()),
                },
            },
            ty: self.ty@,
        }
    }
}

impl View for TypedExpression {
    type V = TExpr;

    open spec fn view(&self) -> TExpr {
        self.model()
    }
}

impl Statement<TypedExpression> {
    pub open spec fn tmodel(&self) -> TStmt
        decreases self,
    {
        match self {
            Statement::ExprStmt(e) => TStmt::Expr(e.model()),
            Statement::ExprReturnStmt(e) => TStmt::Return(e.model()),
        }
    }
}

impl View for Statement<TypedExpression> {
    type V = TStmt;

    open spec fn view(&self) -> TStmt {
        self.tmodel()
    }
}

impl View for TypedNode {
    type V = TNode;

    open spec fn view(&self) -> TNode {
        match self {
            TypedNode::Program(p) => TNode::Program(tstmt_models(p.statements@)),
            TypedNode::Statement(s) => TNode::Statement(s.tmodel()),
            TypedNode::Expression(e) => TNode::Expression(e.model()),
        }
    }
}

pub open spec fn texpr_models(s: Seq<TypedExpression>) -> Seq<TExpr>
    decreases s,
{
    if s.len() == 0 {
        Seq::empty()
    } else {
        texpr_models(s.subrange(0, s.len() - 1)).push(s[s.len() - 1].model())
    }
}

pub open spec fn tstmt_models(s: Seq<Statement<TypedExpression>>) -> Seq<TStmt>
    decreases s,
{
    if s.len() == 0 {
        Seq::empty()
    } else {
        tstmt_models(s.subrange(0, s.len() - 1)).push(s[s.len() - 1].tmodel())
    }
}

pub open spec fn tparam_models(s: Seq<(TypedExpression, Type)>) -> Seq<(TExpr, TypeModel)>
    decreases s,
{
    if s.len() == 0 {
        Seq::empty()
    } else {
        tparam_models(s.subrange(0, s.len() - 1)).push((s[s.len() - 1].0.model(), s[s.len() - 1].1@))
    }
}

pub proof fn lemma_texpr_models(s: Seq<TypedExpression>)
    ensures
        texpr_models(s).len() == s.len(),
        forall|i: int| 0 <= i < s.len() ==> #[trigger] texpr_models(s)[i] == s[i].model(),
    decreases s.len(),
{
    if s.len() > 0 {
        lemma_texpr_models(s.subrange(0, s.len() - 1));
    }
}

pub proof fn lemma_tstmt_models(s: Seq<Statement<TypedExpression>>)
    ensures
        tstmt_models(s).len() == s.len(),
        forall|i: int| 0 <= i < s.len() ==> #[trigger] tstmt_models(s)[i] == s[i].tmodel(),
    decreases s.len(),
{
    if s.len() > 0 {
        lemma_tstmt_models(s.subrange(0, s.len() - 1));
    }
}

pub proof fn lemma_tparam_models(s: Seq<(TypedExpression, Type)>)
    ensures
        tparam_models(s).len() == s.len(),
        forall|i: int| 0 <= i < s.len() ==> #[trigger] tparam_models(s)[i] == (s[i].0.model(), s[i].1@),
    decreases s.len(),
{
    if s.len() > 0 {
        lemma_tparam_models(s.subrange(0, s.len() - 1));
    }
}

/// An untyped expression with every type unknown.
pub open spec fn typed_of(e: ExprModel) -> TExpr
    decreases e,
{
    TExpr {
        kind: match e {
            ExprModel::Integer(v) => TKind::Integer(v),
            ExprModel::Ident { name, offset } => TKind::Ident { name, offset },
            ExprModel::Boolean(b) => TKind::Boolean(b),
            ExprModel::Array(elements) => TKind::Array(typed_seq(elements)),
            ExprModel::Binary { kind, lhs, rhs } => TKind::Binary {
                kind,
                lhs: Box::new(typed_of(*lhs)),
                rhs: Box::new(typed_of(*rhs)),
            },
            ExprModel::Let { name, value, ty } => TKind::Let {
                name: Box::new(typed_of(*name)),
                value: Box::new(typed_of(*value)),
                ty,
            },
            ExprModel::Block(stmts) => TKind::Block(typed_stmts(stmts)),
            ExprModel::Call { func, args } => TKind::Call { func: Box::new(typed_of(*func)), args: typed_seq(args) },
            ExprModel::FnDef { name, params, return_ty, body } => TKind::FnDef {
                name: Box::new(typed_of(*name)),
                params: typed_params(params),
                return_ty,
                body: Box::new(typed_of(*body)),
            },
            ExprModel::If { condition, consequence, alternative } => TKind::If {
                condition: Box::new(typed_of(*condition)),
                consequence: Box::new(typed_of(*consequence)),
                alternative: match alternative {
                    Some(a) => Some(Box::new(typed_of(*a))),
                    None => None,
                },
            },
            ExprModel::Return(v) => TKind::Return(Box::new(typed_of(*v))),
            ExprModel::Unary { kind, expr } => TKind::Unary { kind, expr: Box::new(typed_of(*expr)) },
            ExprModel::Index { array, index } => TKind::Index {
                array: Box::new(typed_of(*array)),
                index: Box::new(typed_of(*index)),
            },
        },
        ty: TypeModel::Unknown,
    }
}

pub open spec fn typed_seq(s: Seq<ExprModel>) -> Seq<TExpr>
    decreases s,
{
    if s.len() == 0 {
        Seq::empty()
    } else {
        typed_seq(s.drop_last()).push(typed_of(s.last()))
    }
}

pub open spec fn typed_stmt(s: StmtModel) -> TStmt
    decreases s,
{
    match s {
        StmtModel::Expr(e) => TStmt::Expr(typed_of(e)),
        StmtModel::Return(e) => TStmt::Return(typed_of(e)),
    }
}

pub open spec fn typed_stmts(s: Seq<StmtModel>) -> Seq<TStmt>
    decreases s,
{
    if s.len() == 0 {
        Seq::empty()
    } else {
        typed_stmts(s.drop_last()).push(typed_stmt(s.last()))
    }
}

pub open spec fn typed_params(s: Seq<(ExprModel, TypeModel)>) -> Seq<(TExpr, TypeModel)>
    decreases s,
{
    if s.len() == 0 {
        Seq::empty()
    } else {
        typed_params(s.drop_last()).push((typed_of(s.last().0), s.last().1))
    }
}

pub open spec fn typed_node(n: NodeModel) -> TNode {
    match n {
        NodeModel::Program(stmts) => TNode::Program(typed_stmts(stmts)),
        NodeModel::Statement(s) => TNode::Statement(typed_stmt(s)),
        NodeModel::Expression(e) => TNode::Expression(typed_of(e)),
    }
}

/// A typed expression with its types dropped.
pub open spec fn untyped_of(t: TExpr) -> ExprModel
    decreases t,
{
    match t.kind {
        TKind::Integer(v) => ExprModel::Integer(v),
        TKind::Ident { name, offset } => ExprModel::Ident { name, offset },
        TKind::Boolean(b) => ExprModel::Boolean(b),
        TKind::Array(elements) => ExprModel::Array(untyped_seq(elements)),
        TKind::Binary { kind, lhs, rhs } => ExprModel::Binary {
            kind,
            lhs: Box::new(untyped_of(*lhs)),
            rhs: Box::new(untyped_of(*rhs)),
        },
        TKind::Let { name, value, ty } => ExprModel::Let {
            name: Box::new(untyped_of(*name)),
            value: Box::new(untyped_of(*value)),
            ty,
        },
        TKind::Block(stmts) => ExprModel::Block(untyped_stmts(stmts)),
        TKind::Call { func, args } => ExprModel::Call { func: Box::new(untyped_of(*func)), args: untyped_seq(args) },
        TKind::FnDef { name, params, return_ty, body } => ExprModel::FnDef {
            name: Box::new(untyped_of(*name)),
            params: untyped_params(params),
            return_ty,
            body: Box::new(untyped_of(*body)),
        },
        TKind::If { condition, consequence, alternative } => ExprModel::If {
            condition: Box::new(untyped_of(*condition)),
            consequence: Box::new(untyped_of(*consequence)),
            alternative: match alternative {
                Some(a) => Some(Box::new(untyped_of(*a))),
                None => None,
            },
        },
        TKind::Return(v) => ExprModel::Return(Box::new(untyped_of(*v))),
        TKind::Unary { kind, expr } => ExprModel::Unary { kind, expr: Box::new(untyped_of(*expr)) },
        TKind::Index { array, index } => ExprModel::Index {
            array: Box::new(untyped_of(*array)),
            index: Box::new(untyped_of(*index)),
        },
    }
}

pub open spec fn untyped_seq(s: Seq<TExpr>) -> Seq<ExprModel>
    decreases s,
{
    if s.len() == 0 {
        Seq::empty()
    } else {
        untyped_seq(s.drop_last()).push(untyped_of(s.last()))
    }
}

pub open spec fn untyped_stmt(s: TStmt) -> StmtModel
    decreases s,
{
    match s {
        TStmt::Expr(e) => StmtModel::Expr(untyped_of(e)),
        TStmt::Return(e) => StmtModel::Return(untyped_of(e)),
    }
}

pub open spec fn untyped_stmts(s: Seq<TStmt>) -> Seq<StmtModel>
    decreases s,
{
    if s.len() == 0 {
        Seq::empty()
    } else {
        untyped_stmts(s.drop_last()).push(untyped_stmt(s.last()))
    }
}

pub open spec fn untyped_params(s: Seq<(TExpr, TypeModel)>) -> Seq<(ExprModel, TypeModel)>
    decreases s,
{
    if s.len() == 0 {
        Seq::empty()
    } else {
        untyped_params(s.drop_last()).push((untyped_of(s.last().0), s.last().1))
    }
}

/// Giving an expression unknown types and dropping them again gives the expression back.
pub proof fn lemma_untyped_typed(e: ExprModel)
    ensures
        untyped_of(typed_of(e)) == e,
    decreases e,
{
    match e {
        ExprModel::Array(elements) => {
            lemma_untyped_typed_seq(elements);
        },
        ExprModel::Binary { kind, lhs, rhs } => {
            lemma_untyped_typed(*lhs);
            lemma_untyped_typed(*rhs);
        },
        ExprModel::Let { name, value, ty } => {
            lemma_untyped_typed(*name);
            lemma_untyped_typed(*value);
        },
        ExprModel::Block(stmts) => {
            lemma_untyped_typed_stmts(stmts);
        },
        ExprModel::Call { func, args } => {
            lemma_untyped_typed(*func);
            lemma_untyped_typed_seq(args);
        },
        ExprModel::FnDef { name, params, return_ty, body } => {
            lemma_untyped_typed(*name);
            lemma_untyped_typed_params(params);
            lemma_untyped_typed(*body);
        },
        ExprModel::If { condition, consequence, alternative } => {
            lemma_untyped_typed(*condition);
            lemma_untyped_typed(*consequence);
            match alternative {
                Some(a) => {
                    lemma_untyped_typed(*a);
                },
                None => {},
            }
        },
        ExprModel::Return(v) => {
            lemma_untyped_typed(*v);
        },
        ExprModel::Unary { kind, expr } => {
            lemma_untyped_typed(*expr);
        },
        ExprModel::Index { array, index } => {
            lemma_untyped_typed(*array);
            lemma_untyped_typed(*index);
        },
        _ => {},
    }
}

/// The round trip of `lemma_untyped_typed`, element by element.
pub proof fn lemma_untyped_typed_seq(s: Seq<ExprModel>)
    ensures
        untyped_seq(typed_seq(s)) == s,
    decreases s,
{
    if s.len() > 0 {
        lemma_untyped_typed_seq(s.drop_last());
        lemma_untyped_typed(s.last());
        assert(typed_seq(s).drop_last() =~= typed_seq(s.drop_last()));
        assert(untyped_seq(typed_seq(s)) =~= s);
    } else {
        assert(untyped_seq(typed_seq(s)) =~= s);
    }
}

/// The round trip of `lemma_untyped_typed`, statement by statement.
pub proof fn lemma_untyped_typed_stmts(s: Seq<StmtModel>)
    ensures
        untyped_stmts(typed_stmts(s)) == s,
    decreases s,
{
    if s.len() > 0 {
        lemma_untyped_typed_stmts(s.drop_last());
        match s.last() {
            StmtModel::Expr(e) => {
                lemma_untyped_typed(e);
            },
            StmtModel::Return(e) => {
                lemma_untyped_typed(e);
            },
        }
        assert(untyped_stmt(typed_stmt(s.last())) == s.last());
        assert(typed_stmts(s).drop_last() =~= typed_stmts(s.drop_last()));
        assert(typed_stmts(s).last() == typed_stmt(s.last()));
        assert(untyped_stmts(typed_stmts(s)) =~= s);
    } else {
        assert(untyped_stmts(typed_stmts(s)) =~= s);
    }
}

/// The round trip of `lemma_untyped_typed`, parameter by parameter.
pub proof fn lemma_untyped_typed_params(s: Seq<(ExprModel, TypeModel)>)
    ensures
        untyped_params(typed_params(s)) == s,
    decreases s,
{
    if s.len() > 0 {
        lemma_untyped_typed_params(s.drop_last());
        lemma_untyped_typed(s.last().0);
        assert(typed_params(s).drop_last() =~= typed_params(s.drop_last()));
        assert(untyped_params(typed_params(s)) =~= s);
    } else {
        assert(untyped_params(typed_params(s)) =~= s);
    }
}

impl TypedExpression {
    /// The expression with every type unknown, to be resolved.
    pub fn from_expression(value: &Expression) -> (r: TypedExpression)
        ensures
            r@ == typed_of(value@),
        decreases value,
    {
        let kind = match value {
            Expression::Integer(e) => TypedExpressionKind::Integer(Integer { value: e.value }),
            Expression::Ident(e) => TypedExpressionKind::Ident(e.duplicate()),
            Expression::Boolean(e) => TypedExpressionKind::Boolean(Boolean { value: e.value }),
            Expression::Array(e) => TypedExpressionKind::Array(Array { elements: typed_vec(&e.elements) }),
            Expression::BinaryExpr(e) => TypedExpressionKind::BinaryExpr(BinaryExpr {
                kind: e.kind,
                lhs: Box::new(TypedExpression::from_expression(&e.lhs)),
                rhs: Box::new(TypedExpression::from_expression(&e.rhs)),
            }),
            Expression::LetExpr(e) => TypedExpressionKind::LetExpr(LetExpr {
                name: Box::new(TypedExpression::from_expression(&e.name)),
                value: Box::new(TypedExpression::from_expression(&e.value)),
                ty: e.ty.duplicate(),
            }),
            Expression::BlockExpr(e) => TypedExpressionKind::BlockExpr(BlockExpr {
                statements: typed_stmt_vec(&e.statements),
            }),
            Expression::CallExpr(e) => TypedExpressionKind::CallExpr(CallExpr {
                func: Box::new(TypedExpression::from_expression(&e.func)),
                args: typed_vec(&e.args),
            }),
            Expression::FunctionDefExpr(e) => TypedExpressionKind::FunctionDefExpr(FunctionDefExpr {
                name: Box::new(TypedExpression::from_expression(&e.name)),
                params: typed_param_vec(&e.params),
                return_ty: e.return_ty.duplicate(),
                body: Box::new(TypedExpression::from_expression(&e.body)),
            }),
            Expression::IfExpr(e) => TypedExpressionKind::IfExpr(IfExpr {
                condition: Box::new(TypedExpression::from_expression(&e.condition)),
                consequence: Box::new(TypedExpression::from_expression(&e.consequence)),
                alternative: match &e.alternative {
                    Some(a) => Some(Box::new(TypedExpression::from_expression(a))),
                    None => None,
                },
            }),
            Expression::ReturnExpr(e) => TypedExpressionKind::ReturnExpr(ReturnExpr {
                value: Box::new(TypedExpression::from_expression(&e.value)),
            }),
            Expression::UnaryExpr(e) => TypedExpressionKind::UnaryExpr(UnaryExpr {
                kind: e.kind,
                expr: Box::new(TypedExpression::from_expression(&e.expr)),
            }),
            Expression::IndexExpr(e) => TypedExpressionKind::IndexExpr(IndexExpr {
                array: Box::new(TypedExpression::from_expression(&e.array)),
                index: Box::new(TypedExpression::from_expression(&e.index)),
            }),
        };
        TypedExpression { kind, ty: Type::unknown() }
    }

    /// The expression with its types dropped.
    pub fn into_expression(&self) -> (r: Expression)
        ensures
            r@ == untyped_of(self@),
        decreases self,
    {
        match &self.kind {
            TypedExpressionKind::Integer(e) => Expression::Integer(Integer { value: e.value }),
            TypedExpressionKind::Ident(e) => Expression::Ident(e.duplicate()),
            TypedExpressionKind::Boolean(e) => Expression::Boolean(Boolean { value: e.value }),
            TypedExpressionKind::Array(e) => Expression::Array(Array { elements: untyped_vec(&e.elements) }),
            TypedExpressionKind::BinaryExpr(e) => Expression::BinaryExpr(BinaryExpr {
                kind: e.kind,
                lhs: Box::new(e.lhs.into_expression()),
                rhs: Box::new(e.rhs.into_expression()),
            }),
            TypedExpressionKind::LetExpr(e) => Expression::LetExpr(LetExpr {
                name: Box::new(e.name.into_expression()),
                value: Box::new(e.value.into_expression()),
                ty: e.ty.duplicate(),
            }),
            TypedExpressionKind::BlockExpr(e) => Expression::BlockExpr(BlockExpr {
                statements: untyped_stmt_vec(&e.statements),
            }),
            TypedExpressionKind::CallExpr(e) => Expression::CallExpr(CallExpr {
                func: Box::new(e.func.into_expression()),
                args: untyped_vec(&e.args),
            }),
            TypedExpressionKind::FunctionDefExpr(e) => Expression::FunctionDefExpr(FunctionDefExpr {
                name: Box::new(e.name.into_expression()),
                params: untyped_param_vec(&e.params),
                return_ty: e.return_ty.duplicate(),
                body: Box::new(e.body.into_expression()),
            }),
            TypedExpressionKind::IfExpr(e) => Expression::IfExpr(IfExpr {
                condition: Box::new(e.condition.into_expression()),
                consequence: Box::new(e.consequence.into_expression()),
                alternative: match &e.alternative {
                    Some(a) => Some(Box::new(a.into_expression())),
                    None => None,
                },
            }),
            TypedExpressionKind::ReturnExpr(e) => Expression::ReturnExpr(ReturnExpr {
                value: Box::new(e.value.into_expression()),
            }),
            TypedExpressionKind::UnaryExpr(e) => Expression::UnaryExpr(UnaryExpr {
                kind: e.kind,
                expr: Box::new(e.expr.into_expression()),
            }),
            TypedExpressionKind::IndexExpr(e) => Expression::IndexExpr(IndexExpr {
                array: Box::new(e.array.into_expression()),
                index: Box::new(e.index.into_expression()),
            }),
        }
    }
}

pub proof fn lemma_typed_seq(s: Seq<ExprModel>)
    ensures
        typed_seq(s).len() == s.len(),
        forall|i: int| 0 <= i < s.len() ==> #[trigger] typed_seq(s)[i] == typed_of(s[i]),
    decreases s.len(),
{
    if s.len() > 0 {
        lemma_typed_seq(s.drop_last());
    }
}

pub proof fn lemma_typed_stmts(s: Seq<StmtModel>)
    ensures
        typed_stmts(s).len() == s.len(),
        forall|i: int| 0 <= i < s.len() ==> #[trigger] typed_stmts(s)[i] == typed_stmt(s[i]),
    decreases s.len(),
{
    if s.len() > 0 {
        lemma_typed_stmts(s.drop_last());
    }
}

pub proof fn lemma_typed_params(s: Seq<(ExprModel, TypeModel)>)
    ensures
        typed_params(s).len() == s.len(),
        forall|i: int| 0 <= i < s.len() ==> #[trigger] typed_params(s)[i] == (typed_of(s[i].0), s[i].1),
    decreases s.len(),
{
    if s.len() > 0 {
        lemma_typed_params(s.drop_last());
    }
}

pub proof fn lemma_untyped_seq(s: Seq<TExpr>)
    ensures
        untyped_seq(s).len() == s.len(),
        forall|i: int| 0 <= i < s.len() ==> #[trigger] untyped_seq(s)[i] == untyped_of(s[i]),
    decreases s.len(),
{
    if s.len() > 0 {
        lemma_untyped_seq(s.drop_last());
    }
}

pub proof fn lemma_untyped_stmts(s: Seq<TStmt>)
    ensures
        untyped_stmts(s).len() == s.len(),
        forall|i: int| 0 <= i < s.len() ==> #[trigger] untyped_stmts(s)[i] == untyped_stmt(s[i]),
    decreases s.len(),
{
    if s.len() > 0 {
        lemma_untyped_stmts(s.drop_last());
    }
}

pub proof fn lemma_untyped_params(s: Seq<(TExpr, TypeModel)>)
    ensures
        untyped_params(s).len() == s.len(),
        forall|i: int| 0 <= i < s.len() ==> #[trigger] untyped_params(s)[i] == (untyped_of(s[i].0), s[i].1),
    decreases s.len(),
{
    if s.len() > 0 {
        lemma_untyped_params(s.drop_last());
    }
}

/// Converts each expression of a list, in order.
pub fn typed_vec(v: &Vec<Expression>) -> (r: Vec<TypedExpression>)
    ensures
        texpr_models(r@) == typed_seq(expr_models(v@)),
    decreases v,
{
    let mut out: Vec<TypedExpression> = Vec::new();
    let mut i: usize = 0;
    while i < v.len()
        invariant
            i <= v.len(),
            out@.len() == i,
            forall|j: int| 0 <= j < i ==> #[trigger] out@[j].model() == typed_of(v@[j].model()),
        decreases v.len() - i,
    {
        proof {
            assert(decreases_to!(v => v@[i as int]));
        }
        out.push(TypedExpression::from_expression(&v[i]));
        i += 1;
    }
    proof {
        lemma_texpr_models(out@);
        lemma_expr_models(v@);
        lemma_typed_seq(expr_models(v@));
        assert(texpr_models(out@) =~= typed_seq(expr_models(v@)));
    }
    out
}

pub fn typed_stmt_vec(v: &Vec<Statement<Expression>>) -> (r: Vec<Statement<TypedExpression>>)
    ensures
        tstmt_models(r@) == typed_stmts(stmt_models(v@)),
    decreases v,
{
    let mut out: Vec<Statement<TypedExpression>> = Vec::new();
    let mut i: usize = 0;
    while i < v.len()
        invariant
            i <= v.len(),
            out@.len() == i,
            forall|j: int| 0 <= j < i ==> #[trigger] out@[j].tmodel() == typed_stmt(v@[j].model()),
        decreases v.len() - i,
    {
        proof {
            assert(decreases_to!(v => v@[i as int]));
        }
        let s = match &v[i] {
            Statement::ExprStmt(e) => Statement::ExprStmt(TypedExpression::from_expression(e)),
            Statement::ExprReturnStmt(e) => Statement::ExprReturnStmt(TypedExpression::from_expression(e)),
        };
        out.push(s);
        i += 1;
    }
    proof {
        lemma_tstmt_models(out@);
        lemma_stmt_models(v@);
        lemma_typed_stmts(stmt_models(v@));
        assert(tstmt_models(out@) =~= typed_stmts(stmt_models(v@)));
    }
    out
}

pub fn typed_param_vec(v: &Vec<(Expression, Type)>) -> (r: Vec<(TypedExpression, Type)>)
    ensures
        tparam_models(r@) == typed_params(param_models(v@)),
    decreases v,
{
    let mut out: Vec<(TypedExpression, Type)> = Vec::new();
    let mut i: usize = 0;
    while i < v.len()
        invariant
            i <= v.len(),
            out@.len() == i,
            forall|j: int| 0 <= j < i ==> #[trigger] out@[j].0.model() == typed_of(v@[j].0.model()) && out@[j].1@ == v@[j].1@,
        decreases v.len() - i,
    {
        proof {
            assert(decreases_to!(v => v@[i as int]));
            assert(decreases_to!(v@[i as int] => v@[i as int].0));
        }
        let e = TypedExpression::from_expression(&v[i].0);
        let t = v[i].1.duplicate();
        out.push((e, t));
        i += 1;
    }
    proof {
        lemma_tparam_models(out@);
        lemma_param_models(v@);
        lemma_typed_params(param_models(v@));
        assert(tparam_models(out@) =~= typed_params(param_models(v@)));
    }
    out
}

pub fn untyped_vec(v: &Vec<TypedExpression>) -> (r: Vec<Expression>)
    ensures
        expr_models(r@) == untyped_seq(texpr_models(v@)),
    decreases v,
{
    let mut out: Vec<Expression> = Vec::new();
    let mut i: usize = 0;
    while i < v.len()
        invariant
            i <= v.len(),
            out@.len() == i,
            forall|j: int| 0 <= j < i ==> #[trigger] out@[j].model() == untyped_of(v@[j].model()),
        decreases v.len() - i,
    {
        proof {
            assert(decreases_to!(v => v@[i as int]));
        }
        out.push(v[i].into_expression());
        i += 1;
    }
    proof {
        lemma_expr_models(out@);
        lemma_texpr_models(v@);
        lemma_untyped_seq(texpr_models(v@));
        assert(expr_models(out@) =~= untyped_seq(texpr_models(v@)));
    }
    out
}

pub fn untyped_stmt_vec(v: &Vec<Statement<TypedExpression>>) -> (r: Vec<Statement<Expression>>)
    ensures
        stmt_models(r@) == untyped_stmts(tstmt_models(v@)),
    decreases v,
{
    let mut out: Vec<Statement<Expression>> = Vec::new();
    let mut i: usize = 0;
    while i < v.len()
        invariant
            i <= v.len(),
            out@.len() == i,
            forall|j: int| 0 <= j < i ==> #[trigger] out@[j].model() == untyped_stmt(v@[j].tmodel()),
        decreases v.len() - i,
    {
        proof {
            assert(decreases_to!(v => v@[i as int]));
        }
        let s = match &v[i] {
            Statement::ExprStmt(e) => Statement::ExprStmt(e.into_expression()),
            Statement::ExprReturnStmt(e) => Statement::ExprReturnStmt(e.into_expression()),
        };
        out.push(s);
        i += 1;
    }
    proof {
        lemma_stmt_models(out@);
        lemma_tstmt_models(v@);
        lemma_untyped_stmts(tstmt_models(v@));
        assert(stmt_models(out@) =~= untyped_stmts(tstmt_models(v@)));
    }
    out
}

pub fn untyped_param_vec(v: &Vec<(TypedExpression, Type)>) -> (r: Vec<(Expression, Type)>)
    ensures
        param_models(r@) == untyped_params(tparam_models(v@)),
    decreases v,
{
    let mut out: Vec<(Expression, Type)> = Vec::new();
    let mut i: usize = 0;
    while i < v.len()
        invariant
            i <= v.len(),
            out@.len() == i,
            forall|j: int| 0 <= j < i ==> #[trigger] out@[j].0.model() == untyped_of(v@[j].0.model()) && out@[j].1@ == v@[j].1@,
        decreases v.len() - i,
    {
        proof {
            assert(decreases_to!(v => v@[i as int]));
            assert(decreases_to!(v@[i as int] => v@[i as int].0));
        }
        let e = v[i].0.into_expression();
        let t = v[i].1.duplicate();
        out.push((e, t));
        i += 1;
    }
    proof {
        lemma_param_models(out@);
        lemma_tparam_models(v@);
        lemma_untyped_params(tparam_models(v@));
        assert(param_models(out@) =~= untyped_params(tparam_models(v@)));
    }
    out
}

impl TypedNode {
    /// The node with every type unknown, to be resolved.
    pub fn from_node(value: &Node<Expression>) -> (r: TypedNode)
        ensures
            r@ == typed_node(value@),
    {
        match value {
            Node::Program(p) => TypedNode::Program(Program { statements: typed_stmt_vec(&p.statements) }),
            Node::Statement(s) => TypedNode::Statement(
                match s {
                    Statement::ExprStmt(e) => Statement::ExprStmt(TypedExpression::from_expression(e)),
                    Statement::ExprReturnStmt(e) => Statement::ExprReturnStmt(TypedExpression::from_expression(e)),
                },
            ),
            Node::Expression(e) => TypedNode::Expression(TypedExpression::from_expression(e)),
        }
    }
}


impl TypedExpression {
    /// A typed expression equal to this one.
    pub fn duplicate(&self) -> (r: TypedExpression)
        ensures
            r@ == self@,
        decreases self,
    {
        let kind = match &self.kind {
            TypedExpressionKind::Integer(e) => TypedExpressionKind::Integer(Integer { value: e.value }),
            TypedExpressionKind::Ident(e) => TypedExpressionKind::Ident(e.duplicate()),
            TypedExpressionKind::Boolean(e) => TypedExpressionKind::Boolean(Boolean { value: e.value }),
            TypedExpressionKind::Array(e) => TypedExpressionKind::Array(Array { elements: duplicate_texprs(&e.elements) }),
            TypedExpressionKind::BinaryExpr(e) => TypedExpressionKind::BinaryExpr(BinaryExpr {
                kind: e.kind,
                lhs: Box::new(e.lhs.duplicate()),
                rhs: Box::new(e.rhs.duplicate()),
            }),
            TypedExpressionKind::LetExpr(e) => TypedExpressionKind::LetExpr(LetExpr {
                name: Box::new(e.name.duplicate()),
                value: Box::new(e.value.duplicate()),
                ty: e.ty.duplicate(),
            }),
            TypedExpressionKind::BlockExpr(e) => TypedExpressionKind::BlockExpr(BlockExpr {
                statements: duplicate_tstmts(&e.statements),
            }),
            TypedExpressionKind::CallExpr(e) => TypedExpressionKind::CallExpr(CallExpr {
                func: Box::new(e.func.duplicate()),
                args: duplicate_texprs(&e.args),
            }),
            TypedExpressionKind::FunctionDefExpr(e) => TypedExpressionKind::FunctionDefExpr(FunctionDefExpr {
                name: Box::new(e.name.duplicate()),
                params: duplicate_tparams(&e.params),
                return_ty: e.return_ty.duplicate(),
                body: Box::new(e.body.duplicate()),
            }),
            TypedExpressionKind::IfExpr(e) => TypedExpressionKind::IfExpr(IfExpr {
                condition: Box::new(e.condition.duplicate()),
                consequence: Box::new(e.consequence.duplicate()),
                alternative: match &e.alternative {
                    Some(a) => Some(Box::new(a.duplicate())),
                    None => None,
                },
            }),
            TypedExpressionKind::ReturnExpr(e) => TypedExpressionKind::ReturnExpr(ReturnExpr {
                value: Box::new(e.value.duplicate()),
            }),
            TypedExpressionKind::UnaryExpr(e) => TypedExpressionKind::UnaryExpr(UnaryExpr {
                kind: e.kind,
                expr: Box::new(e.expr.duplicate()),
            }),
            TypedExpressionKind::IndexExpr(e) => TypedExpressionKind::IndexExpr(IndexExpr {
                array: Box::new(e.array.duplicate()),
                index: Box::new(e.index.duplicate()),
            }),
        };
        TypedExpression { kind, ty: self.ty.duplicate() }
    }
}

impl Statement<TypedExpression> {
    /// A statement equal to this one.
    pub fn duplicate_typed(&self) -> (r: Statement<TypedExpression>)
        ensures
            r@ == self@,
        decreases self,
    {
        match self {
            Statement::ExprStmt(e) => Statement::ExprStmt(e.duplicate()),
            Statement::ExprReturnStmt(e) => Statement::ExprReturnStmt(e.duplicate()),
        }
    }
}

pub fn duplicate_texprs(v: &Vec<TypedExpression>) -> (r: Vec<TypedExpression>)
    ensures
        texpr_models(r@) == texpr_models(v@),
    decreases v,
{
    let mut out: Vec<TypedExpression> = Vec::new();
    let mut i: usize = 0;
    while i < v.len()
        invariant
            i <= v.len(),
            out@.len() == i,
            forall|j: int| 0 <= j < i ==> #[trigger] out@[j].model() == v@[j].model(),
        decreases v.len() - i,
    {
        proof {
            assert(decreases_to!(v => v@[i as int]));
        }
        out.push(v[i].duplicate());
        i += 1;
    }
    proof {
        lemma_texpr_models(out@);
        lemma_texpr_models(v@);
        assert(texpr_models(out@) =~= texpr_models(v@));
    }
    out
}

pub fn duplicate_tstmts(v: &Vec<Statement<TypedExpression>>) -> (r: Vec<Statement<TypedExpression>>)
    ensures
        tstmt_models(r@) == tstmt_models(v@),
    decreases v,
{
    let mut out: Vec<Statement<TypedExpression>> = Vec::new();
    let mut i: usize = 0;
    while i < v.len()
        invariant
            i <= v.len(),
            out@.len() == i,
            forall|j: int| 0 <= j < i ==> #[trigger] out@[j].tmodel() == v@[j].tmodel(),
        decreases v.len() - i,
    {
        proof {
            assert(decreases_to!(v => v@[i as int]));
        }
        out.push(v[i].duplicate_typed());
        i += 1;
    }
    proof {
        lemma_tstmt_models(out@);
        lemma_tstmt_models(v@);
        assert(tstmt_models(out@) =~= tstmt_models(v@));
    }
    out
}

pub fn duplicate_tparams(v: &Vec<(TypedExpression, Type)>) -> (r: Vec<(TypedExpression, Type)>)
    ensures
        tparam_models(r@) == tparam_models(v@),
    decreases v,
{
    let mut out: Vec<(TypedExpression, Type)> = Vec::new();
    let mut i: usize = 0;
    while i < v.len()
        invariant
            i <= v.len(),
            out@.len() == i,
            forall|j: int| 0 <= j < i ==> #[trigger] out@[j].0.model() == v@[j].0.model() && out@[j].1@ == v@[j].1@,
        decreases v.len() - i,
    {
        proof {
            assert(decreases_to!(v => v@[i as int]));
            assert(decreases_to!(v@[i as int] => v@[i as int].0));
        }
        let e = v[i].0.duplicate();
        let t = v[i].1.duplicate();
        out.push((e, t));
        i += 1;
    }
    proof {
        lemma_tparam_models(out@);
        lemma_tparam_models(v@);
        assert(tparam_models(out@) =~= tparam_models(v@));
    }
    out
}

} // verus!
