//! The grammar of the wervc language, as a recursive-descent reading of the token stream.
//!
//! The reading state is the lexer position, the current token and the stack of scopes of
//! declared names. Every reading function gives either the value read and the state after
//! it, or the error that stops the parse.
use vstd::prelude::*;
use crate::text::{is_digit};
use crate::token::{TokenKind, TokenModel};
use crate::lexer::{lex_step, lemma_lex_step_progress, all_digits, lemma_lex_step_def, single_kind, with_eq_kind};
use crate::ast::{BinaryExprKind, UnaryExprKind, ExprModel, StmtModel};
use crate::ty::{TypeModel, kind_of_name};
use crate::environment::scope_lookup;

verus! {

/// The abstract value of a parser error.
pub enum ErrorModel {
    UnexpectedToken { expected: TokenKind, actual: TokenKind },
    ParseIntError,
    RequiredSemiColon,
    IdentAlreadyDefined(Seq<char>),
    UndefinedIdent(Seq<char>),
    U,
    UnexpectedExpr(ExprModel),
}

pub type Scopes = Seq<Map<Seq<char>, ExprModel>>;

/// The state of a parse: the lexer position, the current token, and the declared names.
pub struct PState {
    pub pos: int,
    pub cur: TokenModel,
    pub scopes: Scopes,
}

pub type PResult<T> = Result<(T, PState), ErrorModel>;

/// Reads the next token into the current one.
pub open spec fn advance(s: Seq<char>, st: PState) -> PState {
    let (t, p) = lex_step(s, st.pos);
    PState { pos: p, cur: t, scopes: st.scopes }
}

/// Reading a token never raises the measure, and reading one other than `EOF` lowers it.
pub proof fn lemma_advance(s: Seq<char>, st: PState)
    ensures
        measure(s, advance(s, st)) <= measure(s, st),
        st.cur.kind != TokenKind::EOF ==> further(s, st, advance(s, st)),
{
    lemma_lex_step_progress(s, st.pos);
}

pub open spec fn clamp(s: Seq<char>, p: int) -> int {
    if p < 0 {
        0
    } else if p > s.len() {
        s.len() as int
    } else {
        p
    }
}

/// A measure of the input left to read; reading a token other than `EOF` lowers it.
pub open spec fn measure(s: Seq<char>, st: PState) -> int {
    (s.len() - clamp(s, st.pos)) + if st.cur.kind == TokenKind::EOF { 0int } else { 1int }
}

/// Whether the state `b` lies strictly further in the input than `a`.
pub open spec fn further(s: Seq<char>, a: PState, b: PState) -> bool {
    measure(s, b) < measure(s, a)
}

pub open spec fn consume(s: Seq<char>, st: PState, k: TokenKind) -> (bool, PState) {
    if st.cur.kind == k {
        (true, advance(s, st))
    } else {
        (false, st)
    }
}

pub open spec fn expect(s: Seq<char>, st: PState, k: TokenKind) -> PResult<TokenModel> {
    if st.cur.kind != k {
        Err(ErrorModel::UnexpectedToken { expected: k, actual: st.cur.kind })
    } else {
        Ok((st.cur, advance(s, st)))
    }
}

pub open spec fn with_scopes(st: PState, scopes: Scopes) -> PState {
    PState { pos: st.pos, cur: st.cur, scopes }
}

pub open spec fn enter_scope(st: PState) -> PState {
    with_scopes(st, st.scopes.push(Map::empty()))
}

pub open spec fn leave_scope(st: PState) -> PState {
    if st.scopes.len() > 1 {
        with_scopes(st, st.scopes.drop_last())
    } else {
        st
    }
}

/// The decimal value of a run of digits.
pub open spec fn digits_value(d: Seq<char>) -> int
    decreases d.len(),
{
    if d.len() == 0 {
        0
    } else {
        digits_value(d.drop_last()) * 10 + (d.last() as int - '0' as int)
    }
}

/// The value of a number literal, or the error when it does not fit in an `isize`.
pub open spec fn number_value(d: Seq<char>) -> Result<int, ErrorModel> {
    if digits_value(d) <= isize::MAX {
        Ok(digits_value(d))
    } else {
        Err(ErrorModel::ParseIntError)
    }
}

/// Registers `e` as a declared name in the innermost scope.
pub open spec fn create_ident(st: PState, e: ExprModel) -> PResult<ExprModel> {
    match e {
        ExprModel::Ident { name, .. } => {
            let ident = ExprModel::Ident { name, offset: 0 };
            Ok((ident, with_scopes(st, st.scopes.update(st.scopes.len() - 1, st.scopes.last().insert(name, ident)))))
        },
        _ => Err(ErrorModel::UnexpectedExpr(e)),
    }
}

/// The declaration of the name `e`, looked up from the innermost scope outwards.
pub open spec fn find_ident(st: PState, e: ExprModel) -> Result<ExprModel, ErrorModel> {
    match e {
        ExprModel::Ident { name, .. } => match scope_lookup(st.scopes, name) {
            Some(v) => Ok(v),
            None => Err(ErrorModel::UndefinedIdent(name)),
        },
        _ => Err(ErrorModel::UnexpectedExpr(e)),
    }
}

/// ident = ([a-zA-Z] | '_') ([a-zA-Z0-9] | '_')*
pub open spec fn sp_ident(s: Seq<char>, st: PState) -> PResult<ExprModel> {
    match expect(s, st, TokenKind::Ident) {
        Ok((t, st1)) => Ok((ExprModel::Ident { name: t.literal, offset: 0 }, st1)),
        Err(e) => Err(e),
    }
}

/// integer = [0-9]*
pub open spec fn sp_integer(s: Seq<char>, st: PState) -> PResult<ExprModel> {
    match expect(s, st, TokenKind::Number) {
        Ok((t, st1)) => match number_value(t.literal) {
            Ok(v) => Ok((ExprModel::Integer(v), st1)),
            Err(e) => Err(e),
        },
        Err(e) => Err(e),
    }
}

/// bool = 'true' | 'false'
pub open spec fn sp_bool(s: Seq<char>, st: PState) -> PResult<ExprModel> {
    let (t, st1) = consume(s, st, TokenKind::True);
    if t {
        Ok((ExprModel::Boolean(true), st1))
    } else {
        match expect(s, st, TokenKind::False) {
            Ok((_, st2)) => Ok((ExprModel::Boolean(false), st2)),
            Err(e) => Err(e),
        }
    }
}

/// The number of `*` in a row from the current token on, and the state after them.
pub open spec fn sp_stars(s: Seq<char>, st: PState) -> (nat, PState)
    decreases measure(s, st),
{
    if st.cur.kind == TokenKind::Asterisk && further(s, st, advance(s, st)) {
        let (n, st2) = sp_stars(s, advance(s, st));
        (n + 1, st2)
    } else {
        (0, st)
    }
}

/// The type `t` wrapped in `n` pointer types.
pub open spec fn pointers(t: TypeModel, n: nat) -> TypeModel
    decreases n,
{
    if n == 0 {
        t
    } else {
        TypeModel::Ptr { to: Box::new(pointers(t, (n - 1) as nat)) }
    }
}

/// The array dimensions `[n]` that follow a type name.
pub open spec fn sp_dims(s: Seq<char>, t: TypeModel, st: PState) -> PResult<TypeModel>
    decreases measure(s, st),
{
    let (b, st1) = consume(s, st, TokenKind::LBracket);
    if !b {
        Ok((t, st))
    } else {
        match expect(s, st1, TokenKind::Number) {
            Err(e) => Err(e),
            Ok((n, st2)) => match number_value(n.literal) {
                Err(e) => Err(e),
                Ok(size) => match expect(s, st2, TokenKind::RBracket) {
                    Err(e) => Err(e),
                    Ok((_, st3)) => if further(s, st, st3) {
                        sp_dims(s, TypeModel::Array { elem: Box::new(t), length: size }, st3)
                    } else {
                        Err(ErrorModel::U)
                    },
                },
            },
        }
    }
}

/// type = ':' '*'* ident ('[' number ']')*; without ':' the type is unknown.
pub open spec fn sp_type(s: Seq<char>, st: PState) -> PResult<TypeModel> {
    let (b, st1) = consume(s, st, TokenKind::Colon);
    if !b {
        Ok((TypeModel::Unknown, st))
    } else {
        let (n, st2) = sp_stars(s, st1);
        match expect(s, st2, TokenKind::Ident) {
            Err(e) => Err(e),
            Ok((name, st3)) => sp_dims(s, pointers(kind_of_name(name.literal), n), st3),
        }
    }
}

/// A declared return type; an omitted one means the function returns nothing.
pub open spec fn return_type(t: TypeModel) -> TypeModel {
    if t == TypeModel::Unknown {
        TypeModel::Never
    } else {
        t
    }
}

/// One parameter `ident: type`, declared in the innermost scope.
pub open spec fn sp_param(s: Seq<char>, st: PState) -> PResult<(ExprModel, TypeModel)> {
    match sp_ident(s, st) {
        Err(e) => Err(e),
        Ok((ident, st1)) => match create_ident(st1, ident) {
            Err(e) => Err(e),
            Ok((param, st2)) => match sp_type(s, st2) {
                Err(e) => Err(e),
                Ok((ty, st3)) => Ok(((param, ty), st3)),
            },
        },
    }
}

/// The parameters after the first one, each preceded by ','.
pub open spec fn sp_params_rest(s: Seq<char>, acc: Seq<(ExprModel, TypeModel)>, st: PState) -> PResult<
    Seq<(ExprModel, TypeModel)>,
>
    decreases measure(s, st),
{
    let (b, st1) = consume(s, st, TokenKind::Comma);
    if !b {
        Ok((acc, st))
    } else {
        match sp_param(s, st1) {
            Err(e) => Err(e),
            Ok((p, st2)) => if further(s, st, st2) {
                sp_params_rest(s, acc.push(p), st2)
            } else {
                Err(ErrorModel::U)
            },
        }
    }
}

/// The rest of a function definition after its parameter list: return type, '=', body.
pub open spec fn sp_fn_tail(
    s: Seq<char>,
    name: ExprModel,
    params: Seq<(ExprModel, TypeModel)>,
    st: PState,
    top: PState,
) -> PResult<ExprModel>
    decreases measure(s, top), 0int, measure(s, st),
{
    match sp_type(s, st) {
        Err(e) => Err(e),
        Ok((rt, st1)) => match expect(s, st1, TokenKind::Assign) {
            Err(e) => Err(e),
            Ok((_, st2)) => if further(s, top, st2) {
                match sp_expr(s, st2) {
                    Err(e) => Err(e),
                    Ok((body, st3)) => Ok((
                        ExprModel::FnDef {
                            name: Box::new(name),
                            params,
                            return_ty: return_type(rt),
                            body: Box::new(body),
                        },
                        leave_scope(st3),
                    )),
                }
            } else {
                Err(ErrorModel::U)
            },
        },
    }
}

/// let_expr = 'let' (ident type | ident '(' (ident type),* ')' type) '=' expr
pub open spec fn sp_let(s: Seq<char>, st: PState) -> PResult<ExprModel>
    decreases measure(s, st), 18int, 0int,
{
    match expect(s, st, TokenKind::Let) {
        Err(e) => Err(e),
        Ok((_, st1)) => match sp_ident(s, st1) {
            Err(e) => Err(e),
            Ok((ident, st2)) => {
                let (lp, st3) = consume(s, st2, TokenKind::LParen);
                if lp {
                    match create_ident(st3, ident) {
                        Err(e) => Err(e),
                        Ok((name, st4)) => {
                            let st5 = enter_scope(st4);
                            let (rp, st6) = consume(s, st5, TokenKind::RParen);
                            if rp {
                                sp_fn_tail(s, name, Seq::empty(), st6, st)
                            } else {
                                match sp_param(s, st5) {
                                    Err(e) => Err(e),
                                    Ok((p, st7)) => match sp_params_rest(s, seq![p], st7) {
                                        Err(e) => Err(e),
                                        Ok((params, st8)) => match expect(s, st8, TokenKind::RParen) {
                                            Err(e) => Err(e),
                                            Ok((_, st9)) => sp_fn_tail(s, name, params, st9, st),
                                        },
                                    },
                                }
                            }
                        },
                    }
                } else {
                    match sp_type(s, st2) {
                        Err(e) => Err(e),
                        Ok((ty, st3)) => match create_ident(st3, ident) {
                            Err(e) => Err(e),
                            Ok((name, st4)) => match expect(s, st4, TokenKind::Assign) {
                                Err(e) => Err(e),
                                Ok((_, st5)) => if further(s, st, st5) {
                                    match sp_expr(s, st5) {
                                        Err(e) => Err(e),
                                        Ok((value, st6)) => Ok((
                                            ExprModel::Let {
                                                name: Box::new(name),
                                                value: Box::new(value),
                                                ty,
                                            },
                                            st6,
                                        )),
                                    }
                                } else {
                                    Err(ErrorModel::U)
                                },
                            },
                        },
                    }
                }
            },
        },
    }
}

/// if_expr = 'if' expr expr ('else' expr)?
pub open spec fn sp_if(s: Seq<char>, st: PState) -> PResult<ExprModel>
    decreases measure(s, st), 18int, 0int,
{
    match expect(s, st, TokenKind::If) {
        Err(e) => Err(e),
        Ok((_, st1)) => if further(s, st, st1) {
            match sp_expr(s, st1) {
                Err(e) => Err(e),
                Ok((c, st2)) => if further(s, st, st2) {
                    match sp_expr(s, st2) {
                        Err(e) => Err(e),
                        Ok((t, st3)) => {
                            let (b, st4) = consume(s, st3, TokenKind::Else);
                            if b {
                                if further(s, st, st4) {
                                    match sp_expr(s, st4) {
                                        Err(e) => Err(e),
                                        Ok((f, st5)) => Ok((
                                            ExprModel::If {
                                                condition: Box::new(c),
                                                consequence: Box::new(t),
                                                alternative: Some(Box::new(f)),
                                            },
                                            st5,
                                        )),
                                    }
                                } else {
                                    Err(ErrorModel::U)
                                }
                            } else {
                                Ok((
                                    ExprModel::If {
                                        condition: Box::new(c),
                                        consequence: Box::new(t),
                                        alternative: None,
                                    },
                                    st3,
                                ))
                            }
                        },
                    }
                } else {
                    Err(ErrorModel::U)
                },
            }
        } else {
            Err(ErrorModel::U)
        },
    }
}

/// return_expr = 'return' expr
pub open spec fn sp_return(s: Seq<char>, st: PState) -> PResult<ExprModel>
    decreases measure(s, st), 18int, 0int,
{
    match expect(s, st, TokenKind::Return) {
        Err(e) => Err(e),
        Ok((_, st1)) => if further(s, st, st1) {
            match sp_expr(s, st1) {
                Err(e) => Err(e),
                Ok((v, st2)) => Ok((ExprModel::Return(Box::new(v)), st2)),
            }
        } else {
            Err(ErrorModel::U)
        },
    }
}

/// expr = let_expr | if_expr | return_expr | assign
pub open spec fn sp_expr(s: Seq<char>, st: PState) -> PResult<ExprModel>
    decreases measure(s, st), 19int, 0int,
{
    if st.cur.kind == TokenKind::Let {
        sp_let(s, st)
    } else if st.cur.kind == TokenKind::If {
        sp_if(s, st)
    } else if st.cur.kind == TokenKind::Return {
        sp_return(s, st)
    } else {
        sp_assign(s, st)
    }
}

/// stmt = expr ';'?
pub open spec fn sp_stmt(s: Seq<char>, st: PState) -> PResult<StmtModel>
    decreases measure(s, st), 20int, 0int,
{
    match sp_expr(s, st) {
        Err(e) => Err(e),
        Ok((e, st1)) => {
            let (b, st2) = consume(s, st1, TokenKind::SemiColon);
            if b {
                Ok((StmtModel::Expr(e), st2))
            } else {
                Ok((StmtModel::Return(e), st1))
            }
        },
    }
}

/// assign = relation ('=' relation)?
pub open spec fn sp_assign(s: Seq<char>, st: PState) -> PResult<ExprModel>
    decreases measure(s, st), 17int, 0int,
{
    match sp_relation(s, st) {
        Err(e) => Err(e),
        Ok((lhs, st1)) => {
            let (b, st2) = consume(s, st1, TokenKind::Assign);
            if b {
                if further(s, st, st2) {
                    match sp_relation(s, st2) {
                        Err(e) => Err(e),
                        Ok((rhs, st3)) => Ok((
                            ExprModel::Binary {
                                kind: BinaryExprKind::Assign,
                                lhs: Box::new(lhs),
                                rhs: Box::new(rhs),
                            },
                            st3,
                        )),
                    }
                } else {
                    Err(ErrorModel::U)
                }
            } else {
                Ok((lhs, st1))
            }
        },
    }
}

/// The comparison operator read from a token, if any.
pub open spec fn relation_op(k: TokenKind) -> Option<BinaryExprKind> {
    if k == TokenKind::Eq {
        Some(BinaryExprKind::Eq)
    } else if k == TokenKind::Ne {
        Some(BinaryExprKind::Ne)
    } else if k == TokenKind::Lt {
        Some(BinaryExprKind::Lt)
    } else if k == TokenKind::Le {
        Some(BinaryExprKind::Le)
    } else if k == TokenKind::Gt {
        Some(BinaryExprKind::Gt)
    } else if k == TokenKind::Ge {
        Some(BinaryExprKind::Ge)
    } else {
        None
    }
}

pub open spec fn additive_op(k: TokenKind) -> Option<BinaryExprKind> {
    if k == TokenKind::Plus {
        Some(BinaryExprKind::Add)
    } else if k == TokenKind::Minus {
        Some(BinaryExprKind::Sub)
    } else {
        None
    }
}

pub open spec fn multiplicative_op(k: TokenKind) -> Option<BinaryExprKind> {
    if k == TokenKind::Asterisk {
        Some(BinaryExprKind::Mul)
    } else if k == TokenKind::Slash {
        Some(BinaryExprKind::Div)
    } else {
        None
    }
}

/// relation = add ('==' add | '!=' add | '<' add | '<=' add | '>' add | '>=' add)*
pub open spec fn sp_relation(s: Seq<char>, st: PState) -> PResult<ExprModel>
    decreases measure(s, st), 16int, 0int,
{
    match sp_add(s, st) {
        Err(e) => Err(e),
        Ok((lhs, st1)) => if further(s, st, st1) {
            sp_relation_rest(s, lhs, st1)
        } else {
            Err(ErrorModel::U)
        },
    }
}

pub open spec fn sp_relation_rest(s: Seq<char>, lhs: ExprModel, st: PState) -> PResult<ExprModel>
    decreases measure(s, st), 0int, 0int,
{
    proof {
        lemma_advance(s, st);
    }
    match relation_op(st.cur.kind) {
        None => Ok((lhs, st)),
        Some(op) => match sp_add(s, advance(s, st)) {
            Err(e) => Err(e),
            Ok((rhs, st1)) => if further(s, st, st1) {
                sp_relation_rest(s, ExprModel::Binary { kind: op, lhs: Box::new(lhs), rhs: Box::new(rhs) }, st1)
            } else {
                Err(ErrorModel::U)
            },
        },
    }
}

/// add = mul ('+' mul | '-' mul)*
pub open spec fn sp_add(s: Seq<char>, st: PState) -> PResult<ExprModel>
    decreases measure(s, st), 15int, 0int,
{
    match sp_mul(s, st) {
        Err(e) => Err(e),
        Ok((lhs, st1)) => if further(s, st, st1) {
            sp_add_rest(s, lhs, st1)
        } else {
            Err(ErrorModel::U)
        },
    }
}

pub open spec fn sp_add_rest(s: Seq<char>, lhs: ExprModel, st: PState) -> PResult<ExprModel>
    decreases measure(s, st), 0int, 0int,
{
    proof {
        lemma_advance(s, st);
    }
    match additive_op(st.cur.kind) {
        None => Ok((lhs, st)),
        Some(op) => match sp_mul(s, advance(s, st)) {
            Err(e) => Err(e),
            Ok((rhs, st1)) => if further(s, st, st1) {
                sp_add_rest(s, ExprModel::Binary { kind: op, lhs: Box::new(lhs), rhs: Box::new(rhs) }, st1)
            } else {
                Err(ErrorModel::U)
            },
        },
    }
}

/// mul = unary ('*' unary | '/' unary)*
pub open spec fn sp_mul(s: Seq<char>, st: PState) -> PResult<ExprModel>
    decreases measure(s, st), 14int, 0int,
{
    match sp_unary(s, st) {
        Err(e) => Err(e),
        Ok((lhs, st1)) => if further(s, st, st1) {
            sp_mul_rest(s, lhs, st1)
        } else {
            Err(ErrorModel::U)
        },
    }
}

pub open spec fn sp_mul_rest(s: Seq<char>, lhs: ExprModel, st: PState) -> PResult<ExprModel>
    decreases measure(s, st), 0int, 0int,
{
    proof {
        lemma_advance(s, st);
    }
    match multiplicative_op(st.cur.kind) {
        None => Ok((lhs, st)),
        Some(op) => match sp_unary(s, advance(s, st)) {
            Err(e) => Err(e),
            Ok((rhs, st1)) => if further(s, st, st1) {
                sp_mul_rest(s, ExprModel::Binary { kind: op, lhs: Box::new(lhs), rhs: Box::new(rhs) }, st1)
            } else {
                Err(ErrorModel::U)
            },
        },
    }
}

/// unary = '!' unary | '*' unary | '&' unary | '-' index | index
pub open spec fn sp_unary(s: Seq<char>, st: PState) -> PResult<ExprModel>
    decreases measure(s, st), 13int, 0int,
{
    proof {
        lemma_advance(s, st);
    }
    let k = st.cur.kind;
    if k == TokenKind::Bang || k == TokenKind::Asterisk || k == TokenKind::Ampersand {
        let kind = if k == TokenKind::Bang {
            UnaryExprKind::Not
        } else if k == TokenKind::Asterisk {
            UnaryExprKind::Deref
        } else {
            UnaryExprKind::Addr
        };
        match sp_unary(s, advance(s, st)) {
            Err(e) => Err(e),
            Ok((e, st1)) => Ok((ExprModel::Unary { kind, expr: Box::new(e) }, st1)),
        }
    } else if k == TokenKind::Minus {
        match sp_index(s, advance(s, st)) {
            Err(e) => Err(e),
            Ok((e, st1)) => Ok((ExprModel::Unary { kind: UnaryExprKind::Minus, expr: Box::new(e) }, st1)),
        }
    } else {
        sp_index(s, st)
    }
}

/// index = call ('[' expr ']')*
pub open spec fn sp_index(s: Seq<char>, st: PState) -> PResult<ExprModel>
    decreases measure(s, st), 12int, 0int,
{
    match sp_call(s, st) {
        Err(e) => Err(e),
        Ok((node, st1)) => if further(s, st, st1) {
            sp_index_rest(s, node, st1)
        } else {
            Err(ErrorModel::U)
        },
    }
}

pub open spec fn sp_index_rest(s: Seq<char>, node: ExprModel, st: PState) -> PResult<ExprModel>
    decreases measure(s, st), 0int, 0int,
{
    proof {
        lemma_advance(s, st);
    }
    if st.cur.kind != TokenKind::LBracket {
        Ok((node, st))
    } else {
        match sp_expr(s, advance(s, st)) {
            Err(e) => Err(e),
            Ok((index, st1)) => match expect(s, st1, TokenKind::RBracket) {
                Err(e) => Err(e),
                Ok((_, st2)) => if further(s, st, st2) {
                    sp_index_rest(s, ExprModel::Index { array: Box::new(node), index: Box::new(index) }, st2)
                } else {
                    Err(ErrorModel::U)
                },
            },
        }
    }
}

/// call = primary ('(' expr,* ')')?
pub open spec fn sp_call(s: Seq<char>, st: PState) -> PResult<ExprModel>
    decreases measure(s, st), 11int, 0int,
{
    match sp_primary(s, st) {
        Err(e) => Err(e),
        Ok((node, st1)) => {
            let (lp, st2) = consume(s, st1, TokenKind::LParen);
            if !lp {
                Ok((node, st1))
            } else {
                let (rp, st3) = consume(s, st2, TokenKind::RParen);
                if rp {
                    Ok((ExprModel::Call { func: Box::new(node), args: Seq::empty() }, st3))
                } else if further(s, st, st2) {
                    match sp_expr(s, st2) {
                        Err(e) => Err(e),
                        Ok((a, st4)) => if further(s, st, st4) {
                            match sp_args_rest(s, seq![a], st4) {
                                Err(e) => Err(e),
                                Ok((args, st5)) => match expect(s, st5, TokenKind::RParen) {
                                    Err(e) => Err(e),
                                    Ok((_, st6)) => Ok((ExprModel::Call { func: Box::new(node), args }, st6)),
                                },
                            }
                        } else {
                            Err(ErrorModel::U)
                        },
                    }
                } else {
                    Err(ErrorModel::U)
                }
            }
        },
    }
}

/// Further comma-separated expressions, as in arguments and array elements.
pub open spec fn sp_args_rest(s: Seq<char>, acc: Seq<ExprModel>, st: PState) -> PResult<Seq<ExprModel>>
    decreases measure(s, st), 0int, 0int,
{
    proof {
        lemma_advance(s, st);
    }
    if st.cur.kind != TokenKind::Comma {
        Ok((acc, st))
    } else {
        match sp_expr(s, advance(s, st)) {
            Err(e) => Err(e),
            Ok((a, st1)) => if further(s, st, st1) {
                sp_args_rest(s, acc.push(a), st1)
            } else {
                Err(ErrorModel::U)
            },
        }
    }
}

/// primary = '(' expr ')' | block_expr | array | integer | ident | bool
pub open spec fn sp_primary(s: Seq<char>, st: PState) -> PResult<ExprModel>
    decreases measure(s, st), 10int, 0int,
{
    proof {
        lemma_advance(s, st);
    }
    let k = st.cur.kind;
    if k == TokenKind::LParen {
        match sp_expr(s, advance(s, st)) {
            Err(e) => Err(e),
            Ok((e, st1)) => match expect(s, st1, TokenKind::RParen) {
                Err(err) => Err(err),
                Ok((_, st2)) => Ok((e, st2)),
            },
        }
    } else if k == TokenKind::LBrace {
        sp_block(s, st)
    } else if k == TokenKind::LBracket {
        sp_array(s, st)
    } else if k == TokenKind::Number {
        sp_integer(s, st)
    } else if k == TokenKind::Ident {
        match sp_ident(s, st) {
            Err(e) => Err(e),
            Ok((ident, st1)) => match find_ident(st1, ident) {
                Err(e) => Err(e),
                Ok(found) => Ok((found, st1)),
            },
        }
    } else {
        sp_bool(s, st)
    }
}

/// block_expr = '{' stmt* '}', read in a scope of its own.
pub open spec fn sp_block(s: Seq<char>, st: PState) -> PResult<ExprModel>
    decreases measure(s, st), 9int, 0int,
{
    let st1 = enter_scope(st);
    match expect(s, st1, TokenKind::LBrace) {
        Err(e) => Err(e),
        Ok((_, st2)) => if further(s, st, st2) {
            match sp_block_rest(s, Seq::empty(), st2) {
                Err(e) => Err(e),
                Ok((stmts, st3)) => Ok((ExprModel::Block(stmts), st3)),
            }
        } else {
            Err(ErrorModel::U)
        },
    }
}

pub open spec fn sp_block_rest(s: Seq<char>, acc: Seq<StmtModel>, st: PState) -> PResult<Seq<StmtModel>>
    decreases measure(s, st), 21int, 0int,
{
    if st.cur.kind == TokenKind::RBrace {
        Ok((acc, leave_scope(advance(s, st))))
    } else if st.cur.kind == TokenKind::EOF {
        Err(ErrorModel::UnexpectedToken { expected: TokenKind::RBrace, actual: TokenKind::EOF })
    } else {
        match sp_stmt(s, st) {
            Err(e) => Err(e),
            Ok((stmt, st1)) => if further(s, st, st1) {
                sp_block_rest(s, acc.push(stmt), st1)
            } else {
                Err(ErrorModel::U)
            },
        }
    }
}

/// array = '[' expr,* ']'
pub open spec fn sp_array(s: Seq<char>, st: PState) -> PResult<ExprModel>
    decreases measure(s, st), 9int, 0int,
{
    match expect(s, st, TokenKind::LBracket) {
        Err(e) => Err(e),
        Ok((_, st1)) => {
            let (rb, st2) = consume(s, st1, TokenKind::RBracket);
            if rb {
                Ok((ExprModel::Array(Seq::empty()), st2))
            } else if further(s, st, st1) {
                match sp_expr(s, st1) {
                    Err(e) => Err(e),
                    Ok((a, st3)) => if further(s, st, st3) {
                        match sp_args_rest(s, seq![a], st3) {
                            Err(e) => Err(e),
                            Ok((elements, st4)) => match expect(s, st4, TokenKind::RBracket) {
                                Err(e) => Err(e),
                                Ok((_, st5)) => Ok((ExprModel::Array(elements), st5)),
                            },
                        }
                    } else {
                        Err(ErrorModel::U)
                    },
                }
            } else {
                Err(ErrorModel::U)
            }
        },
    }
}

/// The statements of a program from the current token on; a statement that yields its
/// value must be the last one.
pub open spec fn sp_program_rest(s: Seq<char>, is_returned: bool, acc: Seq<StmtModel>, st: PState) -> PResult<
    Seq<StmtModel>,
>
    decreases measure(s, st),
{
    if st.cur.kind == TokenKind::EOF {
        Ok((acc, advance(s, st)))
    } else {
        match sp_stmt(s, st) {
            Err(e) => Err(e),
            Ok((stmt, st1)) => if is_returned {
                Err(ErrorModel::RequiredSemiColon)
            } else if further(s, st, st1) {
                sp_program_rest(s, stmt is Return, acc.push(stmt), st1)
            } else {
                Err(ErrorModel::U)
            },
        }
    }
}

/// program = stmt*
pub open spec fn sp_program(s: Seq<char>, st: PState) -> PResult<Seq<StmtModel>> {
    sp_program_rest(s, false, Seq::empty(), st)
}


/// The binary operator that the text of an operator stands for in the source: `==`, `!=`,
/// `<`, `<=`, `>`, `>=`, `+`, `-`, `*` and `/`.
pub open spec fn operator_of_text(t: Seq<char>) -> Option<BinaryExprKind> {
    if t.len() == 1 {
        if t[0] == '<' {
            Some(BinaryExprKind::Lt)
        } else if t[0] == '>' {
            Some(BinaryExprKind::Gt)
        } else if t[0] == '+' {
            Some(BinaryExprKind::Add)
        } else if t[0] == '-' {
            Some(BinaryExprKind::Sub)
        } else if t[0] == '*' {
            Some(BinaryExprKind::Mul)
        } else if t[0] == '/' {
            Some(BinaryExprKind::Div)
        } else {
            None
        }
    } else if t.len() == 2 && t[1] == '=' {
        if t[0] == '=' {
            Some(BinaryExprKind::Eq)
        } else if t[0] == '!' {
            Some(BinaryExprKind::Ne)
        } else if t[0] == '<' {
            Some(BinaryExprKind::Le)
        } else if t[0] == '>' {
            Some(BinaryExprKind::Ge)
        } else {
            None
        }
    } else {
        None
    }
}

/// The binary operator the parser builds for a token, at whichever level of precedence it
/// reads it.
pub open spec fn parsed_operator(k: TokenKind) -> Option<BinaryExprKind> {
    match relation_op(k) {
        Some(op) => Some(op),
        None => match additive_op(k) {
            Some(op) => Some(op),
            None => multiplicative_op(k),
        },
    }
}

/// Every token the lexer reads stands, in the parser, for the binary operator its text
/// names: `<` becomes a less-than, `>=` a greater-or-equal, `-` a subtraction, and so on,
/// and a token whose text names no binary operator (a number, a word, `=`, `!`, `&`, a
/// bracket) becomes none.
pub proof fn lemma_operator_tokens(s: Seq<char>, p: int)
    requires
        0 <= p <= s.len(),
    ensures
        parsed_operator(lex_step(s, p).0.kind) == operator_of_text(lex_step(s, p).0.literal),
{
    lemma_lex_step_def(s, p);
    crate::lexer::lemma_skip_space(s, p);
    let q = crate::lexer::skip_space(s, p);
    let c = crate::text::char_at(s, q);
    if is_digit(c) {
        let e = crate::lexer::scan_digits(s, q);
        crate::lexer::lemma_scan_digits(s, q);
        let w = s.subrange(q, e);
        assert(w.len() >= 1 ==> w[0] == c);
    } else if crate::text::is_alpha(c) || c == '_' {
        let e = crate::lexer::scan_word(s, q);
        crate::lexer::lemma_scan_word(s, q);
        let w = s.subrange(q, e);
        assert(w.len() >= 1 ==> w[0] == c);
        assert(parsed_operator(crate::token::keyword_kind(w)) is None);
    } else if with_eq_kind(c) is Some && crate::text::char_at(s, q + 1) == '=' {
        let t = seq![c, '='];
        assert(t.len() == 2 && t[0] == c && t[1] == '=');
    } else {
        let t = seq![c];
        assert(t.len() == 1 && t[0] == c);
    }
}
} // verus!
