//! The grammar of the script language, as a recursive-descent reading of the token stream.
//!
//! The reading state is the lexer position and the current token. Every reading function
//! gives either the value read and the state after it, or the error that stops the parse.
//! A branch guarded by `further` that fails is never taken: each reading function that
//! succeeds has read at least one token, as the parser's contracts show.
use vstd::prelude::*;
use crate::grammar::{digits_value, clamp};
use crate::script::token::{TokenKind, TokenModel};
use crate::script::lexer::{lex_step, lexes_from, lemma_lex_step_progress, lemma_lexes_step, lex_at, is_ident_head};
use crate::script::ast::{BinaryExprKind, UnaryExprKind, ExprModel, StmtModel, NodeModel};
use crate::script::parser::error::ParseError;
use crate::script::parser::escape::unescape;

verus! {

/// The state of a parse: the lexer position and the current token.
pub struct SPState {
    pub pos: int,
    pub cur: TokenModel,
}

pub type SResult<T> = Result<(T, SPState), ParseError>;

/// Reads the next token into the current one; a token the lexer fails on leaves the
/// current token as it was.
pub open spec fn advance(s: Seq<char>, st: SPState) -> SPState {
    match lex_step(s, st.pos) {
        Some((Ok(t), p)) => SPState { pos: p, cur: t },
        Some((Err(_), p)) => SPState { pos: p, cur: st.cur },
        None => st,
    }
}

/// A measure of the input left to read; reading a token other than `EOF` lowers it.
pub open spec fn measure(s: Seq<char>, st: SPState) -> int {
    (s.len() - clamp(s, st.pos)) + if st.cur.kind == TokenKind::EOF { 0int } else { 1int }
}

/// Whether the state `b` lies strictly further in the input than `a`.
pub open spec fn further(s: Seq<char>, a: SPState, b: SPState) -> bool {
    measure(s, b) < measure(s, a)
}

/// The states a parse passes through: inside the input, with every later lexer step returning.
pub open spec fn readable(s: Seq<char>, st: SPState) -> bool {
    0 <= st.pos <= s.len() && lexes_from(s, st.pos)
}

/// Reading a token keeps the state readable, never raises the measure, and lowers it
/// unless the current token is `EOF`.
pub proof fn lemma_advance(s: Seq<char>, st: SPState)
    requires
        readable(s, st),
    ensures
        readable(s, advance(s, st)),
        lex_step(s, st.pos) is Some,
        measure(s, advance(s, st)) <= measure(s, st),
        st.cur.kind != TokenKind::EOF ==> further(s, st, advance(s, st)),
{
    lemma_lex_step_progress(s, st.pos);
    lemma_lexes_step(s, st.pos);
}

pub open spec fn consume(s: Seq<char>, st: SPState, k: TokenKind) -> SResult<TokenModel> {
    if st.cur.kind != k {
        Err(ParseError::ParseConsumeError { expected: k, got: st.cur.kind })
    } else {
        Ok((st.cur, advance(s, st)))
    }
}

/// The state after reading a token of kind `k` if it is the current one, else unchanged.
pub open spec fn skip(s: Seq<char>, st: SPState, k: TokenKind) -> SPState {
    if st.cur.kind == k {
        advance(s, st)
    } else {
        st
    }
}

/// ident = [A-z] | "_" ( [A-z0-9] | "_" )*
pub open spec fn sp_ident(s: Seq<char>, st: SPState) -> SResult<ExprModel> {
    match consume(s, st, TokenKind::Ident) {
        Ok((t, st1)) => Ok((ExprModel::Ident(t.literal), st1)),
        Err(e) => Err(e),
    }
}

/// integer = [0-9]*
pub open spec fn sp_integer(s: Seq<char>, st: SPState) -> SResult<ExprModel> {
    match consume(s, st, TokenKind::Number) {
        Ok((t, st1)) => if digits_value(t.literal) <= isize::MAX {
            Ok((ExprModel::Integer(digits_value(t.literal)), st1))
        } else {
            Err(ParseError::ParseIntegerError)
        },
        Err(e) => Err(e),
    }
}

/// str = '"' ( (char except double quote and backslash) | "\" . ) '"'
pub open spec fn sp_str(s: Seq<char>, st: SPState) -> SResult<ExprModel> {
    match consume(s, st, TokenKind::StringBody) {
        Ok((t, st1)) => match unescape(t.literal) {
            Some(text) => Ok((ExprModel::Str(text), st1)),
            None => Err(ParseError::ParseEscapeError),
        },
        Err(e) => Err(e),
    }
}

/// bool = "true" | "false"
pub open spec fn sp_bool(s: Seq<char>, st: SPState) -> SResult<ExprModel> {
    if st.cur.kind == TokenKind::True {
        Ok((ExprModel::Boolean(true), advance(s, st)))
    } else {
        match consume(s, st, TokenKind::False) {
            Ok((_, st1)) => Ok((ExprModel::Boolean(false), st1)),
            Err(e) => Err(e),
        }
    }
}

/// The comparison operator read from a token, if any.
pub open spec fn comp_op(k: TokenKind) -> Option<BinaryExprKind> {
    if k == TokenKind::Eq {
        Some(BinaryExprKind::Eq)
    } else if k == TokenKind::Ne {
        Some(BinaryExprKind::Ne)
    } else if k == TokenKind::Lt {
        Some(BinaryExprKind::Lt)
    } else if k == TokenKind::Le {
        Some(BinaryExprKind::Le)
    } else if k == TokenKind::Gt {
        Some(BinaryExprKind::Gt)
    } else if k == TokenKind::Ge {
        Some(BinaryExprKind::Ge)
    } else {
        None
    }
}

pub open spec fn add_op(k: TokenKind) -> Option<BinaryExprKind> {
    if k == TokenKind::Plus {
        Some(BinaryExprKind::Add)
    } else if k == TokenKind::Minus {
        Some(BinaryExprKind::Sub)
    } else {
        None
    }
}

pub open spec fn mul_op(k: TokenKind) -> Option<BinaryExprKind> {
    if k == TokenKind::Asterisk {
        Some(BinaryExprKind::Mul)
    } else if k == TokenKind::Slash {
        Some(BinaryExprKind::Div)
    } else if k == TokenKind::Percent {
        Some(BinaryExprKind::Mod)
    } else {
        None
    }
}


/// The error of a branch that is never taken (see the module documentation).
pub open spec fn stuck<T>() -> SResult<T> {
    Err(ParseError::ParseBlockExprError)
}

/// stmt = let_stmt | return_stmt | expr_stmt
pub open spec fn sp_stmt(s: Seq<char>, st: SPState) -> SResult<StmtModel>
    decreases measure(s, st), 21int,
{
    if st.cur.kind == TokenKind::Let {
        sp_let(s, st)
    } else if st.cur.kind == TokenKind::Return {
        sp_return(s, st)
    } else {
        sp_expr_stmt(s, st)
    }
}

/// The parameters after the first one, up to and including ')'.
pub open spec fn sp_params_rest(s: Seq<char>, acc: Seq<ExprModel>, st: SPState) -> SResult<Seq<ExprModel>>
    decreases measure(s, st), 0int,
{
    if st.cur.kind == TokenKind::RParen {
        Ok((acc, advance(s, st)))
    } else if st.cur.kind == TokenKind::EOF {
        Err(ParseError::ParseCallExprError)
    } else {
        match consume(s, st, TokenKind::Comma) {
            Err(e) => Err(e),
            Ok((_, st1)) => match sp_ident(s, st1) {
                Err(e) => Err(e),
                Ok((p, st2)) => if further(s, st, st2) {
                    sp_params_rest(s, acc.push(p), st2)
                } else {
                    stuck()
                },
            },
        }
    }
}

/// The end of a function definition: '=' expr ';'.
pub open spec fn sp_fn_body(s: Seq<char>, st: SPState, top: SPState) -> SResult<ExprModel>
    decreases measure(s, top), 0int,
{
    match consume(s, st, TokenKind::Assign) {
        Err(e) => Err(e),
        Ok((_, st1)) => if further(s, top, st1) {
            match sp_expr(s, st1) {
                Err(e) => Err(e),
                Ok((body, st2)) => match consume(s, st2, TokenKind::SemiColon) {
                    Err(e) => Err(e),
                    Ok((_, st3)) => Ok((body, st3)),
                },
            }
        } else {
            stuck()
        },
    }
}

/// let_stmt = "let" ident ( "(" ( ident ( "," ident )* )? ")" )? "=" expr ";"
pub open spec fn sp_let(s: Seq<char>, st: SPState) -> SResult<StmtModel>
    decreases measure(s, st), 20int,
{
    match consume(s, st, TokenKind::Let) {
        Err(e) => Err(e),
        Ok((_, st1)) => match sp_ident(s, st1) {
            Err(e) => Err(e),
            Ok((name, st2)) => if st2.cur.kind == TokenKind::LParen {
                let st3 = advance(s, st2);
                if st3.cur.kind == TokenKind::RParen {
                    match sp_fn_body(s, advance(s, st3), st) {
                        Err(e) => Err(e),
                        Ok((body, st4)) => Ok((StmtModel::LetFn { name, params: Seq::empty(), body }, st4)),
                    }
                } else {
                    match sp_ident(s, st3) {
                        Err(e) => Err(e),
                        Ok((p, st4)) => match sp_params_rest(s, seq![p], st4) {
                            Err(e) => Err(e),
                            Ok((params, st5)) => match sp_fn_body(s, st5, st) {
                                Err(e) => Err(e),
                                Ok((body, st6)) => Ok((StmtModel::LetFn { name, params, body }, st6)),
                            },
                        },
                    }
                }
            } else {
                match consume(s, st2, TokenKind::Assign) {
                    Err(e) => Err(e),
                    Ok((_, st3)) => if further(s, st, st3) {
                        match sp_expr(s, st3) {
                            Err(e) => Err(e),
                            Ok((value, st4)) => match consume(s, st4, TokenKind::SemiColon) {
                                Err(e) => Err(e),
                                Ok((_, st5)) => Ok((StmtModel::Let { name, value }, st5)),
                            },
                        }
                    } else {
                        stuck()
                    },
                }
            },
        },
    }
}

/// return_stmt = "return" expr ";"
pub open spec fn sp_return(s: Seq<char>, st: SPState) -> SResult<StmtModel>
    decreases measure(s, st), 20int,
{
    match consume(s, st, TokenKind::Return) {
        Err(e) => Err(e),
        Ok((_, st1)) => if further(s, st, st1) {
            match sp_expr(s, st1) {
                Err(e) => Err(e),
                Ok((v, st2)) => match consume(s, st2, TokenKind::SemiColon) {
                    Err(e) => Err(e),
                    Ok((_, st3)) => Ok((StmtModel::Return(v), st3)),
                },
            }
        } else {
            stuck()
        },
    }
}

/// expr_stmt = expr ";"?
pub open spec fn sp_expr_stmt(s: Seq<char>, st: SPState) -> SResult<StmtModel>
    decreases measure(s, st), 20int,
{
    match sp_expr(s, st) {
        Err(e) => Err(e),
        Ok((e, st1)) => Ok((StmtModel::Expr(e), skip(s, st1, TokenKind::SemiColon))),
    }
}

/// expr = if_expr | block_expr | comp
pub open spec fn sp_expr(s: Seq<char>, st: SPState) -> SResult<ExprModel>
    decreases measure(s, st), 19int,
{
    if st.cur.kind == TokenKind::If {
        sp_if(s, st)
    } else if st.cur.kind == TokenKind::LBrace {
        sp_block(s, st)
    } else {
        sp_comp(s, st)
    }
}

/// if_expr = "if" expr expr ( "else" expr )?
pub open spec fn sp_if(s: Seq<char>, st: SPState) -> SResult<ExprModel>
    decreases measure(s, st), 18int,
{
    match consume(s, st, TokenKind::If) {
        Err(e) => Err(e),
        Ok((_, st1)) => if further(s, st, st1) {
            match sp_expr(s, st1) {
                Err(e) => Err(e),
                Ok((c, st2)) => if further(s, st, st2) {
                    match sp_expr(s, st2) {
                        Err(e) => Err(e),
                        Ok((t, st3)) => if st3.cur.kind == TokenKind::Else {
                            let st4 = advance(s, st3);
                            if further(s, st, st4) {
                                match sp_expr(s, st4) {
                                    Err(e) => Err(e),
                                    Ok((f, st5)) => Ok((
                                        ExprModel::If {
                                            condition: Box::new(c),
                                            consequence: Box::new(t),
                                            alternative: Some(Box::new(f)),
                                        },
                                        st5,
                                    )),
                                }
                            } else {
                                stuck()
                            }
                        } else {
                            Ok((
                                ExprModel::If { condition: Box::new(c), consequence: Box::new(t), alternative: None },
                                st3,
                            ))
                        },
                    }
                } else {
                    stuck()
                },
            }
        } else {
            stuck()
        },
    }
}

/// block_expr = "{" stmt* "}"
pub open spec fn sp_block(s: Seq<char>, st: SPState) -> SResult<ExprModel>
    decreases measure(s, st), 18int,
{
    match consume(s, st, TokenKind::LBrace) {
        Err(e) => Err(e),
        Ok((_, st1)) => if further(s, st, st1) {
            match sp_block_rest(s, Seq::empty(), st1) {
                Err(e) => Err(e),
                Ok((stmts, st2)) => Ok((ExprModel::Block(stmts), st2)),
            }
        } else {
            stuck()
        },
    }
}

/// The statements of a block up to and including its '}'.
pub open spec fn sp_block_rest(s: Seq<char>, acc: Seq<StmtModel>, st: SPState) -> SResult<Seq<StmtModel>>
    decreases measure(s, st), 22int,
{
    if st.cur.kind == TokenKind::RBrace {
        Ok((acc, advance(s, st)))
    } else if st.cur.kind == TokenKind::EOF {
        Err(ParseError::ParseBlockExprError)
    } else {
        match sp_stmt(s, st) {
            Err(e) => Err(e),
            Ok((x, st1)) => if further(s, st, st1) {
                sp_block_rest(s, acc.push(x), st1)
            } else {
                stuck()
            },
        }
    }
}

/// comp = add ( "==" add | "!=" add | "<" add | "<=" add | ">" add | ">=" add )?
pub open spec fn sp_comp(s: Seq<char>, st: SPState) -> SResult<ExprModel>
    decreases measure(s, st), 17int,
{
    match sp_add(s, st) {
        Err(e) => Err(e),
        Ok((lhs, st1)) => match comp_op(st1.cur.kind) {
            None => Ok((lhs, st1)),
            Some(kind) => {
                let st2 = advance(s, st1);
                if further(s, st, st2) {
                    match sp_add(s, st2) {
                        Err(e) => Err(e),
                        Ok((rhs, st3)) => Ok((ExprModel::Binary { kind, lhs: Box::new(lhs), rhs: Box::new(rhs) }, st3)),
                    }
                } else {
                    stuck()
                }
            },
        },
    }
}

/// add = mul ( "+" mul | "-" mul )*
pub open spec fn sp_add(s: Seq<char>, st: SPState) -> SResult<ExprModel>
    decreases measure(s, st), 16int,
{
    match sp_mul(s, st) {
        Err(e) => Err(e),
        Ok((lhs, st1)) => if further(s, st, st1) {
            sp_add_rest(s, lhs, st1)
        } else {
            stuck()
        },
    }
}

pub open spec fn sp_add_rest(s: Seq<char>, lhs: ExprModel, st: SPState) -> SResult<ExprModel>
    decreases measure(s, st), 0int,
{
    match add_op(st.cur.kind) {
        None => Ok((lhs, st)),
        Some(kind) => {
            let st1 = advance(s, st);
            if further(s, st, st1) {
                match sp_mul(s, st1) {
                    Err(e) => Err(e),
                    Ok((rhs, st2)) => if further(s, st, st2) {
                        sp_add_rest(s, ExprModel::Binary { kind, lhs: Box::new(lhs), rhs: Box::new(rhs) }, st2)
                    } else {
                        stuck()
                    },
                }
            } else {
                stuck()
            }
        },
    }
}

/// mul = unary ( "*" unary | "/" unary | "%" unary )*
pub open spec fn sp_mul(s: Seq<char>, st: SPState) -> SResult<ExprModel>
    decreases measure(s, st), 15int,
{
    match sp_unary(s, st) {
        Err(e) => Err(e),
        Ok((lhs, st1)) => if further(s, st, st1) {
            sp_mul_rest(s, lhs, st1)
        } else {
            stuck()
        },
    }
}

pub open spec fn sp_mul_rest(s: Seq<char>, lhs: ExprModel, st: SPState) -> SResult<ExprModel>
    decreases measure(s, st), 0int,
{
    match mul_op(st.cur.kind) {
        None => Ok((lhs, st)),
        Some(kind) => {
            let st1 = advance(s, st);
            if further(s, st, st1) {
                match sp_unary(s, st1) {
                    Err(e) => Err(e),
                    Ok((rhs, st2)) => if further(s, st, st2) {
                        sp_mul_rest(s, ExprModel::Binary { kind, lhs: Box::new(lhs), rhs: Box::new(rhs) }, st2)
                    } else {
                        stuck()
                    },
                }
            } else {
                stuck()
            }
        },
    }
}

/// unary = "-" unary | "!" unary | primary
pub open spec fn sp_unary(s: Seq<char>, st: SPState) -> SResult<ExprModel>
    decreases measure(s, st), 14int,
{
    if st.cur.kind == TokenKind::Minus || st.cur.kind == TokenKind::Bang {
        let kind = if st.cur.kind == TokenKind::Minus { UnaryExprKind::Minus } else { UnaryExprKind::Not };
        let st1 = advance(s, st);
        if further(s, st, st1) {
            match sp_unary(s, st1) {
                Err(e) => Err(e),
                Ok((e, st2)) => Ok((ExprModel::Unary { kind, expr: Box::new(e) }, st2)),
            }
        } else {
            stuck()
        }
    } else {
        sp_primary(s, st)
    }
}

/// The arguments after the first one, up to and including ')'.
pub open spec fn sp_args_rest(s: Seq<char>, acc: Seq<ExprModel>, st: SPState) -> SResult<Seq<ExprModel>>
    decreases measure(s, st), 0int,
{
    if st.cur.kind == TokenKind::RParen {
        Ok((acc, advance(s, st)))
    } else if st.cur.kind == TokenKind::EOF {
        Err(ParseError::ParseCallExprError)
    } else {
        match consume(s, st, TokenKind::Comma) {
            Err(e) => Err(e),
            Ok((_, st1)) => if further(s, st, st1) {
                match sp_expr(s, st1) {
                    Err(e) => Err(e),
                    Ok((a, st2)) => if further(s, st, st2) {
                        sp_args_rest(s, acc.push(a), st2)
                    } else {
                        stuck()
                    },
                }
            } else {
                stuck()
            },
        }
    }
}

/// primary = integer | ident ( "(" ( expr ( "," expr )* )? ")" )? | str | bool | "(" expr ")"
pub open spec fn sp_primary(s: Seq<char>, st: SPState) -> SResult<ExprModel>
    decreases measure(s, st), 13int,
{
    if st.cur.kind == TokenKind::LParen {
        let st1 = advance(s, st);
        if further(s, st, st1) {
            match sp_expr(s, st1) {
                Err(e) => Err(e),
                Ok((e, st2)) => match consume(s, st2, TokenKind::RParen) {
                    Err(err) => Err(err),
                    Ok((_, st3)) => Ok((e, st3)),
                },
            }
        } else {
            stuck()
        }
    } else if st.cur.kind == TokenKind::Ident {
        match sp_ident(s, st) {
            Err(e) => Err(e),
            Ok((name, st1)) => if st1.cur.kind == TokenKind::LParen {
                let st2 = advance(s, st1);
                if st2.cur.kind == TokenKind::RParen {
                    Ok((ExprModel::Call { name: Box::new(name), args: Seq::empty() }, advance(s, st2)))
                } else if further(s, st, st2) {
                    match sp_expr(s, st2) {
                        Err(e) => Err(e),
                        Ok((a, st3)) => if further(s, st, st3) {
                            match sp_args_rest(s, seq![a], st3) {
                                Err(e) => Err(e),
                                Ok((args, st4)) => Ok((ExprModel::Call { name: Box::new(name), args }, st4)),
                            }
                        } else {
                            stuck()
                        },
                    }
                } else {
                    stuck()
                }
            } else {
                Ok((name, st1))
            },
        }
    } else if st.cur.kind == TokenKind::StringBody {
        sp_str(s, st)
    } else if st.cur.kind == TokenKind::True || st.cur.kind == TokenKind::False {
        sp_bool(s, st)
    } else {
        sp_integer(s, st)
    }
}

/// The statements of a program from the current token on.
pub open spec fn sp_program(s: Seq<char>, acc: Seq<StmtModel>, st: SPState) -> SResult<Seq<StmtModel>>
    decreases measure(s, st), 23int,
{
    if st.cur.kind == TokenKind::EOF {
        Ok((acc, st))
    } else {
        match sp_stmt(s, st) {
            Err(e) => Err(e),
            Ok((x, st1)) => if further(s, st, st1) {
                sp_program(s, acc.push(x), st1)
            } else {
                stuck()
            },
        }
    }
}

/// program = stmt*
pub open spec fn sp_parse(s: Seq<char>, st: SPState) -> SResult<NodeModel> {
    match sp_program(s, Seq::empty(), st) {
        Ok((stmts, st1)) => Ok((NodeModel::Program(stmts), st1)),
        Err(e) => Err(e),
    }
}

/// Whether an executable result agrees with the reading function's result `spec`,
/// the parser ending in state `st`.
pub open spec fn agrees<T: View>(spec: SResult<T::V>, r: Result<T, ParseError>, st: SPState) -> bool {
    match spec {
        Ok((m, st2)) => r matches Ok(v) && v@ == m && st == st2,
        Err(e) => r matches Err(err) && err == e,
    }
}

/// The binary operator that the text of an operator stands for in a script: `==`, `!=`,
/// `<`, `<=`, `>`, `>=`, `+`, `-`, `*`, `/` and `%`.
pub open spec fn operator_of_text(t: Seq<char>) -> Option<BinaryExprKind> {
    if t.len() == 1 {
        if t[0] == '<' {
            Some(BinaryExprKind::Lt)
        } else if t[0] == '>' {
            Some(BinaryExprKind::Gt)
        } else if t[0] == '+' {
            Some(BinaryExprKind::Add)
        } else if t[0] == '-' {
            Some(BinaryExprKind::Sub)
        } else if t[0] == '*' {
            Some(BinaryExprKind::Mul)
        } else if t[0] == '/' {
            Some(BinaryExprKind::Div)
        } else if t[0] == '%' {
            Some(BinaryExprKind::Mod)
        } else {
            None
        }
    } else if t.len() == 2 && t[1] == '=' {
        if t[0] == '=' {
            Some(BinaryExprKind::Eq)
        } else if t[0] == '!' {
            Some(BinaryExprKind::Ne)
        } else if t[0] == '<' {
            Some(BinaryExprKind::Le)
        } else if t[0] == '>' {
            Some(BinaryExprKind::Ge)
        } else {
            None
        }
    } else {
        None
    }
}

/// The binary operator the parser builds for a token, at whichever level of precedence it
/// reads it.
pub open spec fn parsed_operator(k: TokenKind) -> Option<BinaryExprKind> {
    match comp_op(k) {
        Some(op) => Some(op),
        None => match add_op(k) {
            Some(op) => Some(op),
            None => mul_op(k),
        },
    }
}

/// Every token the lexer reads, other than the body of a string literal, stands in the
/// parser for the binary operator its text names: `<` becomes a less-than, `>=` a
/// greater-or-equal, `%` a remainder, and so on, and a token whose text names no binary
/// operator (a number, a word, `=`, `!`, a bracket) becomes none.
pub proof fn lemma_operator_tokens(s: Seq<char>, q: int)
    requires
        0 <= q <= s.len(),
    ensures
        lex_at(s, q).0 matches Ok(t) ==> (t.kind != TokenKind::StringBody ==> parsed_operator(t.kind)
            == operator_of_text(t.literal)),
{
    let c = crate::text::char_at(s, q);
    if c == '"' {
    } else if crate::script::lexer::with_eq_kind(c) is Some && crate::text::char_at(s, q + 1) == '=' {
        let t = seq![c, '='];
        assert(t.len() == 2 && t[0] == c && t[1] == '=');
    } else if crate::text::is_digit(c) {
        crate::lexer::lemma_scan_digits(s, q);
        let w = s.subrange(q, crate::lexer::scan_digits(s, q));
        assert(w.len() >= 1 ==> w[0] == c);
    } else if is_ident_head(c) {
        crate::lexer::lemma_scan_word(s, q);
        let w = s.subrange(q, crate::lexer::scan_word(s, q));
        assert(w.len() >= 1 ==> w[0] == c);
        assert(parsed_operator(crate::script::token::keyword_kind(w)) is None);
    } else {
        let t = seq![c];
        assert(t.len() == 1 && t[0] == c);
    }
}
} // verus!
