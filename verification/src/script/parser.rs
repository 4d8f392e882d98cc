//! The parser of the script language.
pub mod error;
pub mod escape;
pub mod ast;

use vstd::prelude::*;
use crate::parser::parse_isize;
use crate::script::token::{Token, TokenKind};
use crate::script::lexer::{Lexer, lexes_from, number_ok, lemma_lexed_number_ok, lemma_lexes_step};
use crate::script::ast::{Node, Statement, Expression, BinaryExprKind, UnaryExprKind, expr_models, stmt_models,
    lemma_expr_models_push, lemma_stmt_models_push};
use crate::script::grammar::{SPState, advance, measure, further, readable, lemma_advance, consume, agrees,
    sp_ident, sp_integer, sp_str, sp_bool, sp_stmt, sp_let, sp_return, sp_expr_stmt, sp_expr, sp_if, sp_block,
    sp_block_rest, sp_comp, sp_add, sp_add_rest, sp_mul, sp_mul_rest, sp_unary, sp_primary, sp_args_rest,
    sp_params_rest, sp_program, sp_parse};
use crate::script::parser::error::ParseError;
use crate::script::parser::escape::escape;

verus! {

pub struct Parser {
    lexer: Lexer,
    cur_token: Token,
}

impl Parser {
    /// The characters being parsed.
    pub closed spec fn src(&self) -> Seq<char> {
        self.lexer.source()
    }

    /// The reading state of the parser.
    pub closed spec fn state(&self) -> SPState {
        SPState { pos: self.lexer.pos(), cur: self.cur_token@ }
    }

    pub closed spec fn wf(&self) -> bool {
        &&& self.lexer.wf()
        &&& lexes_from(self.lexer.source(), self.lexer.pos())
        &&& number_ok(self.cur_token@)
    }

    pub proof fn lemma_wf(&self)
        requires
            self.wf(),
        ensures
            readable(self.src(), self.state()),
    {
        self.lexer.lemma_wf();
    }

    /// A parser that reads the tokens of `lexer` from its current position on.
    pub fn new(lexer: Lexer) -> (p: Parser)
        requires
            lexer.wf(),
            lexes_from(lexer.source(), lexer.pos()),
        ensures
            p.wf(),
            p.src() == lexer.source(),
            p.state() == advance(
                lexer.source(),
                SPState { pos: lexer.pos(), cur: crate::script::token::TokenModel { kind: TokenKind::Unknown, literal: Seq::empty() } },
            ),
    {
        let cur_token = Token::new(TokenKind::Unknown, String::new());
        let mut p = Parser { lexer, cur_token };
        p.next_token();
        p
    }

    fn next_token(&mut self)
        requires
            old(self).wf(),
        ensures
            final(self).wf(),
            final(self).src() == old(self).src(),
            final(self).state() == advance(old(self).src(), old(self).state()),
    {
        proof {
            self.lexer.lemma_wf();
            lemma_lexes_step(self.lexer.source(), self.lexer.pos());
            lemma_lexed_number_ok(self.lexer.source(), self.lexer.pos());
        }
        match self.lexer.next_token() {
            Ok(t) => {
                self.cur_token = t;
            },
            Err(_) => {},
        }
    }

    fn is_cur(&self, kind: TokenKind) -> (b: bool)
        ensures
            b == (self.state().cur.kind == kind),
    {
        self.cur_token.kind() == kind
    }

    fn is_eof(&self) -> (b: bool)
        ensures
            b == (self.state().cur.kind == TokenKind::EOF),
    {
        self.cur_token.kind() == TokenKind::EOF
    }

    fn consume(&mut self, kind: TokenKind) -> (r: Result<Token, ParseError>)
        requires
            old(self).wf(),
        ensures
            final(self).wf(),
            final(self).src() == old(self).src(),
            agrees(consume(old(self).src(), old(self).state(), kind), r, final(self).state()),
            measure(old(self).src(), final(self).state()) <= measure(old(self).src(), old(self).state()),
            r is Ok && kind != TokenKind::EOF ==> further(old(self).src(), old(self).state(), final(self).state()),
            r matches Ok(t) ==> number_ok(t@),
    {
        proof {
            self.lemma_wf();
            lemma_advance(self.src(), self.state());
        }
        if self.cur_token.kind() != kind {
            return Err(ParseError::ParseConsumeError { expected: kind, got: self.cur_token.kind() });
        }
        let token = self.cur_token.duplicate();
        self.next_token();
        Ok(token)
    }
}


impl Parser {
    /// ident = [A-z] | "_" ( [A-z0-9] | "_" )*
    pub fn parse_ident(&mut self) -> (r: Result<Expression, ParseError>)
        requires
            old(self).wf(),
        ensures
            final(self).wf(),
            final(self).src() == old(self).src(),
            agrees(sp_ident(old(self).src(), old(self).state()), r, final(self).state()),
            r is Ok ==> further(old(self).src(), old(self).state(), final(self).state()),
            measure(old(self).src(), final(self).state()) <= measure(old(self).src(), old(self).state()),
    {
        let token = self.consume(TokenKind::Ident)?;
        Ok(Expression::Ident(token.literal()))
    }

    /// integer = [0-9]*
    pub fn parse_integer(&mut self) -> (r: Result<Expression, ParseError>)
        requires
            old(self).wf(),
        ensures
            final(self).wf(),
            final(self).src() == old(self).src(),
            agrees(sp_integer(old(self).src(), old(self).state()), r, final(self).state()),
            r is Ok ==> further(old(self).src(), old(self).state(), final(self).state()),
            measure(old(self).src(), final(self).state()) <= measure(old(self).src(), old(self).state()),
    {
        let token = self.consume(TokenKind::Number)?;
        let literal = token.literal();
        match parse_isize(literal.as_str()) {
            Ok(value) => Ok(Expression::Integer(value)),
            Err(_) => Err(ParseError::ParseIntegerError),
        }
    }

    /// str = '"' ( (char except double quote and backslash) | "\" . ) '"'
    pub fn parse_str(&mut self) -> (r: Result<Expression, ParseError>)
        requires
            old(self).wf(),
        ensures
            final(self).wf(),
            final(self).src() == old(self).src(),
            agrees(sp_str(old(self).src(), old(self).state()), r, final(self).state()),
            r is Ok ==> further(old(self).src(), old(self).state(), final(self).state()),
            measure(old(self).src(), final(self).state()) <= measure(old(self).src(), old(self).state()),
    {
        let token = self.consume(TokenKind::StringBody)?;
        let literal = token.literal();
        let text = escape(literal.as_str())?;
        Ok(Expression::Str(text))
    }

    /// bool = "true" | "false"
    pub fn parse_bool(&mut self) -> (r: Result<Expression, ParseError>)
        requires
            old(self).wf(),
        ensures
            final(self).wf(),
            final(self).src() == old(self).src(),
            agrees(sp_bool(old(self).src(), old(self).state()), r, final(self).state()),
            r is Ok ==> further(old(self).src(), old(self).state(), final(self).state()),
            measure(old(self).src(), final(self).state()) <= measure(old(self).src(), old(self).state()),
    {
        proof {
            self.lemma_wf();
            lemma_advance(self.src(), self.state());
        }
        if self.is_cur(TokenKind::True) {
            self.next_token();
            return Ok(Expression::Boolean(true));
        }
        self.consume(TokenKind::False)?;
        Ok(Expression::Boolean(false))
    }
}

impl Parser {
    /// stmt = let_stmt | return_stmt | expr_stmt
    pub fn parse_stmt(&mut self) -> (r: Result<Statement, ParseError>)
        requires
            old(self).wf(),
        ensures
            final(self).wf(),
            final(self).src() == old(self).src(),
            agrees(sp_stmt(old(self).src(), old(self).state()), r, final(self).state()),
            r is Ok ==> further(old(self).src(), old(self).state(), final(self).state()),
            measure(old(self).src(), final(self).state()) <= measure(old(self).src(), old(self).state()),
        decreases measure(self.src(), self.state()), 21int,
    {
        if self.is_cur(TokenKind::Let) {
            self.parse_let_stmt()
        } else if self.is_cur(TokenKind::Return) {
            self.parse_return_stmt()
        } else {
            self.parse_expr_stmt()
        }
    }

    /// let_stmt = "let" ident ( "(" ( ident ( "," ident )* )? ")" )? "=" expr ";"
    #[verifier::loop_isolation(false)]
    pub fn parse_let_stmt(&mut self) -> (r: Result<Statement, ParseError>)
        requires
            old(self).wf(),
        ensures
            final(self).wf(),
            final(self).src() == old(self).src(),
            agrees(sp_let(old(self).src(), old(self).state()), r, final(self).state()),
            r is Ok ==> further(old(self).src(), old(self).state(), final(self).state()),
            measure(old(self).src(), final(self).state()) <= measure(old(self).src(), old(self).state()),
        decreases measure(self.src(), self.state()), 20int,
    {
        let ghost s = self.src();
        let ghost st = self.state();
        proof {
            self.lemma_wf();
        }
        self.consume(TokenKind::Let)?;
        let name = self.parse_ident()?;
        if self.is_cur(TokenKind::LParen) {
            proof {
                self.lemma_wf();
                lemma_advance(s, self.state());
            }
            self.next_token();
            let mut params: Vec<Expression> = Vec::new();
            if self.is_cur(TokenKind::RParen) {
                proof {
                    self.lemma_wf();
                    lemma_advance(s, self.state());
                }
                self.next_token();
            } else {
                let first = self.parse_ident()?;
                params.push(first);
                proof {
                    lemma_expr_models_push(Seq::empty(), first);
                    assert(Seq::<Expression>::empty().push(first) =~= params@);
                }
                let ghost st4 = self.state();
                loop
                    invariant
                        self.wf(),
                        self.src() == s,
                        further(s, st, self.state()),
                        sp_params_rest(s, expr_models(params@), self.state())
                            == sp_params_rest(s, seq![first@], st4),
                    decreases measure(s, self.state()),
                {
                    proof {
                        self.lemma_wf();
                        lemma_advance(s, self.state());
                    }
                    if self.is_cur(TokenKind::RParen) {
                        self.next_token();
                        break;
                    }
                    if self.is_eof() {
                        return Err(ParseError::ParseCallExprError);
                    }
                    self.consume(TokenKind::Comma)?;
                    let p = self.parse_ident()?;
                    proof {
                        lemma_expr_models_push(params@, p);
                    }
                    params.push(p);
                }
            }
            self.consume(TokenKind::Assign)?;
            let body = self.parse_expr()?;
            self.consume(TokenKind::SemiColon)?;
            return Ok(Statement::LetFnStmt { name, params, body });
        }
        self.consume(TokenKind::Assign)?;
        let value = self.parse_expr()?;
        self.consume(TokenKind::SemiColon)?;
        Ok(Statement::LetStmt { name, value })
    }

    /// return_stmt = "return" expr ";"
    pub fn parse_return_stmt(&mut self) -> (r: Result<Statement, ParseError>)
        requires
            old(self).wf(),
        ensures
            final(self).wf(),
            final(self).src() == old(self).src(),
            agrees(sp_return(old(self).src(), old(self).state()), r, final(self).state()),
            r is Ok ==> further(old(self).src(), old(self).state(), final(self).state()),
            measure(old(self).src(), final(self).state()) <= measure(old(self).src(), old(self).state()),
        decreases measure(self.src(), self.state()), 20int,
    {
        self.consume(TokenKind::Return)?;
        let expr = self.parse_expr()?;
        self.consume(TokenKind::SemiColon)?;
        Ok(Statement::ReturnStmt(expr))
    }

    /// expr_stmt = expr ";"?
    pub fn parse_expr_stmt(&mut self) -> (r: Result<Statement, ParseError>)
        requires
            old(self).wf(),
        ensures
            final(self).wf(),
            final(self).src() == old(self).src(),
            agrees(sp_expr_stmt(old(self).src(), old(self).state()), r, final(self).state()),
            r is Ok ==> further(old(self).src(), old(self).state(), final(self).state()),
            measure(old(self).src(), final(self).state()) <= measure(old(self).src(), old(self).state()),
        decreases measure(self.src(), self.state()), 20int,
    {
        let expr = self.parse_expr()?;
        proof {
            self.lemma_wf();
            lemma_advance(self.src(), self.state());
        }
        if self.is_cur(TokenKind::SemiColon) {
            self.next_token();
        }
        Ok(Statement::ExprStmt(expr))
    }

    /// expr = if_expr | block_expr | comp
    pub fn parse_expr(&mut self) -> (r: Result<Expression, ParseError>)
        requires
            old(self).wf(),
        ensures
            final(self).wf(),
            final(self).src() == old(self).src(),
            agrees(sp_expr(old(self).src(), old(self).state()), r, final(self).state()),
            r is Ok ==> further(old(self).src(), old(self).state(), final(self).state()),
            measure(old(self).src(), final(self).state()) <= measure(old(self).src(), old(self).state()),
        decreases measure(self.src(), self.state()), 19int,
    {
        if self.is_cur(TokenKind::If) {
            return self.parse_if_expr();
        }
        if self.is_cur(TokenKind::LBrace) {
            return self.parse_block_expr();
        }
        self.parse_comp()
    }

    /// if_expr = "if" expr expr ( "else" expr )?
    pub fn parse_if_expr(&mut self) -> (r: Result<Expression, ParseError>)
        requires
            old(self).wf(),
        ensures
            final(self).wf(),
            final(self).src() == old(self).src(),
            agrees(sp_if(old(self).src(), old(self).state()), r, final(self).state()),
            r is Ok ==> further(old(self).src(), old(self).state(), final(self).state()),
            measure(old(self).src(), final(self).state()) <= measure(old(self).src(), old(self).state()),
        decreases measure(self.src(), self.state()), 18int,
    {
        self.consume(TokenKind::If)?;
        let condition = Box::new(self.parse_expr()?);
        let consequence = Box::new(self.parse_expr()?);
        proof {
            self.lemma_wf();
            lemma_advance(self.src(), self.state());
        }
        let alternative = if self.is_cur(TokenKind::Else) {
            self.next_token();
            Some(Box::new(self.parse_expr()?))
        } else {
            None
        };
        Ok(Expression::IfExpr { condition, consequence, alternative })
    }

    /// block_expr = "{" stmt* "}"
    #[verifier::loop_isolation(false)]
    pub fn parse_block_expr(&mut self) -> (r: Result<Expression, ParseError>)
        requires
            old(self).wf(),
        ensures
            final(self).wf(),
            final(self).src() == old(self).src(),
            agrees(sp_block(old(self).src(), old(self).state()), r, final(self).state()),
            r is Ok ==> further(old(self).src(), old(self).state(), final(self).state()),
            measure(old(self).src(), final(self).state()) <= measure(old(self).src(), old(self).state()),
        decreases measure(self.src(), self.state()), 18int,
    {
        let ghost s = self.src();
        let ghost st = self.state();
        self.consume(TokenKind::LBrace)?;
        let ghost st1 = self.state();
        let mut stmts: Vec<Statement> = Vec::new();
        loop
            invariant
                self.wf(),
                self.src() == s,
                further(s, st, self.state()),
                sp_block_rest(s, stmt_models(stmts@), self.state()) == sp_block_rest(s, Seq::empty(), st1),
            decreases measure(s, self.state()),
        {
            proof {
                self.lemma_wf();
                lemma_advance(s, self.state());
            }
            if self.is_cur(TokenKind::RBrace) {
                self.next_token();
                return Ok(Expression::BlockExpr(stmts));
            }
            if self.is_eof() {
                return Err(ParseError::ParseBlockExprError);
            }
            let stmt = self.parse_stmt()?;
            proof {
                lemma_stmt_models_push(stmts@, stmt);
            }
            stmts.push(stmt);
        }
    }
}

impl Parser {
    #[verifier::rlimit(40)]
    /// comp = add ( "==" add | "!=" add | "<" add | "<=" add | ">" add | ">=" add )?
    pub fn parse_comp(&mut self) -> (r: Result<Expression, ParseError>)
        requires
            old(self).wf(),
        ensures
            final(self).wf(),
            final(self).src() == old(self).src(),
            agrees(sp_comp(old(self).src(), old(self).state()), r, final(self).state()),
            r is Ok ==> further(old(self).src(), old(self).state(), final(self).state()),
            measure(old(self).src(), final(self).state()) <= measure(old(self).src(), old(self).state()),
        decreases measure(self.src(), self.state()), 17int,
    {
        let node = self.parse_add()?;
        proof {
            self.lemma_wf();
            lemma_advance(self.src(), self.state());
        }
        let kind = if self.is_cur(TokenKind::Eq) {
            BinaryExprKind::Eq
        } else if self.is_cur(TokenKind::Ne) {
            BinaryExprKind::Ne
        } else if self.is_cur(TokenKind::Lt) {
            BinaryExprKind::Lt
        } else if self.is_cur(TokenKind::Le) {
            BinaryExprKind::Le
        } else if self.is_cur(TokenKind::Gt) {
            BinaryExprKind::Gt
        } else if self.is_cur(TokenKind::Ge) {
            BinaryExprKind::Ge
        } else {
            return Ok(node);
        };
        self.next_token();
        let rhs = self.parse_add()?;
        Ok(Expression::BinaryExpr { kind, lhs: Box::new(node), rhs: Box::new(rhs) })
    }

    /// add = mul ( "+" mul | "-" mul )*
    #[verifier::loop_isolation(false)]
    #[verifier::rlimit(40)]
    pub fn parse_add(&mut self) -> (r: Result<Expression, ParseError>)
        requires
            old(self).wf(),
        ensures
            final(self).wf(),
            final(self).src() == old(self).src(),
            agrees(sp_add(old(self).src(), old(self).state()), r, final(self).state()),
            r is Ok ==> further(old(self).src(), old(self).state(), final(self).state()),
            measure(old(self).src(), final(self).state()) <= measure(old(self).src(), old(self).state()),
        decreases measure(self.src(), self.state()), 16int,
    {
        let ghost s = self.src();
        let ghost st = self.state();
        let mut node = self.parse_mul()?;
        let ghost st1 = self.state();
        let ghost lhs0 = node@;
        loop
            invariant
                self.wf(),
                self.src() == s,
                further(s, st, self.state()),
                sp_add_rest(s, node@, self.state()) == sp_add_rest(s, lhs0, st1),
            decreases measure(s, self.state()),
        {
            proof {
                self.lemma_wf();
                lemma_advance(s, self.state());
            }
            let kind = if self.is_cur(TokenKind::Plus) {
                BinaryExprKind::Add
            } else if self.is_cur(TokenKind::Minus) {
                BinaryExprKind::Sub
            } else {
                return Ok(node);
            };
            self.next_token();
            let rhs = self.parse_mul()?;
            node = Expression::BinaryExpr { kind, lhs: Box::new(node), rhs: Box::new(rhs) };
        }
    }

    /// mul = unary ( "*" unary | "/" unary | "%" unary )*
    #[verifier::loop_isolation(false)]
    pub fn parse_mul(&mut self) -> (r: Result<Expression, ParseError>)
        requires
            old(self).wf(),
        ensures
            final(self).wf(),
            final(self).src() == old(self).src(),
            agrees(sp_mul(old(self).src(), old(self).state()), r, final(self).state()),
            r is Ok ==> further(old(self).src(), old(self).state(), final(self).state()),
            measure(old(self).src(), final(self).state()) <= measure(old(self).src(), old(self).state()),
        decreases measure(self.src(), self.state()), 15int,
    {
        let ghost s = self.src();
        let ghost st = self.state();
        let mut node = self.parse_unary()?;
        let ghost st1 = self.state();
        let ghost lhs0 = node@;
        loop
            invariant
                self.wf(),
                self.src() == s,
                further(s, st, self.state()),
                sp_mul_rest(s, node@, self.state()) == sp_mul_rest(s, lhs0, st1),
            decreases measure(s, self.state()),
        {
            proof {
                self.lemma_wf();
                lemma_advance(s, self.state());
            }
            let kind = if self.is_cur(TokenKind::Asterisk) {
                BinaryExprKind::Mul
            } else if self.is_cur(TokenKind::Slash) {
                BinaryExprKind::Div
            } else if self.is_cur(TokenKind::Percent) {
                BinaryExprKind::Mod
            } else {
                return Ok(node);
            };
            self.next_token();
            let rhs = self.parse_unary()?;
            node = Expression::BinaryExpr { kind, lhs: Box::new(node), rhs: Box::new(rhs) };
        }
    }

    /// unary = "-" unary | "!" unary | primary
    pub fn parse_unary(&mut self) -> (r: Result<Expression, ParseError>)
        requires
            old(self).wf(),
        ensures
            final(self).wf(),
            final(self).src() == old(self).src(),
            agrees(sp_unary(old(self).src(), old(self).state()), r, final(self).state()),
            r is Ok ==> further(old(self).src(), old(self).state(), final(self).state()),
            measure(old(self).src(), final(self).state()) <= measure(old(self).src(), old(self).state()),
        decreases measure(self.src(), self.state()), 14int,
    {
        proof {
            self.lemma_wf();
            lemma_advance(self.src(), self.state());
        }
        if self.is_cur(TokenKind::Minus) {
            self.next_token();
            let expr = self.parse_unary()?;
            return Ok(Expression::UnaryExpr { kind: UnaryExprKind::Minus, expr: Box::new(expr) });
        }
        if self.is_cur(TokenKind::Bang) {
            self.next_token();
            let expr = self.parse_unary()?;
            return Ok(Expression::UnaryExpr { kind: UnaryExprKind::Not, expr: Box::new(expr) });
        }
        self.parse_primary()
    }

    /// primary = integer | ident ( "(" ( expr ( "," expr )* )? ")" )? | str | bool | "(" expr ")"
    #[verifier::loop_isolation(false)]
    pub fn parse_primary(&mut self) -> (r: Result<Expression, ParseError>)
        requires
            old(self).wf(),
        ensures
            final(self).wf(),
            final(self).src() == old(self).src(),
            agrees(sp_primary(old(self).src(), old(self).state()), r, final(self).state()),
            r is Ok ==> further(old(self).src(), old(self).state(), final(self).state()),
            measure(old(self).src(), final(self).state()) <= measure(old(self).src(), old(self).state()),
        decreases measure(self.src(), self.state()), 13int,
    {
        let ghost s = self.src();
        let ghost st = self.state();
        proof {
            self.lemma_wf();
            lemma_advance(s, self.state());
        }
        if self.is_cur(TokenKind::LParen) {
            self.next_token();
            let expr = self.parse_expr()?;
            self.consume(TokenKind::RParen)?;
            return Ok(expr);
        }
        if self.is_cur(TokenKind::Ident) {
            let name = self.parse_ident()?;
            proof {
                self.lemma_wf();
                lemma_advance(s, self.state());
            }
            if !self.is_cur(TokenKind::LParen) {
                return Ok(name);
            }
            self.next_token();
            let mut args: Vec<Expression> = Vec::new();
            proof {
                self.lemma_wf();
                lemma_advance(s, self.state());
            }
            if self.is_cur(TokenKind::RParen) {
                self.next_token();
                assert(expr_models(args@) =~= Seq::<crate::script::ast::ExprModel>::empty());
                return Ok(Expression::CallExpr { name: Box::new(name), args });
            }
            let first = self.parse_expr()?;
            args.push(first);
            proof {
                lemma_expr_models_push(Seq::empty(), first);
                assert(Seq::<Expression>::empty().push(first) =~= args@);
            }
            let ghost st3 = self.state();
            loop
                invariant
                    self.wf(),
                    self.src() == s,
                    further(s, st, self.state()),
                    sp_args_rest(s, expr_models(args@), self.state()) == sp_args_rest(s, seq![first@], st3),
                decreases measure(s, self.state()),
            {
                proof {
                    self.lemma_wf();
                    lemma_advance(s, self.state());
                }
                if self.is_cur(TokenKind::RParen) {
                    self.next_token();
                    return Ok(Expression::CallExpr { name: Box::new(name), args });
                }
                if self.is_eof() {
                    return Err(ParseError::ParseCallExprError);
                }
                self.consume(TokenKind::Comma)?;
                let a = self.parse_expr()?;
                proof {
                    lemma_expr_models_push(args@, a);
                }
                args.push(a);
            }
        }
        if self.is_cur(TokenKind::StringBody) {
            return self.parse_str();
        }
        if self.is_cur(TokenKind::True) || self.is_cur(TokenKind::False) {
            return self.parse_bool();
        }
        self.parse_integer()
    }
}

impl Parser {
    /// program = stmt*
    #[verifier::loop_isolation(false)]
    pub fn parse(&mut self) -> (r: Result<Node, ParseError>)
        requires
            old(self).wf(),
        ensures
            final(self).wf(),
            final(self).src() == old(self).src(),
            agrees(sp_parse(old(self).src(), old(self).state()), r, final(self).state()),
    {
        let ghost s = self.src();
        let ghost st = self.state();
        let mut stmts: Vec<Statement> = Vec::new();
        loop
            invariant
                self.wf(),
                self.src() == s,
                sp_program(s, stmt_models(stmts@), self.state()) == sp_program(s, Seq::empty(), st),
            decreases measure(s, self.state()),
        {
            if self.is_eof() {
                return Ok(Node::Program(stmts));
            }
            let stmt = self.parse_stmt()?;
            proof {
                lemma_stmt_models_push(stmts@, stmt);
            }
            stmts.push(stmt);
        }
    }
}
} // verus!
