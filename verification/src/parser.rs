//! The parser of the wervc language.
use vstd::prelude::*;
use crate::text::{copy_string, string_of_char};
use crate::token::{Token, TokenKind, TokenModel};
use crate::lexer::{Lexer, lex_step, all_digits, token_ok, lemma_lexed_token_ok};
use crate::ast::{Expression, Ident, Integer, Boolean, Array, BinaryExpr, BinaryExprKind, LetExpr, BlockExpr, CallExpr,
    FunctionDefExpr, IfExpr, ReturnExpr, UnaryExpr, UnaryExprKind, IndexExpr, Statement, Program, Node,
    ExprModel, StmtModel, expr_models, stmt_models, param_models, lemma_expr_models_push, lemma_stmt_models_push,
    lemma_param_models_push};
use crate::ty::{Type, TypeModel, kind_of_name};
use crate::environment::{Environment, scope_lookup};
use crate::grammar::{ErrorModel, PState, PResult, advance, measure, further, consume, expect, with_scopes,
    enter_scope, leave_scope, digits_value, number_value, create_ident, find_ident, lemma_advance,
    sp_ident, sp_integer, sp_bool, sp_stars, pointers, sp_dims, sp_type, return_type, sp_param, sp_params_rest,
    sp_fn_tail, sp_let, sp_if, sp_return, sp_expr, sp_stmt, sp_assign, relation_op, additive_op,
    multiplicative_op, sp_relation, sp_relation_rest, sp_add, sp_add_rest, sp_mul, sp_mul_rest, sp_unary,
    sp_index, sp_index_rest, sp_call, sp_args_rest, sp_primary, sp_block, sp_block_rest, sp_array,
    sp_program_rest, sp_program};

verus! {

#[verifier::external_type_specification]
#[verifier::external_body]
pub struct ExParseIntError(std::num::ParseIntError);

/// `str::parse::<isize>` on a non-empty run of decimal digits: std documents that it gives
/// the value the digits denote, or an error when that value does not fit in an `isize`.
#[verifier::external_body]
pub(crate) fn parse_isize(digits: &str) -> (r: Result<isize, std::num::ParseIntError>)
    requires
        all_digits(digits@),
    ensures
        r is Ok <==> digits_value(digits@) <= isize::MAX,
        r matches Ok(v) ==> v as int == digits_value(digits@),
{
    digits.parse::<isize>()
}

#[derive(Debug, PartialEq, Eq)]
pub enum ParserError {
    UnexpectedToken { expected: TokenKind, actual: TokenKind },
    ParseIntError(std::num::ParseIntError),
    RequiredSemiColon,
    IdentAlreadyDefined(String),
    UndefinedIdent(String),
    U,
    UnexpectedExpr(Expression),
}

impl View for ParserError {
    type V = ErrorModel;

    open spec fn view(&self) -> ErrorModel {
        match self {
            ParserError::UnexpectedToken { expected, actual } => ErrorModel::UnexpectedToken {
                expected: *expected,
                actual: *actual,
            },
            ParserError::ParseIntError(_) => ErrorModel::ParseIntError,
            ParserError::RequiredSemiColon => ErrorModel::RequiredSemiColon,
            ParserError::IdentAlreadyDefined(n) => ErrorModel::IdentAlreadyDefined(n@),
            ParserError::UndefinedIdent(n) => ErrorModel::UndefinedIdent(n@),
            ParserError::U => ErrorModel::U,
            ParserError::UnexpectedExpr(e) => ErrorModel::UnexpectedExpr(e@),
        }
    }
}

/// The state of a parser right after it was created on the input `s`.
pub open spec fn initial_state(s: Seq<char>) -> PState {
    advance(s, PState {
        pos: 0,
        cur: TokenModel { kind: TokenKind::EOF, literal: Seq::empty() },
        scopes: seq![Map::empty()],
    })
}

/// What parsing the whole input `s` as a program gives.
pub open spec fn parse_model(s: Seq<char>) -> Result<Seq<StmtModel>, ErrorModel> {
    match sp_program(s, initial_state(s)) {
        Ok((p, _)) => Ok(p),
        Err(e) => Err(e),
    }
}

/// The exec result `r` and the state `st` after it agree with the reading `spec`.
pub open spec fn agrees<T: View>(spec: PResult<T::V>, r: Result<T, ParserError>, st: PState) -> bool {
    match spec {
        Ok((m, st2)) => r matches Ok(v) && v@ == m && st == st2,
        Err(e) => r matches Err(err) && err@ == e,
    }
}

pub struct Parser {
    lexer: Lexer,
    cur_token: Token,
    local_vars: Environment<Ident>,
}

impl Parser {
    /// The characters being parsed.
    pub closed spec fn src(&self) -> Seq<char> {
        self.lexer.source()
    }

    /// The reading state of the parser.
    pub closed spec fn state(&self) -> PState {
        PState { pos: self.lexer.pos(), cur: self.cur_token@, scopes: self.local_vars.scopes() }
    }

    pub proof fn lemma_wf(&self)
        requires
            self.wf(),
        ensures
            self.src().len() < usize::MAX,
    {
        self.lexer.lemma_source_len();
    }

    pub closed spec fn wf(&self) -> bool {
        &&& self.lexer.wf()
        &&& self.local_vars.wf()
        &&& token_ok(self.cur_token@)
    }

    pub fn new(input: &str) -> (p: Parser)
        requires
            input@.len() < usize::MAX,
            input.is_ascii(),
        ensures
            p.wf(),
            p.src() == input@,
            p.state() == initial_state(input@),
    {
        let lexer = Lexer::new(input);
        let mut parser = Parser { lexer, cur_token: Token::default(), local_vars: Environment::new() };
        parser.next_token();
        proof {
            assert(parser.state() =~= initial_state(input@));
        }
        parser
    }

    fn next_token(&mut self)
        requires
            old(self).wf(),
        ensures
            final(self).wf(),
            final(self).src() == old(self).src(),
            final(self).state() == advance(old(self).src(), old(self).state()),
    {
        proof {
            lemma_lexed_token_ok(self.lexer.source(), self.lexer.pos());
        }
        self.cur_token = self.lexer.next_token();
    }

    fn peek(&self, kind: TokenKind) -> (b: bool)
        ensures
            b == (self.state().cur.kind == kind),
    {
        self.cur_token.kind == kind
    }

    fn consume(&mut self, kind: TokenKind) -> (b: bool)
        requires
            old(self).wf(),
        ensures
            final(self).wf(),
            final(self).src() == old(self).src(),
            (b, final(self).state()) == consume(old(self).src(), old(self).state(), kind),
            measure(old(self).src(), final(self).state()) <= measure(old(self).src(), old(self).state()),
            b && kind != TokenKind::EOF ==> further(old(self).src(), old(self).state(), final(self).state()),
    {
        proof {
            lemma_advance(self.src(), self.state());
        }
        if self.cur_token.kind == kind {
            self.next_token();
            return true;
        }
        false
    }

    fn expect(&mut self, kind: TokenKind) -> (r: Result<Token, ParserError>)
        requires
            old(self).wf(),
            kind != TokenKind::EOF,
        ensures
            final(self).wf(),
            final(self).src() == old(self).src(),
            agrees(expect(old(self).src(), old(self).state(), kind), r, final(self).state()),
            r matches Ok(t) ==> token_ok(t@) && further(old(self).src(), old(self).state(), final(self).state()),
    {
        proof {
            lemma_advance(self.src(), self.state());
        }
        if self.cur_token.kind != kind {
            return Err(ParserError::UnexpectedToken { expected: kind, actual: self.cur_token.kind });
        }
        let mut token = Token::default();
        std::mem::swap(&mut token, &mut self.cur_token);
        self.cur_token = token.duplicate();
        self.next_token();
        Ok(token)
    }

    fn create_ident(&mut self, ident: &Expression) -> (r: Result<Expression, ParserError>)
        requires
            old(self).wf(),
        ensures
            final(self).wf(),
            final(self).src() == old(self).src(),
            agrees(create_ident(old(self).state(), ident@), r, final(self).state()),
    {
        let ident = match ident {
            Expression::Ident(ident) => ident,
            _ => {
                return Err(ParserError::UnexpectedExpr(ident.duplicate()));
            },
        };
        let name = copy_string(&ident.name);
        let ident = Ident { name, offset: 0 };
        proof {
            self.local_vars.lemma_scopes_last();
        }
        self.local_vars.register_item(copy_string(&ident.name), ident.duplicate());
        Ok(Expression::Ident(ident))
    }

    fn find_ident(&self, ident: &Expression) -> (r: Result<Expression, ParserError>)
        requires
            self.wf(),
        ensures
            match find_ident(self.state(), ident@) {
                Ok(m) => r matches Ok(e) && e@ == m,
                Err(m) => r matches Err(e) && e@ == m,
            },
    {
        let ident = match ident {
            Expression::Ident(ident) => ident,
            _ => {
                return Err(ParserError::UnexpectedExpr(ident.duplicate()));
            },
        };
        match self.local_vars.get_item(&ident.name) {
            Some(found) => Ok(Expression::Ident(found.duplicate())),
            None => Err(ParserError::UndefinedIdent(copy_string(&ident.name))),
        }
    }

    fn enter_scope(&mut self)
        requires
            old(self).wf(),
        ensures
            final(self).wf(),
            final(self).src() == old(self).src(),
            final(self).state() == enter_scope(old(self).state()),
    {
        self.local_vars.create_deeper_scope();
    }

    fn leave_scope(&mut self)
        requires
            old(self).wf(),
        ensures
            final(self).wf(),
            final(self).src() == old(self).src(),
            final(self).state() == leave_scope(old(self).state()),
    {
        self.local_vars.create_shallow_scope();
    }
}

impl Parser {
    /// ident = ([a-zA-Z] | '_') ([a-zA-Z0-9] | '_')*
    pub fn parse_ident(&mut self) -> (r: Result<Expression, ParserError>)
        requires
            old(self).wf(),
        ensures
            final(self).wf(),
            final(self).src() == old(self).src(),
            agrees(sp_ident(old(self).src(), old(self).state()), r, final(self).state()),
            r is Ok ==> further(old(self).src(), old(self).state(), final(self).state()),
    {
        let token = self.expect(TokenKind::Ident)?;
        Ok(Expression::Ident(Ident { name: token.literal, offset: 0 }))
    }

    /// integer = [0-9]*
    pub fn parse_integer(&mut self) -> (r: Result<Expression, ParserError>)
        requires
            old(self).wf(),
        ensures
            final(self).wf(),
            final(self).src() == old(self).src(),
            agrees(sp_integer(old(self).src(), old(self).state()), r, final(self).state()),
            r is Ok ==> further(old(self).src(), old(self).state(), final(self).state()),
    {
        let token = self.expect(TokenKind::Number)?;
        match parse_isize(token.literal.as_str()) {
            Ok(value) => Ok(Expression::Integer(Integer { value })),
            Err(e) => Err(ParserError::ParseIntError(e)),
        }
    }

    /// bool = 'true' | 'false'
    pub fn parse_bool(&mut self) -> (r: Result<Expression, ParserError>)
        requires
            old(self).wf(),
        ensures
            final(self).wf(),
            final(self).src() == old(self).src(),
            agrees(sp_bool(old(self).src(), old(self).state()), r, final(self).state()),
            r is Ok ==> further(old(self).src(), old(self).state(), final(self).state()),
    {
        if self.consume(TokenKind::True) {
            return Ok(Expression::Boolean(Boolean { value: true }));
        }
        self.expect(TokenKind::False)?;
        Ok(Expression::Boolean(Boolean { value: false }))
    }

    /// type = ':' '*'* ident ('[' number ']')*
    pub fn parse_type(&mut self) -> (r: Result<Type, ParserError>)
        requires
            old(self).wf(),
        ensures
            final(self).wf(),
            final(self).src() == old(self).src(),
            agrees(sp_type(old(self).src(), old(self).state()), r, final(self).state()),
            r is Ok ==> measure(old(self).src(), final(self).state()) <= measure(old(self).src(), old(self).state()),
    {
        let ghost s = self.src();
        let ghost st0 = self.state();
        if !self.consume(TokenKind::Colon) {
            return Ok(Type::unknown());
        }
        let ghost st1 = self.state();
        proof {
            lemma_advance(s, st0);
            self.lemma_wf();
        }
        let mut pointer: usize = 0;
        loop
            invariant
                self.wf(),
                self.src() == s,
                pointer + measure(s, self.state()) <= measure(s, st1),
                measure(s, st1) <= s.len() + 1,
                s.len() < usize::MAX,
                sp_stars(s, st1) == ((sp_stars(s, self.state()).0 + pointer) as nat, sp_stars(s, self.state()).1),
                measure(s, self.state()) <= measure(s, st0),
            ensures
                self.wf(),
                self.src() == s,
                measure(s, self.state()) <= measure(s, st0),
                sp_stars(s, st1) == (pointer as nat, self.state()),
            decreases measure(s, self.state()),
        {
            proof {
                lemma_advance(s, self.state());
            }
            if !self.consume(TokenKind::Asterisk) {
                break;
            }
            pointer += 1;
        }
        let name = self.expect(TokenKind::Ident)?;
        let mut ty = Type::from_name(name.literal.as_str());
        let ghost base = ty@;
        let mut i: usize = 0;
        while i < pointer
            invariant
                i <= pointer,
                ty@ == pointers(base, i as nat),
            decreases pointer - i,
        {
            ty = Type::pointer_to(Box::new(ty));
            i += 1;
        }
        loop
            invariant
                self.wf(),
                self.src() == s,
                measure(s, self.state()) <= measure(s, st0),
                s == old(self).src(),
                st0 == old(self).state(),
                sp_type(s, st0) == sp_dims(s, ty@, self.state()),
            decreases measure(s, self.state()),
        {
            let ghost cur = self.state();
            proof {
                lemma_advance(s, cur);
            }
            if !self.consume(TokenKind::LBracket) {
                return Ok(ty);
            }
            let number = self.expect(TokenKind::Number)?;
            let size = match parse_isize(number.literal.as_str()) {
                Ok(v) => v,
                Err(e) => {
                    return Err(ParserError::ParseIntError(e));
                },
            };
            ty = Type::array(Box::new(ty), size);
            self.expect(TokenKind::RBracket)?;
        }
    }
}

impl Parser {
    /// stmt = expr ';'?
    pub fn parse_stmt(&mut self) -> (r: Result<Statement<Expression>, ParserError>)
        requires
            old(self).wf(),
        ensures
            final(self).wf(),
            final(self).src() == old(self).src(),
            agrees(sp_stmt(old(self).src(), old(self).state()), r, final(self).state()),
            r is Ok ==> further(old(self).src(), old(self).state(), final(self).state()),
        decreases measure(self.src(), self.state()), 20int, 0int,
    {
        let expr = self.parse_expr()?;
        if self.consume(TokenKind::SemiColon) {
            return Ok(Statement::ExprStmt(expr));
        }
        Ok(Statement::ExprReturnStmt(expr))
    }

    /// expr = let_expr | if_expr | return_expr | assign
    pub fn parse_expr(&mut self) -> (r: Result<Expression, ParserError>)
        requires
            old(self).wf(),
        ensures
            final(self).wf(),
            final(self).src() == old(self).src(),
            agrees(sp_expr(old(self).src(), old(self).state()), r, final(self).state()),
            r is Ok ==> further(old(self).src(), old(self).state(), final(self).state()),
        decreases measure(self.src(), self.state()), 19int, 0int,
    {
        if self.peek(TokenKind::Let) {
            return self.parse_let_expr();
        }
        if self.peek(TokenKind::If) {
            return self.parse_if_expr();
        }
        if self.peek(TokenKind::Return) {
            return self.parse_return_expr();
        }
        self.parse_assign()
    }

    /// One parameter `ident: type` of a function definition.
    fn parse_param(&mut self) -> (r: Result<(Expression, Type), ParserError>)
        requires
            old(self).wf(),
        ensures
            final(self).wf(),
            final(self).src() == old(self).src(),
            match sp_param(old(self).src(), old(self).state()) {
                Ok((m, st2)) => r matches Ok(v) && v.0@ == m.0 && v.1@ == m.1 && final(self).state() == st2,
                Err(e) => r matches Err(err) && err@ == e,
            },
            r is Ok ==> further(old(self).src(), old(self).state(), final(self).state()),
    {
        let ident = self.parse_ident()?;
        let param = self.create_ident(&ident)?;
        let ty = self.parse_type()?;
        Ok((param, ty))
    }

    /// Further parameters, each after a ','.
    fn parse_params_rest(&mut self, params: &mut Vec<(Expression, Type)>) -> (r: Result<(), ParserError>)
        requires
            old(self).wf(),
        ensures
            final(self).wf(),
            final(self).src() == old(self).src(),
            match sp_params_rest(old(self).src(), param_models(old(params)@), old(self).state()) {
                Ok((m, st2)) => r is Ok && param_models(final(params)@) == m && final(self).state() == st2,
                Err(e) => r matches Err(err) && err@ == e,
            },
            r is Ok ==> measure(old(self).src(), final(self).state()) <= measure(old(self).src(), old(self).state()),
    {
        let ghost s = self.src();
        let ghost st0 = self.state();
        let ghost acc0 = param_models(params@);
        loop
            invariant
                self.wf(),
                self.src() == s,
                s == old(self).src(),
                st0 == old(self).state(),
                acc0 == param_models(old(params)@),
                measure(s, self.state()) <= measure(s, st0),
                sp_params_rest(s, acc0, st0) == sp_params_rest(s, param_models(params@), self.state()),
            decreases measure(s, self.state()),
        {
            proof {
                lemma_advance(s, self.state());
            }
            if !self.consume(TokenKind::Comma) {
                return Ok(());
            }
            let p = self.parse_param()?;
            proof {
                lemma_param_models_push(params@, p);
            }
            params.push(p);
        }
    }

    /// The return type, '=' and body of a function definition.
    fn parse_fn_tail(&mut self, name: Expression, params: Vec<(Expression, Type)>, Ghost(top): Ghost<PState>) -> (r:
        Result<Expression, ParserError>)
        requires
            old(self).wf(),
            measure(old(self).src(), old(self).state()) < measure(old(self).src(), top),
        ensures
            final(self).wf(),
            final(self).src() == old(self).src(),
            agrees(
                sp_fn_tail(old(self).src(), name@, param_models(params@), old(self).state(), top),
                r,
                final(self).state(),
            ),
            r is Ok ==> further(old(self).src(), old(self).state(), final(self).state()),
        decreases measure(self.src(), self.state()), 0int, 0int,
    {
        let mut return_ty = self.parse_type()?;
        // an omitted return type means the function returns nothing
        if return_ty.equals(&Type::unknown()) {
            return_ty = Type::never();
        }
        self.expect(TokenKind::Assign)?;
        let body = Box::new(self.parse_expr()?);
        self.leave_scope();
        Ok(Expression::FunctionDefExpr(FunctionDefExpr { name: Box::new(name), params, return_ty, body }))
    }

    /// let_expr = 'let' (ident type | ident '(' (ident type),* ')' type) '=' expr
    pub fn parse_let_expr(&mut self) -> (r: Result<Expression, ParserError>)
        requires
            old(self).wf(),
        ensures
            final(self).wf(),
            final(self).src() == old(self).src(),
            agrees(sp_let(old(self).src(), old(self).state()), r, final(self).state()),
            r is Ok ==> further(old(self).src(), old(self).state(), final(self).state()),
        decreases measure(self.src(), self.state()), 18int, 0int,
    {
        let ghost s = self.src();
        let ghost st0 = self.state();
        self.expect(TokenKind::Let)?;
        let ident = self.parse_ident()?;
        if self.consume(TokenKind::LParen) {
            let name = self.create_ident(&ident)?;
            let mut params: Vec<(Expression, Type)> = Vec::new();
            self.enter_scope();
            if self.consume(TokenKind::RParen) {
                return self.parse_fn_tail(name, params, Ghost(st0));
            }
            let first = self.parse_param()?;
            params.push(first);
            proof {
                assert(param_models(params@) =~= seq![(params@[0].0@, params@[0].1@)]) by {
                    lemma_param_models_push(Seq::empty(), params@[0]);
                    assert(params@ =~= Seq::<(Expression, Type)>::empty().push(params@[0]));
                }
            }
            self.parse_params_rest(&mut params)?;
            self.expect(TokenKind::RParen)?;
            return self.parse_fn_tail(name, params, Ghost(st0));
        }
        let ty = self.parse_type()?;
        let name = Box::new(self.create_ident(&ident)?);
        self.expect(TokenKind::Assign)?;
        let value = Box::new(self.parse_expr()?);
        Ok(Expression::LetExpr(LetExpr { name, value, ty }))
    }

    /// if_expr = 'if' expr expr ('else' expr)?
    pub fn parse_if_expr(&mut self) -> (r: Result<Expression, ParserError>)
        requires
            old(self).wf(),
        ensures
            final(self).wf(),
            final(self).src() == old(self).src(),
            agrees(sp_if(old(self).src(), old(self).state()), r, final(self).state()),
            r is Ok ==> further(old(self).src(), old(self).state(), final(self).state()),
        decreases measure(self.src(), self.state()), 18int, 0int,
    {
        self.expect(TokenKind::If)?;
        let condition = Box::new(self.parse_expr()?);
        let consequence = Box::new(self.parse_expr()?);
        let alternative = if self.consume(TokenKind::Else) {
            Some(Box::new(self.parse_expr()?))
        } else {
            None
        };
        Ok(Expression::IfExpr(IfExpr { condition, consequence, alternative }))
    }

    /// return_expr = 'return' expr
    pub fn parse_return_expr(&mut self) -> (r: Result<Expression, ParserError>)
        requires
            old(self).wf(),
        ensures
            final(self).wf(),
            final(self).src() == old(self).src(),
            agrees(sp_return(old(self).src(), old(self).state()), r, final(self).state()),
            r is Ok ==> further(old(self).src(), old(self).state(), final(self).state()),
        decreases measure(self.src(), self.state()), 18int, 0int,
    {
        self.expect(TokenKind::Return)?;
        Ok(Expression::ReturnExpr(ReturnExpr { value: Box::new(self.parse_expr()?) }))
    }

    /// assign = relation ('=' relation)?
    pub fn parse_assign(&mut self) -> (r: Result<Expression, ParserError>)
        requires
            old(self).wf(),
        ensures
            final(self).wf(),
            final(self).src() == old(self).src(),
            agrees(sp_assign(old(self).src(), old(self).state()), r, final(self).state()),
            r is Ok ==> further(old(self).src(), old(self).state(), final(self).state()),
        decreases measure(self.src(), self.state()), 17int, 0int,
    {
        let node = self.parse_relation()?;
        if self.consume(TokenKind::Assign) {
            return Ok(Expression::BinaryExpr(BinaryExpr {
                kind: BinaryExprKind::Assign,
                lhs: Box::new(node),
                rhs: Box::new(self.parse_relation()?),
            }));
        }
        Ok(node)
    }
}

impl Parser {
    /// relation = add ('==' add | '!=' add | '<' add | '<=' add | '>' add | '>=' add)*
    pub fn parse_relation(&mut self) -> (r: Result<Expression, ParserError>)
        requires
            old(self).wf(),
        ensures
            final(self).wf(),
            final(self).src() == old(self).src(),
            agrees(sp_relation(old(self).src(), old(self).state()), r, final(self).state()),
            r is Ok ==> further(old(self).src(), old(self).state(), final(self).state()),
        decreases measure(self.src(), self.state()), 16int, 0int,
    {
        let node = self.parse_add()?;
        self.parse_relation_rest(node)
    }

    fn parse_relation_rest(&mut self, lhs: Expression) -> (r: Result<Expression, ParserError>)
        requires
            old(self).wf(),
        ensures
            final(self).wf(),
            final(self).src() == old(self).src(),
            agrees(sp_relation_rest(old(self).src(), lhs@, old(self).state()), r, final(self).state()),
            r is Ok ==> measure(old(self).src(), final(self).state()) <= measure(old(self).src(), old(self).state()),
        decreases measure(self.src(), self.state()), 0int, 0int,
    {
        let ghost s = self.src();
        let ghost st0 = self.state();
        let mut node = lhs;
        loop
            invariant
                self.wf(),
                self.src() == s,
                s == old(self).src(),
                st0 == old(self).state(),
                measure(s, self.state()) <= measure(s, st0),
                sp_relation_rest(s, lhs@, st0) == sp_relation_rest(s, node@, self.state()),
            decreases measure(s, self.state()),
        {
            proof {
                lemma_advance(s, self.state());
            }
            let kind = if self.consume(TokenKind::Eq) {
                BinaryExprKind::Eq
            } else if self.consume(TokenKind::Ne) {
                BinaryExprKind::Ne
            } else if self.consume(TokenKind::Lt) {
                BinaryExprKind::Lt
            } else if self.consume(TokenKind::Le) {
                BinaryExprKind::Le
            } else if self.consume(TokenKind::Gt) {
                BinaryExprKind::Gt
            } else if self.consume(TokenKind::Ge) {
                BinaryExprKind::Ge
            } else {
                return Ok(node);
            };
            let rhs = self.parse_add()?;
            node = Expression::BinaryExpr(BinaryExpr { kind, lhs: Box::new(node), rhs: Box::new(rhs) });
        }
    }

    /// add = mul ('+' mul | '-' mul)*
    pub fn parse_add(&mut self) -> (r: Result<Expression, ParserError>)
        requires
            old(self).wf(),
        ensures
            final(self).wf(),
            final(self).src() == old(self).src(),
            agrees(sp_add(old(self).src(), old(self).state()), r, final(self).state()),
            r is Ok ==> further(old(self).src(), old(self).state(), final(self).state()),
        decreases measure(self.src(), self.state()), 15int, 0int,
    {
        let node = self.parse_mul()?;
        self.parse_add_rest(node)
    }

    fn parse_add_rest(&mut self, lhs: Expression) -> (r: Result<Expression, ParserError>)
        requires
            old(self).wf(),
        ensures
            final(self).wf(),
            final(self).src() == old(self).src(),
            agrees(sp_add_rest(old(self).src(), lhs@, old(self).state()), r, final(self).state()),
            r is Ok ==> measure(old(self).src(), final(self).state()) <= measure(old(self).src(), old(self).state()),
        decreases measure(self.src(), self.state()), 0int, 0int,
    {
        let ghost s = self.src();
        let ghost st0 = self.state();
        let mut node = lhs;
        loop
            invariant
                self.wf(),
                self.src() == s,
                s == old(self).src(),
                st0 == old(self).state(),
                measure(s, self.state()) <= measure(s, st0),
                sp_add_rest(s, lhs@, st0) == sp_add_rest(s, node@, self.state()),
            decreases measure(s, self.state()),
        {
            proof {
                lemma_advance(s, self.state());
            }
            let kind = if self.consume(TokenKind::Plus) {
                BinaryExprKind::Add
            } else if self.consume(TokenKind::Minus) {
                BinaryExprKind::Sub
            } else {
                return Ok(node);
            };
            let rhs = self.parse_mul()?;
            node = Expression::BinaryExpr(BinaryExpr { kind, lhs: Box::new(node), rhs: Box::new(rhs) });
        }
    }

    /// mul = unary ('*' unary | '/' unary)*
    pub fn parse_mul(&mut self) -> (r: Result<Expression, ParserError>)
        requires
            old(self).wf(),
        ensures
            final(self).wf(),
            final(self).src() == old(self).src(),
            agrees(sp_mul(old(self).src(), old(self).state()), r, final(self).state()),
            r is Ok ==> further(old(self).src(), old(self).state(), final(self).state()),
        decreases measure(self.src(), self.state()), 14int, 0int,
    {
        let node = self.parse_unary()?;
        self.parse_mul_rest(node)
    }

    fn parse_mul_rest(&mut self, lhs: Expression) -> (r: Result<Expression, ParserError>)
        requires
            old(self).wf(),
        ensures
            final(self).wf(),
            final(self).src() == old(self).src(),
            agrees(sp_mul_rest(old(self).src(), lhs@, old(self).state()), r, final(self).state()),
            r is Ok ==> measure(old(self).src(), final(self).state()) <= measure(old(self).src(), old(self).state()),
        decreases measure(self.src(), self.state()), 0int, 0int,
    {
        let ghost s = self.src();
        let ghost st0 = self.state();
        let mut node = lhs;
        loop
            invariant
                self.wf(),
                self.src() == s,
                s == old(self).src(),
                st0 == old(self).state(),
                measure(s, self.state()) <= measure(s, st0),
                sp_mul_rest(s, lhs@, st0) == sp_mul_rest(s, node@, self.state()),
            decreases measure(s, self.state()),
        {
            proof {
                lemma_advance(s, self.state());
            }
            let kind = if self.consume(TokenKind::Asterisk) {
                BinaryExprKind::Mul
            } else if self.consume(TokenKind::Slash) {
                BinaryExprKind::Div
            } else {
                return Ok(node);
            };
            let rhs = self.parse_unary()?;
            node = Expression::BinaryExpr(BinaryExpr { kind, lhs: Box::new(node), rhs: Box::new(rhs) });
        }
    }

    /// unary = '!' unary | '*' unary | '&' unary | '-' index | index
    pub fn parse_unary(&mut self) -> (r: Result<Expression, ParserError>)
        requires
            old(self).wf(),
        ensures
            final(self).wf(),
            final(self).src() == old(self).src(),
            agrees(sp_unary(old(self).src(), old(self).state()), r, final(self).state()),
            r is Ok ==> further(old(self).src(), old(self).state(), final(self).state()),
        decreases measure(self.src(), self.state()), 13int, 0int,
    {
        proof {
            lemma_advance(self.src(), self.state());
        }
        if self.consume(TokenKind::Bang) {
            return Ok(Expression::UnaryExpr(UnaryExpr { kind: UnaryExprKind::Not, expr: Box::new(self.parse_unary()?) }));
        }
        if self.consume(TokenKind::Asterisk) {
            return Ok(Expression::UnaryExpr(UnaryExpr { kind: UnaryExprKind::Deref, expr: Box::new(self.parse_unary()?) }));
        }
        if self.consume(TokenKind::Ampersand) {
            return Ok(Expression::UnaryExpr(UnaryExpr { kind: UnaryExprKind::Addr, expr: Box::new(self.parse_unary()?) }));
        }
        if self.consume(TokenKind::Minus) {
            return Ok(Expression::UnaryExpr(UnaryExpr { kind: UnaryExprKind::Minus, expr: Box::new(self.parse_index()?) }));
        }
        self.parse_index()
    }

    /// index = call ('[' expr ']')*
    pub fn parse_index(&mut self) -> (r: Result<Expression, ParserError>)
        requires
            old(self).wf(),
        ensures
            final(self).wf(),
            final(self).src() == old(self).src(),
            agrees(sp_index(old(self).src(), old(self).state()), r, final(self).state()),
            r is Ok ==> further(old(self).src(), old(self).state(), final(self).state()),
        decreases measure(self.src(), self.state()), 12int, 0int,
    {
        let node = self.parse_call()?;
        self.parse_index_rest(node)
    }

    fn parse_index_rest(&mut self, array: Expression) -> (r: Result<Expression, ParserError>)
        requires
            old(self).wf(),
        ensures
            final(self).wf(),
            final(self).src() == old(self).src(),
            agrees(sp_index_rest(old(self).src(), array@, old(self).state()), r, final(self).state()),
            r is Ok ==> measure(old(self).src(), final(self).state()) <= measure(old(self).src(), old(self).state()),
        decreases measure(self.src(), self.state()), 0int, 0int,
    {
        let ghost s = self.src();
        let ghost st0 = self.state();
        let mut node = array;
        loop
            invariant
                self.wf(),
                self.src() == s,
                s == old(self).src(),
                st0 == old(self).state(),
                measure(s, self.state()) <= measure(s, st0),
                sp_index_rest(s, array@, st0) == sp_index_rest(s, node@, self.state()),
            decreases measure(s, self.state()),
        {
            proof {
                lemma_advance(s, self.state());
            }
            if !self.consume(TokenKind::LBracket) {
                return Ok(node);
            }
            let index = Box::new(self.parse_expr()?);
            node = Expression::IndexExpr(IndexExpr { array: Box::new(node), index });
            self.expect(TokenKind::RBracket)?;
        }
    }

    /// call = primary ('(' expr,* ')')?
    pub fn parse_call(&mut self) -> (r: Result<Expression, ParserError>)
        requires
            old(self).wf(),
        ensures
            final(self).wf(),
            final(self).src() == old(self).src(),
            agrees(sp_call(old(self).src(), old(self).state()), r, final(self).state()),
            r is Ok ==> further(old(self).src(), old(self).state(), final(self).state()),
        decreases measure(self.src(), self.state()), 11int, 0int,
    {
        let node = self.parse_primary()?;
        if self.consume(TokenKind::LParen) {
            let mut args: Vec<Expression> = Vec::new();
            if self.consume(TokenKind::RParen) {
                proof {
                    assert(expr_models(args@) =~= Seq::<ExprModel>::empty());
                }
                return Ok(Expression::CallExpr(CallExpr { func: Box::new(node), args }));
            }
            let first = self.parse_expr()?;
            args.push(first);
            proof {
                assert(expr_models(args@) =~= seq![args@[0]@]) by {
                    lemma_expr_models_push(Seq::empty(), args@[0]);
                    assert(args@ =~= Seq::<Expression>::empty().push(args@[0]));
                }
            }
            self.parse_args_rest(&mut args)?;
            self.expect(TokenKind::RParen)?;
            return Ok(Expression::CallExpr(CallExpr { func: Box::new(node), args }));
        }
        Ok(node)
    }

    /// Further expressions, each after a ','.
    fn parse_args_rest(&mut self, args: &mut Vec<Expression>) -> (r: Result<(), ParserError>)
        requires
            old(self).wf(),
        ensures
            final(self).wf(),
            final(self).src() == old(self).src(),
            match sp_args_rest(old(self).src(), expr_models(old(args)@), old(self).state()) {
                Ok((m, st2)) => r is Ok && expr_models(final(args)@) == m && final(self).state() == st2,
                Err(e) => r matches Err(err) && err@ == e,
            },
            r is Ok ==> measure(old(self).src(), final(self).state()) <= measure(old(self).src(), old(self).state()),
        decreases measure(self.src(), self.state()), 0int, 0int,
    {
        let ghost s = self.src();
        let ghost st0 = self.state();
        let ghost acc0 = expr_models(args@);
        loop
            invariant
                self.wf(),
                self.src() == s,
                s == old(self).src(),
                st0 == old(self).state(),
                acc0 == expr_models(old(args)@),
                measure(s, self.state()) <= measure(s, st0),
                sp_args_rest(s, acc0, st0) == sp_args_rest(s, expr_models(args@), self.state()),
            decreases measure(s, self.state()),
        {
            proof {
                lemma_advance(s, self.state());
            }
            if !self.consume(TokenKind::Comma) {
                return Ok(());
            }
            let a = self.parse_expr()?;
            proof {
                lemma_expr_models_push(args@, a);
            }
            args.push(a);
        }
    }

    /// primary = '(' expr ')' | block_expr | array | integer | ident | bool
    pub fn parse_primary(&mut self) -> (r: Result<Expression, ParserError>)
        requires
            old(self).wf(),
        ensures
            final(self).wf(),
            final(self).src() == old(self).src(),
            agrees(sp_primary(old(self).src(), old(self).state()), r, final(self).state()),
            r is Ok ==> further(old(self).src(), old(self).state(), final(self).state()),
        decreases measure(self.src(), self.state()), 10int, 0int,
    {
        proof {
            lemma_advance(self.src(), self.state());
        }
        if self.consume(TokenKind::LParen) {
            let expr = self.parse_expr()?;
            self.expect(TokenKind::RParen)?;
            return Ok(expr);
        }
        if self.peek(TokenKind::LBrace) {
            return self.parse_block_expr();
        }
        if self.peek(TokenKind::LBracket) {
            return self.parse_array();
        }
        if self.peek(TokenKind::Number) {
            return self.parse_integer();
        }
        if self.peek(TokenKind::Ident) {
            let ident = self.parse_ident()?;
            return self.find_ident(&ident);
        }
        self.parse_bool()
    }

    /// block_expr = '{' stmt* '}'
    #[verifier::rlimit(40)]
    pub fn parse_block_expr(&mut self) -> (r: Result<Expression, ParserError>)
        requires
            old(self).wf(),
        ensures
            final(self).wf(),
            final(self).src() == old(self).src(),
            agrees(sp_block(old(self).src(), old(self).state()), r, final(self).state()),
            r is Ok ==> further(old(self).src(), old(self).state(), final(self).state()),
        decreases measure(self.src(), self.state()), 9int, 0int,
    {
        self.enter_scope();
        self.expect(TokenKind::LBrace)?;
        let mut statements: Vec<Statement<Expression>> = Vec::new();
        proof {
            assert(stmt_models(statements@) =~= Seq::<StmtModel>::empty());
        }
        self.parse_block_rest(&mut statements)?;
        Ok(Expression::BlockExpr(BlockExpr { statements }))
    }

    fn parse_block_rest(&mut self, statements: &mut Vec<Statement<Expression>>) -> (r: Result<(), ParserError>)
        requires
            old(self).wf(),
        ensures
            final(self).wf(),
            final(self).src() == old(self).src(),
            match sp_block_rest(old(self).src(), stmt_models(old(statements)@), old(self).state()) {
                Ok((m, st2)) => r is Ok && stmt_models(final(statements)@) == m && final(self).state() == st2,
                Err(e) => r matches Err(err) && err@ == e,
            },
            r is Ok ==> further(old(self).src(), old(self).state(), final(self).state()),
        decreases measure(self.src(), self.state()), 21int, 0int,
    {
        let ghost s = self.src();
        let ghost st0 = self.state();
        let ghost acc0 = stmt_models(statements@);
        loop
            invariant
                self.wf(),
                self.src() == s,
                s == old(self).src(),
                st0 == old(self).state(),
                acc0 == stmt_models(old(statements)@),
                measure(s, self.state()) <= measure(s, st0),
                sp_block_rest(s, acc0, st0) == sp_block_rest(s, stmt_models(statements@), self.state()),
            decreases measure(s, self.state()),
        {
            proof {
                lemma_advance(s, self.state());
            }
            if self.consume(TokenKind::RBrace) {
                self.leave_scope();
                return Ok(());
            }
            if self.consume(TokenKind::EOF) {
                return Err(ParserError::UnexpectedToken { expected: TokenKind::RBrace, actual: TokenKind::EOF });
            }
            let stmt = self.parse_stmt()?;
            proof {
                lemma_stmt_models_push(statements@, stmt);
            }
            statements.push(stmt);
        }
    }

    /// array = '[' expr,* ']'
    pub fn parse_array(&mut self) -> (r: Result<Expression, ParserError>)
        requires
            old(self).wf(),
        ensures
            final(self).wf(),
            final(self).src() == old(self).src(),
            agrees(sp_array(old(self).src(), old(self).state()), r, final(self).state()),
            r is Ok ==> further(old(self).src(), old(self).state(), final(self).state()),
        decreases measure(self.src(), self.state()), 9int, 0int,
    {
        self.expect(TokenKind::LBracket)?;
        let mut elements: Vec<Expression> = Vec::new();
        if self.consume(TokenKind::RBracket) {
            proof {
                assert(expr_models(elements@) =~= Seq::<ExprModel>::empty());
            }
            return Ok(Expression::Array(Array { elements }));
        }
        let first = self.parse_expr()?;
        elements.push(first);
        proof {
            assert(expr_models(elements@) =~= seq![elements@[0]@]) by {
                lemma_expr_models_push(Seq::empty(), elements@[0]);
                assert(elements@ =~= Seq::<Expression>::empty().push(elements@[0]));
            }
        }
        self.parse_args_rest(&mut elements)?;
        self.expect(TokenKind::RBracket)?;
        Ok(Expression::Array(Array { elements }))
    }

    /// program = stmt*; a statement that yields its value must be the last one.
    pub fn parse_program(&mut self) -> (r: Result<Node<Expression>, ParserError>)
        requires
            old(self).wf(),
        ensures
            final(self).wf(),
            final(self).src() == old(self).src(),
            match sp_program(old(self).src(), old(self).state()) {
                Ok((m, st2)) => r matches Ok(Node::Program(p)) && stmt_models(p.statements@) == m
                    && final(self).state() == st2,
                Err(e) => r matches Err(err) && err@ == e,
            },
    {
        let ghost s = self.src();
        let ghost st0 = self.state();
        let mut statements: Vec<Statement<Expression>> = Vec::new();
        let mut is_returned = false;
        proof {
            assert(stmt_models(statements@) =~= Seq::<StmtModel>::empty());
        }
        loop
            invariant
                self.wf(),
                self.src() == s,
                s == old(self).src(),
                st0 == old(self).state(),
                sp_program(s, st0) == sp_program_rest(s, is_returned, stmt_models(statements@), self.state()),
            decreases measure(s, self.state()),
        {
            if self.consume(TokenKind::EOF) {
                return Ok(Node::Program(Program { statements }));
            }
            let stmt = self.parse_stmt()?;
            if is_returned {
                return Err(ParserError::RequiredSemiColon);
            }
            is_returned = match stmt {
                Statement::ExprReturnStmt(_) => true,
                _ => false,
            };
            proof {
                lemma_stmt_models_push(statements@, stmt);
            }
            statements.push(stmt);
        }
    }
}

} // verus!
