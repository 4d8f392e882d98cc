//! The evaluator of the script language.
pub mod error;
pub mod semantics;

use vstd::prelude::*;
use crate::text::{copy_string, string_eq, str_eq, chars_of, append_str};
use crate::environment::{frame_map, keys_unique, scope_lookup, lemma_frame_map_find, lemma_frame_map_absent,
    lemma_frame_map_update, lemma_frame_map_same};
use crate::script::object::{Object, ObjModel, NULL};
use crate::script::eval::error::EvalError;
use crate::script::eval::semantics::{Frames, Step, frames_insert, frames_update, text_lt, trunc_rem, int_op,
    binary_result, ev_expr, ev_stmts, ev_stmt, ev_call, ev_user_call, ev_bind, ev_while, ev_node, finishes,
    evaluation, lemma_ev_stmts_depth, after, ev_unary, ev_if, ev_binary, ev_block};
use crate::script::ast::{lemma_expr_models, lemma_stmt_models, duplicate_exprs};
use crate::eval::semantics::{abs, trunc_div};
use crate::script::ast::{BinaryExprKind, UnaryExprKind, Expression, Statement, Node, stmt_models, expr_models};

verus! {

/// The variables of a running script program, a chain of scopes with the innermost first,
/// and the text that printing has written.
pub struct Environment {
    store: Vec<(String, Object)>,
    outer: Option<Box<Environment>>,
    printed: String,
}

/// Concatenation of texts is associative.
pub broadcast proof fn lemma_text_assoc(a: Seq<char>, b: Seq<char>, c: Seq<char>)
    ensures
        #[trigger] ((a + b) + c) == a + (b + c),
{
    assert((a + b) + c =~= a + (b + c));
}

/// Appending nothing leaves a text as it is.
pub broadcast proof fn lemma_text_empty(a: Seq<char>)
    ensures
        #[trigger] (a + Seq::<char>::empty()) == a,
{
    assert(a + Seq::<char>::empty() =~= a);
}

/// Nothing followed by a text is that text.
pub broadcast proof fn lemma_empty_text(a: Seq<char>)
    ensures
        #[trigger] (Seq::<char>::empty() + a) == a,
{
    assert(Seq::<char>::empty() + a =~= a);
}

impl Environment {
    /// All scopes, outermost first.
    pub closed spec fn frames(&self) -> Frames
        decreases self,
    {
        match &self.outer {
            Some(o) => o.frames().push(frame_map(self.store@)),
            None => seq![frame_map(self.store@)],
        }
    }

    /// The text printed so far.
    pub closed spec fn output(&self) -> Seq<char> {
        self.printed@
    }

    pub closed spec fn wf(&self) -> bool
        decreases self,
    {
        &&& keys_unique(self.store@)
        &&& match &self.outer {
            Some(o) => o.wf() && o.printed@.len() == 0,
            None => true,
        }
    }

    pub proof fn lemma_frames(&self)
        ensures
            self.frames().len() >= 1,
        decreases self,
    {
        match &self.outer {
            Some(o) => {
                o.lemma_frames();
            },
            None => {},
        }
    }

    proof fn lemma_frames_last(&self)
        ensures
            self.frames().len() >= 1,
            self.frames().last() == frame_map(self.store@),
            match &self.outer {
                Some(o) => self.frames().drop_last() == o.frames(),
                None => self.frames().len() == 1,
            },
    {
        match &self.outer {
            Some(o) => {
                assert(self.frames().drop_last() =~= o.frames());
            },
            None => {},
        }
    }

    /// An environment with one empty scope inside `outer`, or on its own; it takes over what
    /// `outer` has printed.
    pub fn new(outer: Option<Box<Environment>>) -> (r: Environment)
        requires
            outer matches Some(o) ==> o.wf(),
        ensures
            r.wf(),
            r.frames() == match outer {
                Some(o) => o.frames().push(Map::empty()),
                None => seq![Map::<Seq<char>, ObjModel>::empty()],
            },
            r.output() == match outer {
                Some(o) => o.output(),
                None => Seq::<char>::empty(),
            },
    {
        proof {
            assert(frame_map(Seq::<(String, Object)>::empty()) =~= Map::<Seq<char>, ObjModel>::empty());
        }
        match outer {
            Some(o) => {
                let mut inner = *o;
                let ghost before = inner;
                let mut text = String::new();
                std::mem::swap(&mut text, &mut inner.printed);
                proof {
                    assert(inner.store == before.store && inner.outer == before.outer);
                    assert(inner.frames() == before.frames());
                    assert(inner.wf());
                }
                Environment { store: Vec::new(), outer: Some(Box::new(inner)), printed: text }
            },
            None => Environment { store: Vec::new(), outer: None, printed: String::new() },
        }
    }

    /// Hands out the text printed so far and starts afresh.
    pub fn take_printed(&mut self) -> (s: String)
        requires
            old(self).wf(),
        ensures
            final(self).wf(),
            s@ == old(self).output(),
            final(self).output() == Seq::<char>::empty(),
            final(self).frames() == old(self).frames(),
    {
        let mut s = String::new();
        std::mem::swap(&mut s, &mut self.printed);
        s
    }

    fn find_in_store(&self, key: &String) -> (r: Option<usize>)
        requires
            keys_unique(self.store@),
        ensures
            match r {
                Some(i) => i < self.store@.len() && self.store@[i as int].0@ == key@,
                None => forall|i: int| 0 <= i < self.store@.len() ==> self.store@[i].0@ != key@,
            },
    {
        let mut i: usize = 0;
        while i < self.store.len()
            invariant
                i <= self.store@.len(),
                forall|j: int| 0 <= j < i ==> self.store@[j].0@ != key@,
            decreases self.store@.len() - i,
        {
            if string_eq(&self.store[i].0, key) {
                return Some(i);
            }
            i += 1;
        }
        None
    }

    /// The value bound to `key` in the innermost scope that binds it.
    pub fn get(&self, key: &String) -> (r: Option<&Object>)
        requires
            self.wf(),
        ensures
            match r {
                Some(v) => scope_lookup(self.frames(), key@) == Some(v@),
                None => scope_lookup(self.frames(), key@) is None,
            },
        decreases self,
    {
        proof {
            self.lemma_frames_last();
        }
        match self.find_in_store(key) {
            Some(i) => {
                proof {
                    lemma_frame_map_find(self.store@, i as int);
                }
                Some(&self.store[i].1)
            },
            None => {
                proof {
                    lemma_frame_map_absent(self.store@, key@);
                }
                match &self.outer {
                    Some(outer) => {
                        let r = outer.get(key);
                        assert(scope_lookup(self.frames(), key@) == scope_lookup(outer.frames(), key@));
                        r
                    },
                    None => {
                        assert(scope_lookup(self.frames().drop_last(), key@) is None);
                        None
                    },
                }
            },
        }
    }

    /// Binds `key` in the innermost scope and returns the value it had there before.
    pub fn insert(&mut self, key: String, value: Object) -> (r: Option<Object>)
        requires
            old(self).wf(),
        ensures
            final(self).wf(),
            final(self).frames() == frames_insert(old(self).frames(), key@, value@),
            final(self).output() == old(self).output(),
            match r {
                Some(v) => old(self).frames().last().contains_key(key@) && v@ == old(self).frames().last()[key@],
                None => !old(self).frames().last().contains_key(key@),
            },
    {
        proof {
            self.lemma_frames_last();
        }
        match self.find_in_store(&key) {
            Some(i) => {
                let ghost old_store = self.store@;
                let mut entry = (key, value);
                proof {
                    lemma_frame_map_update(old_store, i as int, entry);
                    lemma_frame_map_find(old_store, i as int);
                }
                self.store.set_and_swap(i, &mut entry);
                assert(self.store@ == old_store.update(i as int, (key, value)));
                proof {
                    self.lemma_frames_last();
                }
                Some(entry.1)
            },
            None => {
                let ghost old_store = self.store@;
                proof {
                    lemma_frame_map_absent(old_store, key@);
                }
                self.store.push((key, value));
                proof {
                    assert(self.store@.drop_last() =~= old_store);
                    self.lemma_frames_last();
                }
                None
            },
        }
    }

    /// Assigns `value` to `key` in the innermost scope that binds it and returns the value
    /// replaced; fails where no scope binds `key`.
    pub fn update(&mut self, key: String, value: Object) -> (r: Result<Object, EvalError>)
        requires
            old(self).wf(),
        ensures
            final(self).wf(),
            final(self).output() == old(self).output(),
            match frames_update(old(self).frames(), key@, value@) {
                Some((f, v)) => r matches Ok(o) && o@ == v && final(self).frames() == f,
                None => r == Err::<Object, EvalError>(EvalError::EvalUpdateEnvError)
                    && final(self).frames() == old(self).frames(),
            },
        decreases old(self).frames().len(),
    {
        proof {
            self.lemma_frames_last();
            self.lemma_frames();
        }
        match self.find_in_store(&key) {
            Some(i) => {
                proof {
                    lemma_frame_map_find(self.store@, i as int);
                }
                let old_value = self.insert(key, value);
                match old_value {
                    Some(v) => Ok(v),
                    None => Err(EvalError::EvalUpdateEnvError),
                }
            },
            None => {
                proof {
                    lemma_frame_map_absent(self.store@, key@);
                }
                let ghost f0 = self.frames();
                let mut taken: Option<Box<Environment>> = None;
                std::mem::swap(&mut taken, &mut self.outer);
                match taken {
                    Some(o) => {
                        let mut inner: Environment = *o;
                        proof {
                            inner.lemma_frames();
                        }
                        let r = inner.update(key, value);
                        self.outer = Some(Box::new(inner));
                        proof {
                            self.lemma_frames_last();
                            match frames_update(f0.drop_last(), key@, value@) {
                                Some((rest, _)) => {
                                    assert(self.frames() =~= rest.push(f0.last()));
                                },
                                None => {
                                    assert(self.frames() =~= f0);
                                },
                            }
                        }
                        r
                    },
                    None => {
                        self.outer = None;
                        proof {
                            self.lemma_frames_last();
                            assert(self.frames() =~= f0);
                        }
                        Err(EvalError::EvalUpdateEnvError)
                    },
                }
            },
        }
    }

    /// An environment with the same scopes that has printed nothing.
    pub fn snapshot(&self) -> (r: Environment)
        requires
            self.wf(),
        ensures
            r.wf(),
            r.frames() == self.frames(),
            r.output() == Seq::<char>::empty(),
        decreases self,
    {
        let mut store: Vec<(String, Object)> = Vec::new();
        let mut i: usize = 0;
        while i < self.store.len()
            invariant
                i <= self.store@.len(),
                keys_unique(self.store@),
                store@.len() == i,
                forall|j: int| 0 <= j < i ==> store@[j].0@ == self.store@[j].0@ && store@[j].1@ == self.store@[j].1@,
            decreases self.store@.len() - i,
        {
            let k = copy_string(&self.store[i].0);
            let v = self.store[i].1.duplicate();
            store.push((k, v));
            i += 1;
        }
        proof {
            lemma_frame_map_same(store@, self.store@);
        }
        let outer = match &self.outer {
            Some(o) => Some(Box::new(o.snapshot())),
            None => None,
        };
        Environment { store, outer, printed: String::new() }
    }
}


/// The abstract value of an evaluation result.
pub open spec fn result_model(r: Result<Object, EvalError>) -> Result<ObjModel, EvalError> {
    match r {
        Ok(o) => Ok(o@),
        Err(e) => Err(e),
    }
}

/// Whether going from scopes `f0` and output `out0` to `f1`, `out1` with result `r` is the
/// step `step`.
pub open spec fn stepped(step: Step, f0: Frames, out0: Seq<char>, f1: Frames, out1: Seq<char>, r: Result<Object, EvalError>) -> bool {
    match step {
        Some((f, o, res)) => f1 == f && out1 == out0 + o && result_model(r) == res,
        None => false,
    }
}

/// The abstract value of an optional `else` branch.
pub open spec fn alt_model(a: &Option<Box<Expression>>) -> Option<Box<crate::script::ast::ExprModel>> {
    match a {
        Some(x) => Some(Box::new(x@)),
        None => None,
    }
}

/// Whether `a` comes before `b` in the order of strings.
fn text_less(a: &String, b: &String) -> (r: bool)
    ensures
        r == text_lt(a@, b@),
{
    let x = chars_of(a.as_str());
    let y = chars_of(b.as_str());
    let ghost sa = x@;
    let ghost sb = y@;
    let mut i: usize = 0;
    assert(sa.subrange(0, sa.len() as int) =~= sa);
    assert(sb.subrange(0, sb.len() as int) =~= sb);
    loop
        invariant
            i <= x@.len(),
            i <= y@.len(),
            sa == x@,
            sb == y@,
            sa == a@,
            sb == b@,
            text_lt(sa, sb) == text_lt(sa.subrange(i as int, sa.len() as int), sb.subrange(i as int, sb.len() as int)),
        decreases x@.len() - i,
    {
        let ghost ra = sa.subrange(i as int, sa.len() as int);
        let ghost rb = sb.subrange(i as int, sb.len() as int);
        if i == x.len() {
            return i < y.len();
        }
        if i == y.len() {
            return false;
        }
        if x[i] != y[i] {
            return (x[i] as u32) < (y[i] as u32);
        }
        assert(ra.subrange(1, ra.len() as int) =~= sa.subrange(i + 1, sa.len() as int));
        assert(rb.subrange(1, rb.len() as int) =~= sb.subrange(i + 1, sb.len() as int));
        i = i + 1;
    }
}


/// The remainder of a division that rounds toward zero has the sign of the dividend and the
/// magnitude of the remainder of the magnitudes.
proof fn lemma_trunc_rem(a: int, b: int)
    requires
        b != 0,
    ensures
        trunc_rem(a, b) == if a < 0 { -(abs(a) % abs(b)) } else { abs(a) % abs(b) },
{
    let x = abs(a);
    let y = abs(b);
    let q = x / y;
    vstd::arithmetic::div_mod::lemma_fundamental_div_mod(x, y);
    assert(x == y * q + x % y);
    if a >= 0 && b > 0 {
        assert(trunc_div(a, b) == q);
    } else if a >= 0 && b < 0 {
        assert(trunc_div(a, b) == -q);
        assert(b * (-q) == y * q) by (nonlinear_arith)
            requires
                b == -y,
        ;
    } else if a < 0 && b > 0 {
        assert(trunc_div(a, b) == -q);
        assert(b * (-q) == -(y * q)) by (nonlinear_arith)
            requires
                b == y,
        ;
    } else {
        assert(trunc_div(a, b) == q);
        assert(b * q == -(y * q)) by (nonlinear_arith)
            requires
                b == -y,
        ;
    }
}

/// An arithmetic or comparison operator applied to two integers.
fn integer_value(kind: BinaryExprKind, a: isize, b: isize) -> (r: Object)
    requires
        int_op(kind, a as int, b as int) is Some,
    ensures
        r@ == int_op(kind, a as int, b as int)->0,
{
    let x = a as i128;
    let y = b as i128;
    match kind {
        BinaryExprKind::Add => Object::Integer((x + y) as isize),
        BinaryExprKind::Sub => Object::Integer((x - y) as isize),
        BinaryExprKind::Mul => {
            assert(-0x4000_0000_0000_0000_0000_0000_0000_0000 <= x * y <= 0x4000_0000_0000_0000_0000_0000_0000_0000)
                by (nonlinear_arith)
                requires
                    -0x8000_0000_0000_0000 <= x <= 0x7fff_ffff_ffff_ffff,
                    -0x8000_0000_0000_0000 <= y <= 0x7fff_ffff_ffff_ffff,
            ;
            Object::Integer((x * y) as isize)
        },
        BinaryExprKind::Div | BinaryExprKind::Mod => {
            let ax: u128 = if x < 0 { (0 - x) as u128 } else { x as u128 };
            let ay: u128 = if y < 0 { (0 - y) as u128 } else { y as u128 };
            if kind == BinaryExprKind::Div {
                let q = ax / ay;
                let v: i128 = if (x < 0) == (y < 0) { q as i128 } else { 0 - (q as i128) };
                Object::Integer(v as isize)
            } else {
                proof {
                    lemma_trunc_rem(a as int, b as int);
                }
                let m = ax % ay;
                assert(m < ay);
                let v: i128 = if x < 0 { 0 - (m as i128) } else { m as i128 };
                Object::Integer(v as isize)
            }
        },
        BinaryExprKind::Lt => Object::Boolean(a < b),
        BinaryExprKind::Le => Object::Boolean(a <= b),
        BinaryExprKind::Gt => Object::Boolean(a > b),
        BinaryExprKind::Ge => Object::Boolean(a >= b),
        BinaryExprKind::Eq => Object::Boolean(a == b),
        BinaryExprKind::Ne => Object::Boolean(a != b),
    }
}

/// A binary operator applied to two values.
fn binary_value(kind: BinaryExprKind, l: &Object, r: &Object) -> (res: Result<Object, EvalError>)
    requires
        binary_result(kind, l@, r@) is Some,
    ensures
        result_model(res) == binary_result(kind, l@, r@)->0,
{
    if kind == BinaryExprKind::Eq {
        return Ok(Object::Boolean(l.equals(r)));
    }
    if kind == BinaryExprKind::Ne {
        return Ok(Object::Boolean(!l.equals(r)));
    }
    match (l, r) {
        (Object::Integer(a), Object::Integer(b)) => Ok(integer_value(kind, *a, *b)),
        (Object::Str(a), Object::Str(b)) => match kind {
            BinaryExprKind::Add => {
                let mut s = copy_string(a);
                append_str(&mut s, b);
                Ok(Object::Str(s))
            },
            BinaryExprKind::Lt => Ok(Object::Boolean(text_less(a, b))),
            BinaryExprKind::Le => Ok(Object::Boolean(text_less(a, b) || string_eq(a, b))),
            BinaryExprKind::Gt => Ok(Object::Boolean(text_less(b, a))),
            BinaryExprKind::Ge => Ok(Object::Boolean(text_less(b, a) || string_eq(a, b))),
            _ => Err(EvalError::EvalBinaryExpressionError),
        },
        _ => Err(EvalError::EvalBinaryExpressionError),
    }
}


impl Environment {
    fn eval_expression(&mut self, e: &Expression, Ghost(fuel): Ghost<nat>) -> (r: Result<Object, EvalError>)
        requires
            old(self).wf(),
            ev_expr(fuel, old(self).frames(), e@) is Some,
        ensures
            final(self).wf(),
            stepped(ev_expr(fuel, old(self).frames(), e@), old(self).frames(), old(self).output(),
                final(self).frames(), final(self).output(), r),
        decreases fuel, 0nat,
    {
        broadcast use {lemma_text_empty};
        let ghost k = (fuel - 1) as nat;
        match e {
            Expression::UnaryExpr { kind, expr } => self.eval_unary(*kind, expr, Ghost(k)),
            Expression::IfExpr { condition, consequence, alternative } => self.eval_if(condition, consequence, alternative, Ghost(k)),
            Expression::BlockExpr(stmts) => self.eval_block(stmts, Ghost(k)),
            Expression::CallExpr { name, args } => self.eval_call(name, args, Ghost(k)),
            Expression::BinaryExpr { kind, lhs, rhs } => self.eval_binary(*kind, lhs, rhs, Ghost(k)),
            Expression::Ident(name) => match self.get(name) {
                Some(v) => Ok(v.duplicate()),
                None => Err(EvalError::EvalIdentError),
            },
            Expression::Integer(v) => Ok(Object::Integer(*v)),
            Expression::Boolean(b) => Ok(Object::Boolean(*b)),
            Expression::Str(t) => Ok(Object::Str(copy_string(t))),
        }
    }

    fn eval_unary(&mut self, kind: UnaryExprKind, expr: &Expression, Ghost(fuel): Ghost<nat>) -> (r: Result<Object, EvalError>)
        requires
            old(self).wf(),
            ev_unary(fuel, old(self).frames(), kind, expr@) is Some,
        ensures
            final(self).wf(),
            stepped(ev_unary(fuel, old(self).frames(), kind, expr@), old(self).frames(), old(self).output(),
                final(self).frames(), final(self).output(), r),
        decreases fuel, 1nat,
    {
        let v = self.eval_expression(expr, Ghost(fuel))?;
        match (kind, &v) {
            (UnaryExprKind::Not, Object::Boolean(b)) => Ok(Object::Boolean(!*b)),
            (UnaryExprKind::Minus, Object::Integer(i)) => Ok(Object::Integer(-*i)),
            _ => Err(EvalError::EvalUnaryExpressionError),
        }
    }

    fn eval_if(
        &mut self,
        condition: &Expression,
        consequence: &Expression,
        alternative: &Option<Box<Expression>>,
        Ghost(fuel): Ghost<nat>,
    ) -> (r: Result<Object, EvalError>)
        requires
            old(self).wf(),
            ev_if(fuel, old(self).frames(), condition@, consequence@, alt_model(alternative)) is Some,
        ensures
            final(self).wf(),
            stepped(ev_if(fuel, old(self).frames(), condition@, consequence@, alt_model(alternative)), old(self).frames(),
                old(self).output(), final(self).frames(), final(self).output(), r),
        decreases fuel, 1nat,
    {
        broadcast use {lemma_text_assoc};
        let c = self.eval_expression(condition, Ghost(fuel))?;
        if matches!(c, Object::Boolean(true)) {
            self.eval_expression(consequence, Ghost(fuel))
        } else {
            match alternative {
                Some(a) => self.eval_expression(a, Ghost(fuel)),
                None => Ok(NULL),
            }
        }
    }

    fn eval_binary(&mut self, kind: BinaryExprKind, lhs: &Expression, rhs: &Expression, Ghost(fuel): Ghost<nat>) -> (r: Result<Object, EvalError>)
        requires
            old(self).wf(),
            ev_binary(fuel, old(self).frames(), kind, lhs@, rhs@) is Some,
        ensures
            final(self).wf(),
            stepped(ev_binary(fuel, old(self).frames(), kind, lhs@, rhs@), old(self).frames(), old(self).output(),
                final(self).frames(), final(self).output(), r),
        decreases fuel, 1nat,
    {
        broadcast use {lemma_text_assoc};
        let l = self.eval_expression(lhs, Ghost(fuel))?;
        let r = self.eval_expression(rhs, Ghost(fuel))?;
        binary_value(kind, &l, &r)
    }

    /// Evaluates statements in a new scope inside this one.
    fn eval_block(&mut self, stmts: &Vec<Statement>, Ghost(fuel): Ghost<nat>) -> (r: Result<Object, EvalError>)
        requires
            old(self).wf(),
            ev_block(fuel, old(self).frames(), stmt_models(stmts@)) is Some,
        ensures
            final(self).wf(),
            stepped(ev_block(fuel, old(self).frames(), stmt_models(stmts@)), old(self).frames(), old(self).output(),
                final(self).frames(), final(self).output(), r),
        decreases fuel, stmts@.len() + 1,
    {
        let ghost f0 = self.frames();
        let mut parent = Environment { store: Vec::new(), outer: None, printed: String::new() };
        std::mem::swap(&mut parent, self);
        let mut child = Environment::new(Some(Box::new(parent)));
        proof {
            lemma_ev_stmts_depth(fuel, f0.push(Map::empty()), stmt_models(stmts@));
        }
        let r = child.eval_statements(stmts, Ghost(fuel));
        let mut text = String::new();
        std::mem::swap(&mut text, &mut child.printed);
        proof {
            child.lemma_frames_last();
            assert(match &child.outer {
                Some(o) => o.wf(),
                None => true,
            });
        }
        match child.outer {
            Some(o) => {
                *self = *o;
            },
            None => {
                assert(false);
            },
        }
        let ghost before = *self;
        self.printed = text;
        proof {
            assert(self.store == before.store && self.outer == before.outer);
            assert(self.frames() == before.frames());
            assert(self.wf());
        }
        r
    }
}


impl Environment {
    /// A call: `print` and `println` with one argument that evaluates print it; any other
    /// call goes to the function that `name` evaluates to.
    fn eval_call(&mut self, name: &Expression, args: &Vec<Expression>, Ghost(fuel): Ghost<nat>) -> (r: Result<Object, EvalError>)
        requires
            old(self).wf(),
            ev_call(fuel, old(self).frames(), name@, expr_models(args@)) is Some,
        ensures
            final(self).wf(),
            stepped(ev_call(fuel, old(self).frames(), name@, expr_models(args@)), old(self).frames(),
                old(self).output(), final(self).frames(), final(self).output(), r),
        decreases fuel, 0nat,
    {
        broadcast use {lemma_text_assoc, lemma_text_empty, lemma_empty_text};
        let ghost k = (fuel - 1) as nat;
        proof {
            lemma_expr_models(args@);
            reveal_strlit("print");
            reveal_strlit("println");
            assert("print"@ =~= seq!['p', 'r', 'i', 'n', 't']);
            assert("println"@ =~= seq!['p', 'r', 'i', 'n', 't', 'l', 'n']);
        }
        if let Expression::Ident(n) = name {
            let is_print = str_eq(n.as_str(), "print");
            let is_println = str_eq(n.as_str(), "println");
            if (is_print || is_println) && args.len() == 1 {
                match self.eval_expression(&args[0], Ghost(k)) {
                    Ok(v) => {
                        let ghost before = self.output();
                        let text = v.to_display();
                        append_str(&mut self.printed, &text);
                        if is_println {
                            self.printed.push('\n');
                            assert((before + text@).push('\n') =~= before + text@.push('\n'));
                        }
                        return Ok(NULL);
                    },
                    Err(_) => {},
                }
            }
        }
        self.eval_user_call(name, args, Ghost(k))
    }

    /// A call of the function that `name` evaluates to, in a new scope inside a copy of this
    /// environment; only what it prints stays.
    fn eval_user_call(&mut self, name: &Expression, args: &Vec<Expression>, Ghost(fuel): Ghost<nat>) -> (r: Result<Object, EvalError>)
        requires
            old(self).wf(),
            ev_user_call(fuel, old(self).frames(), name@, expr_models(args@)) is Some,
        ensures
            final(self).wf(),
            stepped(ev_user_call(fuel, old(self).frames(), name@, expr_models(args@)), old(self).frames(),
                old(self).output(), final(self).frames(), final(self).output(), r),
        decreases fuel, 0nat,
    {
        broadcast use {lemma_text_assoc, lemma_text_empty, lemma_empty_text};
        let ghost k = (fuel - 1) as nat;
        proof {
            lemma_expr_models(args@);
        }
        let f = self.eval_expression(name, Ghost(k))?;
        match f {
            Object::Function { params, body } => {
                proof {
                    lemma_expr_models(params@);
                }
                if params.len() != args.len() {
                    return Err(EvalError::EvalCallExprError);
                }
                let mut env = Environment::new(Some(Box::new(self.snapshot())));
                let bound = env.bind(&params, args, Ghost(k));
                let mut text = String::new();
                std::mem::swap(&mut text, &mut env.printed);
                append_str(&mut self.printed, &text);
                match bound {
                    Err(e) => {
                        return Err(e);
                    },
                    Ok(_) => {},
                }
                let r = env.eval_expression(&body, Ghost(k));
                let mut text2 = String::new();
                std::mem::swap(&mut text2, &mut env.printed);
                append_str(&mut self.printed, &text2);
                r
            },
            _ => Err(EvalError::EvalCallExprError),
        }
    }

    /// Binds each parameter in turn to the value of its argument.
    #[verifier::loop_isolation(false)]
    fn bind(&mut self, params: &Vec<Expression>, args: &Vec<Expression>, Ghost(fuel): Ghost<nat>) -> (r: Result<Object, EvalError>)
        requires
            old(self).wf(),
            old(self).output() == Seq::<char>::empty(),
            params@.len() == args@.len(),
            ev_bind(fuel, old(self).frames(), expr_models(params@), expr_models(args@)) is Some,
        ensures
            final(self).wf(),
            stepped(ev_bind(fuel, old(self).frames(), expr_models(params@), expr_models(args@)), old(self).frames(),
                old(self).output(), final(self).frames(), final(self).output(), r),
        decreases fuel, params@.len() + 1,
    {
        broadcast use {lemma_text_assoc, lemma_text_empty, lemma_empty_text};
        let ghost pm = expr_models(params@);
        let ghost am = expr_models(args@);
        let ghost step0 = ev_bind(fuel, self.frames(), pm, am);
        proof {
            lemma_expr_models(params@);
            lemma_expr_models(args@);
            assert(pm.subrange(0, pm.len() as int) =~= pm);
            assert(am.subrange(0, am.len() as int) =~= am);
        }
        let mut i: usize = 0;
        while i < params.len()
            invariant
                self.wf(),
                i <= params@.len(),
                params@.len() == args@.len(),
                pm.len() == params@.len(),
                am.len() == args@.len(),
                forall|j: int| 0 <= j < pm.len() ==> #[trigger] pm[j] == params@[j]@,
                forall|j: int| 0 <= j < am.len() ==> #[trigger] am[j] == args@[j]@,
                step0 == after(self.output(), ev_bind(fuel, self.frames(), pm.subrange(i as int, pm.len() as int),
                    am.subrange(i as int, am.len() as int))),
                step0 is Some,
            decreases params@.len() - i,
        {
            let ghost ps = pm.subrange(i as int, pm.len() as int);
            let ghost as_ = am.subrange(i as int, am.len() as int);
            proof {
                assert(ps[0] == params@[i as int]@);
                assert(as_[0] == args@[i as int]@);
                assert(ps.subrange(1, ps.len() as int) =~= pm.subrange(i + 1, pm.len() as int));
                assert(as_.subrange(1, as_.len() as int) =~= am.subrange(i + 1, am.len() as int));
            }
            match &params[i] {
                Expression::Ident(p) => {
                    let v = self.eval_expression(&args[i], Ghost(fuel))?;
                    self.insert(copy_string(p), v);
                },
                _ => {
                    return Err(EvalError::EvalCallExprError);
                },
            }
            i = i + 1;
        }
        proof {
            assert(pm.subrange(i as int, pm.len() as int).len() == 0);
        }
        Ok(NULL)
    }
}


impl Environment {
    fn eval_statement(&mut self, st: &Statement, Ghost(fuel): Ghost<nat>) -> (r: Result<Object, EvalError>)
        requires
            old(self).wf(),
            ev_stmt(fuel, old(self).frames(), st@) is Some,
        ensures
            final(self).wf(),
            stepped(ev_stmt(fuel, old(self).frames(), st@), old(self).frames(), old(self).output(),
                final(self).frames(), final(self).output(), r),
        decreases fuel, 0nat,
    {
        broadcast use {lemma_text_assoc, lemma_text_empty, lemma_empty_text};
        let ghost k = (fuel - 1) as nat;
        match st {
            Statement::ExprStmt(e) => self.eval_expression(e, Ghost(k)),
            Statement::LetStmt { name, value } => {
                let v = self.eval_expression(value, Ghost(k))?;
                match name {
                    Expression::Ident(n) => {
                        self.insert(copy_string(n), v);
                        Ok(NULL)
                    },
                    _ => Err(EvalError::EvalLetStatementError),
                }
            },
            Statement::LetFnStmt { name, params, body } => match name {
                Expression::Ident(n) => {
                    let f = Object::Function { params: duplicate_exprs(params), body: body.duplicate() };
                    self.insert(copy_string(n), f);
                    Ok(NULL)
                },
                _ => Err(EvalError::EvalFunctionDefinitionStatementError),
            },
            Statement::ReturnStmt(e) => self.eval_expression(e, Ghost(k)),
            Statement::WhileStmt { condition, body } => self.eval_while(condition, body, Ghost(k)),
        }
    }

    /// Evaluates `body` for as long as `condition` gives `true`.
    #[verifier::loop_isolation(false)]
    fn eval_while(&mut self, condition: &Expression, body: &Expression, Ghost(fuel): Ghost<nat>) -> (r: Result<Object, EvalError>)
        requires
            old(self).wf(),
            ev_while(fuel, old(self).frames(), condition@, body@) is Some,
        ensures
            final(self).wf(),
            stepped(ev_while(fuel, old(self).frames(), condition@, body@), old(self).frames(), old(self).output(),
                final(self).frames(), final(self).output(), r),
        decreases fuel, 1nat,
    {
        broadcast use {lemma_text_assoc, lemma_text_empty, lemma_empty_text};
        let ghost step0 = ev_while(fuel, self.frames(), condition@, body@);
        let ghost out0 = self.output();
        let ghost mut acc: Seq<char> = Seq::empty();
        let ghost mut g: nat = fuel;
        loop
            invariant
                self.wf(),
                g <= fuel,
                self.output() == out0 + acc,
                step0 == after(acc, ev_while(g, self.frames(), condition@, body@)),
                step0 is Some,
            decreases g,
        {
            let ghost k = (g - 1) as nat;
            let c = self.eval_expression(condition, Ghost(k))?;
            if !matches!(c, Object::Boolean(true)) {
                return Ok(NULL);
            }
            self.eval_expression(body, Ghost(k))?;
            proof {
                acc = self.output().subrange(out0.len() as int, self.output().len() as int);
                assert(self.output() =~= out0 + acc);
                g = k;
            }
        }
    }

    /// Statements in order, up to the first that gives a value other than null.
    #[verifier::loop_isolation(false)]
    fn eval_statements(&mut self, stmts: &Vec<Statement>, Ghost(fuel): Ghost<nat>) -> (r: Result<Object, EvalError>)
        requires
            old(self).wf(),
            ev_stmts(fuel, old(self).frames(), stmt_models(stmts@)) is Some,
        ensures
            final(self).wf(),
            stepped(ev_stmts(fuel, old(self).frames(), stmt_models(stmts@)), old(self).frames(), old(self).output(),
                final(self).frames(), final(self).output(), r),
        decreases fuel, stmts@.len(),
    {
        broadcast use {lemma_text_assoc, lemma_text_empty, lemma_empty_text};
        let ghost sm = stmt_models(stmts@);
        let ghost step0 = ev_stmts(fuel, self.frames(), sm);
        let ghost out0 = self.output();
        let ghost mut acc: Seq<char> = Seq::empty();
        proof {
            lemma_stmt_models(stmts@);
            assert(sm.subrange(0, sm.len() as int) =~= sm);
        }
        let mut i: usize = 0;
        while i < stmts.len()
            invariant
                self.wf(),
                i <= stmts@.len(),
                sm.len() == stmts@.len(),
                forall|j: int| 0 <= j < sm.len() ==> #[trigger] sm[j] == stmts@[j]@,
                self.output() == out0 + acc,
                step0 == after(acc, ev_stmts(fuel, self.frames(), sm.subrange(i as int, sm.len() as int))),
                step0 is Some,
            decreases stmts@.len() - i,
        {
            let ghost rest = sm.subrange(i as int, sm.len() as int);
            proof {
                assert(rest[0] == stmts@[i as int]@);
                assert(rest.subrange(1, rest.len() as int) =~= sm.subrange(i + 1, sm.len() as int));
            }
            let result = self.eval_statement(&stmts[i], Ghost(fuel))?;
            if !result.is_null() {
                return Ok(result);
            }
            proof {
                acc = self.output().subrange(out0.len() as int, self.output().len() as int);
                assert(self.output() =~= out0 + acc);
            }
            i = i + 1;
        }
        proof {
            assert(sm.subrange(i as int, sm.len() as int).len() == 0);
        }
        Ok(NULL)
    }

    /// Evaluates a node: a program, a statement or an expression.
    pub fn eval(&mut self, node: Node) -> (r: Result<Object, EvalError>)
        requires
            old(self).wf(),
            finishes(old(self).frames(), node@),
        ensures
            final(self).wf(),
            stepped(evaluation(old(self).frames(), node@), old(self).frames(), old(self).output(),
                final(self).frames(), final(self).output(), r),
    {
        let ghost fuel = choose|fuel: nat| ev_node(fuel, self.frames(), node@) is Some;
        match node {
            Node::Program(stmts) => self.eval_statements(&stmts, Ghost(fuel)),
            Node::Statement(st) => self.eval_statement(&st, Ghost(fuel)),
            Node::Expression(e) => self.eval_expression(&e, Ghost(fuel)),
        }
    }
}

} // verus!
