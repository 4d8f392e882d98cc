//! The tree-walking evaluator of the wervc language.
pub mod environment;
pub mod semantics;
pub mod error;
pub mod builtin;

use vstd::prelude::*;
use crate::text::copy_string;
use crate::ast::{Expression, Statement, Node, Array, UnaryExpr, UnaryExprKind, ReturnExpr, Boolean, IfExpr, Ident,
    BinaryExpr, BinaryExprKind, LetExpr, BlockExpr, CallExpr, Integer, FunctionDefExpr, IndexExpr, ExprModel,
    StmtModel, expr_models, stmt_models, param_models, lemma_expr_models, lemma_stmt_models, lemma_param_models};
use crate::object::{Object, ObjModel, obj_models, names_of, lemma_obj_models, lemma_obj_models_push};
use crate::environment::scope_lookup;
use crate::eval::environment::{Environment, Frames, frames_insert};
use crate::eval::error::EvalError;
use crate::eval::builtin::{Printed, printed_models, is_builtin, call_builtin};
use crate::eval::semantics::{Machine, Step, EvalErrModel, with_env, int_op, ev_node, ev_stmts, ev_stmt, ev_expr,
    ev_array, ev_unary, ev_return, ev_if, ev_fndef, ev_let, ev_binary, ev_index, ev_block, ev_builtin_args,
    ev_call_args, ev_call, finishes, evaluation, params_are_idents, param_names, lemma_ev_stmts_depth};

verus! {

/// The result `r` and the state `m` after a step agree with what the step gives.
pub open spec fn matches_step(step: Step, m: Machine, r: Result<Object, EvalError>) -> bool {
    match step {
        Some((m2, Ok(v))) => m == m2 && (r matches Ok(o) && o@ == v),
        Some((m2, Err(e))) => m == m2 && (r matches Err(x) && x@ == e),
        None => false,
    }
}

pub struct Evaluator {
    env: Environment,
    printed: Vec<Printed>,
}

impl Evaluator {
    /// The state of the evaluator.
    pub closed spec fn machine(&self) -> Machine {
        Machine { env: self.env.frames(), printed: printed_models(self.printed@) }
    }

    pub closed spec fn wf(&self) -> bool {
        self.env.wf()
    }

    /// An evaluator with one empty scope that has printed nothing.
    pub fn new() -> (r: Evaluator)
        ensures
            r.wf(),
            r.machine() == (Machine { env: seq![Map::<Seq<char>, ObjModel>::empty()], printed: Seq::empty() }),
    {
        let r = Evaluator { env: Environment::new(None), printed: Vec::new() };
        proof {
            assert(printed_models(r.printed@) =~= Seq::empty());
        }
        r
    }

    /// Replaces the variables of the evaluator.
    pub fn set_env(&mut self, env: Environment)
        requires
            env.wf(),
        ensures
            final(self).wf(),
            final(self).machine() == with_env(old(self).machine(), env.frames()),
    {
        self.env = env;
    }

    /// Makes `outer` the environment that encloses the innermost scope.
    pub fn set_outer(&mut self, outer: Environment)
        requires
            old(self).wf(),
            outer.wf(),
        ensures
            final(self).wf(),
            final(self).machine() == with_env(
                old(self).machine(),
                outer.frames().push(old(self).machine().env.last()),
            ),
    {
        self.env.set_outer(outer);
    }

    /// Hands over what the builtins printed so far, oldest first, and forgets it.
    pub fn take_printed(&mut self) -> (r: Vec<Printed>)
        requires
            old(self).wf(),
        ensures
            final(self).wf(),
            printed_models(r@) == old(self).machine().printed,
            final(self).machine() == (Machine { env: old(self).machine().env, printed: Seq::empty() }),
    {
        let mut r: Vec<Printed> = Vec::new();
        std::mem::swap(&mut r, &mut self.printed);
        proof {
            assert(printed_models(self.printed@) =~= Seq::empty());
        }
        r
    }

    /// Evaluates a program, a statement or an expression.
    pub fn eval(&mut self, node: Node<Expression>) -> (r: Result<Object, EvalError>)
        requires
            old(self).wf(),
            finishes(old(self).machine(), node@),
        ensures
            final(self).wf(),
            matches_step(evaluation(old(self).machine(), node@), final(self).machine(), r),
    {
        let ghost fuel = choose|fuel: nat| ev_node(fuel, self.machine(), node@) is Some;
        self.eval_node(&node, Ghost(fuel))
    }

    fn eval_node(&mut self, node: &Node<Expression>, Ghost(fuel): Ghost<nat>) -> (r: Result<Object, EvalError>)
        requires
            old(self).wf(),
            ev_node(fuel, old(self).machine(), node@) is Some,
        ensures
            final(self).wf(),
            matches_step(ev_node(fuel, old(self).machine(), node@), final(self).machine(), r),
        decreases fuel, 4int, 0int,
    {
        match node {
            Node::Program(program) => {
                let value = match self.eval_stmts(&program.statements, Ghost(fuel)) {
                    Ok(v) => v,
                    Err(e) => {
                        return Err(e);
                    },
                };
                match value {
                    Object::Return(v) => Ok(*v),
                    other => Ok(other),
                }
            },
            Node::Statement(stmt) => self.eval_stmt(stmt, Ghost(fuel)),
            Node::Expression(e) => self.eval_expr(e, Ghost(fuel)),
        }
    }

    #[verifier::loop_isolation(false)]
    fn eval_stmts(&mut self, stmts: &Vec<Statement<Expression>>, Ghost(fuel): Ghost<nat>) -> (r: Result<
        Object,
        EvalError,
    >)
        requires
            old(self).wf(),
            ev_stmts(fuel, old(self).machine(), stmt_models(stmts@), ObjModel::Unit) is Some,
        ensures
            final(self).wf(),
            matches_step(
                ev_stmts(fuel, old(self).machine(), stmt_models(stmts@), ObjModel::Unit),
                final(self).machine(),
                r,
            ),
        decreases fuel, 2int, 0int,
    {
        let ghost all = stmt_models(stmts@);
        let ghost m0 = self.machine();
        proof {
            lemma_stmt_models(stmts@);
            assert(all.subrange(0, all.len() as int) =~= all);
        }
        let mut result = Object::Unit;
        let mut i: usize = 0;
        while i < stmts.len()
            invariant
                self.wf(),
                i <= stmts@.len(),
                all == stmt_models(stmts@),
                all.len() == stmts@.len(),
                forall|j: int| 0 <= j < all.len() ==> #[trigger] all[j] == stmts@[j]@,
                ev_stmts(fuel, m0, all, ObjModel::Unit) is Some,
                ev_stmts(fuel, m0, all, ObjModel::Unit) == ev_stmts(
                    fuel,
                    self.machine(),
                    all.subrange(i as int, all.len() as int),
                    result@,
                ),
            decreases stmts@.len() - i,
        {
            let ghost rest = all.subrange(i as int, all.len() as int);
            proof {
                assert(rest[0] == all[i as int]);
                assert(rest.drop_first() =~= all.subrange(i + 1, all.len() as int));
            }
            let value = match self.eval_stmt(&stmts[i], Ghost(fuel)) {
                Ok(v) => v,
                Err(e) => {
                    return Err(e);
                },
            };
            if value.is_return() {
                return Ok(value);
            }
            result = value;
            i += 1;
        }
        Ok(result)
    }

    fn eval_stmt(&mut self, stmt: &Statement<Expression>, Ghost(fuel): Ghost<nat>) -> (r: Result<Object, EvalError>)
        requires
            old(self).wf(),
            ev_stmt(fuel, old(self).machine(), stmt@) is Some,
        ensures
            final(self).wf(),
            matches_step(ev_stmt(fuel, old(self).machine(), stmt@), final(self).machine(), r),
        decreases fuel, 1int, 0int,
    {
        match stmt {
            Statement::ExprStmt(e) => {
                let value = match self.eval_expr(e, Ghost(fuel)) {
                    Ok(v) => v,
                    Err(err) => {
                        return Err(err);
                    },
                };
                if value.is_return() {
                    return Ok(value);
                }
                Ok(Object::Unit)
            },
            Statement::ExprReturnStmt(e) => self.eval_expr(e, Ghost(fuel)),
        }
    }

    fn eval_expr(&mut self, expr: &Expression, Ghost(fuel): Ghost<nat>) -> (r: Result<Object, EvalError>)
        requires
            old(self).wf(),
            ev_expr(fuel, old(self).machine(), expr@) is Some,
        ensures
            final(self).wf(),
            matches_step(ev_expr(fuel, old(self).machine(), expr@), final(self).machine(), r),
        decreases fuel, 0int, 0int,
    {
        let ghost f = (fuel - 1) as nat;
        match expr {
            Expression::Array(e) => self.eval_array(e, Ghost(f)),
            Expression::UnaryExpr(e) => self.eval_unary_expr(e, Ghost(f)),
            Expression::ReturnExpr(e) => self.eval_return_expr(e, Ghost(f)),
            Expression::Boolean(e) => self.eval_boolean(e),
            Expression::IfExpr(e) => self.eval_if_expr(e, Ghost(f)),
            Expression::Ident(e) => self.eval_ident(e),
            Expression::BinaryExpr(e) => self.eval_binary_expr(e, Ghost(f)),
            Expression::LetExpr(e) => self.eval_let_expr(e, Ghost(f)),
            Expression::BlockExpr(e) => self.eval_block_expr(e, Ghost(f)),
            Expression::CallExpr(e) => self.eval_call_expr(e, Ghost(f)),
            Expression::Integer(e) => self.eval_integer(e),
            Expression::FunctionDefExpr(e) => self.eval_function_def_expr(e),
            Expression::IndexExpr(e) => self.eval_index_expr(e, Ghost(f)),
        }
    }

    #[verifier::loop_isolation(false)]
    fn eval_array(&mut self, array: &Array<Expression>, Ghost(fuel): Ghost<nat>) -> (r: Result<Object, EvalError>)
        requires
            old(self).wf(),
            ev_array(fuel, old(self).machine(), expr_models(array.elements@), Seq::empty()) is Some,
        ensures
            final(self).wf(),
            matches_step(
                ev_array(fuel, old(self).machine(), expr_models(array.elements@), Seq::empty()),
                final(self).machine(),
                r,
            ),
        decreases fuel, 2int, 0int,
    {
        let ghost all = expr_models(array.elements@);
        let ghost m0 = self.machine();
        proof {
            lemma_expr_models(array.elements@);
            assert(all.subrange(0, all.len() as int) =~= all);
            assert(obj_models(Seq::<Object>::empty()) =~= Seq::<ObjModel>::empty());
        }
        let mut result: Vec<Object> = Vec::new();
        let mut i: usize = 0;
        while i < array.elements.len()
            invariant
                self.wf(),
                i <= array.elements@.len(),
                all == expr_models(array.elements@),
                all.len() == array.elements@.len(),
                forall|j: int| 0 <= j < all.len() ==> #[trigger] all[j] == array.elements@[j]@,
                ev_array(fuel, m0, all, Seq::empty()) is Some,
                ev_array(fuel, m0, all, Seq::empty()) == ev_array(
                    fuel,
                    self.machine(),
                    all.subrange(i as int, all.len() as int),
                    obj_models(result@),
                ),
            decreases array.elements@.len() - i,
        {
            let ghost rest = all.subrange(i as int, all.len() as int);
            proof {
                assert(rest[0] == all[i as int]);
                assert(rest.drop_first() =~= all.subrange(i + 1, all.len() as int));
            }
            let value = match self.eval_expr(&array.elements[i], Ghost(fuel)) {
                Ok(v) => v,
                Err(e) => {
                    return Err(e);
                },
            };
            proof {
                lemma_obj_models_push(result@, value);
            }
            result.push(value);
            i += 1;
        }
        proof {
            assert(all.subrange(i as int, all.len() as int) =~= Seq::<ExprModel>::empty());
        }
        Ok(Object::Array(result))
    }

    fn eval_unary_expr(&mut self, unary: &UnaryExpr<Expression>, Ghost(fuel): Ghost<nat>) -> (r: Result<
        Object,
        EvalError,
    >)
        requires
            old(self).wf(),
            ev_unary(fuel, old(self).machine(), unary.kind, unary.expr@) is Some,
        ensures
            final(self).wf(),
            matches_step(ev_unary(fuel, old(self).machine(), unary.kind, unary.expr@), final(self).machine(), r),
        decreases fuel, 2int, 0int,
    {
        let value = match self.eval_expr(&unary.expr, Ghost(fuel)) {
            Ok(v) => v,
            Err(e) => {
                return Err(e);
            },
        };
        match unary.kind {
            UnaryExprKind::Minus => match value {
                Object::Integer(v) => Ok(Object::Integer(-v)),
                other => Err(EvalError::UnexpectedObject(other)),
            },
            UnaryExprKind::Not => match value {
                Object::Boolean(b) => Ok(Object::Boolean(!b)),
                other => Err(EvalError::UnexpectedObject(other)),
            },
            UnaryExprKind::Deref => match value {
                Object::Pointer(p) => Ok(*p),
                other => Err(EvalError::UnexpectedObject(other)),
            },
            UnaryExprKind::Addr => Ok(Object::Pointer(Box::new(value))),
        }
    }

    fn eval_return_expr(&mut self, return_expr: &ReturnExpr<Expression>, Ghost(fuel): Ghost<nat>) -> (r: Result<
        Object,
        EvalError,
    >)
        requires
            old(self).wf(),
            ev_return(fuel, old(self).machine(), return_expr.value@) is Some,
        ensures
            final(self).wf(),
            matches_step(ev_return(fuel, old(self).machine(), return_expr.value@), final(self).machine(), r),
        decreases fuel, 2int, 0int,
    {
        let value = match self.eval_expr(&return_expr.value, Ghost(fuel)) {
            Ok(v) => v,
            Err(e) => {
                return Err(e);
            },
        };
        Ok(Object::Return(Box::new(value)))
    }

    fn eval_boolean(&self, boolean: &Boolean) -> (r: Result<Object, EvalError>)
        ensures
            r == Ok::<Object, EvalError>(Object::Boolean(boolean.value)),
    {
        Ok(Object::Boolean(boolean.value))
    }

    fn eval_integer(&self, integer: &Integer) -> (r: Result<Object, EvalError>)
        ensures
            r == Ok::<Object, EvalError>(Object::Integer(integer.value)),
    {
        Ok(Object::Integer(integer.value))
    }

    fn eval_ident(&self, ident: &Ident) -> (r: Result<Object, EvalError>)
        requires
            self.wf(),
        ensures
            match scope_lookup(self.machine().env, ident.name@) {
                Some(v) => r matches Ok(o) && o@ == v,
                None => r matches Err(e) && e@ == EvalErrModel::UndefinedVariable(ident.name@),
            },
    {
        match self.env.get(&ident.name) {
            Some(value) => Ok(value.duplicate()),
            None => Err(EvalError::UndefinedVariable(copy_string(&ident.name))),
        }
    }

    fn eval_if_expr(&mut self, if_expr: &IfExpr<Expression>, Ghost(fuel): Ghost<nat>) -> (r: Result<
        Object,
        EvalError,
    >)
        requires
            old(self).wf(),
            ev_if(
                fuel,
                old(self).machine(),
                if_expr.condition@,
                if_expr.consequence@,
                match &if_expr.alternative {
                    Some(a) => Some(Box::new(a.model())),
                    None => None,
                },
            ) is Some,
        ensures
            final(self).wf(),
            matches_step(
                ev_if(
                    fuel,
                    old(self).machine(),
                    if_expr.condition@,
                    if_expr.consequence@,
                    match &if_expr.alternative {
                        Some(a) => Some(Box::new(a.model())),
                        None => None,
                    },
                ),
                final(self).machine(),
                r,
            ),
        decreases fuel, 2int, 0int,
    {
        let condition = match self.eval_expr(&if_expr.condition, Ghost(fuel)) {
            Ok(v) => v,
            Err(e) => {
                return Err(e);
            },
        };
        if condition.is_return() {
            return Ok(condition);
        }
        match condition {
            Object::Boolean(true) => self.eval_expr(&if_expr.consequence, Ghost(fuel)),
            Object::Boolean(false) => match &if_expr.alternative {
                Some(alternative) => self.eval_expr(alternative, Ghost(fuel)),
                None => Ok(Object::Unit),
            },
            other => Err(EvalError::UnexpectedObject(other)),
        }
    }

    #[verifier::loop_isolation(false)]
    fn eval_function_def_expr(&mut self, func_def: &FunctionDefExpr<Expression>) -> (r: Result<Object, EvalError>)
        requires
            old(self).wf(),
            ev_fndef(old(self).machine(), func_def.name@, param_models(func_def.params@), func_def.body@) is Some,
        ensures
            final(self).wf(),
            matches_step(
                ev_fndef(old(self).machine(), func_def.name@, param_models(func_def.params@), func_def.body@),
                final(self).machine(),
                r,
            ),
    {
        let ghost pm = param_models(func_def.params@);
        proof {
            lemma_param_models(func_def.params@);
        }
        let name = match &*func_def.name {
            Expression::Ident(ident) => copy_string(&ident.name),
            _ => {
                proof {
                    assert(false);
                }
                return Ok(Object::Unit);
            },
        };
        let mut params: Vec<String> = Vec::new();
        let mut i: usize = 0;
        while i < func_def.params.len()
            invariant
                i <= func_def.params@.len(),
                pm == param_models(func_def.params@),
                pm.len() == func_def.params@.len(),
                forall|j: int| 0 <= j < pm.len() ==> #[trigger] pm[j] == (func_def.params@[j].0@, func_def.params@[j].1@),
                params_are_idents(pm),
                params@.len() == i,
                forall|j: int| 0 <= j < i ==> #[trigger] params@[j]@ == param_names(pm)[j],
            decreases func_def.params@.len() - i,
        {
            proof {
                assert(pm[i as int].0 is Ident);
            }
            match &func_def.params[i].0 {
                Expression::Ident(ident) => {
                    params.push(copy_string(&ident.name));
                },
                _ => {
                    proof {
                        assert(false);
                    }
                },
            }
            i += 1;
        }
        proof {
            assert(names_of(params@) =~= param_names(pm));
        }
        let literal = Object::Function { params, body: func_def.body.duplicate() };
        self.env.insert(name, literal.duplicate());
        Ok(literal)
    }

    fn eval_let_expr(&mut self, let_expr: &LetExpr<Expression>, Ghost(fuel): Ghost<nat>) -> (r: Result<
        Object,
        EvalError,
    >)
        requires
            old(self).wf(),
            ev_let(fuel, old(self).machine(), let_expr.name@, let_expr.value@) is Some,
        ensures
            final(self).wf(),
            matches_step(ev_let(fuel, old(self).machine(), let_expr.name@, let_expr.value@), final(self).machine(), r),
        decreases fuel, 2int, 0int,
    {
        match &*let_expr.name {
            Expression::Ident(ident) => {
                let value = match self.eval_expr(&let_expr.value, Ghost(fuel)) {
                    Ok(v) => v,
                    Err(e) => {
                        return Err(e);
                    },
                };
                if value.is_return() {
                    return Ok(value);
                }
                self.env.insert(copy_string(&ident.name), value.duplicate());
                Ok(value)
            },
            _ => {
                proof {
                    assert(false);
                }
                Ok(Object::Unit)
            },
        }
    }

    fn eval_binary_expr(&mut self, binary_expr: &BinaryExpr<Expression>, Ghost(fuel): Ghost<nat>) -> (r: Result<
        Object,
        EvalError,
    >)
        requires
            old(self).wf(),
            ev_binary(fuel, old(self).machine(), binary_expr.kind, binary_expr.lhs@, binary_expr.rhs@) is Some,
        ensures
            final(self).wf(),
            matches_step(
                ev_binary(fuel, old(self).machine(), binary_expr.kind, binary_expr.lhs@, binary_expr.rhs@),
                final(self).machine(),
                r,
            ),
        decreases fuel, 2int, 0int,
    {
        let lhs = match self.eval_expr(&binary_expr.lhs, Ghost(fuel)) {
            Ok(v) => v,
            Err(e) => {
                return Err(e);
            },
        };
        if lhs.is_return() {
            return Ok(lhs);
        }
        let rhs = match self.eval_expr(&binary_expr.rhs, Ghost(fuel)) {
            Ok(v) => v,
            Err(e) => {
                return Err(e);
            },
        };
        if rhs.is_return() {
            return Ok(rhs);
        }
        match binary_expr.kind {
            BinaryExprKind::Eq => Ok(Object::Boolean(lhs.equals(&rhs))),
            BinaryExprKind::Ne => Ok(Object::Boolean(!lhs.equals(&rhs))),
            BinaryExprKind::Assign => match &*binary_expr.lhs {
                Expression::Ident(ident) => {
                    let previous = self.env.update(copy_string(&ident.name), rhs.duplicate());
                    if previous.is_none() {
                        return Err(EvalError::UndefinedVariable(copy_string(&ident.name)));
                    }
                    Ok(rhs)
                },
                other => Err(EvalError::IdentRequired { actual: other.duplicate() }),
            },
            _ => match (lhs, rhs) {
                (Object::Integer(a), Object::Integer(b)) => Ok(integer_operation(binary_expr.kind, a, b)),
                (_, other) => Err(EvalError::UnexpectedObject(other)),
            },
        }
    }

    fn eval_index_expr(&mut self, index_expr: &IndexExpr<Expression>, Ghost(fuel): Ghost<nat>) -> (r: Result<
        Object,
        EvalError,
    >)
        requires
            old(self).wf(),
            ev_index(fuel, old(self).machine(), index_expr.array@, index_expr.index@) is Some,
        ensures
            final(self).wf(),
            matches_step(
                ev_index(fuel, old(self).machine(), index_expr.array@, index_expr.index@),
                final(self).machine(),
                r,
            ),
        decreases fuel, 2int, 0int,
    {
        let array = match self.eval_expr(&index_expr.array, Ghost(fuel)) {
            Ok(v) => v,
            Err(e) => {
                return Err(e);
            },
        };
        let index = match self.eval_expr(&index_expr.index, Ghost(fuel)) {
            Ok(v) => v,
            Err(e) => {
                return Err(e);
            },
        };
        match array {
            Object::Array(elements) => {
                proof {
                    lemma_obj_models(elements@);
                }
                match index {
                    Object::Integer(k) => {
                        if k >= 0 {
                            let position = k as usize;
                            if position < elements.len() {
                                return Ok(elements[position].duplicate());
                            }
                            return Err(EvalError::OutOfRange);
                        }
                        let back = (0 - k) as usize;
                        if back > elements.len() {
                            return Err(EvalError::OutOfRange);
                        }
                        Ok(elements[elements.len() - back].duplicate())
                    },
                    other => Err(EvalError::UnexpectedObject(other)),
                }
            },
            other => Err(EvalError::UnexpectedObject(other)),
        }
    }

    fn eval_block_expr(&mut self, block_expr: &BlockExpr<Expression>, Ghost(fuel): Ghost<nat>) -> (r: Result<
        Object,
        EvalError,
    >)
        requires
            old(self).wf(),
            ev_block(fuel, old(self).machine(), stmt_models(block_expr.statements@)) is Some,
        ensures
            final(self).wf(),
            matches_step(
                ev_block(fuel, old(self).machine(), stmt_models(block_expr.statements@)),
                final(self).machine(),
                r,
            ),
        decreases fuel, 3int, 0int,
    {
        // the block runs in an evaluator of its own, whose outer scopes are a copy of ours
        let ghost m0 = self.machine();
        let ghost inner0 = with_env(m0, m0.env.push(Map::empty()));
        proof {
            lemma_ev_stmts_depth(fuel, inner0, stmt_models(block_expr.statements@), ObjModel::Unit);
            self.env.lemma_frames();
        }
        let mut inner = Evaluator::new();
        inner.set_outer(self.env.duplicate());
        std::mem::swap(&mut inner.printed, &mut self.printed);
        let result = inner.eval_stmts(&block_expr.statements, Ghost(fuel));
        std::mem::swap(&mut inner.printed, &mut self.printed);
        match result {
            Err(e) => Err(e),
            Ok(value) => {
                assert(inner.env.frames().len() == m0.env.len() + 1);
                proof {
                    inner.env.lemma_frames();
                }
                let outer = inner.env.outer();
                self.set_env(outer.unwrap());
                Ok(value)
            },
        }
    }

    #[verifier::loop_isolation(false)]
    fn eval_call_expr(&mut self, call: &CallExpr<Expression>, Ghost(fuel): Ghost<nat>) -> (r: Result<
        Object,
        EvalError,
    >)
        requires
            old(self).wf(),
            ev_call(fuel, old(self).machine(), call.func@, expr_models(call.args@)) is Some,
        ensures
            final(self).wf(),
            matches_step(
                ev_call(fuel, old(self).machine(), call.func@, expr_models(call.args@)),
                final(self).machine(),
                r,
            ),
        decreases fuel, 3int, 0int,
    {
        let ghost all = expr_models(call.args@);
        proof {
            lemma_expr_models(call.args@);
            assert(all.subrange(0, all.len() as int) =~= all);
        }
        if is_builtin(&call.func) {
            let ghost m0 = self.machine();
            let mut objects: Vec<Object> = Vec::new();
            proof {
                assert(obj_models(objects@) =~= Seq::<ObjModel>::empty());
            }
            let mut i: usize = 0;
            while i < call.args.len()
                invariant
                    self.wf(),
                    i <= call.args@.len(),
                    all == expr_models(call.args@),
                    all.len() == call.args@.len(),
                    forall|j: int| 0 <= j < all.len() ==> #[trigger] all[j] == call.args@[j]@,
                    ev_builtin_args(fuel, m0, all, Seq::empty()) is Some,
                    ev_builtin_args(fuel, m0, all, Seq::empty()) == ev_builtin_args(
                        fuel,
                        self.machine(),
                        all.subrange(i as int, all.len() as int),
                        obj_models(objects@),
                    ),
                decreases call.args@.len() - i,
            {
                let ghost rest = all.subrange(i as int, all.len() as int);
                proof {
                    assert(rest[0] == all[i as int]);
                    assert(rest.drop_first() =~= all.subrange(i + 1, all.len() as int));
                }
                let arg = match self.eval_expr(&call.args[i], Ghost(fuel)) {
                    Ok(v) => v,
                    Err(e) => {
                        return Err(e);
                    },
                };
                if arg.is_return() {
                    return Ok(arg);
                }
                proof {
                    lemma_obj_models_push(objects@, arg);
                }
                objects.push(arg);
                i += 1;
            }
            let ghost printed0 = self.printed@;
            let value = call_builtin(&call.func, objects, &mut self.printed);
            proof {
                assert(printed_models(self.printed@) =~= printed_models(printed0).push(self.printed@.last()@));
            }
            return Ok(value.unwrap());
        }
        let func = match self.eval_expr(&call.func, Ghost(fuel)) {
            Ok(v) => v,
            Err(e) => {
                return Err(e);
            },
        };
        if func.is_return() {
            return Ok(func);
        }
        match func {
            Object::Function { params, body } => {
                if call.args.len() != params.len() {
                    return Err(EvalError::UnmatchedArgsLen { expected: params.len(), actual: call.args.len() });
                }
                let ghost names = names_of(params@);
                let ghost m1 = self.machine();
                let mut env = Environment::new(Some(Box::new(self.env.duplicate())));
                proof {
                    assert(names.subrange(0, names.len() as int) =~= names);
                }
                let mut i: usize = 0;
                while i < call.args.len()
                    invariant
                        self.wf(),
                        env.wf(),
                        i <= call.args@.len(),
                        call.args@.len() == params@.len(),
                        names == names_of(params@),
                        all == expr_models(call.args@),
                        all.len() == call.args@.len(),
                        forall|j: int| 0 <= j < all.len() ==> #[trigger] all[j] == call.args@[j]@,
                        ev_call_args(fuel, m1, all, names, m1.env.push(Map::empty())) is Some,
                        ev_call_args(fuel, m1, all, names, m1.env.push(Map::empty())) == ev_call_args(
                            fuel,
                            self.machine(),
                            all.subrange(i as int, all.len() as int),
                            names.subrange(i as int, names.len() as int),
                            env.frames(),
                        ),
                    decreases call.args@.len() - i,
                {
                    let ghost rest = all.subrange(i as int, all.len() as int);
                    let ghost rest_names = names.subrange(i as int, names.len() as int);
                    proof {
                        assert(rest[0] == all[i as int]);
                        assert(rest.drop_first() =~= all.subrange(i + 1, all.len() as int));
                        assert(rest_names[0] == params@[i as int]@);
                        assert(rest_names.drop_first() =~= names.subrange(i + 1, names.len() as int));
                    }
                    let arg = match self.eval_expr(&call.args[i], Ghost(fuel)) {
                        Ok(v) => v,
                        Err(e) => {
                            return Err(e);
                        },
                    };
                    if arg.is_return() {
                        return Ok(arg);
                    }
                    env.insert(copy_string(&params[i]), arg);
                    i += 1;
                }
                let ghost m2 = self.machine();
                let mut inner = Evaluator { env, printed: Vec::new() };
                std::mem::swap(&mut inner.printed, &mut self.printed);
                let result = inner.eval_expr(&body, Ghost(fuel));
                std::mem::swap(&mut inner.printed, &mut self.printed);
                match result {
                    Err(e) => Err(e),
                    Ok(Object::Return(v)) => Ok(*v),
                    Ok(v) => Ok(v),
                }
            },
            other => Err(EvalError::UnexpectedObject(other)),
        }
    }
}

/// The arithmetic or comparison of two integers, which `int_op` describes.
fn integer_operation(kind: BinaryExprKind, a: isize, b: isize) -> (r: Object)
    requires
        int_op(kind, a as int, b as int) is Some,
        kind != BinaryExprKind::Eq,
        kind != BinaryExprKind::Ne,
        kind != BinaryExprKind::Assign,
    ensures
        r@ == int_op(kind, a as int, b as int)->0,
{
    let x = a as i128;
    let y = b as i128;
    match kind {
        BinaryExprKind::Add => Object::Integer((x + y) as isize),
        BinaryExprKind::Sub => Object::Integer((x - y) as isize),
        BinaryExprKind::Mul => {
            assert(-0x4000_0000_0000_0000_0000_0000_0000_0000 <= x * y <= 0x4000_0000_0000_0000_0000_0000_0000_0000)
                by (nonlinear_arith)
                requires
                    -0x8000_0000_0000_0000 <= x <= 0x7fff_ffff_ffff_ffff,
                    -0x8000_0000_0000_0000 <= y <= 0x7fff_ffff_ffff_ffff,
            ;
            Object::Integer((x * y) as isize)
        },
        BinaryExprKind::Div => {
            let ax: u128 = if x < 0 {
                (0 - x) as u128
            } else {
                x as u128
            };
            let ay: u128 = if y < 0 {
                (0 - y) as u128
            } else {
                y as u128
            };
            let q = ax / ay;
            let v: i128 = if (x < 0) == (y < 0) {
                q as i128
            } else {
                0 - (q as i128)
            };
            Object::Integer(v as isize)
        },
        BinaryExprKind::Lt => Object::Boolean(a < b),
        BinaryExprKind::Le => Object::Boolean(a <= b),
        BinaryExprKind::Gt => Object::Boolean(a > b),
        _ => Object::Boolean(a >= b),
    }
}

} // verus!
