//! What evaluating a wervc program means: each step of the evaluator as a function of the
//! state before it. A step is given `fuel`, a bound on the depth of nested evaluation;
//! a step that does not finish within its fuel, or that would stop the program with a
//! panic (an arithmetic overflow, a division by zero, a definition whose name is not an
//! identifier), has no result.
use vstd::prelude::*;
use crate::ast::{BinaryExprKind, UnaryExprKind, ExprModel, StmtModel, NodeModel};
use crate::ty::TypeModel;
use crate::object::ObjModel;
use crate::environment::scope_lookup;
use crate::eval::environment::{Frames, frames_insert, frames_update};

verus! {

/// The abstract value of an evaluation error.
pub enum EvalErrModel {
    UnexpectedObject(ObjModel),
    UndefinedVariable(Seq<char>),
    IdentRequired(ExprModel),
    UnmatchedArgsLen { expected: int, actual: int },
    OutOfRange,
}

/// The state of an evaluator: its variables, and each call of a printing builtin with the
/// values it printed and whether it ended the line.
pub struct Machine {
    pub env: Frames,
    pub printed: Seq<(Seq<ObjModel>, bool)>,
}

/// The outcome of a step that finishes: the state after it, and its value or error.
pub type Step = Option<(Machine, Result<ObjModel, EvalErrModel>)>;

/// The state of a new evaluator: one empty scope, nothing printed.
pub open spec fn initial_machine() -> Machine {
    Machine { env: seq![Map::empty()], printed: Seq::empty() }
}

pub open spec fn with_env(m: Machine, env: Frames) -> Machine {
    Machine { env, printed: m.printed }
}

pub open spec fn is_int(o: ObjModel) -> bool {
    o is Integer
}

pub open spec fn fits_isize(v: int) -> bool {
    isize::MIN <= v <= isize::MAX
}

pub open spec fn abs(v: int) -> int {
    if v < 0 {
        -v
    } else {
        v
    }
}

/// Division that rounds toward zero, as Rust's `/` on integers does.
pub open spec fn trunc_div(a: int, b: int) -> int {
    if (a < 0) == (b < 0) {
        abs(a) / abs(b)
    } else {
        -(abs(a) / abs(b))
    }
}

/// The names of the builtin functions.
pub open spec fn is_print_name(name: Seq<char>) -> bool {
    name == seq!['p', 'r', 'i', 'n', 't'] || name == seq!['p', 'r', 'i', 'n', 't', 'l', 'n']
}

/// Whether a call of `func` goes to a builtin.
pub open spec fn is_builtin_call(func: ExprModel) -> bool {
    func matches ExprModel::Ident { name, .. } && is_print_name(name)
}

/// The arithmetic or comparison of two integers; `None` where the result overflows or
/// the divisor is zero.
pub open spec fn int_op(kind: BinaryExprKind, a: int, b: int) -> Option<ObjModel> {
    match kind {
        BinaryExprKind::Add => if fits_isize(a + b) {
            Some(ObjModel::Integer(a + b))
        } else {
            None
        },
        BinaryExprKind::Sub => if fits_isize(a - b) {
            Some(ObjModel::Integer(a - b))
        } else {
            None
        },
        BinaryExprKind::Mul => if fits_isize(a * b) {
            Some(ObjModel::Integer(a * b))
        } else {
            None
        },
        BinaryExprKind::Div => if b != 0 && fits_isize(trunc_div(a, b)) {
            Some(ObjModel::Integer(trunc_div(a, b)))
        } else {
            None
        },
        BinaryExprKind::Lt => Some(ObjModel::Boolean(a < b)),
        BinaryExprKind::Le => Some(ObjModel::Boolean(a <= b)),
        BinaryExprKind::Gt => Some(ObjModel::Boolean(a > b)),
        _ => Some(ObjModel::Boolean(a >= b)),
    }
}

/// A binary operator applied to the values of its operands; `lhs` is the left operand as
/// written, which an assignment needs.
pub open spec fn binary_result(m: Machine, kind: BinaryExprKind, lhs: ExprModel, l: ObjModel, r: ObjModel) -> Step {
    match kind {
        BinaryExprKind::Eq => Some((m, Ok(ObjModel::Boolean(l == r)))),
        BinaryExprKind::Ne => Some((m, Ok(ObjModel::Boolean(l != r)))),
        BinaryExprKind::Assign => match lhs {
            ExprModel::Ident { name, .. } => {
                let (env, old) = frames_update(m.env, name, r);
                if old is Some {
                    Some((with_env(m, env), Ok(r)))
                } else {
                    Some((with_env(m, env), Err(EvalErrModel::UndefinedVariable(name))))
                }
            },
            _ => Some((m, Err(EvalErrModel::IdentRequired(lhs)))),
        },
        _ => match (l, r) {
            (ObjModel::Integer(a), ObjModel::Integer(b)) => match int_op(kind, a, b) {
                Some(v) => Some((m, Ok(v))),
                None => None,
            },
            _ => Some((m, Err(EvalErrModel::UnexpectedObject(r)))),
        },
    }
}

/// A unary operator applied to the value of its operand.
pub open spec fn unary_result(m: Machine, kind: UnaryExprKind, v: ObjModel) -> Step {
    match kind {
        UnaryExprKind::Minus => match v {
            ObjModel::Integer(i) => if fits_isize(-i) {
                Some((m, Ok(ObjModel::Integer(-i))))
            } else {
                None
            },
            _ => Some((m, Err(EvalErrModel::UnexpectedObject(v)))),
        },
        UnaryExprKind::Not => match v {
            ObjModel::Boolean(b) => Some((m, Ok(ObjModel::Boolean(!b)))),
            _ => Some((m, Err(EvalErrModel::UnexpectedObject(v)))),
        },
        UnaryExprKind::Deref => match v {
            ObjModel::Pointer(p) => Some((m, Ok(*p))),
            _ => Some((m, Err(EvalErrModel::UnexpectedObject(v)))),
        },
        UnaryExprKind::Addr => Some((m, Ok(ObjModel::Pointer(Box::new(v))))),
    }
}

/// Indexing the value `a` with the value `i`; a negative index counts from the end.
pub open spec fn index_result(m: Machine, a: ObjModel, i: ObjModel) -> Step {
    match a {
        ObjModel::Array(elements) => match i {
            ObjModel::Integer(k) => if k >= 0 {
                if k < elements.len() {
                    Some((m, Ok(elements[k])))
                } else {
                    Some((m, Err(EvalErrModel::OutOfRange)))
                }
            } else if k == isize::MIN {
                None
            } else if -k > elements.len() {
                Some((m, Err(EvalErrModel::OutOfRange)))
            } else {
                Some((m, Ok(elements[elements.len() + k])))
            },
            _ => Some((m, Err(EvalErrModel::UnexpectedObject(i)))),
        },
        _ => Some((m, Err(EvalErrModel::UnexpectedObject(a)))),
    }
}

/// The value a function call gives: what a `return` carried, or the value itself.
pub open spec fn unwrap_return(v: ObjModel) -> ObjModel {
    match v {
        ObjModel::Return(inner) => *inner,
        _ => v,
    }
}

/// Whether every parameter is written as an identifier.
pub open spec fn params_are_idents(params: Seq<(ExprModel, TypeModel)>) -> bool {
    forall|i: int| 0 <= i < params.len() ==> (#[trigger] params[i]).0 is Ident
}

/// The names of the parameters.
pub open spec fn param_names(params: Seq<(ExprModel, TypeModel)>) -> Seq<Seq<char>> {
    Seq::new(params.len(), |i: int| params[i].0->Ident_name)
}

/// A function definition binds the function in the innermost scope and gives it.
pub open spec fn ev_fndef(m: Machine, name: ExprModel, params: Seq<(ExprModel, TypeModel)>, body: ExprModel) -> Step {
    match name {
        ExprModel::Ident { name, .. } => if params_are_idents(params) {
            let f = ObjModel::Function { params: param_names(params), body };
            Some((with_env(m, frames_insert(m.env, name, f)), Ok(f)))
        } else {
            None
        },
        _ => None,
    }
}

/// How evaluating the arguments of a call ends.
pub enum ArgsOutcome {
    /// Every argument was evaluated: the values for a builtin, the bound callee scopes otherwise.
    Values(Seq<ObjModel>),
    Bound(Frames),
    /// An argument gave a `return` value, which the call gives at once.
    Returned(ObjModel),
    Failed(EvalErrModel),
}

/// Evaluating the expressions of an expression, in order.
pub open spec fn ev_expr(fuel: nat, m: Machine, e: ExprModel) -> Step
    decreases fuel, 0int, 0int,
{
    if fuel == 0 {
        None
    } else {
        let f = (fuel - 1) as nat;
        match e {
            ExprModel::Integer(v) => Some((m, Ok(ObjModel::Integer(v)))),
            ExprModel::Boolean(b) => Some((m, Ok(ObjModel::Boolean(b)))),
            ExprModel::Ident { name, .. } => match scope_lookup(m.env, name) {
                Some(v) => Some((m, Ok(v))),
                None => Some((m, Err(EvalErrModel::UndefinedVariable(name)))),
            },
            ExprModel::Array(elements) => ev_array(f, m, elements, Seq::empty()),
            ExprModel::Unary { kind, expr } => ev_unary(f, m, kind, *expr),
            ExprModel::Return(value) => ev_return(f, m, *value),
            ExprModel::If { condition, consequence, alternative } => ev_if(
                f,
                m,
                *condition,
                *consequence,
                alternative,
            ),
            ExprModel::FnDef { name, params, body, .. } => ev_fndef(m, *name, params, *body),
            ExprModel::Call { func, args } => ev_call(f, m, *func, args),
            ExprModel::Block(stmts) => ev_block(f, m, stmts),
            ExprModel::Let { name, value, .. } => ev_let(f, m, *name, *value),
            ExprModel::Binary { kind, lhs, rhs } => ev_binary(f, m, kind, *lhs, *rhs),
            ExprModel::Index { array, index } => ev_index(f, m, *array, *index),
        }
    }
}

/// The elements of an array literal, each evaluated in turn; `acc` holds those done.
pub open spec fn ev_array(fuel: nat, m: Machine, elements: Seq<ExprModel>, acc: Seq<ObjModel>) -> Step
    decreases fuel, 2int, elements.len(),
{
    if elements.len() == 0 {
        Some((m, Ok(ObjModel::Array(acc))))
    } else {
        match ev_expr(fuel, m, elements[0]) {
            None => None,
            Some((m1, Err(e))) => Some((m1, Err(e))),
            Some((m1, Ok(v))) => ev_array(fuel, m1, elements.drop_first(), acc.push(v)),
        }
    }
}

pub open spec fn ev_unary(fuel: nat, m: Machine, kind: UnaryExprKind, e: ExprModel) -> Step
    decreases fuel, 2int, 0int,
{
    match ev_expr(fuel, m, e) {
        None => None,
        Some((m1, Err(err))) => Some((m1, Err(err))),
        Some((m1, Ok(v))) => unary_result(m1, kind, v),
    }
}

pub open spec fn ev_return(fuel: nat, m: Machine, e: ExprModel) -> Step
    decreases fuel, 2int, 0int,
{
    match ev_expr(fuel, m, e) {
        None => None,
        Some((m1, Err(err))) => Some((m1, Err(err))),
        Some((m1, Ok(v))) => Some((m1, Ok(ObjModel::Return(Box::new(v))))),
    }
}

pub open spec fn ev_if(
    fuel: nat,
    m: Machine,
    condition: ExprModel,
    consequence: ExprModel,
    alternative: Option<Box<ExprModel>>,
) -> Step
    decreases fuel, 2int, 0int,
{
    match ev_expr(fuel, m, condition) {
        None => None,
        Some((m1, Err(err))) => Some((m1, Err(err))),
        Some((m1, Ok(c))) => if c is Return {
            Some((m1, Ok(c)))
        } else if c == ObjModel::Boolean(true) {
            ev_expr(fuel, m1, consequence)
        } else if c == ObjModel::Boolean(false) {
            match alternative {
                Some(a) => ev_expr(fuel, m1, *a),
                None => Some((m1, Ok(ObjModel::Unit))),
            }
        } else {
            Some((m1, Err(EvalErrModel::UnexpectedObject(c))))
        },
    }
}

pub open spec fn ev_let(fuel: nat, m: Machine, name: ExprModel, value: ExprModel) -> Step
    decreases fuel, 2int, 0int,
{
    match name {
        ExprModel::Ident { name, .. } => match ev_expr(fuel, m, value) {
            None => None,
            Some((m1, Err(err))) => Some((m1, Err(err))),
            Some((m1, Ok(v))) => if v is Return {
                Some((m1, Ok(v)))
            } else {
                Some((with_env(m1, frames_insert(m1.env, name, v)), Ok(v)))
            },
        },
        _ => None,
    }
}

pub open spec fn ev_binary(fuel: nat, m: Machine, kind: BinaryExprKind, lhs: ExprModel, rhs: ExprModel) -> Step
    decreases fuel, 2int, 0int,
{
    match ev_expr(fuel, m, lhs) {
        None => None,
        Some((m1, Err(err))) => Some((m1, Err(err))),
        Some((m1, Ok(l))) => if l is Return {
            Some((m1, Ok(l)))
        } else {
            match ev_expr(fuel, m1, rhs) {
                None => None,
                Some((m2, Err(err))) => Some((m2, Err(err))),
                Some((m2, Ok(r))) => if r is Return {
                    Some((m2, Ok(r)))
                } else {
                    binary_result(m2, kind, lhs, l, r)
                },
            }
        },
    }
}

pub open spec fn ev_index(fuel: nat, m: Machine, array: ExprModel, index: ExprModel) -> Step
    decreases fuel, 2int, 0int,
{
    match ev_expr(fuel, m, array) {
        None => None,
        Some((m1, Err(err))) => Some((m1, Err(err))),
        Some((m1, Ok(a))) => match ev_expr(fuel, m1, index) {
            None => None,
            Some((m2, Err(err))) => Some((m2, Err(err))),
            Some((m2, Ok(i))) => index_result(m2, a, i),
        },
    }
}

/// A block runs its statements in a scope of its own; the scope is dropped when the block
/// ends, and when it fails the variables are as they were before the block.
pub open spec fn ev_block(fuel: nat, m: Machine, stmts: Seq<StmtModel>) -> Step
    decreases fuel, 3int, 0int,
{
    match ev_stmts(fuel, with_env(m, m.env.push(Map::empty())), stmts, ObjModel::Unit) {
        None => None,
        Some((m1, Err(err))) => Some((Machine { env: m.env, printed: m1.printed }, Err(err))),
        Some((m1, Ok(v))) => Some((Machine { env: m1.env.drop_last(), printed: m1.printed }, Ok(v))),
    }
}

/// The arguments of a builtin call, each evaluated in turn.
pub open spec fn ev_builtin_args(fuel: nat, m: Machine, args: Seq<ExprModel>, acc: Seq<ObjModel>) -> Option<
    (Machine, ArgsOutcome),
>
    decreases fuel, 2int, args.len(),
{
    if args.len() == 0 {
        Some((m, ArgsOutcome::Values(acc)))
    } else {
        match ev_expr(fuel, m, args[0]) {
            None => None,
            Some((m1, Err(err))) => Some((m1, ArgsOutcome::Failed(err))),
            Some((m1, Ok(v))) => if v is Return {
                Some((m1, ArgsOutcome::Returned(v)))
            } else {
                ev_builtin_args(fuel, m1, args.drop_first(), acc.push(v))
            },
        }
    }
}

/// The arguments of a call of a function value, each evaluated in the caller's scopes and
/// bound to its parameter in the callee's scopes `callee`.
pub open spec fn ev_call_args(
    fuel: nat,
    m: Machine,
    args: Seq<ExprModel>,
    params: Seq<Seq<char>>,
    callee: Frames,
) -> Option<(Machine, ArgsOutcome)>
    decreases fuel, 2int, args.len(),
{
    if args.len() == 0 {
        Some((m, ArgsOutcome::Bound(callee)))
    } else {
        match ev_expr(fuel, m, args[0]) {
            None => None,
            Some((m1, Err(err))) => Some((m1, ArgsOutcome::Failed(err))),
            Some((m1, Ok(v))) => if v is Return {
                Some((m1, ArgsOutcome::Returned(v)))
            } else {
                ev_call_args(fuel, m1, args.drop_first(), params.drop_first(), frames_insert(callee, params[0], v))
            },
        }
    }
}

/// A call: a builtin prints its arguments; a function value runs its body in the scopes
/// of the caller as they were when the call began, with one more scope for its parameters.
pub open spec fn ev_call(fuel: nat, m: Machine, func: ExprModel, args: Seq<ExprModel>) -> Step
    decreases fuel, 3int, 0int,
{
    if is_builtin_call(func) {
        match ev_builtin_args(fuel, m, args, Seq::empty()) {
            None => None,
            Some((m1, ArgsOutcome::Values(values))) => {
                let newline = func->Ident_name == seq!['p', 'r', 'i', 'n', 't', 'l', 'n'];
                Some((Machine { env: m1.env, printed: m1.printed.push((values, newline)) }, Ok(ObjModel::Unit)))
            },
            Some((m1, ArgsOutcome::Returned(v))) => Some((m1, Ok(v))),
            Some((m1, ArgsOutcome::Failed(err))) => Some((m1, Err(err))),
            Some((m1, ArgsOutcome::Bound(_))) => None,
        }
    } else {
        match ev_expr(fuel, m, func) {
            None => None,
            Some((m1, Err(err))) => Some((m1, Err(err))),
            Some((m1, Ok(fv))) => if fv is Return {
                Some((m1, Ok(fv)))
            } else {
                match fv {
                    ObjModel::Function { params, body } => if args.len() != params.len() {
                        Some((
                            m1,
                            Err(EvalErrModel::UnmatchedArgsLen { expected: params.len() as int, actual: args.len() as int }),
                        ))
                    } else {
                        match ev_call_args(fuel, m1, args, params, m1.env.push(Map::empty())) {
                            None => None,
                            Some((m2, ArgsOutcome::Bound(callee))) => match ev_expr(
                                fuel,
                                with_env(m2, callee),
                                body,
                            ) {
                                None => None,
                                Some((m3, Err(err))) => Some((with_env(m3, m2.env), Err(err))),
                                Some((m3, Ok(v))) => Some((with_env(m3, m2.env), Ok(unwrap_return(v)))),
                            },
                            Some((m2, ArgsOutcome::Returned(v))) => Some((m2, Ok(v))),
                            Some((m2, ArgsOutcome::Failed(err))) => Some((m2, Err(err))),
                            Some((m2, ArgsOutcome::Values(_))) => None,
                        }
                    },
                    _ => Some((m1, Err(EvalErrModel::UnexpectedObject(fv)))),
                }
            },
        }
    }
}

/// A statement gives the value of its expression when it has no ';', and unit otherwise,
/// unless the value is a `return`.
pub open spec fn ev_stmt(fuel: nat, m: Machine, s: StmtModel) -> Step
    decreases fuel, 1int, 0int,
{
    match s {
        StmtModel::Expr(e) => match ev_expr(fuel, m, e) {
            None => None,
            Some((m1, Err(err))) => Some((m1, Err(err))),
            Some((m1, Ok(v))) => if v is Return {
                Some((m1, Ok(v)))
            } else {
                Some((m1, Ok(ObjModel::Unit)))
            },
        },
        StmtModel::Return(e) => ev_expr(fuel, m, e),
    }
}

/// Statements run in turn until one gives a `return` value; the value is the last one given.
pub open spec fn ev_stmts(fuel: nat, m: Machine, stmts: Seq<StmtModel>, result: ObjModel) -> Step
    decreases fuel, 2int, stmts.len(),
{
    if stmts.len() == 0 {
        Some((m, Ok(result)))
    } else {
        match ev_stmt(fuel, m, stmts[0]) {
            None => None,
            Some((m1, Err(err))) => Some((m1, Err(err))),
            Some((m1, Ok(v))) => if v is Return {
                Some((m1, Ok(v)))
            } else {
                ev_stmts(fuel, m1, stmts.drop_first(), v)
            },
        }
    }
}

/// Evaluating a node: a program gives the value its statements give, with a `return`
/// unwrapped.
pub open spec fn ev_node(fuel: nat, m: Machine, node: NodeModel) -> Step
    decreases fuel, 4int, 0int,
{
    match node {
        NodeModel::Program(stmts) => match ev_stmts(fuel, m, stmts, ObjModel::Unit) {
            None => None,
            Some((m1, Err(err))) => Some((m1, Err(err))),
            Some((m1, Ok(v))) => Some((m1, Ok(unwrap_return(v)))),
        },
        NodeModel::Statement(s) => ev_stmt(fuel, m, s),
        NodeModel::Expression(e) => ev_expr(fuel, m, e),
    }
}

/// Whether evaluating `node` from the state `m` finishes.
pub open spec fn finishes(m: Machine, node: NodeModel) -> bool {
    exists|fuel: nat| ev_node(fuel, m, node) is Some
}

/// The outcome of evaluating `node` from the state `m`, where it finishes.
pub open spec fn evaluation(m: Machine, node: NodeModel) -> Step {
    ev_node(choose|fuel: nat| ev_node(fuel, m, node) is Some, m, node)
}


/// An assignment keeps the number of scopes.
pub proof fn lemma_frames_update_len(f: Frames, key: Seq<char>, value: ObjModel)
    ensures
        frames_update(f, key, value).0.len() == f.len(),
    decreases f.len(),
{
    if f.len() > 1 && !f.last().contains_key(key) {
        lemma_frames_update_len(f.drop_last(), key, value);
    }
}

/// Reading a name right after assigning to it gives the value assigned, and the
/// assignment tells whether some scope bound the name before.
pub proof fn lemma_lookup_after_update(f: Frames, key: Seq<char>, value: ObjModel)
    requires
        f.len() > 0,
    ensures
        scope_lookup(frames_update(f, key, value).0, key) == Some(value),
        frames_update(f, key, value).1 == scope_lookup(f, key),
    decreases f.len(),
{
    let top = f.last();
    let inserted = frames_insert(f, key, value);
    assert(inserted.last() == top.insert(key, value));
    if !top.contains_key(key) && f.len() > 1 {
        lemma_lookup_after_update(f.drop_last(), key, value);
        let (rest, _) = frames_update(f.drop_last(), key, value);
        assert(rest.push(top.insert(key, value)).last() == top.insert(key, value));
        assert(scope_lookup(f, key) == scope_lookup(f.drop_last(), key));
    } else if !top.contains_key(key) {
        assert(f.drop_last().len() == 0);
        assert(scope_lookup(f.drop_last(), key) is None);
        assert(scope_lookup(f, key) is None);
    }
}

/// Reading a name right after binding it gives the value bound.
pub proof fn lemma_lookup_after_insert(f: Frames, key: Seq<char>, value: ObjModel)
    requires
        f.len() > 0,
    ensures
        scope_lookup(frames_insert(f, key, value), key) == Some(value),
{
    assert(frames_insert(f, key, value).last() == f.last().insert(key, value));
}

proof fn lemma_let_integer(fuel: nat, m: Machine, name: Seq<char>, offset: int, ty: TypeModel, v: int)
    requires
        fuel >= 2,
    ensures
        ev_stmt(
            fuel,
            m,
            StmtModel::Expr(ExprModel::Let {
                name: Box::new(ExprModel::Ident { name, offset }),
                value: Box::new(ExprModel::Integer(v)),
                ty,
            }),
        ) == Some((with_env(m, frames_insert(m.env, name, ObjModel::Integer(v))), Ok::<ObjModel, EvalErrModel>(ObjModel::Unit))),
{
    let f = (fuel - 1) as nat;
    assert(ev_expr(f, m, ExprModel::Integer(v)) == Some((m, Ok::<ObjModel, EvalErrModel>(ObjModel::Integer(v)))));
}

proof fn lemma_return_ident(fuel: nat, m: Machine, name: Seq<char>, offset: int, v: ObjModel)
    requires
        fuel >= 1,
        scope_lookup(m.env, name) == Some(v),
        !(v is Return),
    ensures
        ev_stmts(fuel, m, seq![StmtModel::Return(ExprModel::Ident { name, offset })], ObjModel::Unit)
            == Some((m, Ok::<ObjModel, EvalErrModel>(v))),
{
    let stmts = seq![StmtModel::Return(ExprModel::Ident { name, offset })];
    assert(ev_stmt(fuel, m, stmts[0]) == Some((m, Ok::<ObjModel, EvalErrModel>(v))));
    assert(stmts.drop_first() =~= Seq::<StmtModel>::empty());
    assert(ev_stmts(fuel, m, Seq::<StmtModel>::empty(), v) == Some((m, Ok::<ObjModel, EvalErrModel>(v))));
}

/// A read gives back what a `let` wrote: the program `let name: ty = v; name` evaluates to
/// `v` and leaves `name` bound to `v` in the innermost scope.
pub proof fn lemma_let_then_read(fuel: nat, m: Machine, name: Seq<char>, offset: int, ty: TypeModel, v: int)
    requires
        fuel >= 2,
        m.env.len() > 0,
    ensures
        ev_node(
            fuel,
            m,
            NodeModel::Program(
                seq![
                    StmtModel::Expr(ExprModel::Let {
                        name: Box::new(ExprModel::Ident { name, offset }),
                        value: Box::new(ExprModel::Integer(v)),
                        ty,
                    }),
                    StmtModel::Return(ExprModel::Ident { name, offset }),
                ],
            ),
        ) == Some((with_env(m, frames_insert(m.env, name, ObjModel::Integer(v))), Ok::<ObjModel, EvalErrModel>(ObjModel::Integer(v)))),
{
    let stmts = seq![
        StmtModel::Expr(ExprModel::Let {
            name: Box::new(ExprModel::Ident { name, offset }),
            value: Box::new(ExprModel::Integer(v)),
            ty,
        }),
        StmtModel::Return(ExprModel::Ident { name, offset }),
    ];
    let m1 = with_env(m, frames_insert(m.env, name, ObjModel::Integer(v)));
    lemma_let_integer(fuel, m, name, offset, ty, v);
    lemma_lookup_after_insert(m.env, name, ObjModel::Integer(v));
    lemma_return_ident(fuel, m1, name, offset, ObjModel::Integer(v));
    assert(stmts.drop_first() =~= seq![StmtModel::Return(ExprModel::Ident { name, offset })]);
    assert(ev_stmts(fuel, m, stmts, ObjModel::Unit) == Some((m1, Ok::<ObjModel, EvalErrModel>(ObjModel::Integer(v)))));
}

/// Evaluating an expression leaves as many scopes as it found: a scope that a block or a
/// call opens is closed when it ends.
pub proof fn lemma_ev_expr_depth(fuel: nat, m: Machine, e: ExprModel)
    ensures
        ev_expr(fuel, m, e) matches Some((m1, _)) ==> m1.env.len() == m.env.len(),
    decreases fuel, 0int, 0int,
{
    if fuel > 0 {
        let f = (fuel - 1) as nat;
        match e {
            ExprModel::Array(elements) => lemma_ev_array_depth(f, m, elements, Seq::empty()),
            ExprModel::Unary { kind, expr } => lemma_ev_unary_depth(f, m, kind, *expr),
            ExprModel::Return(value) => lemma_ev_return_depth(f, m, *value),
            ExprModel::If { condition, consequence, alternative } => lemma_ev_if_depth(
                f,
                m,
                *condition,
                *consequence,
                alternative,
            ),
            ExprModel::Call { func, args } => lemma_ev_call_depth(f, m, *func, args),
            ExprModel::Block(stmts) => lemma_ev_block_depth(f, m, stmts),
            ExprModel::Let { name, value, .. } => lemma_ev_let_depth(f, m, *name, *value),
            ExprModel::Binary { kind, lhs, rhs } => lemma_ev_binary_depth(f, m, kind, *lhs, *rhs),
            ExprModel::Index { array, index } => lemma_ev_index_depth(f, m, *array, *index),
            _ => {},
        }
    }
}

pub proof fn lemma_ev_array_depth(fuel: nat, m: Machine, elements: Seq<ExprModel>, acc: Seq<ObjModel>)
    ensures
        ev_array(fuel, m, elements, acc) matches Some((m1, _)) ==> m1.env.len() == m.env.len(),
    decreases fuel, 2int, elements.len(),
{
    if elements.len() > 0 {
        lemma_ev_expr_depth(fuel, m, elements[0]);
        if let Some((m1, Ok(v))) = ev_expr(fuel, m, elements[0]) {
            lemma_ev_array_depth(fuel, m1, elements.drop_first(), acc.push(v));
        }
    }
}

pub proof fn lemma_ev_unary_depth(fuel: nat, m: Machine, kind: UnaryExprKind, e: ExprModel)
    ensures
        ev_unary(fuel, m, kind, e) matches Some((m1, _)) ==> m1.env.len() == m.env.len(),
    decreases fuel, 2int, 0int,
{
    lemma_ev_expr_depth(fuel, m, e);
}

pub proof fn lemma_ev_return_depth(fuel: nat, m: Machine, e: ExprModel)
    ensures
        ev_return(fuel, m, e) matches Some((m1, _)) ==> m1.env.len() == m.env.len(),
    decreases fuel, 2int, 0int,
{
    lemma_ev_expr_depth(fuel, m, e);
}

pub proof fn lemma_ev_if_depth(
    fuel: nat,
    m: Machine,
    condition: ExprModel,
    consequence: ExprModel,
    alternative: Option<Box<ExprModel>>,
)
    ensures
        ev_if(fuel, m, condition, consequence, alternative) matches Some((m1, _)) ==> m1.env.len() == m.env.len(),
    decreases fuel, 2int, 0int,
{
    lemma_ev_expr_depth(fuel, m, condition);
    if let Some((m1, Ok(_))) = ev_expr(fuel, m, condition) {
        lemma_ev_expr_depth(fuel, m1, consequence);
        if let Some(a) = alternative {
            lemma_ev_expr_depth(fuel, m1, *a);
        }
    }
}

pub proof fn lemma_ev_let_depth(fuel: nat, m: Machine, name: ExprModel, value: ExprModel)
    ensures
        ev_let(fuel, m, name, value) matches Some((m1, _)) ==> m1.env.len() == m.env.len(),
    decreases fuel, 2int, 0int,
{
    lemma_ev_expr_depth(fuel, m, value);
}

pub proof fn lemma_ev_binary_depth(fuel: nat, m: Machine, kind: BinaryExprKind, lhs: ExprModel, rhs: ExprModel)
    ensures
        ev_binary(fuel, m, kind, lhs, rhs) matches Some((m1, _)) ==> m1.env.len() == m.env.len(),
    decreases fuel, 2int, 0int,
{
    lemma_ev_expr_depth(fuel, m, lhs);
    if let Some((m1, Ok(l))) = ev_expr(fuel, m, lhs) {
        lemma_ev_expr_depth(fuel, m1, rhs);
        if let Some((m2, Ok(r))) = ev_expr(fuel, m1, rhs) {
            if let ExprModel::Ident { name, .. } = lhs {
                lemma_frames_update_len(m2.env, name, r);
            }
        }
    }
}

pub proof fn lemma_ev_index_depth(fuel: nat, m: Machine, array: ExprModel, index: ExprModel)
    ensures
        ev_index(fuel, m, array, index) matches Some((m1, _)) ==> m1.env.len() == m.env.len(),
    decreases fuel, 2int, 0int,
{
    lemma_ev_expr_depth(fuel, m, array);
    if let Some((m1, Ok(_))) = ev_expr(fuel, m, array) {
        lemma_ev_expr_depth(fuel, m1, index);
    }
}

pub proof fn lemma_ev_block_depth(fuel: nat, m: Machine, stmts: Seq<StmtModel>)
    ensures
        ev_block(fuel, m, stmts) matches Some((m1, _)) ==> m1.env.len() == m.env.len(),
    decreases fuel, 3int, 0int,
{
    lemma_ev_stmts_depth(fuel, with_env(m, m.env.push(Map::empty())), stmts, ObjModel::Unit);
}

pub proof fn lemma_ev_builtin_args_depth(fuel: nat, m: Machine, args: Seq<ExprModel>, acc: Seq<ObjModel>)
    ensures
        ev_builtin_args(fuel, m, args, acc) matches Some((m1, _)) ==> m1.env.len() == m.env.len(),
    decreases fuel, 2int, args.len(),
{
    if args.len() > 0 {
        lemma_ev_expr_depth(fuel, m, args[0]);
        if let Some((m1, Ok(v))) = ev_expr(fuel, m, args[0]) {
            lemma_ev_builtin_args_depth(fuel, m1, args.drop_first(), acc.push(v));
        }
    }
}

pub proof fn lemma_ev_call_args_depth(
    fuel: nat,
    m: Machine,
    args: Seq<ExprModel>,
    params: Seq<Seq<char>>,
    callee: Frames,
)
    ensures
        ev_call_args(fuel, m, args, params, callee) matches Some((m1, _)) ==> m1.env.len() == m.env.len(),
    decreases fuel, 2int, args.len(),
{
    if args.len() > 0 {
        lemma_ev_expr_depth(fuel, m, args[0]);
        if let Some((m1, Ok(v))) = ev_expr(fuel, m, args[0]) {
            lemma_ev_call_args_depth(fuel, m1, args.drop_first(), params.drop_first(), frames_insert(callee, params[0], v));
        }
    }
}

pub proof fn lemma_ev_call_depth(fuel: nat, m: Machine, func: ExprModel, args: Seq<ExprModel>)
    ensures
        ev_call(fuel, m, func, args) matches Some((m1, _)) ==> m1.env.len() == m.env.len(),
    decreases fuel, 3int, 0int,
{
    if is_builtin_call(func) {
        lemma_ev_builtin_args_depth(fuel, m, args, Seq::empty());
    } else {
        lemma_ev_expr_depth(fuel, m, func);
        if let Some((m1, Ok(fv))) = ev_expr(fuel, m, func) {
            if let ObjModel::Function { params, body } = fv {
                lemma_ev_call_args_depth(fuel, m1, args, params, m1.env.push(Map::empty()));
            }
        }
    }
}

pub proof fn lemma_ev_stmt_depth(fuel: nat, m: Machine, s: StmtModel)
    ensures
        ev_stmt(fuel, m, s) matches Some((m1, _)) ==> m1.env.len() == m.env.len(),
    decreases fuel, 1int, 0int,
{
    match s {
        StmtModel::Expr(e) => lemma_ev_expr_depth(fuel, m, e),
        StmtModel::Return(e) => lemma_ev_expr_depth(fuel, m, e),
    }
}

pub proof fn lemma_ev_stmts_depth(fuel: nat, m: Machine, stmts: Seq<StmtModel>, result: ObjModel)
    ensures
        ev_stmts(fuel, m, stmts, result) matches Some((m1, _)) ==> m1.env.len() == m.env.len(),
    decreases fuel, 2int, stmts.len(),
{
    if stmts.len() > 0 {
        lemma_ev_stmt_depth(fuel, m, stmts[0]);
        if let Some((m1, Ok(v))) = ev_stmt(fuel, m, stmts[0]) {
            lemma_ev_stmts_depth(fuel, m1, stmts.drop_first(), v);
        }
    }
}

/// Evaluating a node keeps the number of scopes of the evaluator.
pub proof fn lemma_ev_node_depth(fuel: nat, m: Machine, node: NodeModel)
    ensures
        ev_node(fuel, m, node) matches Some((m1, _)) ==> m1.env.len() == m.env.len(),
    decreases fuel, 4int, 0int,
{
    match node {
        NodeModel::Program(stmts) => lemma_ev_stmts_depth(fuel, m, stmts, ObjModel::Unit),
        NodeModel::Statement(s) => lemma_ev_stmt_depth(fuel, m, s),
        NodeModel::Expression(e) => lemma_ev_expr_depth(fuel, m, e),
    }
}


/// Whether the comparison `kind` holds of the integers `a` and `b` when the program compares
/// them: the operator gives the boolean `true` and leaves the state as it was.
pub open spec fn compares_true(m: Machine, lhs: ExprModel, kind: BinaryExprKind, a: int, b: int) -> bool {
    binary_result(m, kind, lhs, ObjModel::Integer(a), ObjModel::Integer(b)) == Some(
        (m, Ok::<ObjModel, EvalErrModel>(ObjModel::Boolean(true))),
    )
}

/// On integers the comparison operators follow the order of the integers: each gives a
/// boolean, and that boolean is the truth of the same comparison of the two numbers. So `<`
/// and `>=` are complements, `<` and `>` are converses, `<=` is `<` or `==`, and `<=`, `>=`
/// and `==` hold of every number and itself while `<`, `>` and `!=` do not.
pub proof fn lemma_integer_comparisons(m: Machine, lhs: ExprModel, a: int, b: int)
    ensures
        binary_result(m, BinaryExprKind::Lt, lhs, ObjModel::Integer(a), ObjModel::Integer(b))
            == Some((m, Ok::<ObjModel, EvalErrModel>(ObjModel::Boolean(a < b)))),
        binary_result(m, BinaryExprKind::Le, lhs, ObjModel::Integer(a), ObjModel::Integer(b))
            == Some((m, Ok::<ObjModel, EvalErrModel>(ObjModel::Boolean(a <= b)))),
        binary_result(m, BinaryExprKind::Gt, lhs, ObjModel::Integer(a), ObjModel::Integer(b))
            == Some((m, Ok::<ObjModel, EvalErrModel>(ObjModel::Boolean(a > b)))),
        binary_result(m, BinaryExprKind::Ge, lhs, ObjModel::Integer(a), ObjModel::Integer(b))
            == Some((m, Ok::<ObjModel, EvalErrModel>(ObjModel::Boolean(a >= b)))),
        binary_result(m, BinaryExprKind::Eq, lhs, ObjModel::Integer(a), ObjModel::Integer(b))
            == Some((m, Ok::<ObjModel, EvalErrModel>(ObjModel::Boolean(a == b)))),
        binary_result(m, BinaryExprKind::Ne, lhs, ObjModel::Integer(a), ObjModel::Integer(b))
            == Some((m, Ok::<ObjModel, EvalErrModel>(ObjModel::Boolean(a != b)))),
        compares_true(m, lhs, BinaryExprKind::Ge, a, b) <==> !compares_true(m, lhs, BinaryExprKind::Lt, a, b),
        compares_true(m, lhs, BinaryExprKind::Le, a, b) <==> !compares_true(m, lhs, BinaryExprKind::Gt, a, b),
        compares_true(m, lhs, BinaryExprKind::Gt, a, b) <==> compares_true(m, lhs, BinaryExprKind::Lt, b, a),
        compares_true(m, lhs, BinaryExprKind::Ge, a, b) <==> compares_true(m, lhs, BinaryExprKind::Le, b, a),
        compares_true(m, lhs, BinaryExprKind::Le, a, b) <==> (compares_true(m, lhs, BinaryExprKind::Lt, a, b)
            || compares_true(m, lhs, BinaryExprKind::Eq, a, b)),
        compares_true(m, lhs, BinaryExprKind::Ne, a, b) <==> !compares_true(m, lhs, BinaryExprKind::Eq, a, b),
        compares_true(m, lhs, BinaryExprKind::Le, a, a),
        compares_true(m, lhs, BinaryExprKind::Ge, a, a),
        compares_true(m, lhs, BinaryExprKind::Eq, a, a),
        !compares_true(m, lhs, BinaryExprKind::Lt, a, a),
        !compares_true(m, lhs, BinaryExprKind::Gt, a, a),
        !compares_true(m, lhs, BinaryExprKind::Ne, a, a),
{
}

/// On integers whose results fit, `+`, `-` and `*` give the sum, difference and product,
/// and subtracting what was added gives back the number added to.
pub proof fn lemma_integer_arithmetic(m: Machine, lhs: ExprModel, a: int, b: int)
    ensures
        fits_isize(a + b) ==> binary_result(m, BinaryExprKind::Add, lhs, ObjModel::Integer(a), ObjModel::Integer(b))
            == Some((m, Ok::<ObjModel, EvalErrModel>(ObjModel::Integer(a + b)))),
        fits_isize(a - b) ==> binary_result(m, BinaryExprKind::Sub, lhs, ObjModel::Integer(a), ObjModel::Integer(b))
            == Some((m, Ok::<ObjModel, EvalErrModel>(ObjModel::Integer(a - b)))),
        fits_isize(a * b) ==> binary_result(m, BinaryExprKind::Mul, lhs, ObjModel::Integer(a), ObjModel::Integer(b))
            == Some((m, Ok::<ObjModel, EvalErrModel>(ObjModel::Integer(a * b)))),
        fits_isize(a) && fits_isize(a + b) ==> binary_result(
            m,
            BinaryExprKind::Sub,
            lhs,
            binary_result(m, BinaryExprKind::Add, lhs, ObjModel::Integer(a), ObjModel::Integer(b)).unwrap().1->Ok_0,
            ObjModel::Integer(b),
        ) == Some((m, Ok::<ObjModel, EvalErrModel>(ObjModel::Integer(a)))),
{
}

/// The value an index of an array gives, where it gives one.
pub open spec fn indexed(m: Machine, elements: Seq<ObjModel>, k: int) -> Step {
    index_result(m, ObjModel::Array(elements), ObjModel::Integer(k))
}

/// Indexing counts from the front: the element with exactly `k` elements before it is the
/// one at index `k`, so index 0 is the first element. A negative index counts from the
/// end, -1 being the last element, and an index `k` and the index `k` less the length reach
/// the same element. Past either end the index is out of range. The state is left as it was.
pub proof fn lemma_index_positions(m: Machine, before: Seq<ObjModel>, x: ObjModel, after: Seq<ObjModel>, k: int)
    requires
        isize::MIN < k <= isize::MAX,
        before.len() <= isize::MAX,
    ensures
        indexed(m, before.push(x) + after, before.len() as int) == Some((m, Ok::<ObjModel, EvalErrModel>(x))),
        indexed(m, before.push(x), -1) == Some((m, Ok::<ObjModel, EvalErrModel>(x))),
        indexed(m, seq![x] + after, 0) == Some((m, Ok::<ObjModel, EvalErrModel>(x))),
        0 <= k < before.len() ==> indexed(m, before, k) == indexed(m, before, k - before.len()),
        0 <= k < before.len() ==> indexed(m, before, k) == Some((m, Ok::<ObjModel, EvalErrModel>(before[k]))),
        (k >= before.len() || k < -before.len()) ==> indexed(m, before, k) == Some(
            (m, Err::<ObjModel, EvalErrModel>(EvalErrModel::OutOfRange)),
        ),
{
    let s = before.push(x) + after;
    assert(s[before.len() as int] == x);
    assert((seq![x] + after)[0] == x);
    assert(before.push(x)[before.push(x).len() - 1] == x);
}

/// The unary operators: `-` gives the negation of an integer, so that negating twice gives
/// the integer back; `!` gives the other boolean, so that it too undoes itself; and `*`
/// applied to what `&` gave is the value `&` was applied to. None of them changes the state.
pub proof fn lemma_unary_operators(m: Machine, i: int, b: bool, v: ObjModel)
    requires
        fits_isize(i),
        fits_isize(-i),
    ensures
        unary_result(m, UnaryExprKind::Minus, ObjModel::Integer(i)) == Some((m, Ok::<ObjModel, EvalErrModel>(ObjModel::Integer(-i)))),
        unary_result(m, UnaryExprKind::Minus, unary_result(m, UnaryExprKind::Minus, ObjModel::Integer(i)).unwrap().1->Ok_0)
            == Some((m, Ok::<ObjModel, EvalErrModel>(ObjModel::Integer(i)))),
        unary_result(m, UnaryExprKind::Not, ObjModel::Boolean(b)) == Some((m, Ok::<ObjModel, EvalErrModel>(ObjModel::Boolean(!b)))),
        unary_result(m, UnaryExprKind::Not, unary_result(m, UnaryExprKind::Not, ObjModel::Boolean(b)).unwrap().1->Ok_0)
            == Some((m, Ok::<ObjModel, EvalErrModel>(ObjModel::Boolean(b)))),
        unary_result(m, UnaryExprKind::Deref, unary_result(m, UnaryExprKind::Addr, v).unwrap().1->Ok_0)
            == Some((m, Ok::<ObjModel, EvalErrModel>(v))),
{
}

/// An `if` chooses by its condition: where the condition evaluates to `true`, the `if`
/// evaluates to what the consequence does, from the state the condition left; where it
/// evaluates to `false`, to what the alternative does, or to the unit value where there is
/// none.
pub proof fn lemma_if_chooses(
    fuel: nat,
    m: Machine,
    condition: ExprModel,
    consequence: ExprModel,
    alternative: Option<Box<ExprModel>>,
    m1: Machine,
    b: bool,
)
    requires
        ev_expr(fuel, m, condition) == Some((m1, Ok::<ObjModel, EvalErrModel>(ObjModel::Boolean(b)))),
    ensures
        ({
            let e = ExprModel::If { condition: Box::new(condition), consequence: Box::new(consequence), alternative };
            &&& b ==> ev_expr(fuel + 1, m, e) == ev_expr(fuel, m1, consequence)
            &&& !b ==> ev_expr(fuel + 1, m, e) == match alternative {
                Some(a) => ev_expr(fuel, m1, *a),
                None => Some((m1, Ok::<ObjModel, EvalErrModel>(ObjModel::Unit))),
            }
        }),
{
}
} // verus!
