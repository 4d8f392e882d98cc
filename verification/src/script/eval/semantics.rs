//! What evaluating a script program means: each step of the evaluator as a function of the
//! scopes before it. A step is given `fuel`, a bound on the depth of nested evaluation; a
//! step gives the scopes after it, the text it printed, and its value or error. A step that
//! does not finish within its fuel, or that would stop the program with a panic (an
//! arithmetic overflow, a division by zero), has no result.
use vstd::prelude::*;
use crate::environment::scope_lookup;
use crate::eval::semantics::{fits_isize, trunc_div, is_print_name};
use crate::script::ast::{BinaryExprKind, UnaryExprKind, ExprModel, StmtModel, NodeModel};
use crate::script::object::{ObjModel, display};
use crate::script::eval::error::EvalError;

verus! {

/// The scopes of an environment, outermost first.
pub type Frames = Seq<Map<Seq<char>, ObjModel>>;

/// The outcome of a step that finishes: the scopes after it, what it printed, and its value
/// or error.
pub type Step = Option<(Frames, Seq<char>, Result<ObjModel, EvalError>)>;

/// Binds `key` to `value` in the innermost scope.
pub open spec fn frames_insert(f: Frames, key: Seq<char>, value: ObjModel) -> Frames {
    if f.len() == 0 {
        f
    } else {
        f.update(f.len() - 1, f.last().insert(key, value))
    }
}

/// Assigns `value` to `key` in the innermost scope that binds it, giving the scopes after
/// and the value replaced; `None` where no scope binds `key`.
pub open spec fn frames_update(f: Frames, key: Seq<char>, value: ObjModel) -> Option<(Frames, ObjModel)>
    decreases f.len(),
{
    if f.len() == 0 {
        None
    } else if f.last().contains_key(key) {
        Some((f.update(f.len() - 1, f.last().insert(key, value)), f.last()[key]))
    } else {
        match frames_update(f.drop_last(), key, value) {
            Some((rest, old)) => Some((rest.push(f.last()), old)),
            None => None,
        }
    }
}

/// The remainder of a division that rounds toward zero, as Rust's `%` on integers.
pub open spec fn trunc_rem(a: int, b: int) -> int {
    a - b * trunc_div(a, b)
}

/// Whether `a` comes before `b` in the order of strings: character by character, a proper
/// prefix first.
pub open spec fn text_lt(a: Seq<char>, b: Seq<char>) -> bool
    decreases a.len(),
{
    if a.len() == 0 {
        b.len() > 0
    } else if b.len() == 0 {
        false
    } else if a[0] != b[0] {
        (a[0] as u32) < (b[0] as u32)
    } else {
        text_lt(a.subrange(1, a.len() as int), b.subrange(1, b.len() as int))
    }
}

/// The arithmetic or comparison of two integers; `None` where it overflows or divides by zero.
pub open spec fn int_op(kind: BinaryExprKind, a: int, b: int) -> Option<ObjModel> {
    match kind {
        BinaryExprKind::Add => if fits_isize(a + b) { Some(ObjModel::Integer(a + b)) } else { None },
        BinaryExprKind::Sub => if fits_isize(a - b) { Some(ObjModel::Integer(a - b)) } else { None },
        BinaryExprKind::Mul => if fits_isize(a * b) { Some(ObjModel::Integer(a * b)) } else { None },
        BinaryExprKind::Div => if b != 0 && fits_isize(trunc_div(a, b)) {
            Some(ObjModel::Integer(trunc_div(a, b)))
        } else {
            None
        },
        BinaryExprKind::Mod => if b != 0 && fits_isize(trunc_div(a, b)) {
            Some(ObjModel::Integer(trunc_rem(a, b)))
        } else {
            None
        },
        BinaryExprKind::Lt => Some(ObjModel::Boolean(a < b)),
        BinaryExprKind::Le => Some(ObjModel::Boolean(a <= b)),
        BinaryExprKind::Gt => Some(ObjModel::Boolean(a > b)),
        BinaryExprKind::Ge => Some(ObjModel::Boolean(a >= b)),
        BinaryExprKind::Eq => Some(ObjModel::Boolean(a == b)),
        BinaryExprKind::Ne => Some(ObjModel::Boolean(a != b)),
    }
}

/// Concatenation and comparison of two strings.
pub open spec fn str_op(kind: BinaryExprKind, a: Seq<char>, b: Seq<char>) -> Result<ObjModel, EvalError> {
    match kind {
        BinaryExprKind::Add => Ok(ObjModel::Str(a + b)),
        BinaryExprKind::Lt => Ok(ObjModel::Boolean(text_lt(a, b))),
        BinaryExprKind::Le => Ok(ObjModel::Boolean(text_lt(a, b) || a == b)),
        BinaryExprKind::Gt => Ok(ObjModel::Boolean(text_lt(b, a))),
        BinaryExprKind::Ge => Ok(ObjModel::Boolean(text_lt(b, a) || a == b)),
        _ => Err(EvalError::EvalBinaryExpressionError),
    }
}

/// A binary operator applied to the values of its operands; `None` where it panics.
pub open spec fn binary_result(kind: BinaryExprKind, l: ObjModel, r: ObjModel) -> Option<Result<ObjModel, EvalError>> {
    if kind == BinaryExprKind::Eq {
        Some(Ok(ObjModel::Boolean(l == r)))
    } else if kind == BinaryExprKind::Ne {
        Some(Ok(ObjModel::Boolean(l != r)))
    } else {
        match (l, r) {
            (ObjModel::Integer(a), ObjModel::Integer(b)) => match int_op(kind, a, b) {
                Some(v) => Some(Ok(v)),
                None => None,
            },
            (ObjModel::Str(a), ObjModel::Str(b)) => Some(str_op(kind, a, b)),
            _ => Some(Err(EvalError::EvalBinaryExpressionError)),
        }
    }
}

/// A unary operator applied to the value of its operand; `None` where it overflows.
pub open spec fn unary_result(kind: UnaryExprKind, v: ObjModel) -> Option<Result<ObjModel, EvalError>> {
    match (kind, v) {
        (UnaryExprKind::Not, ObjModel::Boolean(b)) => Some(Ok(ObjModel::Boolean(!b))),
        (UnaryExprKind::Minus, ObjModel::Integer(i)) => if fits_isize(-i) {
            Some(Ok(ObjModel::Integer(-i)))
        } else {
            None
        },
        _ => Some(Err(EvalError::EvalUnaryExpressionError)),
    }
}

/// Whether a call goes to a printing builtin: `print` or `println` with one argument.
pub open spec fn is_builtin_call(name: ExprModel, args: Seq<ExprModel>) -> bool {
    name matches ExprModel::Ident(n) && is_print_name(n) && args.len() == 1
}

/// The text a printing builtin writes for `v`: `println` ends the line.
pub open spec fn print_text(name: ExprModel, v: ObjModel) -> Seq<char> {
    if name == ExprModel::Ident(seq!['p', 'r', 'i', 'n', 't', 'l', 'n']) {
        display(v).push('\n')
    } else {
        display(v)
    }
}

/// `step` with `out` printed before it.
pub open spec fn after(out: Seq<char>, step: Step) -> Step {
    match step {
        Some((f, o, r)) => Some((f, out + o, r)),
        None => None,
    }
}

/// `step` with its scopes replaced by `f`.
pub open spec fn with_frames(f: Frames, step: Step) -> Step {
    match step {
        Some((_, o, r)) => Some((f, o, r)),
        None => None,
    }
}

pub open spec fn ev_expr(fuel: nat, f: Frames, e: ExprModel) -> Step
    decreases fuel, 0nat,
{
    if fuel == 0 {
        None
    } else {
        let k = (fuel - 1) as nat;
        match e {
            ExprModel::Unary { kind, expr } => ev_unary(k, f, kind, *expr),
            ExprModel::If { condition, consequence, alternative } => ev_if(k, f, *condition, *consequence, alternative),
            ExprModel::Block(stmts) => ev_block(k, f, stmts),
            ExprModel::Call { name, args } => ev_call(k, f, *name, args),
            ExprModel::Binary { kind, lhs, rhs } => ev_binary(k, f, kind, *lhs, *rhs),
            ExprModel::Ident(name) => match scope_lookup(f, name) {
                Some(v) => Some((f, Seq::empty(), Ok(v))),
                None => Some((f, Seq::empty(), Err(EvalError::EvalIdentError))),
            },
            ExprModel::Integer(v) => Some((f, Seq::empty(), Ok(ObjModel::Integer(v)))),
            ExprModel::Boolean(b) => Some((f, Seq::empty(), Ok(ObjModel::Boolean(b)))),
            ExprModel::Str(t) => Some((f, Seq::empty(), Ok(ObjModel::Str(t)))),
        }
    }
}

pub open spec fn ev_unary(fuel: nat, f: Frames, kind: UnaryExprKind, expr: ExprModel) -> Step
    decreases fuel, 1nat,
{
    match ev_expr(fuel, f, expr) {
        Some((f1, o1, Ok(v))) => match unary_result(kind, v) {
            Some(r) => Some((f1, o1, r)),
            None => None,
        },
        other => other,
    }
}

pub open spec fn ev_if(fuel: nat, f: Frames, condition: ExprModel, consequence: ExprModel, alternative: Option<Box<ExprModel>>) -> Step
    decreases fuel, 1nat,
{
    match ev_expr(fuel, f, condition) {
        Some((f1, o1, Ok(c))) => if c == ObjModel::Boolean(true) {
            after(o1, ev_expr(fuel, f1, consequence))
        } else {
            match alternative {
                Some(a) => after(o1, ev_expr(fuel, f1, *a)),
                None => Some((f1, o1, Ok(ObjModel::Null))),
            }
        },
        other => other,
    }
}

/// A block: its statements in a new scope that ends with it.
pub open spec fn ev_block(fuel: nat, f: Frames, stmts: Seq<StmtModel>) -> Step
    decreases fuel, stmts.len() + 1,
{
    match ev_stmts(fuel, f.push(Map::empty()), stmts) {
        Some((f1, o1, r)) => Some((f1.drop_last(), o1, r)),
        None => None,
    }
}

pub open spec fn ev_binary(fuel: nat, f: Frames, kind: BinaryExprKind, lhs: ExprModel, rhs: ExprModel) -> Step
    decreases fuel, 1nat,
{
    match ev_expr(fuel, f, lhs) {
        Some((f1, o1, Ok(l))) => match ev_expr(fuel, f1, rhs) {
            Some((f2, o2, Ok(r))) => match binary_result(kind, l, r) {
                Some(res) => Some((f2, o1 + o2, res)),
                None => None,
            },
            other => after(o1, other),
        },
        other => other,
    }
}

/// A call: a printing builtin when its argument evaluates, else a call of the value of `name`.
pub open spec fn ev_call(fuel: nat, f: Frames, name: ExprModel, args: Seq<ExprModel>) -> Step
    decreases fuel, 0nat,
{
    if fuel == 0 {
        None
    } else {
        let k = (fuel - 1) as nat;
        if is_builtin_call(name, args) {
            match ev_expr(k, f, args[0]) {
                Some((f1, o1, Ok(v))) => Some((f1, o1 + print_text(name, v), Ok(ObjModel::Null))),
                Some((f1, o1, Err(_))) => after(o1, ev_user_call(k, f1, name, args)),
                None => None,
            }
        } else {
            ev_user_call(k, f, name, args)
        }
    }
}

/// A call of a function value: the arguments are bound to the parameters in a new scope
/// inside the caller's scopes, then the body is evaluated there; the caller's scopes stay
/// as they were.
pub open spec fn ev_user_call(fuel: nat, f: Frames, name: ExprModel, args: Seq<ExprModel>) -> Step
    decreases fuel, 0nat,
{
    if fuel == 0 {
        None
    } else {
        let k = (fuel - 1) as nat;
        match ev_expr(k, f, name) {
            Some((f1, o1, Ok(ObjModel::Function { params, body }))) => if params.len() != args.len() {
                Some((f1, o1, Err(EvalError::EvalCallExprError)))
            } else {
                match ev_bind(k, f1.push(Map::empty()), params, args) {
                    Some((g, o2, Ok(_))) => with_frames(f1, after(o1 + o2, ev_expr(k, g, body))),
                    Some((_, o2, Err(e))) => Some((f1, o1 + o2, Err(e))),
                    None => None,
                }
            },
            Some((f1, o1, Ok(_))) => Some((f1, o1, Err(EvalError::EvalCallExprError))),
            other => other,
        }
    }
}

/// Binds each parameter in turn to the value of its argument, evaluated in the scopes with
/// the parameters bound so far.
pub open spec fn ev_bind(fuel: nat, g: Frames, params: Seq<ExprModel>, args: Seq<ExprModel>) -> Step
    decreases fuel, params.len(),
{
    if params.len() == 0 || args.len() == 0 {
        Some((g, Seq::empty(), Ok(ObjModel::Null)))
    } else {
        match params[0] {
            ExprModel::Ident(p) => match ev_expr(fuel, g, args[0]) {
                Some((g1, o1, Ok(v))) => after(
                    o1,
                    ev_bind(fuel, frames_insert(g1, p, v), params.subrange(1, params.len() as int), args.subrange(1, args.len() as int)),
                ),
                other => other,
            },
            _ => Some((g, Seq::empty(), Err(EvalError::EvalCallExprError))),
        }
    }
}

pub open spec fn ev_stmt(fuel: nat, f: Frames, s: StmtModel) -> Step
    decreases fuel, 0nat,
{
    if fuel == 0 {
        None
    } else {
        let k = (fuel - 1) as nat;
        match s {
            StmtModel::Expr(e) => ev_expr(k, f, e),
            StmtModel::Let { name, value } => match ev_expr(k, f, value) {
                Some((f1, o1, Ok(v))) => match name {
                    ExprModel::Ident(n) => Some((frames_insert(f1, n, v), o1, Ok(ObjModel::Null))),
                    _ => Some((f1, o1, Err(EvalError::EvalLetStatementError))),
                },
                other => other,
            },
            StmtModel::LetFn { name, params, body } => match name {
                ExprModel::Ident(n) => Some(
                    (frames_insert(f, n, ObjModel::Function { params, body }), Seq::empty(), Ok(ObjModel::Null)),
                ),
                _ => Some((f, Seq::empty(), Err(EvalError::EvalFunctionDefinitionStatementError))),
            },
            StmtModel::Return(e) => ev_expr(k, f, e),
            StmtModel::While { condition, body } => ev_while(k, f, condition, body),
        }
    }
}

/// A loop: while the condition gives `true` the body is evaluated again.
pub open spec fn ev_while(fuel: nat, f: Frames, condition: ExprModel, body: ExprModel) -> Step
    decreases fuel, 0nat,
{
    if fuel == 0 {
        None
    } else {
        let k = (fuel - 1) as nat;
        match ev_expr(k, f, condition) {
            Some((f1, o1, Ok(c))) => if c == ObjModel::Boolean(true) {
                match ev_expr(k, f1, body) {
                    Some((f2, o2, Ok(_))) => after(o1 + o2, ev_while(k, f2, condition, body)),
                    other => after(o1, other),
                }
            } else {
                Some((f1, o1, Ok(ObjModel::Null)))
            },
            other => other,
        }
    }
}

/// Statements in order, up to the first that gives a value other than null.
pub open spec fn ev_stmts(fuel: nat, f: Frames, stmts: Seq<StmtModel>) -> Step
    decreases fuel, stmts.len(),
{
    if stmts.len() == 0 {
        Some((f, Seq::empty(), Ok(ObjModel::Null)))
    } else {
        match ev_stmt(fuel, f, stmts[0]) {
            Some((f1, o1, Ok(v))) => if v != ObjModel::Null {
                Some((f1, o1, Ok(v)))
            } else {
                after(o1, ev_stmts(fuel, f1, stmts.subrange(1, stmts.len() as int)))
            },
            other => other,
        }
    }
}

pub open spec fn ev_node(fuel: nat, f: Frames, node: NodeModel) -> Step {
    match node {
        NodeModel::Program(stmts) => ev_stmts(fuel, f, stmts),
        NodeModel::Statement(s) => ev_stmt(fuel, f, s),
        NodeModel::Expression(e) => ev_expr(fuel, f, e),
    }
}

/// Whether evaluating `node` from the scopes `f` finishes without a panic.
pub open spec fn finishes(f: Frames, node: NodeModel) -> bool {
    exists|fuel: nat| ev_node(fuel, f, node) is Some
}

/// The outcome of evaluating `node` from the scopes `f`, where it finishes.
pub open spec fn evaluation(f: Frames, node: NodeModel) -> Step {
    ev_node(choose|fuel: nat| ev_node(fuel, f, node) is Some, f, node)
}


/// Whether a step that finishes leaves as many scopes as it found, and every scope but the
/// innermost as it was.
pub open spec fn keeps_depth(step: Step, f: Frames) -> bool {
    step matches Some((f1, _, _)) ==> f1.len() == f.len() && f1.drop_last() == f.drop_last()
}

/// Binding a name changes the innermost scope only.
pub proof fn lemma_frames_insert_outer(f: Frames, key: Seq<char>, value: ObjModel)
    ensures
        frames_insert(f, key, value).len() == f.len(),
        frames_insert(f, key, value).drop_last() == f.drop_last(),
{
    assert(frames_insert(f, key, value).drop_last() =~= f.drop_last());
}

/// Evaluating an expression leaves as many scopes as it found and changes none but the
/// innermost: a block's scope ends with it, and a call's scopes are dropped when it returns.
pub proof fn lemma_ev_expr_depth(fuel: nat, f: Frames, e: ExprModel)
    ensures
        keeps_depth(ev_expr(fuel, f, e), f),
    decreases fuel, 0nat,
{
    if fuel > 0 {
        let k = (fuel - 1) as nat;
        match e {
            ExprModel::Unary { kind, expr } => {
                lemma_ev_expr_depth(k, f, *expr);
            },
            ExprModel::If { condition, consequence, alternative } => {
                lemma_ev_expr_depth(k, f, *condition);
                match ev_expr(k, f, *condition) {
                    Some((f1, _, Ok(_))) => {
                        lemma_ev_expr_depth(k, f1, *consequence);
                        match alternative {
                            Some(a) => {
                                lemma_ev_expr_depth(k, f1, *a);
                            },
                            None => {},
                        }
                    },
                    _ => {},
                }
            },
            ExprModel::Block(stmts) => {
                lemma_ev_stmts_depth(k, f.push(Map::empty()), stmts);
                assert(f.push(Map::empty()).drop_last() =~= f);
                match ev_stmts(k, f.push(Map::empty()), stmts) {
                    Some((f1, _, _)) => {
                        assert(f1.drop_last().drop_last() =~= f.drop_last());
                    },
                    None => {},
                }
            },
            ExprModel::Call { name, args } => {
                lemma_ev_call_depth(k, f, *name, args);
            },
            ExprModel::Binary { kind, lhs, rhs } => {
                lemma_ev_expr_depth(k, f, *lhs);
                match ev_expr(k, f, *lhs) {
                    Some((f1, _, Ok(_))) => {
                        lemma_ev_expr_depth(k, f1, *rhs);
                    },
                    _ => {},
                }
            },
            _ => {},
        }
    }
}

pub proof fn lemma_ev_call_depth(fuel: nat, f: Frames, name: ExprModel, args: Seq<ExprModel>)
    ensures
        keeps_depth(ev_call(fuel, f, name, args), f),
    decreases fuel, 0nat,
{
    if fuel > 0 {
        let k = (fuel - 1) as nat;
        if is_builtin_call(name, args) {
            lemma_ev_expr_depth(k, f, args[0]);
            match ev_expr(k, f, args[0]) {
                Some((f1, _, Err(_))) => {
                    lemma_ev_user_call_depth(k, f1, name, args);
                },
                _ => {},
            }
        } else {
            lemma_ev_user_call_depth(k, f, name, args);
        }
    }
}

pub proof fn lemma_ev_user_call_depth(fuel: nat, f: Frames, name: ExprModel, args: Seq<ExprModel>)
    ensures
        keeps_depth(ev_user_call(fuel, f, name, args), f),
    decreases fuel, 0nat,
{
    if fuel > 0 {
        let k = (fuel - 1) as nat;
        lemma_ev_expr_depth(k, f, name);
    }
}

pub proof fn lemma_ev_stmt_depth(fuel: nat, f: Frames, s: StmtModel)
    ensures
        keeps_depth(ev_stmt(fuel, f, s), f),
    decreases fuel, 0nat,
{
    if fuel > 0 {
        let k = (fuel - 1) as nat;
        match s {
            StmtModel::Expr(e) => {
                lemma_ev_expr_depth(k, f, e);
            },
            StmtModel::Let { name, value } => {
                lemma_ev_expr_depth(k, f, value);
                match ev_expr(k, f, value) {
                    Some((f1, _, Ok(v))) => match name {
                        ExprModel::Ident(n) => {
                            lemma_frames_insert_outer(f1, n, v);
                        },
                        _ => {},
                    },
                    _ => {},
                }
            },
            StmtModel::LetFn { name, params, body } => match name {
                ExprModel::Ident(n) => {
                    lemma_frames_insert_outer(f, n, ObjModel::Function { params, body });
                },
                _ => {},
            },
            StmtModel::Return(e) => {
                lemma_ev_expr_depth(k, f, e);
            },
            StmtModel::While { condition, body } => {
                lemma_ev_while_depth(k, f, condition, body);
            },
        }
    }
}

pub proof fn lemma_ev_while_depth(fuel: nat, f: Frames, condition: ExprModel, body: ExprModel)
    ensures
        keeps_depth(ev_while(fuel, f, condition, body), f),
    decreases fuel, 0nat,
{
    if fuel > 0 {
        let k = (fuel - 1) as nat;
        lemma_ev_expr_depth(k, f, condition);
        match ev_expr(k, f, condition) {
            Some((f1, _, Ok(_))) => {
                lemma_ev_expr_depth(k, f1, body);
                match ev_expr(k, f1, body) {
                    Some((f2, _, Ok(_))) => {
                        lemma_ev_while_depth(k, f2, condition, body);
                    },
                    _ => {},
                }
            },
            _ => {},
        }
    }
}

pub proof fn lemma_ev_stmts_depth(fuel: nat, f: Frames, stmts: Seq<StmtModel>)
    ensures
        keeps_depth(ev_stmts(fuel, f, stmts), f),
    decreases fuel, stmts.len(),
{
    if stmts.len() > 0 {
        lemma_ev_stmt_depth(fuel, f, stmts[0]);
        match ev_stmt(fuel, f, stmts[0]) {
            Some((f1, _, Ok(_))) => {
                lemma_ev_stmts_depth(fuel, f1, stmts.subrange(1, stmts.len() as int));
            },
            _ => {},
        }
    }
}

/// Evaluating a node leaves as many scopes as it found.
pub proof fn lemma_ev_node_depth(fuel: nat, f: Frames, node: NodeModel)
    ensures
        keeps_depth(ev_node(fuel, f, node), f),
{
    match node {
        NodeModel::Program(stmts) => lemma_ev_stmts_depth(fuel, f, stmts),
        NodeModel::Statement(s) => lemma_ev_stmt_depth(fuel, f, s),
        NodeModel::Expression(e) => lemma_ev_expr_depth(fuel, f, e),
    }
}

/// A block's bindings end with it: after a block the scopes are those before it.
pub proof fn lemma_block_restores(fuel: nat, f: Frames, stmts: Seq<StmtModel>)
    ensures
        ev_block(fuel, f, stmts) matches Some((f1, _, _)) ==> f1 == f,
{
    lemma_ev_stmts_depth(fuel, f.push(Map::empty()), stmts);
    assert(f.push(Map::empty()).drop_last() =~= f);
}

/// Evaluating an expression leaves the scopes as they were: only statements bind names,
/// and those inside an expression belong to a block or a call, whose scopes end with it.
pub proof fn lemma_ev_expr_pure(fuel: nat, f: Frames, e: ExprModel)
    ensures
        ev_expr(fuel, f, e) matches Some((f1, _, _)) ==> f1 == f,
    decreases fuel, 0nat,
{
    if fuel > 0 {
        let k = (fuel - 1) as nat;
        match e {
            ExprModel::Unary { kind, expr } => {
                lemma_ev_expr_pure(k, f, *expr);
            },
            ExprModel::If { condition, consequence, alternative } => {
                lemma_ev_expr_pure(k, f, *condition);
                lemma_ev_expr_pure(k, f, *consequence);
                match alternative {
                    Some(a) => {
                        lemma_ev_expr_pure(k, f, *a);
                    },
                    None => {},
                }
            },
            ExprModel::Block(stmts) => {
                lemma_block_restores(k, f, stmts);
            },
            ExprModel::Call { name, args } => {
                lemma_ev_call_pure(k, f, *name, args);
            },
            ExprModel::Binary { kind, lhs, rhs } => {
                lemma_ev_expr_pure(k, f, *lhs);
                lemma_ev_expr_pure(k, f, *rhs);
            },
            _ => {},
        }
    }
}

/// A call leaves the caller's scopes as they were.
pub proof fn lemma_ev_call_pure(fuel: nat, f: Frames, name: ExprModel, args: Seq<ExprModel>)
    ensures
        ev_call(fuel, f, name, args) matches Some((f1, _, _)) ==> f1 == f,
    decreases fuel, 0nat,
{
    if fuel > 0 {
        let k = (fuel - 1) as nat;
        if is_builtin_call(name, args) {
            lemma_ev_expr_pure(k, f, args[0]);
        }
        if k > 0 {
            lemma_ev_expr_pure((k - 1) as nat, f, name);
        }
    }
}

/// Reading a name right after binding it gives the value bound.
pub proof fn lemma_lookup_after_insert(f: Frames, key: Seq<char>, value: ObjModel)
    requires
        f.len() > 0,
    ensures
        scope_lookup(frames_insert(f, key, value), key) == Some(value),
{
    assert(frames_insert(f, key, value).last() == f.last().insert(key, value));
}

/// Assigning to a name succeeds exactly where some scope binds it, and reading the name
/// afterwards gives the value assigned.
pub proof fn lemma_update_then_lookup(f: Frames, key: Seq<char>, value: ObjModel)
    ensures
        frames_update(f, key, value) is Some <==> scope_lookup(f, key) is Some,
        frames_update(f, key, value) matches Some((g, old)) ==> scope_lookup(g, key) == Some(value)
            && scope_lookup(f, key) == Some(old) && g.len() == f.len(),
    decreases f.len(),
{
    if f.len() > 0 {
        if f.last().contains_key(key) {
            let g = f.update(f.len() - 1, f.last().insert(key, value));
            assert(g.last() == f.last().insert(key, value));
        } else {
            lemma_update_then_lookup(f.drop_last(), key, value);
            match frames_update(f.drop_last(), key, value) {
                Some((rest, old)) => {
                    let g = rest.push(f.last());
                    assert(g.drop_last() =~= rest);
                    assert(g.last() == f.last());
                },
                None => {},
            }
        }
    }
}

/// A read gives back what a `let` wrote: `let name = v; name` evaluates to `v`, prints
/// nothing, and leaves `name` bound to `v`.
pub proof fn lemma_let_then_read(fuel: nat, f: Frames, name: Seq<char>, v: int)
    requires
        fuel >= 2,
        f.len() > 0,
    ensures
        ev_stmts(
            fuel,
            f,
            seq![
                StmtModel::Let { name: ExprModel::Ident(name), value: ExprModel::Integer(v) },
                StmtModel::Expr(ExprModel::Ident(name)),
            ],
        ) == Some((frames_insert(f, name, ObjModel::Integer(v)), Seq::<char>::empty(), Ok::<ObjModel, EvalError>(ObjModel::Integer(v)))),
{
    let stmts = seq![
        StmtModel::Let { name: ExprModel::Ident(name), value: ExprModel::Integer(v) },
        StmtModel::Expr(ExprModel::Ident(name)),
    ];
    let f1 = frames_insert(f, name, ObjModel::Integer(v));
    lemma_lookup_after_insert(f, name, ObjModel::Integer(v));
    let rest = stmts.subrange(1, stmts.len() as int);
    assert(rest =~= seq![StmtModel::Expr(ExprModel::Ident(name))]);
    assert(rest.subrange(1, rest.len() as int) =~= Seq::<StmtModel>::empty());
    assert(ev_stmt(fuel, f, stmts[0]) == Some((f1, Seq::<char>::empty(), Ok::<ObjModel, EvalError>(ObjModel::Null))));
    assert(ev_stmt(fuel, f1, rest[0]) == Some((f1, Seq::<char>::empty(), Ok::<ObjModel, EvalError>(ObjModel::Integer(v)))));
    assert(ev_stmts(fuel, f1, rest) == Some((f1, Seq::<char>::empty(), Ok::<ObjModel, EvalError>(ObjModel::Integer(v)))));
    assert(Seq::<char>::empty() + Seq::<char>::empty() =~= Seq::<char>::empty());
}

/// Whether the comparison `kind` holds of the integers `a` and `b` when the program compares
/// them: the operator gives the boolean `true`.
pub open spec fn compares_true(kind: BinaryExprKind, a: int, b: int) -> bool {
    binary_result(kind, ObjModel::Integer(a), ObjModel::Integer(b)) == Some(
        Ok::<ObjModel, EvalError>(ObjModel::Boolean(true)),
    )
}

/// On integers the comparison operators follow the order of the integers: each gives a
/// boolean, and that boolean is the truth of the same comparison of the two numbers. So `<`
/// and `>=` are complements, `<` and `>` are converses, `<=` is `<` or `==`, and `<=`, `>=`
/// and `==` hold of every number and itself while `<`, `>` and `!=` do not.
pub proof fn lemma_integer_comparisons(a: int, b: int)
    ensures
        binary_result(BinaryExprKind::Lt, ObjModel::Integer(a), ObjModel::Integer(b))
            == Some(Ok::<ObjModel, EvalError>(ObjModel::Boolean(a < b))),
        binary_result(BinaryExprKind::Le, ObjModel::Integer(a), ObjModel::Integer(b))
            == Some(Ok::<ObjModel, EvalError>(ObjModel::Boolean(a <= b))),
        binary_result(BinaryExprKind::Gt, ObjModel::Integer(a), ObjModel::Integer(b))
            == Some(Ok::<ObjModel, EvalError>(ObjModel::Boolean(a > b))),
        binary_result(BinaryExprKind::Ge, ObjModel::Integer(a), ObjModel::Integer(b))
            == Some(Ok::<ObjModel, EvalError>(ObjModel::Boolean(a >= b))),
        binary_result(BinaryExprKind::Eq, ObjModel::Integer(a), ObjModel::Integer(b))
            == Some(Ok::<ObjModel, EvalError>(ObjModel::Boolean(a == b))),
        binary_result(BinaryExprKind::Ne, ObjModel::Integer(a), ObjModel::Integer(b))
            == Some(Ok::<ObjModel, EvalError>(ObjModel::Boolean(a != b))),
        compares_true(BinaryExprKind::Ge, a, b) <==> !compares_true(BinaryExprKind::Lt, a, b),
        compares_true(BinaryExprKind::Le, a, b) <==> !compares_true(BinaryExprKind::Gt, a, b),
        compares_true(BinaryExprKind::Gt, a, b) <==> compares_true(BinaryExprKind::Lt, b, a),
        compares_true(BinaryExprKind::Ge, a, b) <==> compares_true(BinaryExprKind::Le, b, a),
        compares_true(BinaryExprKind::Le, a, b) <==> (compares_true(BinaryExprKind::Lt, a, b)
            || compares_true(BinaryExprKind::Eq, a, b)),
        compares_true(BinaryExprKind::Ne, a, b) <==> !compares_true(BinaryExprKind::Eq, a, b),
        compares_true(BinaryExprKind::Le, a, a),
        compares_true(BinaryExprKind::Ge, a, a),
        compares_true(BinaryExprKind::Eq, a, a),
        !compares_true(BinaryExprKind::Lt, a, a),
        !compares_true(BinaryExprKind::Gt, a, a),
        !compares_true(BinaryExprKind::Ne, a, a),
{
}

/// On integers whose results fit, `+`, `-` and `*` give the sum, difference and product,
/// and subtracting what was added gives back the number added to.
pub proof fn lemma_integer_arithmetic(a: int, b: int)
    ensures
        fits_isize(a + b) ==> binary_result(BinaryExprKind::Add, ObjModel::Integer(a), ObjModel::Integer(b))
            == Some(Ok::<ObjModel, EvalError>(ObjModel::Integer(a + b))),
        fits_isize(a - b) ==> binary_result(BinaryExprKind::Sub, ObjModel::Integer(a), ObjModel::Integer(b))
            == Some(Ok::<ObjModel, EvalError>(ObjModel::Integer(a - b))),
        fits_isize(a * b) ==> binary_result(BinaryExprKind::Mul, ObjModel::Integer(a), ObjModel::Integer(b))
            == Some(Ok::<ObjModel, EvalError>(ObjModel::Integer(a * b))),
        fits_isize(a) && fits_isize(a + b) ==> binary_result(
            BinaryExprKind::Sub,
            binary_result(BinaryExprKind::Add, ObjModel::Integer(a), ObjModel::Integer(b)).unwrap().unwrap(),
            ObjModel::Integer(b),
        ) == Some(Ok::<ObjModel, EvalError>(ObjModel::Integer(a))),
{
}

/// No string comes before itself.
pub proof fn lemma_text_lt_irreflexive(a: Seq<char>)
    ensures
        !text_lt(a, a),
    decreases a.len(),
{
    if a.len() > 0 {
        lemma_text_lt_irreflexive(a.subrange(1, a.len() as int));
    }
}

/// Of two strings at most one comes before the other.
pub proof fn lemma_text_lt_asymmetric(a: Seq<char>, b: Seq<char>)
    ensures
        !(text_lt(a, b) && text_lt(b, a)),
    decreases a.len(),
{
    if a.len() > 0 && b.len() > 0 && a[0] == b[0] {
        lemma_text_lt_asymmetric(a.subrange(1, a.len() as int), b.subrange(1, b.len() as int));
    }
}

/// Every character of `s` is a Unicode scalar value, as every `char` is.
pub open spec fn scalar_values(s: Seq<char>) -> bool {
    forall|i: int| 0 <= i < s.len() ==> 0 <= #[trigger] (s[i] as int) <= 0x10FFFF
}

/// Of two different strings one comes before the other.
pub proof fn lemma_text_lt_total(a: Seq<char>, b: Seq<char>)
    requires
        a != b,
        scalar_values(a),
        scalar_values(b),
    ensures
        text_lt(a, b) || text_lt(b, a),
    decreases a.len(),
{
    if a.len() == 0 {
        assert(b.len() > 0) by {
            if b.len() == 0 {
                assert(a =~= b);
            }
        }
    } else if b.len() == 0 {
    } else if a[0] != b[0] {
        let (x, y) = (a[0], b[0]);
        assert(x as int != y as int);
        assert((x as u32) as int == x as int);
        assert((y as u32) as int == y as int);
    } else {
        let ta = a.subrange(1, a.len() as int);
        let tb = b.subrange(1, b.len() as int);
        assert(ta != tb) by {
            if ta == tb {
                assert(a =~= seq![a[0]] + ta);
                assert(b =~= seq![b[0]] + tb);
            }
        }
        assert(scalar_values(ta)) by {
            assert forall|i: int| 0 <= i < ta.len() implies 0 <= #[trigger] (ta[i] as int) <= 0x10FFFF by {
                assert(ta[i] == a[i + 1]);
            }
        }
        assert(scalar_values(tb)) by {
            assert forall|i: int| 0 <= i < tb.len() implies 0 <= #[trigger] (tb[i] as int) <= 0x10FFFF by {
                assert(tb[i] == b[i + 1]);
            }
        }
        lemma_text_lt_total(ta, tb);
    }
}

/// A string comes before every longer string that begins with it.
pub proof fn lemma_text_lt_prefix(a: Seq<char>, c: Seq<char>)
    requires
        c.len() > 0,
    ensures
        text_lt(a, a + c),
    decreases a.len(),
{
    if a.len() > 0 {
        let ac = a + c;
        assert(ac[0] == a[0]);
        assert(ac.subrange(1, ac.len() as int) =~= a.subrange(1, a.len() as int) + c);
        lemma_text_lt_prefix(a.subrange(1, a.len() as int), c);
    }
}

/// Whether the comparison `kind` holds of the strings `a` and `b` when the program compares
/// them: the operator gives the boolean `true`.
pub open spec fn text_compares_true(kind: BinaryExprKind, a: Seq<char>, b: Seq<char>) -> bool {
    binary_result(kind, ObjModel::Str(a), ObjModel::Str(b)) == Some(
        Ok::<ObjModel, EvalError>(ObjModel::Boolean(true)),
    )
}

/// On strings the comparison operators follow one order, the order of `text_lt`, in which
/// no string comes before itself, of two different strings (of characters, each a Unicode
/// scalar value) exactly one comes first, and a
/// string comes before the longer strings that begin with it. So `<` and `>=` are
/// complements, `<` and `>` are converses, `<=`, `>=` and `==` hold of every string and
/// itself, and `+` joins two strings into one that begins with the first.
pub proof fn lemma_text_comparisons(a: Seq<char>, b: Seq<char>)
    requires
        scalar_values(a),
        scalar_values(b),
    ensures
        text_compares_true(BinaryExprKind::Ge, a, b) <==> !text_compares_true(BinaryExprKind::Lt, a, b),
        text_compares_true(BinaryExprKind::Le, a, b) <==> !text_compares_true(BinaryExprKind::Gt, a, b),
        text_compares_true(BinaryExprKind::Gt, a, b) <==> text_compares_true(BinaryExprKind::Lt, b, a),
        text_compares_true(BinaryExprKind::Le, a, b) <==> (text_compares_true(BinaryExprKind::Lt, a, b)
            || text_compares_true(BinaryExprKind::Eq, a, b)),
        text_compares_true(BinaryExprKind::Eq, a, b) <==> a == b,
        text_compares_true(BinaryExprKind::Le, a, a),
        text_compares_true(BinaryExprKind::Ge, a, a),
        !text_compares_true(BinaryExprKind::Lt, a, a),
        !text_compares_true(BinaryExprKind::Gt, a, a),
        b.len() > 0 ==> text_compares_true(BinaryExprKind::Lt, a, a + b),
        binary_result(BinaryExprKind::Add, ObjModel::Str(a), ObjModel::Str(b)) == Some(
            Ok::<ObjModel, EvalError>(ObjModel::Str(a + b)),
        ),
{
    lemma_text_lt_irreflexive(a);
    lemma_text_lt_asymmetric(a, b);
    if a != b {
        lemma_text_lt_total(a, b);
    }
    if b.len() > 0 {
        lemma_text_lt_prefix(a, b);
    }
    assert(ObjModel::Str(a) == ObjModel::Str(b) <==> a == b);
}

/// The unary operators: `-` gives the negation of an integer, so that negating twice gives
/// the integer back, and `!` gives the other boolean, so that it too undoes itself.
pub proof fn lemma_unary_operators(i: int, b: bool)
    requires
        fits_isize(i),
        fits_isize(-i),
    ensures
        unary_result(UnaryExprKind::Minus, ObjModel::Integer(i)) == Some(Ok::<ObjModel, EvalError>(ObjModel::Integer(-i))),
        unary_result(UnaryExprKind::Minus, unary_result(UnaryExprKind::Minus, ObjModel::Integer(i)).unwrap()->Ok_0)
            == Some(Ok::<ObjModel, EvalError>(ObjModel::Integer(i))),
        unary_result(UnaryExprKind::Not, ObjModel::Boolean(b)) == Some(Ok::<ObjModel, EvalError>(ObjModel::Boolean(!b))),
        unary_result(UnaryExprKind::Not, unary_result(UnaryExprKind::Not, ObjModel::Boolean(b)).unwrap()->Ok_0)
            == Some(Ok::<ObjModel, EvalError>(ObjModel::Boolean(b))),
{
}

/// An `if` chooses by its condition: where the condition evaluates to `true`, the `if`
/// evaluates to what the consequence does, from the scopes the condition left and after
/// what the condition printed; where it evaluates to any other value, to what the
/// alternative does, or to the null value where there is none.
pub proof fn lemma_if_chooses(
    fuel: nat,
    f: Frames,
    condition: ExprModel,
    consequence: ExprModel,
    alternative: Option<Box<ExprModel>>,
    f1: Frames,
    printed: Seq<char>,
    c: ObjModel,
)
    requires
        ev_expr(fuel, f, condition) == Some((f1, printed, Ok::<ObjModel, EvalError>(c))),
    ensures
        ({
            let e = ExprModel::If { condition: Box::new(condition), consequence: Box::new(consequence), alternative };
            &&& c == ObjModel::Boolean(true) ==> ev_expr(fuel + 1, f, e) == after(printed, ev_expr(fuel, f1, consequence))
            &&& c != ObjModel::Boolean(true) ==> ev_expr(fuel + 1, f, e) == match alternative {
                Some(a) => after(printed, ev_expr(fuel, f1, *a)),
                None => Some((f1, printed, Ok::<ObjModel, EvalError>(ObjModel::Null))),
            }
        }),
{
}
} // verus!
