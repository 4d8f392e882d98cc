//! What type resolution computes: each step as a function of the resolver's state and the
//! typed expression before it, giving the state after it, the expression with its types
//! and offsets filled in as far as the step got, and the type or the error. A step is given
//! `fuel`, a bound on the depth of nested resolution; a step that does not finish within its
//! fuel, or that would stop with a panic (a name that is not declared, an offset that
//! overflows), has no result.
use vstd::prelude::*;
use crate::ast::{BinaryExprKind, UnaryExprKind, ExprModel};
use crate::ty::{TypeModel, size_of, size_fits, assignable, kind_of_name};
use crate::environment::scope_lookup;
use crate::typing::typed::{TExpr, TKind, TStmt, TNode, typed_of, untyped_of};
use crate::eval::semantics::{Machine, EvalErrModel, binary_result};
use crate::object::ObjModel;

verus! {

/// The abstract value of a type error.
pub enum TcErr {
    TypeError { expected: TypeModel, actual: TypeModel },
    AmbiguousTypeExprError(TExpr),
    NotCallableError(TExpr),
    NotIdentError(TExpr),
}

/// The state of a resolver: its scopes, each mapping a name to its type and stack offset,
/// innermost last; and the offset of the last variable placed.
pub struct RState {
    pub scopes: Seq<Map<Seq<char>, (TypeModel, isize)>>,
    pub offset: int,
}

pub type RStep = Option<(RState, TExpr, Result<TypeModel, TcErr>)>;

/// The state of a new resolver.
pub open spec fn initial_rstate() -> RState {
    RState { scopes: seq![Map::empty()], offset: 0 }
}

pub open spec fn with_ty(e: TExpr, ty: TypeModel) -> TExpr {
    TExpr { kind: e.kind, ty }
}

pub open spec fn enter(st: RState) -> RState {
    RState { scopes: st.scopes.push(Map::empty()), offset: st.offset }
}

pub open spec fn leave(st: RState) -> RState {
    if st.scopes.len() > 1 {
        RState { scopes: st.scopes.drop_last(), offset: st.offset }
    } else {
        st
    }
}

pub open spec fn is_comparison(kind: BinaryExprKind) -> bool {
    kind == BinaryExprKind::Eq || kind == BinaryExprKind::Ne || kind == BinaryExprKind::Lt || kind
        == BinaryExprKind::Le || kind == BinaryExprKind::Gt || kind == BinaryExprKind::Ge
}

pub open spec fn ptr_to_unknown() -> TypeModel {
    TypeModel::Ptr { to: Box::new(TypeModel::Unknown) }
}

/// Places the variable `name` of type `ty` after the last one: its offset grows by the size
/// of the type, and it is bound in the innermost scope.
pub open spec fn create_ident(st: RState, name: TExpr, ty: TypeModel) -> Option<(RState, TExpr, Result<(), TcErr>)> {
    match name.kind {
        TKind::Ident { name: n, .. } => if size_fits(ty) && isize::MIN <= st.offset + size_of(ty) <= isize::MAX {
            let off = st.offset + size_of(ty);
            let placed = TExpr { kind: TKind::Ident { name: n, offset: off }, ty: name.ty };
            let scopes = if st.scopes.len() == 0 {
                st.scopes
            } else {
                st.scopes.update(st.scopes.len() - 1, st.scopes.last().insert(n, (ty, off as isize)))
            };
            Some((RState { scopes, offset: off }, placed, Ok(())))
        } else {
            None
        },
        _ => Some((st, name, Err(TcErr::NotIdentError(name)))),
    }
}

/// Places each parameter in turn; `done` holds those placed.
pub open spec fn create_params(st: RState, done: Seq<(TExpr, TypeModel)>, rest: Seq<(TExpr, TypeModel)>) -> Option<
    (RState, Seq<(TExpr, TypeModel)>, Result<(), TcErr>),
>
    decreases rest.len(),
{
    if rest.len() == 0 {
        Some((st, done, Ok(())))
    } else {
        match create_ident(st, rest[0].0, rest[0].1) {
            None => None,
            Some((st1, p, Err(x))) => Some((st1, done.push((p, rest[0].1)) + rest.drop_first(), Err(x))),
            Some((st1, p, Ok(()))) => create_params(st1, done.push((p, rest[0].1)), rest.drop_first()),
        }
    }
}

/// Resolves the type of an expression.
pub open spec fn rs_expr(fuel: nat, st: RState, e: TExpr) -> RStep
    decreases fuel, 0int, 0int,
{
    if fuel == 0 {
        None
    } else {
        let f = (fuel - 1) as nat;
        match e.kind {
            TKind::Integer(_) => Some((st, with_ty(e, TypeModel::Int), Ok(TypeModel::Int))),
            TKind::Boolean(_) => Some((st, with_ty(e, TypeModel::Bool), Ok(TypeModel::Bool))),
            TKind::Ident { name, .. } => match scope_lookup(st.scopes, name) {
                None => None,
                Some((ity, off)) => {
                    let e1 = TExpr { kind: TKind::Ident { name, offset: off as int }, ty: e.ty };
                    if ity == TypeModel::Unknown {
                        Some((st, e1, Err(TcErr::AmbiguousTypeExprError(e1))))
                    } else if e.ty != TypeModel::Unknown && e.ty == ity {
                        Some((st, e1, Err(TcErr::TypeError { expected: ity, actual: e.ty })))
                    } else {
                        Some((st, with_ty(e1, ity), Ok(ity)))
                    }
                },
            },
            TKind::Binary { kind, lhs, rhs } => rs_binary(f, st, e.ty, kind, *lhs, *rhs),
            TKind::Let { name, value, ty } => rs_let(f, st, e.ty, *name, *value, ty),
            TKind::Block(stmts) => rs_block(f, st, e.ty, stmts),
            TKind::Call { func, args } => rs_call(f, st, e.ty, *func, args),
            TKind::FnDef { name, params, return_ty, body } => rs_fndef(f, st, e.ty, *name, params, return_ty, *body),
            TKind::If { condition, consequence, alternative } => rs_if(
                f,
                st,
                e.ty,
                *condition,
                *consequence,
                alternative,
            ),
            TKind::Return(value) => rs_return(f, st, e.ty, *value),
            TKind::Unary { kind, expr } => rs_unary(f, st, e.ty, kind, *expr),
            TKind::Array(elements) => rs_array(f, st, e.ty, elements),
            TKind::Index { array, index } => rs_index(f, st, e.ty, *array, *index),
        }
    }
}

pub open spec fn binary_of(kind: BinaryExprKind, lhs: TExpr, rhs: TExpr, ty: TypeModel) -> TExpr {
    TExpr { kind: TKind::Binary { kind, lhs: Box::new(lhs), rhs: Box::new(rhs) }, ty }
}

/// Pointer arithmetic is rewritten: a pointer plus or minus an integer scales the integer by
/// the size of the pointer, and the difference of two pointers is divided by it.
pub open spec fn scaled_offset(lhs: TExpr, rhs: TExpr) -> TExpr {
    typed_of(
        ExprModel::Binary {
            kind: BinaryExprKind::Mul,
            lhs: Box::new(untyped_of(rhs)),
            rhs: Box::new(ExprModel::Integer(size_of(lhs.ty))),
        },
    )
}

pub open spec fn pointer_distance(lhs: TExpr, rhs: TExpr) -> TExpr {
    typed_of(
        ExprModel::Binary {
            kind: BinaryExprKind::Div,
            lhs: Box::new(
                ExprModel::Binary {
                    kind: BinaryExprKind::Sub,
                    lhs: Box::new(untyped_of(lhs)),
                    rhs: Box::new(untyped_of(rhs)),
                },
            ),
            rhs: Box::new(ExprModel::Integer(size_of(lhs.ty))),
        },
    )
}

/// The type of a binary expression whose operands are resolved.
pub open spec fn binary_typing(fuel: nat, st: RState, ty0: TypeModel, kind: BinaryExprKind, l: TExpr, r: TExpr) -> RStep
    decreases fuel, 1int, 0int,
{
    if is_comparison(kind) {
        Some((st, binary_of(kind, l, r, TypeModel::Bool), Ok(TypeModel::Bool)))
    } else if kind == BinaryExprKind::Add || kind == BinaryExprKind::Sub {
        match (l.ty, r.ty) {
            (TypeModel::Int, TypeModel::Int) => Some((st, binary_of(kind, l, r, l.ty), Ok(l.ty))),
            (TypeModel::Ptr { .. }, TypeModel::Int) => match rs_expr(fuel, st, scaled_offset(l, r)) {
                None => None,
                Some((st1, r1, Err(x))) => Some((st1, binary_of(kind, l, r1, l.ty), Err(x))),
                Some((st1, r1, Ok(_))) => Some((st1, binary_of(kind, l, r1, l.ty), Ok(l.ty))),
            },
            (TypeModel::Ptr { .. }, TypeModel::Ptr { .. }) => match rs_expr(fuel, st, pointer_distance(l, r)) {
                None => None,
                Some((st1, r1, Err(x))) => Some((st1, binary_of(kind, l, r1, l.ty), Err(x))),
                Some((st1, r1, Ok(_))) => Some((st1, binary_of(kind, l, r1, l.ty), Ok(l.ty))),
            },
            _ => Some((st, binary_of(kind, l, r, ty0), Err(TcErr::TypeError { expected: TypeModel::Int, actual: l.ty }))),
        }
    } else if kind == BinaryExprKind::Assign {
        if !assignable(l.ty, r.ty) {
            Some((st, binary_of(kind, l, r, ty0), Err(TcErr::TypeError { expected: l.ty, actual: r.ty })))
        } else {
            Some((st, binary_of(kind, l, r, l.ty), Ok(l.ty)))
        }
    } else {
        Some((st, binary_of(kind, l, r, l.ty), Ok(l.ty)))
    }
}

pub open spec fn rs_binary(fuel: nat, st: RState, ty0: TypeModel, kind: BinaryExprKind, lhs: TExpr, rhs: TExpr) -> RStep
    decreases fuel, 2int, 0int,
{
    match rs_expr(fuel, st, lhs) {
        None => None,
        Some((st1, l1, Err(x))) => Some((st1, binary_of(kind, l1, rhs, ty0), Err(x))),
        Some((st1, l1, Ok(_))) => match rs_expr(fuel, st1, rhs) {
            None => None,
            Some((st2, r2, Err(x))) => Some((st2, binary_of(kind, l1, r2, ty0), Err(x))),
            Some((st2, r2, Ok(_))) => binary_typing(fuel, st2, ty0, kind, l1, r2),
        },
    }
}

pub open spec fn let_of(name: TExpr, value: TExpr, ty: TypeModel, ty0: TypeModel) -> TExpr {
    TExpr { kind: TKind::Let { name: Box::new(name), value: Box::new(value), ty }, ty: ty0 }
}

/// A `let` checks that the value can be stored in the declared type, then places the variable.
pub open spec fn rs_let(fuel: nat, st: RState, ty0: TypeModel, name: TExpr, value: TExpr, ty: TypeModel) -> RStep
    decreases fuel, 2int, 0int,
{
    match rs_expr(fuel, st, value) {
        None => None,
        Some((st1, v1, Err(x))) => Some((st1, let_of(name, v1, ty, ty0), Err(x))),
        Some((st1, v1, Ok(_))) => if !assignable(v1.ty, ty) {
            Some((st1, let_of(name, v1, ty, ty0), Err(TcErr::TypeError { expected: ty, actual: v1.ty })))
        } else {
            match create_ident(st1, with_ty(name, ty), ty) {
                None => None,
                Some((st2, n2, Err(x))) => Some((st2, let_of(n2, v1, ty, ty), Err(x))),
                Some((st2, n2, Ok(()))) => Some((st2, let_of(n2, v1, ty, ty), Ok(ty))),
            }
        },
    }
}

/// A statement without ';' has the type of its expression; with ';' it has none.
pub open spec fn rs_stmt(fuel: nat, st: RState, s: TStmt) -> Option<(RState, TStmt, Result<TypeModel, TcErr>)>
    decreases fuel, 1int, 0int,
{
    match s {
        TStmt::Expr(e) => match rs_expr(fuel, st, e) {
            None => None,
            Some((st1, e1, Err(x))) => Some((st1, TStmt::Expr(e1), Err(x))),
            Some((st1, e1, Ok(_))) => Some((st1, TStmt::Expr(e1), Ok(TypeModel::Never))),
        },
        TStmt::Return(e) => match rs_expr(fuel, st, e) {
            None => None,
            Some((st1, e1, Err(x))) => Some((st1, TStmt::Return(e1), Err(x))),
            Some((st1, e1, Ok(t))) => Some((st1, TStmt::Return(e1), Ok(t))),
        },
    }
}

/// Statements resolved in turn; the type is that of the last one.
pub open spec fn rs_stmts(fuel: nat, st: RState, done: Seq<TStmt>, rest: Seq<TStmt>, ty: TypeModel) -> Option<
    (RState, Seq<TStmt>, Result<TypeModel, TcErr>),
>
    decreases fuel, 2int, rest.len(),
{
    if rest.len() == 0 {
        Some((st, done, Ok(ty)))
    } else {
        match rs_stmt(fuel, st, rest[0]) {
            None => None,
            Some((st1, s1, Err(x))) => Some((st1, done.push(s1) + rest.drop_first(), Err(x))),
            Some((st1, s1, Ok(t))) => rs_stmts(fuel, st1, done.push(s1), rest.drop_first(), t),
        }
    }
}

/// A block resolves its statements in a scope of its own, closed when they all resolve.
pub open spec fn rs_block(fuel: nat, st: RState, ty0: TypeModel, stmts: Seq<TStmt>) -> RStep
    decreases fuel, 3int, 0int,
{
    match rs_stmts(fuel, enter(st), Seq::empty(), stmts, TypeModel::Never) {
        None => None,
        Some((st1, ss, Err(x))) => Some((st1, TExpr { kind: TKind::Block(ss), ty: ty0 }, Err(x))),
        Some((st1, ss, Ok(t))) => Some((leave(st1), TExpr { kind: TKind::Block(ss), ty: t }, Ok(t))),
    }
}

/// The arguments of a call, each resolved and checked against its parameter's type; the
/// arguments beyond the parameters are left as they are.
pub open spec fn rs_call_args(
    fuel: nat,
    st: RState,
    done: Seq<TExpr>,
    rest: Seq<TExpr>,
    params: Seq<TypeModel>,
) -> Option<(RState, Seq<TExpr>, Result<(), TcErr>)>
    decreases fuel, 2int, rest.len(),
{
    if rest.len() == 0 || params.len() == 0 {
        Some((st, done + rest, Ok(())))
    } else {
        match rs_expr(fuel, st, rest[0]) {
            None => None,
            Some((st1, a1, Err(x))) => Some((st1, done.push(a1) + rest.drop_first(), Err(x))),
            Some((st1, a1, Ok(_))) => if a1.ty != params[0] {
                Some((
                    st1,
                    done.push(a1) + rest.drop_first(),
                    Err(TcErr::TypeError { expected: params[0], actual: a1.ty }),
                ))
            } else {
                rs_call_args(fuel, st1, done.push(a1), rest.drop_first(), params.drop_first())
            },
        }
    }
}

pub open spec fn call_of(func: TExpr, args: Seq<TExpr>, ty: TypeModel) -> TExpr {
    TExpr { kind: TKind::Call { func: Box::new(func), args }, ty }
}

/// A call has the return type of the function it calls.
pub open spec fn rs_call(fuel: nat, st: RState, ty0: TypeModel, func: TExpr, args: Seq<TExpr>) -> RStep
    decreases fuel, 3int, 0int,
{
    match rs_expr(fuel, st, func) {
        None => None,
        Some((st1, f1, Err(x))) => Some((st1, call_of(f1, args, ty0), Err(x))),
        Some((st1, f1, Ok(_))) => match f1.ty {
            TypeModel::Func { params, ret } => match rs_call_args(fuel, st1, Seq::empty(), args, params) {
                None => None,
                Some((st2, args2, Err(x))) => Some((st2, call_of(f1, args2, ty0), Err(x))),
                Some((st2, args2, Ok(()))) => Some((st2, call_of(f1, args2, *ret), Ok(*ret))),
            },
            _ => Some((st1, call_of(f1, args, ty0), Err(TcErr::NotCallableError(call_of(f1, args, ty0))))),
        },
    }
}

/// Each parameter expression takes its declared type.
pub open spec fn typed_params_of(params: Seq<(TExpr, TypeModel)>) -> Seq<(TExpr, TypeModel)> {
    Seq::new(params.len(), |i: int| (with_ty(params[i].0, params[i].1), params[i].1))
}

pub open spec fn param_types(params: Seq<(TExpr, TypeModel)>) -> Seq<TypeModel> {
    Seq::new(params.len(), |i: int| params[i].1)
}

pub open spec fn fndef_of(name: TExpr, params: Seq<(TExpr, TypeModel)>, return_ty: TypeModel, body: TExpr, ty: TypeModel) -> TExpr {
    TExpr { kind: TKind::FnDef { name: Box::new(name), params, return_ty, body: Box::new(body) }, ty }
}

/// A function definition places the function, then its parameters in a scope of its own,
/// and checks its body against the declared return type.
pub open spec fn rs_fndef(
    fuel: nat,
    st: RState,
    ty0: TypeModel,
    name: TExpr,
    params: Seq<(TExpr, TypeModel)>,
    return_ty: TypeModel,
    body: TExpr,
) -> RStep
    decreases fuel, 2int, 0int,
{
    let params1 = typed_params_of(params);
    let func_ty = TypeModel::Func { params: param_types(params), ret: Box::new(return_ty) };
    match create_ident(st, with_ty(name, func_ty), func_ty) {
        None => None,
        Some((st1, n1, Err(x))) => Some((st1, fndef_of(n1, params1, return_ty, body, func_ty), Err(x))),
        Some((st1, n1, Ok(()))) => match create_params(enter(st1), Seq::empty(), params1) {
            None => None,
            Some((st2, p2, Err(x))) => Some((st2, fndef_of(n1, p2, return_ty, body, func_ty), Err(x))),
            Some((st2, p2, Ok(()))) => match rs_expr(fuel, st2, body) {
                None => None,
                Some((st3, b3, Err(x))) => Some((st3, fndef_of(n1, p2, return_ty, b3, func_ty), Err(x))),
                Some((st3, b3, Ok(_))) => if b3.ty != return_ty {
                    Some((
                        st3,
                        fndef_of(n1, p2, return_ty, b3, func_ty),
                        Err(TcErr::TypeError { expected: return_ty, actual: b3.ty }),
                    ))
                } else {
                    Some((leave(st3), fndef_of(n1, p2, return_ty, b3, func_ty), Ok(func_ty)))
                },
            },
        },
    }
}

pub open spec fn if_of(c: TExpr, t: TExpr, a: Option<Box<TExpr>>, ty: TypeModel) -> TExpr {
    TExpr { kind: TKind::If { condition: Box::new(c), consequence: Box::new(t), alternative: a }, ty }
}

/// An `if` has the type of its branches, which must agree; its condition is a boolean or an
/// integer.
pub open spec fn rs_if(
    fuel: nat,
    st: RState,
    ty0: TypeModel,
    c: TExpr,
    t: TExpr,
    a: Option<Box<TExpr>>,
) -> RStep
    decreases fuel, 2int, 0int,
{
    match rs_expr(fuel, st, c) {
        None => None,
        Some((st1, c1, Err(x))) => Some((st1, if_of(c1, t, a, ty0), Err(x))),
        Some((st1, c1, Ok(_))) => match rs_expr(fuel, st1, t) {
            None => None,
            Some((st2, t2, Err(x))) => Some((st2, if_of(c1, t2, a, ty0), Err(x))),
            Some((st2, t2, Ok(_))) => if c1.ty != TypeModel::Bool && c1.ty != TypeModel::Int {
                Some((st2, if_of(c1, t2, a, ty0), Err(TcErr::TypeError { expected: TypeModel::Bool, actual: c1.ty })))
            } else {
                match a {
                    None => Some((st2, if_of(c1, t2, None, t2.ty), Ok(t2.ty))),
                    Some(alt) => match rs_expr(fuel, st2, *alt) {
                        None => None,
                        Some((st3, a3, Err(x))) => Some((st3, if_of(c1, t2, Some(Box::new(a3)), ty0), Err(x))),
                        Some((st3, a3, Ok(_))) => if t2.ty != a3.ty {
                            Some((
                                st3,
                                if_of(c1, t2, Some(Box::new(a3)), ty0),
                                Err(TcErr::TypeError { expected: t2.ty, actual: a3.ty }),
                            ))
                        } else {
                            Some((st3, if_of(c1, t2, Some(Box::new(a3)), t2.ty), Ok(t2.ty)))
                        },
                    },
                }
            },
        },
    }
}

pub open spec fn rs_return(fuel: nat, st: RState, ty0: TypeModel, v: TExpr) -> RStep
    decreases fuel, 2int, 0int,
{
    match rs_expr(fuel, st, v) {
        None => None,
        Some((st1, v1, Err(x))) => Some((st1, TExpr { kind: TKind::Return(Box::new(v1)), ty: ty0 }, Err(x))),
        Some((st1, v1, Ok(_))) => Some((st1, TExpr { kind: TKind::Return(Box::new(v1)), ty: v1.ty }, Ok(v1.ty))),
    }
}

pub open spec fn unary_of(kind: UnaryExprKind, u: TExpr, ty: TypeModel) -> TExpr {
    TExpr { kind: TKind::Unary { kind, expr: Box::new(u) }, ty }
}

/// A unary expression gives its operand the type of the result, and has that type.
pub open spec fn rs_unary(fuel: nat, st: RState, ty0: TypeModel, kind: UnaryExprKind, u: TExpr) -> RStep
    decreases fuel, 2int, 0int,
{
    match rs_expr(fuel, st, u) {
        None => None,
        Some((st1, u1, Err(x))) => Some((st1, unary_of(kind, u1, ty0), Err(x))),
        Some((st1, u1, Ok(_))) => match kind {
            UnaryExprKind::Minus => if u1.ty != TypeModel::Int {
                Some((st1, unary_of(kind, u1, ty0), Err(TcErr::TypeError { expected: TypeModel::Int, actual: u1.ty })))
            } else {
                Some((st1, unary_of(kind, with_ty(u1, TypeModel::Int), TypeModel::Int), Ok(TypeModel::Int)))
            },
            UnaryExprKind::Not => if u1.ty != TypeModel::Bool && u1.ty != TypeModel::Int {
                Some((st1, unary_of(kind, u1, ty0), Err(TcErr::TypeError { expected: TypeModel::Bool, actual: u1.ty })))
            } else {
                Some((st1, unary_of(kind, with_ty(u1, TypeModel::Bool), TypeModel::Bool), Ok(TypeModel::Bool)))
            },
            UnaryExprKind::Deref => match u1.ty {
                TypeModel::Ptr { to } => Some((st1, unary_of(kind, with_ty(u1, *to), *to), Ok(*to))),
                _ => Some((st1, unary_of(kind, u1, ty0), Err(TcErr::TypeError { expected: ptr_to_unknown(), actual: u1.ty }))),
            },
            UnaryExprKind::Addr => {
                let t = TypeModel::Ptr { to: Box::new(u1.ty) };
                Some((st1, unary_of(kind, with_ty(u1, t), t), Ok(t)))
            },
        },
    }
}

/// The elements of an array literal, each resolved; every element after the first must have
/// the first one's type.
pub open spec fn rs_elements(fuel: nat, st: RState, done: Seq<TExpr>, rest: Seq<TExpr>) -> Option<
    (RState, Seq<TExpr>, Result<(), TcErr>),
>
    decreases fuel, 2int, rest.len(),
{
    if rest.len() == 0 {
        Some((st, done, Ok(())))
    } else {
        match rs_expr(fuel, st, rest[0]) {
            None => None,
            Some((st1, e1, Err(x))) => Some((st1, done.push(e1) + rest.drop_first(), Err(x))),
            Some((st1, e1, Ok(_))) => if done.len() > 0 && e1.ty != done[0].ty {
                Some((
                    st1,
                    done.push(e1) + rest.drop_first(),
                    Err(TcErr::TypeError { expected: done[0].ty, actual: e1.ty }),
                ))
            } else {
                rs_elements(fuel, st1, done.push(e1), rest.drop_first())
            },
        }
    }
}

/// An array literal has the type of its first element, as many times as it has elements;
/// an empty one holds elements of unknown type.
pub open spec fn rs_array(fuel: nat, st: RState, ty0: TypeModel, elements: Seq<TExpr>) -> RStep
    decreases fuel, 3int, 0int,
{
    match rs_elements(fuel, st, Seq::empty(), elements) {
        None => None,
        Some((st1, els, Err(x))) => Some((st1, TExpr { kind: TKind::Array(els), ty: ty0 }, Err(x))),
        Some((st1, els, Ok(()))) => if els.len() > isize::MAX {
            None
        } else {
            let elem = if els.len() == 0 {
                TypeModel::Unknown
            } else {
                els[0].ty
            };
            let t = TypeModel::Array { elem: Box::new(elem), length: els.len() as int };
            Some((st1, TExpr { kind: TKind::Array(els), ty: t }, Ok(t)))
        },
    }
}

pub open spec fn index_of(a: TExpr, i: TExpr, ty: TypeModel) -> TExpr {
    TExpr { kind: TKind::Index { array: Box::new(a), index: Box::new(i) }, ty }
}

/// Indexing an array or a pointer with an integer gives an element.
pub open spec fn rs_index(fuel: nat, st: RState, ty0: TypeModel, a: TExpr, i: TExpr) -> RStep
    decreases fuel, 2int, 0int,
{
    match rs_expr(fuel, st, a) {
        None => None,
        Some((st1, a1, Err(x))) => Some((st1, index_of(a1, i, ty0), Err(x))),
        Some((st1, a1, Ok(_))) => match rs_expr(fuel, st1, i) {
            None => None,
            Some((st2, i2, Err(x))) => Some((st2, index_of(a1, i2, ty0), Err(x))),
            Some((st2, i2, Ok(_))) => if i2.ty != TypeModel::Int {
                Some((st2, index_of(a1, i2, ty0), Err(TcErr::TypeError { expected: TypeModel::Int, actual: i2.ty })))
            } else {
                match a1.ty {
                    TypeModel::Array { elem, .. } => Some((st2, index_of(a1, i2, *elem), Ok(*elem))),
                    TypeModel::Ptr { to } => Some((st2, index_of(a1, i2, *to), Ok(*to))),
                    _ => Some((
                        st2,
                        index_of(a1, i2, ty0),
                        Err(TcErr::TypeError { expected: ptr_to_unknown(), actual: a1.ty }),
                    )),
                }
            },
        },
    }
}

/// Resolves a node: a program has the type of its last statement, or none when it is empty.
pub open spec fn rs_node(fuel: nat, st: RState, n: TNode) -> Option<(RState, TNode, Result<TypeModel, TcErr>)>
    decreases fuel, 4int, 0int,
{
    match n {
        TNode::Program(stmts) => match rs_stmts(fuel, st, Seq::empty(), stmts, TypeModel::Never) {
            None => None,
            Some((st1, ss, r)) => Some((st1, TNode::Program(ss), r)),
        },
        TNode::Statement(s) => match rs_stmt(fuel, st, s) {
            None => None,
            Some((st1, s1, r)) => Some((st1, TNode::Statement(s1), r)),
        },
        TNode::Expression(e) => match rs_expr(fuel, st, e) {
            None => None,
            Some((st1, e1, r)) => Some((st1, TNode::Expression(e1), r)),
        },
    }
}

/// Whether resolving `e` from the state `st` finishes.
pub open spec fn resolves(st: RState, e: TExpr) -> bool {
    exists|fuel: nat| rs_expr(fuel, st, e) is Some
}

pub open spec fn resolution(st: RState, e: TExpr) -> RStep {
    rs_expr(choose|fuel: nat| rs_expr(fuel, st, e) is Some, st, e)
}

/// Whether resolving the node `n` with a new resolver finishes.
pub open spec fn node_resolves(n: TNode) -> bool {
    exists|fuel: nat| rs_node(fuel, initial_rstate(), n) is Some
}

pub open spec fn node_resolution(n: TNode) -> Option<(RState, TNode, Result<TypeModel, TcErr>)> {
    rs_node(choose|fuel: nat| rs_node(fuel, initial_rstate(), n) is Some, initial_rstate(), n)
}


/// The offset at which a placed variable was put.
pub open spec fn placed_offset(e: TExpr) -> int {
    e.kind->Ident_offset
}

/// Placing a variable reserves the `size_of(ty)` bytes that follow the last placed one: the
/// variable's offset is the far end of its slot, the slot begins where the frame ended
/// before, the frame now ends at the variable's offset, and the name is bound in the
/// innermost scope to its type and offset. In a frame that begins at offset 0, a variable
/// whose type has a positive size gets an offset at least that size, so its slot never
/// reaches offset 0.
pub proof fn lemma_place_reserves_slot(st: RState, name: TExpr, ty: TypeModel)
    requires
        name.kind is Ident,
        size_fits(ty),
        isize::MIN <= st.offset + size_of(ty) <= isize::MAX,
    ensures
        create_ident(st, name, ty) matches Some((st2, placed, Ok(()))) && placed.kind is Ident
            && placed_offset(placed) - size_of(ty) == st.offset && st2.offset == placed_offset(placed)
            && placed.kind->Ident_name == name.kind->Ident_name && (st.scopes.len() > 0 ==> st2.scopes.last()[name.kind->Ident_name]
            == (ty, placed_offset(placed) as isize)),
        st.offset >= 0 && size_of(ty) > 0 ==> placed_offset(create_ident(st, name, ty).unwrap().1) >= size_of(ty),
{
}

/// Two variables placed one after the other get slots that do not overlap: the slot of the
/// second begins where the slot of the first ends, and the offsets grow.
pub proof fn lemma_successive_slots_disjoint(st: RState, n1: TExpr, t1: TypeModel, n2: TExpr, t2: TypeModel)
    requires
        n1.kind is Ident,
        n2.kind is Ident,
        size_fits(t1),
        size_fits(t2),
        0 <= size_of(t1),
        0 < size_of(t2),
        isize::MIN <= st.offset,
        st.offset + size_of(t1) + size_of(t2) <= isize::MAX,
    ensures
        ({
            let (st1, p1, r1) = create_ident(st, n1, t1).unwrap();
            let (st2, p2, r2) = create_ident(st1, n2, t2).unwrap();
            &&& r1 is Ok && r2 is Ok
            &&& placed_offset(p1) == placed_offset(p2) - size_of(t2)
            &&& placed_offset(p1) < placed_offset(p2)
            &&& st2.offset == placed_offset(p2)
        }),
{
    lemma_place_reserves_slot(st, n1, t1);
    let st1 = create_ident(st, n1, t1).unwrap().0;
    lemma_place_reserves_slot(st1, n2, t2);
}

/// The types that annotations name are the types of the literals: a `let` annotated with the
/// name `bool` accepts a boolean literal, one annotated `int` accepts an integer literal,
/// and each has the type its annotation names.
pub proof fn lemma_annotated_literal_let(
    fuel: nat,
    st: RState,
    ty0: TypeModel,
    name: TExpr,
    b: bool,
    v: int,
    lit_ty: TypeModel,
)
    requires
        fuel >= 2,
        name.kind is Ident,
        isize::MIN <= st.offset,
        st.offset + 8 <= isize::MAX,
    ensures
        rs_expr(
            fuel,
            st,
            let_of(name, TExpr { kind: TKind::Boolean(b), ty: lit_ty }, kind_of_name(seq!['b', 'o', 'o', 'l']), ty0),
        ) matches Some((_, _, Ok(t))) && t == kind_of_name(seq!['b', 'o', 'o', 'l']),
        rs_expr(
            fuel,
            st,
            let_of(name, TExpr { kind: TKind::Integer(v), ty: lit_ty }, kind_of_name(seq!['i', 'n', 't']), ty0),
        ) matches Some((_, _, Ok(t))) && t == kind_of_name(seq!['i', 'n', 't']),
{
    let f = (fuel - 1) as nat;
    let bool_ty = kind_of_name(seq!['b', 'o', 'o', 'l']);
    let int_ty = kind_of_name(seq!['i', 'n', 't']);
    assert(bool_ty == TypeModel::Bool);
    assert(int_ty == TypeModel::Int);
    let bv = TExpr { kind: TKind::Boolean(b), ty: lit_ty };
    let iv = TExpr { kind: TKind::Integer(v), ty: lit_ty };
    assert(rs_expr(f, st, bv) == Some((st, with_ty(bv, TypeModel::Bool), Ok::<TypeModel, TcErr>(TypeModel::Bool))));
    assert(rs_expr(f, st, iv) == Some((st, with_ty(iv, TypeModel::Int), Ok::<TypeModel, TcErr>(TypeModel::Int))));
    lemma_place_reserves_slot(st, with_ty(name, bool_ty), bool_ty);
    lemma_place_reserves_slot(st, with_ty(name, int_ty), int_ty);
    assert(rs_expr(fuel, st, let_of(name, bv, bool_ty, ty0)) == rs_let(f, st, ty0, name, bv, bool_ty));
    assert(rs_expr(fuel, st, let_of(name, iv, int_ty, ty0)) == rs_let(f, st, ty0, name, iv, int_ty));
}

/// The type resolver and the evaluator agree on the binary operators over integers: a
/// comparison of two integers has the type `bool` and evaluates to a boolean, and a sum,
/// difference, product or quotient of two integers has the type `int` and evaluates, where
/// it gives a value, to an integer.
pub proof fn lemma_binary_types_agree(
    fuel: nat,
    st: RState,
    ty0: TypeModel,
    kind: BinaryExprKind,
    a: int,
    b: int,
    ta: TypeModel,
    tb: TypeModel,
    m: Machine,
    lhs: ExprModel,
)
    requires
        fuel >= 2,
        kind != BinaryExprKind::Assign,
    ensures
        ({
            let e = binary_of(kind, TExpr { kind: TKind::Integer(a), ty: ta }, TExpr { kind: TKind::Integer(b), ty: tb }, ty0);
            let t = if is_comparison(kind) { TypeModel::Bool } else { TypeModel::Int };
            &&& rs_expr(fuel, st, e) matches Some((_, _, Ok(t1))) && t1 == t
            &&& binary_result(m, kind, lhs, ObjModel::Integer(a), ObjModel::Integer(b)) matches Some((_, Ok(v))) ==> (
                v is Boolean <==> t == TypeModel::Bool) && (v is Integer <==> t == TypeModel::Int)
        }),
{
    let f = (fuel - 1) as nat;
    let l = TExpr { kind: TKind::Integer(a), ty: ta };
    let r = TExpr { kind: TKind::Integer(b), ty: tb };
    assert(rs_expr(f, st, l) == Some((st, with_ty(l, TypeModel::Int), Ok::<TypeModel, TcErr>(TypeModel::Int))));
    assert(rs_expr(f, st, r) == Some((st, with_ty(r, TypeModel::Int), Ok::<TypeModel, TcErr>(TypeModel::Int))));
    assert(rs_expr(fuel, st, binary_of(kind, l, r, ty0)) == rs_binary(f, st, ty0, kind, l, r));
}
} // verus!
