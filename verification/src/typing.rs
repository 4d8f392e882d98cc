//! Type resolution of the wervc language: the type of every expression, and the stack
//! offset of every variable.
pub mod typed;
pub mod semantics;
pub mod error;

use vstd::prelude::*;
use crate::text::copy_string;
use crate::ast::{ExprModel, Statement, Program, Integer, Ident, Boolean, Array, BinaryExpr, BinaryExprKind, LetExpr, BlockExpr,
    CallExpr, FunctionDefExpr, IfExpr, ReturnExpr, UnaryExpr, UnaryExprKind, IndexExpr, Expression};
use crate::ty::{Type, TypeKind, TypeModel, type_models, lemma_type_models, size_of};
use crate::environment::{Environment, scope_lookup};
use crate::typing::typed::{TypedNode, TypedExpression, TypedExpressionKind, TExpr, TKind, TStmt, TNode, texpr_models,
    tstmt_models, tparam_models, lemma_texpr_models, lemma_tstmt_models, lemma_tparam_models, typed_of, untyped_of};
use crate::typing::error::TypeCheckError;
use crate::typing::semantics::{TcErr, RState, RStep, initial_rstate, with_ty, enter, leave, is_comparison,
    ptr_to_unknown, create_ident, create_params, rs_expr, binary_of, scaled_offset, pointer_distance, binary_typing,
    rs_binary, let_of, rs_let, rs_stmt, rs_stmts, rs_block, rs_call_args, call_of, rs_call, typed_params_of,
    param_types, fndef_of, rs_fndef, if_of, rs_if, rs_return, unary_of, rs_unary, rs_elements, rs_array, index_of,
    rs_index, rs_node, resolves, resolution, node_resolves, node_resolution};

verus! {

/// The value or error `r` is the one the step's outcome `res` describes.
pub open spec fn outcome_matches<T: View>(res: Result<T::V, TcErr>, r: Result<T, TypeCheckError>) -> bool {
    match res {
        Ok(t) => r matches Ok(x) && x@ == t,
        Err(e) => r matches Err(x) && x@ == e,
    }
}

/// The unit or error `r` is the one `res` describes.
pub open spec fn done_matches(res: Result<(), TcErr>, r: Result<(), TypeCheckError>) -> bool {
    match res {
        Ok(()) => r is Ok,
        Err(e) => r matches Err(x) && x@ == e,
    }
}

/// The expression `e`, the state `st` and the outcome `r` after a step agree with it.
pub open spec fn step_matches(step: RStep, st: RState, e: TypedExpression, r: Result<Type, TypeCheckError>) -> bool {
    match step {
        Some((st2, e2, res)) => st == st2 && e@ == e2 && outcome_matches::<Type>(res, r),
        None => false,
    }
}

/// An expression that is replaced right away.
fn placeholder() -> (r: TypedExpression) {
    TypedExpression { kind: TypedExpressionKind::Integer(Integer { value: 0 }), ty: Type::unknown() }
}

pub struct TypeResolver {
    /// The type and stack offset of each variable, by scope.
    pub local_vars: Environment<(Type, isize)>,
    /// The offset of the last variable placed.
    pub cur_offset: isize,
}

impl TypeResolver {
    /// The state of the resolver.
    pub open spec fn state(&self) -> RState {
        RState { scopes: self.local_vars.scopes(), offset: self.cur_offset as int }
    }

    pub open spec fn wf(&self) -> bool {
        self.local_vars.wf()
    }

    /// A resolver with one empty scope and no variable placed.
    pub fn new() -> (r: TypeResolver)
        ensures
            r.wf(),
            r.state() == initial_rstate(),
    {
        TypeResolver { local_vars: Environment::new(), cur_offset: 0 }
    }

    /// The type and offset of a declared name.
    fn find_ident(&self, ident: &Ident) -> (r: (Type, isize))
        requires
            self.wf(),
            scope_lookup(self.state().scopes, ident.name@) is Some,
        ensures
            (r.0@, r.1) == scope_lookup(self.state().scopes, ident.name@)->0,
    {
        match self.local_vars.get_item(&ident.name) {
            Some(found) => (found.0.duplicate(), found.1),
            None => {
                proof {
                    assert(false);
                }
                (Type::unknown(), 0)
            },
        }
    }

    /// Places the variable `name` of type `ty`, as `create_ident` describes.
    fn create_ident(&mut self, name: TypedExpression, ty: Type) -> (r: (TypedExpression, Result<(), TypeCheckError>))
        requires
            old(self).wf(),
            create_ident(old(self).state(), name@, ty@) is Some,
        ensures
            final(self).wf(),
            match create_ident(old(self).state(), name@, ty@) {
                Some((st, n, res)) => final(self).state() == st && r.0@ == n && done_matches(res, r.1),
                None => false,
            },
    {
        let TypedExpression { kind, ty: name_ty } = name;
        match kind {
            TypedExpressionKind::Ident(ident) => {
                proof {
                    self.local_vars.lemma_scopes_last();
                }
                let size = ty.calc_size();
                self.cur_offset = self.cur_offset + size;
                let placed = Ident { name: ident.name, offset: self.cur_offset };
                self.local_vars.register_item(copy_string(&placed.name), (ty, placed.offset));
                (TypedExpression { kind: TypedExpressionKind::Ident(placed), ty: name_ty }, Ok(()))
            },
            other => {
                let e = TypedExpression { kind: other, ty: name_ty };
                let copy = e.duplicate();
                (e, Err(TypeCheckError::NotIdentError(copy)))
            },
        }
    }

    /// Resolves the type of `expr` and fills in the types and offsets within it.
    pub fn resolve_type(&mut self, expr: &mut TypedExpression) -> (r: Result<Type, TypeCheckError>)
        requires
            old(self).wf(),
            resolves(old(self).state(), old(expr)@),
        ensures
            final(self).wf(),
            match resolution(old(self).state(), old(expr)@) {
                Some((st, e, res)) => final(self).state() == st && final(expr)@ == e && outcome_matches::<Type>(res, r),
                None => false,
            },
    {
        let ghost fuel = choose|fuel: nat| rs_expr(fuel, self.state(), expr@) is Some;
        let mut taken = placeholder();
        std::mem::swap(&mut taken, expr);
        let (resolved, r) = self.resolve(taken, Ghost(fuel));
        *expr = resolved;
        r
    }

    fn resolve(&mut self, e: TypedExpression, Ghost(fuel): Ghost<nat>) -> (r: (TypedExpression, Result<Type, TypeCheckError>))
        requires
            old(self).wf(),
            rs_expr(fuel, old(self).state(), e@) is Some,
        ensures
            final(self).wf(),
            step_matches(rs_expr(fuel, old(self).state(), e@), final(self).state(), r.0, r.1),
        decreases fuel, 0int, 0int,
    {
        let ghost f = (fuel - 1) as nat;
        let TypedExpression { kind, ty } = e;
        match kind {
            TypedExpressionKind::Integer(i) => (
                TypedExpression { kind: TypedExpressionKind::Integer(i), ty: Type::integer() },
                Ok(Type::integer()),
            ),
            TypedExpressionKind::Boolean(b) => (
                TypedExpression { kind: TypedExpressionKind::Boolean(b), ty: Type::bool() },
                Ok(Type::bool()),
            ),
            TypedExpressionKind::Ident(ident) => {
                let (ity, offset) = self.find_ident(&ident);
                let placed = Ident { name: ident.name, offset };
                if ity.equals(&Type::unknown()) {
                    let e1 = TypedExpression { kind: TypedExpressionKind::Ident(placed), ty };
                    let copy = e1.duplicate();
                    return (e1, Err(TypeCheckError::AmbiguousTypeExprError(copy)));
                }
                if !ty.equals(&Type::unknown()) && ty.equals(&ity) {
                    let actual = ty.duplicate();
                    let e1 = TypedExpression { kind: TypedExpressionKind::Ident(placed), ty };
                    return (e1, Err(TypeCheckError::TypeError { expected: ity, actual }));
                }
                (TypedExpression { kind: TypedExpressionKind::Ident(placed), ty: ity.duplicate() }, Ok(ity))
            },
            TypedExpressionKind::BinaryExpr(b) => self.resolve_binary(ty, b, Ghost(f)),
            TypedExpressionKind::LetExpr(l) => self.resolve_let(ty, l, Ghost(f)),
            TypedExpressionKind::BlockExpr(b) => self.resolve_block(ty, b, Ghost(f)),
            TypedExpressionKind::CallExpr(c) => self.resolve_call(ty, c, Ghost(f)),
            TypedExpressionKind::FunctionDefExpr(d) => self.resolve_function_def(ty, d, Ghost(f)),
            TypedExpressionKind::IfExpr(i) => self.resolve_if(ty, i, Ghost(f)),
            TypedExpressionKind::ReturnExpr(r) => self.resolve_return(ty, r, Ghost(f)),
            TypedExpressionKind::UnaryExpr(u) => self.resolve_unary(ty, u, Ghost(f)),
            TypedExpressionKind::Array(a) => self.resolve_array(ty, a, Ghost(f)),
            TypedExpressionKind::IndexExpr(i) => self.resolve_index(ty, i, Ghost(f)),
        }
    }

    fn resolve_binary(&mut self, ty0: Type, b: BinaryExpr<TypedExpression>, Ghost(fuel): Ghost<nat>) -> (r: (
        TypedExpression,
        Result<Type, TypeCheckError>,
    ))
        requires
            old(self).wf(),
            rs_binary(fuel, old(self).state(), ty0@, b.kind, b.lhs@, b.rhs@) is Some,
        ensures
            final(self).wf(),
            step_matches(rs_binary(fuel, old(self).state(), ty0@, b.kind, b.lhs@, b.rhs@), final(self).state(), r.0, r.1),
        decreases fuel, 2int, 0int,
    {
        let BinaryExpr { kind, lhs, rhs } = b;
        let (l1, res1) = self.resolve(*lhs, Ghost(fuel));
        if let Err(x) = res1 {
            return (binary_expr(kind, l1, *rhs, ty0), Err(x));
        }
        let (r2, res2) = self.resolve(*rhs, Ghost(fuel));
        if let Err(x) = res2 {
            return (binary_expr(kind, l1, r2, ty0), Err(x));
        }
        self.binary_typing(ty0, kind, l1, r2, Ghost(fuel))
    }

    fn binary_typing(&mut self, ty0: Type, kind: BinaryExprKind, l: TypedExpression, r: TypedExpression, Ghost(
        fuel,
    ): Ghost<nat>) -> (res: (TypedExpression, Result<Type, TypeCheckError>))
        requires
            old(self).wf(),
            binary_typing(fuel, old(self).state(), ty0@, kind, l@, r@) is Some,
        ensures
            final(self).wf(),
            step_matches(binary_typing(fuel, old(self).state(), ty0@, kind, l@, r@), final(self).state(), res.0, res.1),
        decreases fuel, 1int, 0int,
    {
        if kind == BinaryExprKind::Eq || kind == BinaryExprKind::Ne || kind == BinaryExprKind::Lt || kind
            == BinaryExprKind::Le || kind == BinaryExprKind::Gt || kind == BinaryExprKind::Ge {
            return (binary_expr(kind, l, r, Type::bool()), Ok(Type::bool()));
        }
        if kind == BinaryExprKind::Add || kind == BinaryExprKind::Sub {
            let class: u8 = match (&l.ty.kind, &r.ty.kind) {
                (TypeKind::Int, TypeKind::Int) => 0,
                (TypeKind::Ptr { .. }, TypeKind::Int) => 1,
                (TypeKind::Ptr { .. }, TypeKind::Ptr { .. }) => 2,
                _ => 3,
            };
            if class == 0 {
                let t = l.ty.duplicate();
                let t2 = l.ty.duplicate();
                return (binary_expr(kind, l, r, t), Ok(t2));
            }
            if class == 3 {
                let actual = l.ty.duplicate();
                return (binary_expr(kind, l, r, ty0), Err(TypeCheckError::TypeError { expected: Type::integer(), actual }));
            }
            let new_rhs = if class == 1 {
                scaled_offset_expr(&l, &r)
            } else {
                pointer_distance_expr(&l, &r)
            };
            let (r3, res3) = self.resolve(new_rhs, Ghost(fuel));
            let t = l.ty.duplicate();
            return match res3 {
                Err(x) => (binary_expr(kind, l, r3, t), Err(x)),
                Ok(_) => {
                    let t2 = t.duplicate();
                    (binary_expr(kind, l, r3, t), Ok(t2))
                },
            };
        }
        if kind == BinaryExprKind::Assign {
            if !l.ty.is_assignable_to(&r.ty) {
                let expected = l.ty.duplicate();
                let actual = r.ty.duplicate();
                return (binary_expr(kind, l, r, ty0), Err(TypeCheckError::TypeError { expected, actual }));
            }
        }
        let t = l.ty.duplicate();
        let t2 = l.ty.duplicate();
        (binary_expr(kind, l, r, t), Ok(t2))
    }

    fn resolve_let(&mut self, ty0: Type, l: LetExpr<TypedExpression>, Ghost(fuel): Ghost<nat>) -> (r: (
        TypedExpression,
        Result<Type, TypeCheckError>,
    ))
        requires
            old(self).wf(),
            rs_let(fuel, old(self).state(), ty0@, l.name@, l.value@, l.ty@) is Some,
        ensures
            final(self).wf(),
            step_matches(rs_let(fuel, old(self).state(), ty0@, l.name@, l.value@, l.ty@), final(self).state(), r.0, r.1),
        decreases fuel, 2int, 0int,
    {
        let LetExpr { name, value, ty } = l;
        let (v1, res1) = self.resolve(*value, Ghost(fuel));
        if let Err(x) = res1 {
            return (let_expr(*name, v1, ty, ty0), Err(x));
        }
        if !v1.ty.is_assignable_to(&ty) {
            let expected = ty.duplicate();
            let actual = v1.ty.duplicate();
            return (let_expr(*name, v1, ty, ty0), Err(TypeCheckError::TypeError { expected, actual }));
        }
        let mut n = *name;
        n.ty = ty.duplicate();
        let (n2, res2) = self.create_ident(n, ty.duplicate());
        let t = ty.duplicate();
        match res2 {
            Err(x) => (let_expr(n2, v1, ty, t), Err(x)),
            Ok(()) => {
                let t2 = ty.duplicate();
                (let_expr(n2, v1, ty, t), Ok(t2))
            },
        }
    }

    fn resolve_stmt(&mut self, s: Statement<TypedExpression>, Ghost(fuel): Ghost<nat>) -> (r: (
        Statement<TypedExpression>,
        Result<Type, TypeCheckError>,
    ))
        requires
            old(self).wf(),
            rs_stmt(fuel, old(self).state(), s@) is Some,
        ensures
            final(self).wf(),
            match rs_stmt(fuel, old(self).state(), s@) {
                Some((st, s2, res)) => final(self).state() == st && r.0@ == s2 && outcome_matches::<Type>(res, r.1),
                None => false,
            },
        decreases fuel, 1int, 0int,
    {
        match s {
            Statement::ExprStmt(e) => {
                let (e1, res) = self.resolve(e, Ghost(fuel));
                match res {
                    Err(x) => (Statement::ExprStmt(e1), Err(x)),
                    Ok(_) => (Statement::ExprStmt(e1), Ok(Type::never())),
                }
            },
            Statement::ExprReturnStmt(e) => {
                let (e1, res) = self.resolve(e, Ghost(fuel));
                (Statement::ExprReturnStmt(e1), res)
            },
        }
    }

    #[verifier::loop_isolation(false)]
    fn resolve_stmts(&mut self, stmts: Vec<Statement<TypedExpression>>, Ghost(fuel): Ghost<nat>) -> (r: (
        Vec<Statement<TypedExpression>>,
        Result<Type, TypeCheckError>,
    ))
        requires
            old(self).wf(),
            rs_stmts(fuel, old(self).state(), Seq::empty(), tstmt_models(stmts@), TypeModel::Never) is Some,
        ensures
            final(self).wf(),
            match rs_stmts(fuel, old(self).state(), Seq::empty(), tstmt_models(stmts@), TypeModel::Never) {
                Some((st, ss, res)) => final(self).state() == st && tstmt_models(r.0@) == ss && outcome_matches::<Type>(
                    res,
                    r.1,
                ),
                None => false,
            },
        decreases fuel, 2int, 0int,
    {
        let ghost all = tstmt_models(stmts@);
        proof {
            lemma_tstmt_models(stmts@);
            assert(all.subrange(0, all.len() as int) =~= all);
        }
        let mut stmts = stmts;
        let mut ty = Type::never();
        let mut i: usize = 0;
        let ghost mut done: Seq<TStmt> = Seq::empty();
        while i < stmts.len()
            invariant
                self.wf(),
                i <= stmts@.len(),
                stmts@.len() == all.len(),
                done.len() == i,
                forall|j: int| 0 <= j < i ==> #[trigger] stmts@[j].tmodel() == done[j],
                forall|j: int| i <= j < stmts@.len() ==> #[trigger] stmts@[j].tmodel() == all[j],
                rs_stmts(fuel, old(self).state(), Seq::empty(), all, TypeModel::Never) == rs_stmts(
                    fuel,
                    self.state(),
                    done,
                    all.subrange(i as int, all.len() as int),
                    ty@,
                ),
            decreases stmts@.len() - i,
        {
            let ghost rest = all.subrange(i as int, all.len() as int);
            proof {
                assert(rest[0] == all[i as int]);
                assert(rest.drop_first() =~= all.subrange(i + 1, all.len() as int));
            }
            let mut s = Statement::ExprStmt(placeholder());
            stmts.set_and_swap(i, &mut s);
            let (s1, res) = self.resolve_stmt(s, Ghost(fuel));
            let mut s1 = s1;
            stmts.set_and_swap(i, &mut s1);
            match res {
                Err(x) => {
                    proof {
                        lemma_tstmt_models(stmts@);
                        assert(tstmt_models(stmts@) =~= done.push(stmts@[i as int].tmodel()) + rest.drop_first());
                    }
                    return (stmts, Err(x));
                },
                Ok(t) => {
                    ty = t;
                },
            }
            proof {
                done = done.push(stmts@[i as int].tmodel());
            }
            i += 1;
        }
        proof {
            lemma_tstmt_models(stmts@);
            assert(tstmt_models(stmts@) =~= done);
        }
        (stmts, Ok(ty))
    }

    fn resolve_block(&mut self, ty0: Type, b: BlockExpr<TypedExpression>, Ghost(fuel): Ghost<nat>) -> (r: (
        TypedExpression,
        Result<Type, TypeCheckError>,
    ))
        requires
            old(self).wf(),
            rs_block(fuel, old(self).state(), ty0@, tstmt_models(b.statements@)) is Some,
        ensures
            final(self).wf(),
            step_matches(rs_block(fuel, old(self).state(), ty0@, tstmt_models(b.statements@)), final(self).state(), r.0, r.1),
        decreases fuel, 3int, 0int,
    {
        self.local_vars.create_deeper_scope();
        let (stmts, res) = self.resolve_stmts(b.statements, Ghost(fuel));
        match res {
            Err(x) => (TypedExpression { kind: TypedExpressionKind::BlockExpr(BlockExpr { statements: stmts }), ty: ty0 }, Err(x)),
            Ok(t) => {
                self.local_vars.create_shallow_scope();
                let t2 = t.duplicate();
                (TypedExpression { kind: TypedExpressionKind::BlockExpr(BlockExpr { statements: stmts }), ty: t }, Ok(t2))
            },
        }
    }

    fn resolve_call(&mut self, ty0: Type, c: CallExpr<TypedExpression>, Ghost(fuel): Ghost<nat>) -> (r: (
        TypedExpression,
        Result<Type, TypeCheckError>,
    ))
        requires
            old(self).wf(),
            rs_call(fuel, old(self).state(), ty0@, c.func@, texpr_models(c.args@)) is Some,
        ensures
            final(self).wf(),
            step_matches(rs_call(fuel, old(self).state(), ty0@, c.func@, texpr_models(c.args@)), final(self).state(), r.0, r.1),
        decreases fuel, 3int, 0int,
    {
        let CallExpr { func, args } = c;
        let (f1, res1) = self.resolve(*func, Ghost(fuel));
        if let Err(x) = res1 {
            return (call_expr(f1, args, ty0), Err(x));
        }
        let signature = match &f1.ty.kind {
            TypeKind::Func { params_ty, return_ty } => Some((crate::ty::duplicate_types(params_ty), return_ty.duplicate())),
            _ => None,
        };
        match signature {
            None => {
                let copy = call_expr(f1.duplicate(), crate::typing::typed::duplicate_texprs(&args), ty0.duplicate());
                (call_expr(f1, args, ty0), Err(TypeCheckError::NotCallableError(copy)))
            },
            Some((params_ty, return_ty)) => {
                let (args2, res2) = self.resolve_args(args, &params_ty, Ghost(fuel));
                match res2 {
                    Err(x) => (call_expr(f1, args2, ty0), Err(x)),
                    Ok(()) => (call_expr(f1, args2, return_ty.duplicate()), Ok(return_ty)),
                }
            },
        }
    }

    /// Resolves the arguments of a call against the parameter types, as `rs_call_args` describes.
    #[verifier::loop_isolation(false)]
    fn resolve_args(&mut self, args: Vec<TypedExpression>, params_ty: &Vec<Type>, Ghost(fuel): Ghost<nat>) -> (r: (
        Vec<TypedExpression>,
        Result<(), TypeCheckError>,
    ))
        requires
            old(self).wf(),
            rs_call_args(fuel, old(self).state(), Seq::empty(), texpr_models(args@), type_models(params_ty@)) is Some,
        ensures
            final(self).wf(),
            match rs_call_args(fuel, old(self).state(), Seq::empty(), texpr_models(args@), type_models(params_ty@)) {
                Some((st, a2, res)) => final(self).state() == st && texpr_models(r.0@) == a2 && done_matches(res, r.1),
                None => false,
            },
        decreases fuel, 2int, 0int,
    {
        let ghost all = texpr_models(args@);
        let ghost params = type_models(params_ty@);
        proof {
            lemma_texpr_models(args@);
            lemma_type_models(params_ty@);
            assert(all.subrange(0, all.len() as int) =~= all);
            assert(params.subrange(0, params.len() as int) =~= params);
        }
        let mut args = args;
        let mut i: usize = 0;
        let ghost mut done: Seq<TExpr> = Seq::empty();
        while i < args.len() && i < params_ty.len()
            invariant
                self.wf(),
                i <= args@.len(),
                i <= params_ty@.len(),
                args@.len() == all.len(),
                params.len() == params_ty@.len(),
                forall|j: int| 0 <= j < params.len() ==> #[trigger] params[j] == params_ty@[j]@,
                done.len() == i,
                forall|j: int| 0 <= j < i ==> #[trigger] args@[j].model() == done[j],
                forall|j: int| i <= j < args@.len() ==> #[trigger] args@[j].model() == all[j],
                rs_call_args(fuel, old(self).state(), Seq::empty(), all, params) == rs_call_args(
                    fuel,
                    self.state(),
                    done,
                    all.subrange(i as int, all.len() as int),
                    params.subrange(i as int, params.len() as int),
                ),
            decreases args@.len() - i,
        {
            let ghost rest = all.subrange(i as int, all.len() as int);
            let ghost prest = params.subrange(i as int, params.len() as int);
            proof {
                assert(rest[0] == all[i as int]);
                assert(rest.drop_first() =~= all.subrange(i + 1, all.len() as int));
                assert(prest[0] == params[i as int]);
                assert(prest.drop_first() =~= params.subrange(i + 1, params.len() as int));
            }
            let mut a = placeholder();
            args.set_and_swap(i, &mut a);
            let (a1, res) = self.resolve(a, Ghost(fuel));
            let mismatch = !a1.ty.equals(&params_ty[i]);
            let actual = a1.ty.duplicate();
            let mut a1 = a1;
            args.set_and_swap(i, &mut a1);
            if let Err(x) = res {
                proof {
                    lemma_texpr_models(args@);
                    assert(texpr_models(args@) =~= done.push(args@[i as int].model()) + rest.drop_first());
                }
                return (args, Err(x));
            }
            if mismatch {
                proof {
                    lemma_texpr_models(args@);
                    assert(texpr_models(args@) =~= done.push(args@[i as int].model()) + rest.drop_first());
                }
                let expected = params_ty[i].duplicate();
                return (args, Err(TypeCheckError::TypeError { expected, actual }));
            }
            proof {
                done = done.push(args@[i as int].model());
            }
            i += 1;
        }
        proof {
            lemma_texpr_models(args@);
            assert(texpr_models(args@) =~= done + all.subrange(i as int, all.len() as int));
        }
        (args, Ok(()))
    }

    /// Places each parameter in turn, as `create_params` describes.
    #[verifier::loop_isolation(false)]
    fn create_params(&mut self, params: Vec<(TypedExpression, Type)>) -> (r: (
        Vec<(TypedExpression, Type)>,
        Result<(), TypeCheckError>,
    ))
        requires
            old(self).wf(),
            create_params(old(self).state(), Seq::empty(), tparam_models(params@)) is Some,
        ensures
            final(self).wf(),
            match create_params(old(self).state(), Seq::empty(), tparam_models(params@)) {
                Some((st, ps, res)) => final(self).state() == st && tparam_models(r.0@) == ps && done_matches(res, r.1),
                None => false,
            },
    {
        let ghost all = tparam_models(params@);
        proof {
            lemma_tparam_models(params@);
            assert(all.subrange(0, all.len() as int) =~= all);
        }
        let mut params = params;
        let mut i: usize = 0;
        let ghost mut done: Seq<(TExpr, TypeModel)> = Seq::empty();
        while i < params.len()
            invariant
                self.wf(),
                i <= params@.len(),
                params@.len() == all.len(),
                done.len() == i,
                forall|j: int| 0 <= j < i ==> (#[trigger] params@[j]).0.model() == done[j].0 && params@[j].1@ == done[j].1,
                forall|j: int| i <= j < params@.len() ==> (#[trigger] params@[j]).0.model() == all[j].0 && params@[j].1@
                    == all[j].1,
                create_params(old(self).state(), Seq::empty(), all) == create_params(
                    self.state(),
                    done,
                    all.subrange(i as int, all.len() as int),
                ),
            decreases params@.len() - i,
        {
            let ghost rest = all.subrange(i as int, all.len() as int);
            proof {
                assert(rest[0] == all[i as int]);
                assert(rest.drop_first() =~= all.subrange(i + 1, all.len() as int));
            }
            let mut p = (placeholder(), Type::unknown());
            params.set_and_swap(i, &mut p);
            let (e, t) = p;
            let t2 = t.duplicate();
            let (e1, res) = self.create_ident(e, t2);
            let mut p1 = (e1, t);
            params.set_and_swap(i, &mut p1);
            if let Err(x) = res {
                proof {
                    lemma_tparam_models(params@);
                    assert(tparam_models(params@) =~= done.push((params@[i as int].0.model(), params@[i as int].1@))
                        + rest.drop_first());
                }
                return (params, Err(x));
            }
            proof {
                done = done.push((params@[i as int].0.model(), params@[i as int].1@));
            }
            i += 1;
        }
        proof {
            lemma_tparam_models(params@);
            assert(tparam_models(params@) =~= done);
        }
        (params, Ok(()))
    }

    #[verifier::loop_isolation(false)]
    fn resolve_function_def(&mut self, ty0: Type, d: FunctionDefExpr<TypedExpression>, Ghost(fuel): Ghost<nat>) -> (r: (
        TypedExpression,
        Result<Type, TypeCheckError>,
    ))
        requires
            old(self).wf(),
            rs_fndef(fuel, old(self).state(), ty0@, d.name@, tparam_models(d.params@), d.return_ty@, d.body@) is Some,
        ensures
            final(self).wf(),
            step_matches(
                rs_fndef(fuel, old(self).state(), ty0@, d.name@, tparam_models(d.params@), d.return_ty@, d.body@),
                final(self).state(),
                r.0,
                r.1,
            ),
        decreases fuel, 2int, 0int,
    {
        let FunctionDefExpr { name, params, return_ty, body } = d;
        let ghost orig = tparam_models(params@);
        proof {
            lemma_tparam_models(params@);
        }
        let mut params = params;
        let mut params_ty: Vec<Type> = Vec::new();
        let mut i: usize = 0;
        while i < params.len()
            invariant
                i <= params@.len(),
                params@.len() == orig.len(),
                params_ty@.len() == i,
                forall|j: int| 0 <= j < i ==> (#[trigger] params@[j]).0.model() == with_ty(orig[j].0, orig[j].1)
                    && params@[j].1@ == orig[j].1,
                forall|j: int| i <= j < params@.len() ==> (#[trigger] params@[j]).0.model() == orig[j].0
                    && params@[j].1@ == orig[j].1,
                forall|j: int| 0 <= j < i ==> (#[trigger] params_ty@[j])@ == orig[j].1,
            decreases params@.len() - i,
        {
            let mut p = (placeholder(), Type::unknown());
            params.set_and_swap(i, &mut p);
            let (mut e, t) = p;
            e.ty = t.duplicate();
            params_ty.push(t.duplicate());
            let mut p1 = (e, t);
            params.set_and_swap(i, &mut p1);
            i += 1;
        }
        proof {
            lemma_tparam_models(params@);
            lemma_type_models(params_ty@);
            assert(tparam_models(params@) =~= typed_params_of(orig));
            assert(type_models(params_ty@) =~= param_types(orig));
        }
        let func_ty = Type::func(params_ty, Box::new(return_ty.duplicate()));
        let mut n = *name;
        n.ty = func_ty.duplicate();
        let (n1, res1) = self.create_ident(n, func_ty.duplicate());
        if let Err(x) = res1 {
            return (fndef_expr(n1, params, return_ty, *body, func_ty), Err(x));
        }
        self.local_vars.create_deeper_scope();
        let (params2, res2) = self.create_params(params);
        if let Err(x) = res2 {
            return (fndef_expr(n1, params2, return_ty, *body, func_ty), Err(x));
        }
        let (b3, res3) = self.resolve(*body, Ghost(fuel));
        if let Err(x) = res3 {
            return (fndef_expr(n1, params2, return_ty, b3, func_ty), Err(x));
        }
        if !b3.ty.equals(&return_ty) {
            let expected = return_ty.duplicate();
            let actual = b3.ty.duplicate();
            return (fndef_expr(n1, params2, return_ty, b3, func_ty), Err(TypeCheckError::TypeError { expected, actual }));
        }
        self.local_vars.create_shallow_scope();
        let t = func_ty.duplicate();
        (fndef_expr(n1, params2, return_ty, b3, func_ty), Ok(t))
    }

    fn resolve_if(&mut self, ty0: Type, i: IfExpr<TypedExpression>, Ghost(fuel): Ghost<nat>) -> (r: (
        TypedExpression,
        Result<Type, TypeCheckError>,
    ))
        requires
            old(self).wf(),
            rs_if(fuel, old(self).state(), ty0@, i.condition@, i.consequence@, opt_model(&i.alternative)) is Some,
        ensures
            final(self).wf(),
            step_matches(
                rs_if(fuel, old(self).state(), ty0@, i.condition@, i.consequence@, opt_model(&i.alternative)),
                final(self).state(),
                r.0,
                r.1,
            ),
        decreases fuel, 2int, 0int,
    {
        let IfExpr { condition, consequence, alternative } = i;
        let (c1, r1) = self.resolve(*condition, Ghost(fuel));
        if let Err(x) = r1 {
            return (if_expr(c1, *consequence, alternative, ty0), Err(x));
        }
        let (t2, r2) = self.resolve(*consequence, Ghost(fuel));
        if let Err(x) = r2 {
            return (if_expr(c1, t2, alternative, ty0), Err(x));
        }
        if !c1.ty.equals(&Type::bool()) && !c1.ty.equals(&Type::integer()) {
            let actual = c1.ty.duplicate();
            return (if_expr(c1, t2, alternative, ty0), Err(TypeCheckError::TypeError { expected: Type::bool(), actual }));
        }
        match alternative {
            None => {
                let t = t2.ty.duplicate();
                let t1 = t2.ty.duplicate();
                (if_expr(c1, t2, None, t), Ok(t1))
            },
            Some(a) => {
                let (a3, r3) = self.resolve(*a, Ghost(fuel));
                if let Err(x) = r3 {
                    return (if_expr(c1, t2, Some(Box::new(a3)), ty0), Err(x));
                }
                if !t2.ty.equals(&a3.ty) {
                    let expected = t2.ty.duplicate();
                    let actual = a3.ty.duplicate();
                    return (if_expr(c1, t2, Some(Box::new(a3)), ty0), Err(TypeCheckError::TypeError { expected, actual }));
                }
                let t = t2.ty.duplicate();
                let t1 = t2.ty.duplicate();
                (if_expr(c1, t2, Some(Box::new(a3)), t), Ok(t1))
            },
        }
    }

    fn resolve_return(&mut self, ty0: Type, r: ReturnExpr<TypedExpression>, Ghost(fuel): Ghost<nat>) -> (res: (
        TypedExpression,
        Result<Type, TypeCheckError>,
    ))
        requires
            old(self).wf(),
            rs_return(fuel, old(self).state(), ty0@, r.value@) is Some,
        ensures
            final(self).wf(),
            step_matches(rs_return(fuel, old(self).state(), ty0@, r.value@), final(self).state(), res.0, res.1),
        decreases fuel, 2int, 0int,
    {
        let (v1, r1) = self.resolve(*r.value, Ghost(fuel));
        if let Err(x) = r1 {
            return (TypedExpression { kind: TypedExpressionKind::ReturnExpr(ReturnExpr { value: Box::new(v1) }), ty: ty0 }, Err(x));
        }
        let t = v1.ty.duplicate();
        let t1 = v1.ty.duplicate();
        (TypedExpression { kind: TypedExpressionKind::ReturnExpr(ReturnExpr { value: Box::new(v1) }), ty: t }, Ok(t1))
    }

    fn resolve_unary(&mut self, ty0: Type, u: UnaryExpr<TypedExpression>, Ghost(fuel): Ghost<nat>) -> (r: (
        TypedExpression,
        Result<Type, TypeCheckError>,
    ))
        requires
            old(self).wf(),
            rs_unary(fuel, old(self).state(), ty0@, u.kind, u.expr@) is Some,
        ensures
            final(self).wf(),
            step_matches(rs_unary(fuel, old(self).state(), ty0@, u.kind, u.expr@), final(self).state(), r.0, r.1),
        decreases fuel, 2int, 0int,
    {
        let UnaryExpr { kind, expr } = u;
        let (u1, r1) = self.resolve(*expr, Ghost(fuel));
        if let Err(x) = r1 {
            return (unary_expr(kind, u1, ty0), Err(x));
        }
        match kind {
            UnaryExprKind::Minus => {
                if !u1.ty.equals(&Type::integer()) {
                    let actual = u1.ty.duplicate();
                    return (unary_expr(kind, u1, ty0), Err(TypeCheckError::TypeError { expected: Type::integer(), actual }));
                }
                let mut u2 = u1;
                u2.ty = Type::integer();
                (unary_expr(kind, u2, Type::integer()), Ok(Type::integer()))
            },
            UnaryExprKind::Not => {
                if !u1.ty.equals(&Type::bool()) && !u1.ty.equals(&Type::integer()) {
                    let actual = u1.ty.duplicate();
                    return (unary_expr(kind, u1, ty0), Err(TypeCheckError::TypeError { expected: Type::bool(), actual }));
                }
                let mut u2 = u1;
                u2.ty = Type::bool();
                (unary_expr(kind, u2, Type::bool()), Ok(Type::bool()))
            },
            UnaryExprKind::Deref => {
                let target = match &u1.ty.kind {
                    TypeKind::Ptr { ptr_to } => Some(ptr_to.duplicate()),
                    _ => None,
                };
                match target {
                    Some(t) => {
                        let mut u2 = u1;
                        u2.ty = t.duplicate();
                        let t1 = t.duplicate();
                        (unary_expr(kind, u2, t1), Ok(t))
                    },
                    None => {
                        let actual = u1.ty.duplicate();
                        let expected = Type::pointer_to(Box::new(Type::unknown()));
                        (unary_expr(kind, u1, ty0), Err(TypeCheckError::TypeError { expected, actual }))
                    },
                }
            },
            UnaryExprKind::Addr => {
                let t = Type::pointer_to(Box::new(u1.ty.duplicate()));
                let mut u2 = u1;
                u2.ty = t.duplicate();
                let t1 = t.duplicate();
                (unary_expr(kind, u2, t1), Ok(t))
            },
        }
    }

    fn resolve_array(&mut self, ty0: Type, a: Array<TypedExpression>, Ghost(fuel): Ghost<nat>) -> (r: (
        TypedExpression,
        Result<Type, TypeCheckError>,
    ))
        requires
            old(self).wf(),
            rs_array(fuel, old(self).state(), ty0@, texpr_models(a.elements@)) is Some,
        ensures
            final(self).wf(),
            step_matches(rs_array(fuel, old(self).state(), ty0@, texpr_models(a.elements@)), final(self).state(), r.0, r.1),
        decreases fuel, 3int, 0int,
    {
        let (elements, res) = self.resolve_elements(a.elements, Ghost(fuel));
        if let Err(x) = res {
            return (TypedExpression { kind: TypedExpressionKind::Array(Array { elements }), ty: ty0 }, Err(x));
        }
        proof {
            lemma_texpr_models(elements@);
        }
        let length = elements.len() as isize;
        let elem = if elements.len() == 0 {
            Type::unknown()
        } else {
            elements[0].ty.duplicate()
        };
        let t = Type::array(Box::new(elem), length);
        let t1 = t.duplicate();
        (TypedExpression { kind: TypedExpressionKind::Array(Array { elements }), ty: t }, Ok(t1))
    }

    /// Resolves the elements of an array literal, as `rs_elements` describes.
    #[verifier::loop_isolation(false)]
    fn resolve_elements(&mut self, elements: Vec<TypedExpression>, Ghost(fuel): Ghost<nat>) -> (r: (
        Vec<TypedExpression>,
        Result<(), TypeCheckError>,
    ))
        requires
            old(self).wf(),
            rs_elements(fuel, old(self).state(), Seq::empty(), texpr_models(elements@)) is Some,
        ensures
            final(self).wf(),
            match rs_elements(fuel, old(self).state(), Seq::empty(), texpr_models(elements@)) {
                Some((st, els, res)) => final(self).state() == st && texpr_models(r.0@) == els && done_matches(res, r.1),
                None => false,
            },
        decreases fuel, 2int, 0int,
    {
        let ghost all = texpr_models(elements@);
        proof {
            lemma_texpr_models(elements@);
            assert(all.subrange(0, all.len() as int) =~= all);
        }
        let mut elements = elements;
        let mut i: usize = 0;
        let ghost mut done: Seq<TExpr> = Seq::empty();
        while i < elements.len()
            invariant
                self.wf(),
                i <= elements@.len(),
                elements@.len() == all.len(),
                done.len() == i,
                forall|j: int| 0 <= j < i ==> #[trigger] elements@[j].model() == done[j],
                forall|j: int| i <= j < elements@.len() ==> #[trigger] elements@[j].model() == all[j],
                rs_elements(fuel, old(self).state(), Seq::empty(), all) == rs_elements(
                    fuel,
                    self.state(),
                    done,
                    all.subrange(i as int, all.len() as int),
                ),
            decreases elements@.len() - i,
        {
            let ghost rest = all.subrange(i as int, all.len() as int);
            proof {
                assert(rest[0] == all[i as int]);
                assert(rest.drop_first() =~= all.subrange(i + 1, all.len() as int));
            }
            let mut e = placeholder();
            elements.set_and_swap(i, &mut e);
            proof {
                assert(i > 0 ==> done[0] == elements@[0].model());
            }
            let (e1, res) = self.resolve(e, Ghost(fuel));
            let mismatch = i > 0 && !e1.ty.equals(&elements[0].ty);
            proof {
                assert(mismatch == (done.len() > 0 && e1@.ty != done[0].ty));
            }
            let actual = e1.ty.duplicate();
            let mut e1 = e1;
            elements.set_and_swap(i, &mut e1);
            if let Err(x) = res {
                proof {
                    lemma_texpr_models(elements@);
                    assert(texpr_models(elements@) =~= done.push(elements@[i as int].model()) + rest.drop_first());
                }
                return (elements, Err(x));
            }
            if mismatch {
                proof {
                    lemma_texpr_models(elements@);
                    assert(texpr_models(elements@) =~= done.push(elements@[i as int].model()) + rest.drop_first());
                }
                let expected = elements[0].ty.duplicate();
                return (elements, Err(TypeCheckError::TypeError { expected, actual }));
            }
            proof {
                done = done.push(elements@[i as int].model());
            }
            i += 1;
        }
        proof {
            lemma_texpr_models(elements@);
            assert(texpr_models(elements@) =~= done);
        }
        (elements, Ok(()))
    }

    fn resolve_index(&mut self, ty0: Type, i: IndexExpr<TypedExpression>, Ghost(fuel): Ghost<nat>) -> (r: (
        TypedExpression,
        Result<Type, TypeCheckError>,
    ))
        requires
            old(self).wf(),
            rs_index(fuel, old(self).state(), ty0@, i.array@, i.index@) is Some,
        ensures
            final(self).wf(),
            step_matches(rs_index(fuel, old(self).state(), ty0@, i.array@, i.index@), final(self).state(), r.0, r.1),
        decreases fuel, 2int, 0int,
    {
        let IndexExpr { array, index } = i;
        let (a1, r1) = self.resolve(*array, Ghost(fuel));
        if let Err(x) = r1 {
            return (index_expr(a1, *index, ty0), Err(x));
        }
        let (i2, r2) = self.resolve(*index, Ghost(fuel));
        if let Err(x) = r2 {
            return (index_expr(a1, i2, ty0), Err(x));
        }
        if !i2.ty.equals(&Type::integer()) {
            let actual = i2.ty.duplicate();
            return (index_expr(a1, i2, ty0), Err(TypeCheckError::TypeError { expected: Type::integer(), actual }));
        }
        let element = match &a1.ty.kind {
            TypeKind::Array { element_type, .. } => Some(element_type.duplicate()),
            TypeKind::Ptr { ptr_to } => Some(ptr_to.duplicate()),
            _ => None,
        };
        match element {
            Some(t) => {
                let t1 = t.duplicate();
                (index_expr(a1, i2, t1), Ok(t))
            },
            None => {
                let actual = a1.ty.duplicate();
                let expected = Type::pointer_to(Box::new(Type::unknown()));
                (index_expr(a1, i2, ty0), Err(TypeCheckError::TypeError { expected, actual }))
            },
        }
    }
}

fn binary_expr(kind: BinaryExprKind, lhs: TypedExpression, rhs: TypedExpression, ty: Type) -> (r: TypedExpression)
    ensures
        r@ == binary_of(kind, lhs@, rhs@, ty@),
{
    TypedExpression { kind: TypedExpressionKind::BinaryExpr(BinaryExpr { kind, lhs: Box::new(lhs), rhs: Box::new(rhs) }), ty }
}

fn let_expr(name: TypedExpression, value: TypedExpression, ty: Type, ty0: Type) -> (r: TypedExpression)
    ensures
        r@ == let_of(name@, value@, ty@, ty0@),
{
    TypedExpression {
        kind: TypedExpressionKind::LetExpr(LetExpr { name: Box::new(name), value: Box::new(value), ty }),
        ty: ty0,
    }
}

fn call_expr(func: TypedExpression, args: Vec<TypedExpression>, ty: Type) -> (r: TypedExpression)
    ensures
        r@ == call_of(func@, texpr_models(args@), ty@),
{
    TypedExpression { kind: TypedExpressionKind::CallExpr(CallExpr { func: Box::new(func), args }), ty }
}

fn duplicate_args(v: &Vec<TypedExpression>) -> (r: Vec<TypedExpression>)
    ensures
        texpr_models(r@) == texpr_models(v@),
{
    crate::typing::typed::duplicate_texprs(v)
}


/// The model of an optional boxed typed expression.
pub open spec fn opt_model(a: &Option<Box<TypedExpression>>) -> Option<Box<TExpr>> {
    match a {
        Some(e) => Some(Box::new(e.model())),
        None => None,
    }
}

fn fndef_expr(
    name: TypedExpression,
    params: Vec<(TypedExpression, Type)>,
    return_ty: Type,
    body: TypedExpression,
    ty: Type,
) -> (r: TypedExpression)
    ensures
        r@ == fndef_of(name@, tparam_models(params@), return_ty@, body@, ty@),
{
    TypedExpression {
        kind: TypedExpressionKind::FunctionDefExpr(FunctionDefExpr {
            name: Box::new(name),
            params,
            return_ty,
            body: Box::new(body),
        }),
        ty,
    }
}

fn if_expr(c: TypedExpression, t: TypedExpression, a: Option<Box<TypedExpression>>, ty: Type) -> (r: TypedExpression)
    ensures
        r@ == if_of(c@, t@, opt_model(&a), ty@),
{
    TypedExpression {
        kind: TypedExpressionKind::IfExpr(IfExpr { condition: Box::new(c), consequence: Box::new(t), alternative: a }),
        ty,
    }
}

fn unary_expr(kind: UnaryExprKind, u: TypedExpression, ty: Type) -> (r: TypedExpression)
    ensures
        r@ == unary_of(kind, u@, ty@),
{
    TypedExpression { kind: TypedExpressionKind::UnaryExpr(UnaryExpr { kind, expr: Box::new(u) }), ty }
}

fn index_expr(a: TypedExpression, i: TypedExpression, ty: Type) -> (r: TypedExpression)
    ensures
        r@ == index_of(a@, i@, ty@),
{
    TypedExpression { kind: TypedExpressionKind::IndexExpr(IndexExpr { array: Box::new(a), index: Box::new(i) }), ty }
}


/// The rewritten right operand of a pointer plus or minus an integer.
fn scaled_offset_expr(l: &TypedExpression, r: &TypedExpression) -> (e: TypedExpression)
    requires
        l@.ty is Ptr,
    ensures
        e@ == scaled_offset(l@, r@),
{
    let size = l.ty.calc_size();
    let size_expr = Expression::Integer(Integer { value: size });
    assert(size_expr@ == ExprModel::Integer(size as int));
    let moved = r.into_expression();
    let rewritten = Expression::BinaryExpr(BinaryExpr {
        kind: BinaryExprKind::Mul,
        lhs: Box::new(moved),
        rhs: Box::new(size_expr),
    });
    proof {
        assert(l@.ty == l.ty@);
        assert(size as int == size_of(l@.ty));
        assert(moved@ == untyped_of(r@));
        assert(rewritten@ == ExprModel::Binary {
            kind: BinaryExprKind::Mul,
            lhs: Box::new(untyped_of(r@)),
            rhs: Box::new(ExprModel::Integer(size_of(l@.ty))),
        });
    }
    TypedExpression::from_expression(&rewritten)
}

/// The rewritten right operand of the difference of two pointers.
fn pointer_distance_expr(l: &TypedExpression, r: &TypedExpression) -> (e: TypedExpression)
    requires
        l@.ty is Ptr,
    ensures
        e@ == pointer_distance(l@, r@),
{
    let size = l.ty.calc_size();
    let left = l.into_expression();
    let right = r.into_expression();
    let difference = Expression::BinaryExpr(BinaryExpr {
        kind: BinaryExprKind::Sub,
        lhs: Box::new(left),
        rhs: Box::new(right),
    });
    let ghost dm = difference@;
    proof {
        assert(dm == ExprModel::Binary {
            kind: BinaryExprKind::Sub,
            lhs: Box::new(untyped_of(l@)),
            rhs: Box::new(untyped_of(r@)),
        });
    }
    let size_expr = Expression::Integer(Integer { value: size });
    assert(size_expr@ == ExprModel::Integer(size as int));
    let rewritten = Expression::BinaryExpr(BinaryExpr {
        kind: BinaryExprKind::Div,
        lhs: Box::new(difference),
        rhs: Box::new(size_expr),
    });
    proof {
        assert(l@.ty == l.ty@);
        assert(rewritten@ == ExprModel::Binary {
            kind: BinaryExprKind::Div,
            lhs: Box::new(dm),
            rhs: Box::new(ExprModel::Integer(size_of(l@.ty))),
        });
    }
    TypedExpression::from_expression(&rewritten)
}


impl TypedNode {
    /// Resolves the types within the node with a new resolver, and gives the node's type
    /// together with the resolver, which holds the variables placed.
    pub fn resolve_type(&mut self) -> (r: Result<(Type, TypeResolver), TypeCheckError>)
        requires
            node_resolves(old(self)@),
        ensures
            match node_resolution(old(self)@) {
                Some((st, n, res)) => final(self)@ == n && match res {
                    Ok(t) => r matches Ok((ty, resolver)) && ty@ == t && resolver.wf() && resolver.state() == st,
                    Err(e) => r matches Err(x) && x@ == e,
                },
                None => false,
            },
    {
        let ghost fuel = choose|fuel: nat| rs_node(fuel, initial_rstate(), self@) is Some;
        let mut resolver = TypeResolver::new();
        let mut taken = TypedNode::Expression(placeholder());
        std::mem::swap(&mut taken, self);
        match taken {
            TypedNode::Program(p) => {
                proof {
                    assert(tstmt_models(p.statements@) == tstmt_models(p.statements@));
                }
                let (stmts, res) = resolver.resolve_stmts(p.statements, Ghost(fuel));
                *self = TypedNode::Program(Program { statements: stmts });
                match res {
                    Ok(t) => Ok((t, resolver)),
                    Err(e) => Err(e),
                }
            },
            TypedNode::Statement(stmt) => {
                let (s1, res) = resolver.resolve_stmt(stmt, Ghost(fuel));
                *self = TypedNode::Statement(s1);
                match res {
                    Ok(t) => Ok((t, resolver)),
                    Err(e) => Err(e),
                }
            },
            TypedNode::Expression(e) => {
                let (e1, res) = resolver.resolve(e, Ghost(fuel));
                *self = TypedNode::Expression(e1);
                match res {
                    Ok(t) => Ok((t, resolver)),
                    Err(e) => Err(e),
                }
            },
        }
    }
}

} // verus!
