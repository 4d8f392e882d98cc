//! Types of the wervc language.
use vstd::prelude::*;
use crate::text::str_eq;

verus! {

/// The abstract value of a type.
pub enum TypeModel {
    Never,
    Unknown,
    Int,
    Bool,
    Func { params: Seq<TypeModel>, ret: Box<TypeModel> },
    Ptr { to: Box<TypeModel> },
    Array { elem: Box<TypeModel>, length: int },
}

#[derive(Debug, PartialEq, Eq)]
pub struct Type {
    pub kind: TypeKind,
}

#[derive(Debug, PartialEq, Eq)]
pub enum TypeKind {
    Never,
    Unknown,
    Int,
    Bool,
    Func { params_ty: Vec<Type>, return_ty: Box<Type> },
    Ptr { ptr_to: Box<Type> },
    Array { element_type: Box<Type>, length: isize },
}

impl Type {
    pub open spec fn model(&self) -> TypeModel
        decreases self,
    {
        match &self.kind {
            TypeKind::Never => TypeModel::Never,
            TypeKind::Unknown => TypeModel::Unknown,
            TypeKind::Int => TypeModel::Int,
            TypeKind::Bool => TypeModel::Bool,
            TypeKind::Func { params_ty, return_ty } => TypeModel::Func {
                params: type_models(params_ty@),
                ret: Box::new(return_ty.model()),
            },
            TypeKind::Ptr { ptr_to } => TypeModel::Ptr { to: Box::new(ptr_to.model()) },
            TypeKind::Array { element_type, length } => TypeModel::Array {
                elem: Box::new(element_type.model()),
                length: *length as int,
            },
        }
    }
}

pub open spec fn type_models(s: Seq<Type>) -> Seq<TypeModel>
    decreases s,
{
    if s.len() == 0 {
        Seq::empty()
    } else {
        type_models(s.subrange(0, s.len() - 1)).push(s[s.len() - 1].model())
    }
}

pub proof fn lemma_type_models(s: Seq<Type>)
    ensures
        type_models(s).len() == s.len(),
        forall|i: int| 0 <= i < s.len() ==> #[trigger] type_models(s)[i] == s[i].model(),
    decreases s.len(),
{
    if s.len() > 0 {
        lemma_type_models(s.subrange(0, s.len() - 1));
    }
}

impl View for Type {
    type V = TypeModel;

    open spec fn view(&self) -> TypeModel {
        self.model()
    }
}

/// The storage size of a value of type `t`, in bytes.
pub open spec fn size_of(t: TypeModel) -> int
    decreases t,
{
    match t {
        TypeModel::Int => 8,
        TypeModel::Bool => 8,
        TypeModel::Ptr { .. } => 8,
        TypeModel::Func { .. } => 8,
        TypeModel::Array { elem, length } => size_of(*elem) * length,
        TypeModel::Unknown => 0,
        TypeModel::Never => 0,
    }
}

/// Every size computed on the way to `size_of(t)` fits in an `isize`.
pub open spec fn size_fits(t: TypeModel) -> bool
    decreases t,
{
    match t {
        TypeModel::Array { elem, length } => size_fits(*elem) && isize::MIN <= size_of(*elem)
            * length <= isize::MAX,
        _ => true,
    }
}

/// A value of type `from` may be stored where a value of type `to` is expected.
pub open spec fn assignable(from: TypeModel, to: TypeModel) -> bool {
    from == to || (from == TypeModel::Int && to is Ptr)
}

/// The name of a type as written after `:` in source text.
pub open spec fn kind_of_name(name: Seq<char>) -> TypeModel {
    if name == seq!['i', 'n', 't'] {
        TypeModel::Int
    } else if name == seq!['b', 'o', 'o', 'l'] {
        TypeModel::Bool
    } else {
        TypeModel::Unknown
    }
}

impl Type {
    fn new(kind: TypeKind) -> (t: Type)
        ensures
            t.kind == kind,
    {
        Type { kind }
    }

    pub fn calc_size(&self) -> (size: isize)
        requires
            size_fits(self@),
        ensures
            size as int == size_of(self@),
        decreases self,
    {
        match &self.kind {
            TypeKind::Int => 8,
            TypeKind::Bool => 8,
            TypeKind::Ptr { .. } => 8,
            TypeKind::Func { .. } => 8,
            TypeKind::Array { element_type, length } => element_type.calc_size() * *length,
            TypeKind::Unknown => 0,
            TypeKind::Never => 0,
        }
    }

    pub fn is_assignable_to(&self, to: &Type) -> (b: bool)
        ensures
            b == assignable(self@, to@),
    {
        if self.equals(to) {
            return true;
        }
        match (&self.kind, &to.kind) {
            (TypeKind::Int, TypeKind::Ptr { .. }) => true,
            _ => false,
        }
    }

    /// Turns an array type into a pointer to its element type; other types are left alone.
    pub fn try_cast_to_ptr(&mut self) -> (r: Option<Type>)
        ensures
            match old(self)@ {
                TypeModel::Array { elem, .. } => {
                    &&& final(self)@ == TypeModel::Ptr { to: elem }
                    &&& r matches Some(t) && t@ == final(self)@
                },
                _ => final(self)@ == old(self)@ && r is None,
            },
    {
        let elem = match &self.kind {
            TypeKind::Array { element_type, .. } => element_type.duplicate(),
            _ => {
                return None;
            },
        };
        *self = Type::pointer_to(Box::new(elem));
        Some(self.duplicate())
    }

    pub fn integer() -> (t: Type)
        ensures
            t@ == TypeModel::Int,
    {
        Type::new(TypeKind::Int)
    }

    pub fn bool() -> (t: Type)
        ensures
            t@ == TypeModel::Bool,
    {
        Type::new(TypeKind::Bool)
    }

    pub fn unknown() -> (t: Type)
        ensures
            t@ == TypeModel::Unknown,
    {
        Type::new(TypeKind::Unknown)
    }

    pub fn never() -> (t: Type)
        ensures
            t@ == TypeModel::Never,
    {
        Type::new(TypeKind::Never)
    }

    pub fn pointer_to(ptr_to: Box<Type>) -> (t: Type)
        ensures
            t@ == (TypeModel::Ptr { to: Box::new(ptr_to@) }),
    {
        Type { kind: TypeKind::Ptr { ptr_to } }
    }

    pub fn array(element_type: Box<Type>, length: isize) -> (t: Type)
        ensures
            t@ == (TypeModel::Array { elem: Box::new(element_type@), length: length as int }),
    {
        Type { kind: TypeKind::Array { element_type, length } }
    }

    pub fn func(params_ty: Vec<Type>, return_ty: Box<Type>) -> (t: Type)
        ensures
            t@ == (TypeModel::Func { params: type_models(params_ty@), ret: Box::new(return_ty@) }),
    {
        Type { kind: TypeKind::Func { params_ty, return_ty } }
    }

    /// The type named `name` (`int` or `bool`); any other name gives the unknown type.
    pub fn from_name(name: &str) -> (t: Type)
        ensures
            t@ == kind_of_name(name@),
    {
        proof {
            reveal_strlit("int");
            reveal_strlit("bool");
            assert("int"@ =~= seq!['i', 'n', 't']);
            assert("bool"@ =~= seq!['b', 'o', 'o', 'l']);
        }
        if str_eq(name, "int") {
            Type::integer()
        } else if str_eq(name, "bool") {
            Type::bool()
        } else {
            Type::unknown()
        }
    }

    /// A type equal to this one.
    pub fn duplicate(&self) -> (t: Type)
        ensures
            t@ == self@,
        decreases self,
    {
        match &self.kind {
            TypeKind::Never => Type::never(),
            TypeKind::Unknown => Type::unknown(),
            TypeKind::Int => Type::integer(),
            TypeKind::Bool => Type::bool(),
            TypeKind::Func { params_ty, return_ty } => {
                let params = duplicate_types(params_ty);
                Type::func(params, Box::new(return_ty.duplicate()))
            },
            TypeKind::Ptr { ptr_to } => Type::pointer_to(Box::new(ptr_to.duplicate())),
            TypeKind::Array { element_type, length } => Type::array(
                Box::new(element_type.duplicate()),
                *length,
            ),
        }
    }

    /// Structural equality of two types.
    pub fn equals(&self, other: &Type) -> (b: bool)
        ensures
            b == (self@ == other@),
        decreases self,
    {
        match (&self.kind, &other.kind) {
            (TypeKind::Never, TypeKind::Never) => true,
            (TypeKind::Unknown, TypeKind::Unknown) => true,
            (TypeKind::Int, TypeKind::Int) => true,
            (TypeKind::Bool, TypeKind::Bool) => true,
            (
                TypeKind::Func { params_ty: p1, return_ty: r1 },
                TypeKind::Func { params_ty: p2, return_ty: r2 },
            ) => {
                let same_params = types_equal(p1, p2);
                if !same_params {
                    return false;
                }
                let b = r1.equals(r2);
                proof {
                    if !b {
                        assert(self@->Func_ret != other@->Func_ret);
                    }
                }
                b
            },
            (TypeKind::Ptr { ptr_to: a }, TypeKind::Ptr { ptr_to: b }) => {
                let r = a.equals(b);
                proof {
                    if !r {
                        assert(self@->to != other@->to);
                    }
                }
                r
            },
            (
                TypeKind::Array { element_type: e1, length: l1 },
                TypeKind::Array { element_type: e2, length: l2 },
            ) => {
                if *l1 != *l2 {
                    assert(self@->length != other@->length);
                    return false;
                }
                let r = e1.equals(e2);
                proof {
                    if !r {
                        assert(self@->elem != other@->elem);
                    }
                }
                r
            },
            _ => false,
        }
    }
}

pub fn duplicate_types(v: &Vec<Type>) -> (r: Vec<Type>)
    ensures
        type_models(r@) == type_models(v@),
    decreases v,
{
    let mut out: Vec<Type> = Vec::new();
    let mut i: usize = 0;
    while i < v.len()
        invariant
            i <= v.len(),
            out@.len() == i,
            forall|j: int| 0 <= j < i ==> out@[j]@ == v@[j]@,
        decreases v.len() - i,
    {
        proof {
            assert(decreases_to!(v => v@[i as int]));
        }
        out.push(v[i].duplicate());
        i += 1;
    }
    proof {
        lemma_type_models(out@);
        lemma_type_models(v@);
        assert(type_models(out@) =~= type_models(v@));
    }
    out
}

pub fn types_equal(a: &Vec<Type>, b: &Vec<Type>) -> (r: bool)
    ensures
        r == (type_models(a@) == type_models(b@)),
    decreases a,
{
    proof {
        lemma_type_models(a@);
        lemma_type_models(b@);
    }
    if a.len() != b.len() {
        return false;
    }
    let mut i: usize = 0;
    while i < a.len()
        invariant
            i <= a.len(),
            a.len() == b.len(),
            type_models(a@).len() == a.len(),
            type_models(b@).len() == b.len(),
            forall|j: int| 0 <= j < type_models(a@).len() ==> #[trigger] type_models(a@)[j] == a@[j].model(),
            forall|j: int| 0 <= j < type_models(b@).len() ==> #[trigger] type_models(b@)[j] == b@[j].model(),
            forall|j: int| 0 <= j < i ==> a@[j]@ == b@[j]@,
        decreases a.len() - i,
    {
        proof {
            assert(decreases_to!(a => a@[i as int]));
        }
        if !a[i].equals(&b[i]) {
            assert(type_models(a@)[i as int] != type_models(b@)[i as int]);
            return false;
        }
        i += 1;
    }
    assert(type_models(a@) =~= type_models(b@));
    true
}


/// A type annotation names its type: the name `int` and no other gives the integer type,
/// the name `bool` and no other gives the boolean type, every other name gives the unknown
/// type, and two names that give the same known type are the same name.
pub proof fn lemma_type_names(name: Seq<char>, other: Seq<char>)
    ensures
        kind_of_name(name) == TypeModel::Int <==> name == seq!['i', 'n', 't'],
        kind_of_name(name) == TypeModel::Bool <==> name == seq!['b', 'o', 'o', 'l'],
        kind_of_name(name) == TypeModel::Int || kind_of_name(name) == TypeModel::Bool || kind_of_name(name)
            == TypeModel::Unknown,
        kind_of_name(name) == kind_of_name(other) && kind_of_name(name) != TypeModel::Unknown ==> name == other,
{
}
} // verus!
