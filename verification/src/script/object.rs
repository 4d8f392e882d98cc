//! The values of the script language.
use vstd::prelude::*;
use crate::text::{copy_string, string_eq, int_text, isize_to_string};
use crate::environment::Duplicate;
use crate::script::ast::{Expression, ExprModel, expr_models, duplicate_exprs, exprs_equal};

verus! {

#[derive(Debug, PartialEq, Eq)]
pub enum Object {
    Integer(isize),
    Boolean(bool),
    /// The value of statements that give nothing; write it as `NULL`.
    _Null,
    Function { params: Vec<Expression>, body: Expression },
    Str(String),
}

/// The value of statements that give nothing.
pub const NULL: Object = Object::_Null;

/// The abstract value of an object.
pub enum ObjModel {
    Integer(int),
    Boolean(bool),
    Null,
    Function { params: Seq<ExprModel>, body: ExprModel },
    Str(Seq<char>),
}

impl View for Object {
    type V = ObjModel;

    open spec fn view(&self) -> ObjModel {
        match self {
            Object::Integer(v) => ObjModel::Integer(*v as int),
            Object::Boolean(b) => ObjModel::Boolean(*b),
            Object::_Null => ObjModel::Null,
            Object::Function { params, body } => ObjModel::Function { params: expr_models(params@), body: body@ },
            Object::Str(s) => ObjModel::Str(s@),
        }
    }
}

/// The text printing writes for a value.
pub open spec fn display(o: ObjModel) -> Seq<char> {
    match o {
        ObjModel::Integer(v) => int_text(v),
        ObjModel::Boolean(b) => if b {
            seq!['t', 'r', 'u', 'e']
        } else {
            seq!['f', 'a', 'l', 's', 'e']
        },
        ObjModel::Null => seq!['n', 'u', 'l', 'l'],
        ObjModel::Function { .. } => seq!['[', 'F', 'u', 'n', 'c', 't', 'i', 'o', 'n', ']'],
        ObjModel::Str(s) => s,
    }
}

impl Object {
    /// An object equal to this one.
    pub fn duplicate(&self) -> (r: Object)
        ensures
            r@ == self@,
    {
        match self {
            Object::Integer(v) => Object::Integer(*v),
            Object::Boolean(b) => Object::Boolean(*b),
            Object::_Null => Object::_Null,
            Object::Function { params, body } => Object::Function { params: duplicate_exprs(params), body: body.duplicate() },
            Object::Str(s) => Object::Str(copy_string(s)),
        }
    }

    /// Whether two objects are equal.
    pub fn equals(&self, other: &Object) -> (b: bool)
        ensures
            b == (self@ == other@),
    {
        match (self, other) {
            (Object::Integer(a), Object::Integer(b)) => *a == *b,
            (Object::Boolean(a), Object::Boolean(b)) => *a == *b,
            (Object::_Null, Object::_Null) => true,
            (Object::Function { params: p1, body: b1 }, Object::Function { params: p2, body: b2 }) => {
                exprs_equal(p1, p2) && b1.equals(b2)
            },
            (Object::Str(a), Object::Str(b)) => string_eq(a, b),
            _ => false,
        }
    }

    /// Whether this is the value of statements that give nothing.
    pub fn is_null(&self) -> (b: bool)
        ensures
            b == (self@ == ObjModel::Null),
    {
        matches!(self, Object::_Null)
    }

    /// The text printing writes for this value.
    pub fn to_display(&self) -> (s: String)
        ensures
            s@ == display(self@),
    {
        proof {
            reveal_strlit("true");
            reveal_strlit("false");
            reveal_strlit("null");
            reveal_strlit("[Function]");
        }
        match self {
            Object::Integer(v) => isize_to_string(*v),
            Object::Boolean(b) => if *b {
                String::from_str("true")
            } else {
                String::from_str("false")
            },
            Object::_Null => String::from_str("null"),
            Object::Function { .. } => String::from_str("[Function]"),
            Object::Str(s) => copy_string(s),
        }
    }
}

impl Duplicate for Object {
    fn duplicate(&self) -> (r: Object) {
        Object::duplicate(self)
    }
}

} // verus!
