//! The runtime values of the wervc evaluator.
use vstd::prelude::*;
use crate::ast::{Expression, ExprModel};
use crate::text::{copy_string, string_eq, append_str, isize_to_string, int_text};
use crate::environment::Duplicate;

verus! {

#[derive(Debug, PartialEq, Eq)]
pub enum Object {
    Integer(isize),
    Boolean(bool),
    Function { params: Vec<String>, body: Expression },
    Array(Vec<Object>),
    Return(Box<Object>),
    Pointer(Box<Object>),
    Unit,
}

/// The abstract value of a runtime value.
pub enum ObjModel {
    Integer(int),
    Boolean(bool),
    Function { params: Seq<Seq<char>>, body: ExprModel },
    Array(Seq<ObjModel>),
    Return(Box<ObjModel>),
    Pointer(Box<ObjModel>),
    Unit,
}

/// The characters of each name in a list.
pub open spec fn names_of(s: Seq<String>) -> Seq<Seq<char>> {
    Seq::new(s.len(), |i: int| s[i]@)
}

impl Object {
    pub open spec fn model(&self) -> ObjModel
        decreases self,
    {
        match self {
            Object::Integer(v) => ObjModel::Integer(*v as int),
            Object::Boolean(b) => ObjModel::Boolean(*b),
            Object::Function { params, body } => ObjModel::Function { params: names_of(params@), body: body@ },
            Object::Array(v) => ObjModel::Array(obj_models(v@)),
            Object::Return(o) => ObjModel::Return(Box::new(o.model())),
            Object::Pointer(o) => ObjModel::Pointer(Box::new(o.model())),
            Object::Unit => ObjModel::Unit,
        }
    }
}

impl View for Object {
    type V = ObjModel;

    open spec fn view(&self) -> ObjModel {
        self.model()
    }
}

pub open spec fn obj_models(s: Seq<Object>) -> Seq<ObjModel>
    decreases s,
{
    if s.len() == 0 {
        Seq::empty()
    } else {
        obj_models(s.subrange(0, s.len() - 1)).push(s[s.len() - 1].model())
    }
}

pub proof fn lemma_obj_models(s: Seq<Object>)
    ensures
        obj_models(s).len() == s.len(),
        forall|i: int| 0 <= i < s.len() ==> #[trigger] obj_models(s)[i] == s[i].model(),
    decreases s.len(),
{
    if s.len() > 0 {
        lemma_obj_models(s.subrange(0, s.len() - 1));
    }
}

/// Appending a value appends its model.
pub proof fn lemma_obj_models_push(s: Seq<Object>, o: Object)
    ensures
        obj_models(s.push(o)) == obj_models(s).push(o.model()),
{
    assert(s.push(o).subrange(0, s.len() as int) =~= s);
}

/// The text that `Display` writes for a value; a pointer is written as a machine address,
/// which no model holds, so the text is stated only for values that hold no pointer.
pub open spec fn display(o: ObjModel) -> Seq<char>
    decreases o,
{
    match o {
        ObjModel::Integer(i) => int_text(i),
        ObjModel::Boolean(b) => if b {
            seq!['t', 'r', 'u', 'e']
        } else {
            seq!['f', 'a', 'l', 's', 'e']
        },
        ObjModel::Function { .. } => seq!['[', 'F', 'u', 'n', 'c', 't', 'i', 'o', 'n', ']'],
        ObjModel::Array(values) => seq!['['] + display_list(values) + seq![']'],
        ObjModel::Return(inner) => display(*inner),
        ObjModel::Pointer(_) => Seq::empty(),
        ObjModel::Unit => seq!['(', ')'],
    }
}

/// The texts of the values joined by ", ".
pub open spec fn display_list(values: Seq<ObjModel>) -> Seq<char>
    decreases values,
{
    if values.len() == 0 {
        Seq::empty()
    } else if values.len() == 1 {
        display(values[0])
    } else {
        display_list(values.drop_last()) + seq![',', ' '] + display(values.last())
    }
}

/// Whether a pointer occurs anywhere in the value.
pub open spec fn has_pointer(o: ObjModel) -> bool
    decreases o,
{
    match o {
        ObjModel::Array(values) => any_pointer(values),
        ObjModel::Return(inner) => has_pointer(*inner),
        ObjModel::Pointer(_) => true,
        _ => false,
    }
}

pub open spec fn any_pointer(values: Seq<ObjModel>) -> bool
    decreases values,
{
    if values.len() == 0 {
        false
    } else {
        any_pointer(values.drop_last()) || has_pointer(values.last())
    }
}

/// The address held by a pointer value, as `{:p}` formats it.
#[verifier::external_body]
fn pointer_text(p: &Box<Object>) -> (s: String) {
    format!("{:p}", p)
}

impl Object {
    pub fn is_return(&self) -> (b: bool)
        ensures
            b == self@ is Return,
    {
        match self {
            Object::Return(_) => true,
            _ => false,
        }
    }

    /// A value equal to this one.
    pub fn duplicate(&self) -> (r: Object)
        ensures
            r@ == self@,
        decreases self,
    {
        match self {
            Object::Integer(v) => Object::Integer(*v),
            Object::Boolean(b) => Object::Boolean(*b),
            Object::Function { params, body } => {
                let p = copy_strings(params);
                Object::Function { params: p, body: body.duplicate() }
            },
            Object::Array(v) => Object::Array(duplicate_objects(v)),
            Object::Return(o) => Object::Return(Box::new(o.duplicate())),
            Object::Pointer(o) => Object::Pointer(Box::new(o.duplicate())),
            Object::Unit => Object::Unit,
        }
    }

    /// Structural equality of two values, as the derived `==` compares them.
    pub fn equals(&self, other: &Object) -> (b: bool)
        ensures
            b == (self@ == other@),
        decreases self,
    {
        match (self, other) {
            (Object::Integer(a), Object::Integer(b)) => *a == *b,
            (Object::Boolean(a), Object::Boolean(b)) => *a == *b,
            (Object::Function { params: p1, body: b1 }, Object::Function { params: p2, body: b2 }) => {
                if !strings_equal(p1, p2) {
                    return false;
                }
                b1.equals(b2)
            },
            (Object::Array(a), Object::Array(b)) => objects_equal(a, b),
            (Object::Return(a), Object::Return(b)) => {
                let r = a.equals(b);
                proof {
                    if !r {
                        assert(self@->Return_0 != other@->Return_0);
                    }
                }
                r
            },
            (Object::Pointer(a), Object::Pointer(b)) => {
                let r = a.equals(b);
                proof {
                    if !r {
                        assert(self@->Pointer_0 != other@->Pointer_0);
                    }
                }
                r
            },
            (Object::Unit, Object::Unit) => true,
            _ => false,
        }
    }

    /// The text `Display` writes for this value.
    pub fn to_display(&self) -> (s: String)
        ensures
            !has_pointer(self@) ==> s@ == display(self@),
        decreases self,
    {
        proof {
            reveal_strlit("true");
            reveal_strlit("false");
            reveal_strlit("[Function]");
            reveal_strlit("[");
            reveal_strlit("]");
            reveal_strlit("()");
        }
        match self {
            Object::Integer(v) => isize_to_string(*v),
            Object::Boolean(b) => if *b {
                String::from_str("true")
            } else {
                String::from_str("false")
            },
            Object::Function { .. } => String::from_str("[Function]"),
            Object::Array(values) => {
                let mut s = String::from_str("[");
                let inner = display_objects(values);
                append_str(&mut s, &inner);
                s.append("]");
                s
            },
            Object::Return(o) => o.to_display(),
            Object::Pointer(p) => pointer_text(p),
            Object::Unit => String::from_str("()"),
        }
    }
}

impl Duplicate for Object {
    fn duplicate(&self) -> (r: Object) {
        Object::duplicate(self)
    }
}

/// The texts of the values joined by ", ".
pub fn display_objects(values: &Vec<Object>) -> (s: String)
    ensures
        !any_pointer(obj_models(values@)) ==> s@ == display_list(obj_models(values@)),
    decreases values,
{
    let mut s = String::new();
    let mut i: usize = 0;
    proof {
        lemma_obj_models(values@);
    }
    while i < values.len()
        invariant
            i <= values.len(),
            obj_models(values@).len() == values.len(),
            forall|j: int| 0 <= j < values.len() ==> #[trigger] obj_models(values@)[j] == values@[j].model(),
            !any_pointer(obj_models(values@).subrange(0, i as int)) ==> s@ == display_list(
                obj_models(values@).subrange(0, i as int),
            ),
        decreases values.len() - i,
    {
        proof {
            assert(decreases_to!(values => values@[i as int]));
        }
        let ghost before = obj_models(values@).subrange(0, i as int);
        let ghost after = obj_models(values@).subrange(0, i + 1);
        proof {
            assert(after.drop_last() =~= before);
            assert(after.last() == values@[i as int]@);
        }
        if i > 0 {
            proof {
                reveal_strlit(", ");
            }
            s.append(", ");
        }
        let t = values[i].to_display();
        append_str(&mut s, &t);
        i += 1;
        proof {
            if !any_pointer(after) {
                assert(!any_pointer(before));
                assert(!has_pointer(after.last()));
                if before.len() == 0 {
                    assert(after.len() == 1);
                    assert(s@ =~= display_list(after));
                } else {
                    assert(s@ =~= display_list(after));
                }
            }
        }
    }
    proof {
        assert(obj_models(values@).subrange(0, values.len() as int) =~= obj_models(values@));
    }
    s
}

/// Copies of a list of strings.
pub fn copy_strings(v: &Vec<String>) -> (r: Vec<String>)
    ensures
        names_of(r@) == names_of(v@),
{
    let mut out: Vec<String> = Vec::new();
    let mut i: usize = 0;
    while i < v.len()
        invariant
            i <= v.len(),
            out@.len() == i,
            forall|j: int| 0 <= j < i ==> out@[j]@ == v@[j]@,
        decreases v.len() - i,
    {
        out.push(copy_string(&v[i]));
        i += 1;
    }
    assert(names_of(out@) =~= names_of(v@));
    out
}

/// Element-wise equality of two lists of strings.
pub fn strings_equal(a: &Vec<String>, b: &Vec<String>) -> (r: bool)
    ensures
        r == (names_of(a@) == names_of(b@)),
{
    if a.len() != b.len() {
        assert(names_of(a@).len() != names_of(b@).len());
        return false;
    }
    let mut i: usize = 0;
    while i < a.len()
        invariant
            i <= a.len(),
            a.len() == b.len(),
            forall|j: int| 0 <= j < i ==> a@[j]@ == b@[j]@,
        decreases a.len() - i,
    {
        if !string_eq(&a[i], &b[i]) {
            assert(names_of(a@)[i as int] != names_of(b@)[i as int]);
            return false;
        }
        i += 1;
    }
    assert(names_of(a@) =~= names_of(b@));
    true
}

/// Copies of a list of values.
pub fn duplicate_objects(v: &Vec<Object>) -> (r: Vec<Object>)
    ensures
        obj_models(r@) == obj_models(v@),
    decreases v,
{
    let mut out: Vec<Object> = Vec::new();
    let mut i: usize = 0;
    while i < v.len()
        invariant
            i <= v.len(),
            out@.len() == i,
            forall|j: int| 0 <= j < i ==> out@[j]@ == v@[j]@,
        decreases v.len() - i,
    {
        proof {
            assert(decreases_to!(v => v@[i as int]));
        }
        out.push(v[i].duplicate());
        i += 1;
    }
    proof {
        lemma_obj_models(out@);
        lemma_obj_models(v@);
        assert(obj_models(out@) =~= obj_models(v@));
    }
    out
}

/// Element-wise equality of two lists of values.
pub fn objects_equal(a: &Vec<Object>, b: &Vec<Object>) -> (r: bool)
    ensures
        r == (obj_models(a@) == obj_models(b@)),
    decreases a,
{
    proof {
        lemma_obj_models(a@);
        lemma_obj_models(b@);
    }
    if a.len() != b.len() {
        return false;
    }
    let mut i: usize = 0;
    while i < a.len()
        invariant
            i <= a.len(),
            a.len() == b.len(),
            obj_models(a@).len() == a.len(),
            obj_models(b@).len() == b.len(),
            forall|j: int| 0 <= j < a.len() ==> #[trigger] obj_models(a@)[j] == a@[j].model(),
            forall|j: int| 0 <= j < b.len() ==> #[trigger] obj_models(b@)[j] == b@[j].model(),
            forall|j: int| 0 <= j < i ==> a@[j]@ == b@[j]@,
        decreases a.len() - i,
    {
        proof {
            assert(decreases_to!(a => a@[i as int]));
        }
        if !a[i].equals(&b[i]) {
            assert(obj_models(a@)[i as int] != obj_models(b@)[i as int]);
            return false;
        }
        i += 1;
    }
    assert(obj_models(a@) =~= obj_models(b@));
    true
}

} // verus!
