//! The builtin functions `print` and `println`. A call records the values it prints; the
//! text of a record is what the program writes to its output.
use vstd::prelude::*;
use crate::ast::Expression;
use crate::text::{str_eq, append_str};
use crate::object::{Object, ObjModel, obj_models, lemma_obj_models, display, has_pointer};
use crate::eval::semantics::{is_builtin_call, is_print_name};

verus! {

/// One call of a printing builtin: the values printed, and whether the line was ended.
pub struct Printed {
    pub values: Vec<Object>,
    pub newline: bool,
}

impl View for Printed {
    type V = (Seq<ObjModel>, bool);

    open spec fn view(&self) -> (Seq<ObjModel>, bool) {
        (obj_models(self.values@), self.newline)
    }
}

pub open spec fn printed_models(s: Seq<Printed>) -> Seq<(Seq<ObjModel>, bool)> {
    Seq::new(s.len(), |i: int| s[i]@)
}

/// The texts of the values joined by single spaces.
pub open spec fn join_spaced(values: Seq<ObjModel>) -> Seq<char>
    decreases values.len(),
{
    if values.len() == 0 {
        Seq::empty()
    } else if values.len() == 1 {
        display(values[0])
    } else {
        join_spaced(values.drop_last()) + seq![' '] + display(values.last())
    }
}

/// The text a printing call writes: its values joined by spaces, then a line end for `println`.
pub open spec fn print_text(values: Seq<ObjModel>, newline: bool) -> Seq<char> {
    if newline {
        join_spaced(values).push('\n')
    } else {
        join_spaced(values)
    }
}

/// Whether `name` calls a builtin.
pub fn is_builtin(name: &Expression) -> (b: bool)
    ensures
        b == is_builtin_call(name@),
{
    match name {
        Expression::Ident(ident) => {
            proof {
                reveal_strlit("print");
                reveal_strlit("println");
                assert("print"@ =~= seq!['p', 'r', 'i', 'n', 't']);
                assert("println"@ =~= seq!['p', 'r', 'i', 'n', 't', 'l', 'n']);
            }
            str_eq(ident.name.as_str(), "print") || str_eq(ident.name.as_str(), "println")
        },
        _ => false,
    }
}

/// Calls the builtin `name` with `args`; `None` when `name` is no builtin.
pub fn call_builtin(name: &Expression, args: Vec<Object>, printed: &mut Vec<Printed>) -> (r: Option<Object>)
    ensures
        is_builtin_call(name@) ==> r == Some(Object::Unit) && final(printed)@ == old(printed)@.push(
            Printed { values: args, newline: name@->Ident_name == seq!['p', 'r', 'i', 'n', 't', 'l', 'n'] },
        ),
        !is_builtin_call(name@) ==> r is None && final(printed)@ == old(printed)@,
{
    match name {
        Expression::Ident(ident) => {
            proof {
                reveal_strlit("print");
                reveal_strlit("println");
                assert("print"@ =~= seq!['p', 'r', 'i', 'n', 't']);
                assert("println"@ =~= seq!['p', 'r', 'i', 'n', 't', 'l', 'n']);
            }
            if str_eq(ident.name.as_str(), "print") {
                Some(builtin_print(args, printed))
            } else if str_eq(ident.name.as_str(), "println") {
                Some(builtin_println(args, printed))
            } else {
                None
            }
        },
        _ => None,
    }
}

/// Prints the values, separated by spaces.
pub fn builtin_print(args: Vec<Object>, printed: &mut Vec<Printed>) -> (r: Object)
    ensures
        r == Object::Unit,
        final(printed)@ == old(printed)@.push(Printed { values: args, newline: false }),
{
    printed.push(Printed { values: args, newline: false });
    Object::Unit
}

/// Prints the values, separated by spaces, and ends the line.
pub fn builtin_println(args: Vec<Object>, printed: &mut Vec<Printed>) -> (r: Object)
    ensures
        r == Object::Unit,
        final(printed)@ == old(printed)@.push(Printed { values: args, newline: true }),
{
    printed.push(Printed { values: args, newline: true });
    Object::Unit
}

impl Printed {
    /// The text this call writes; a value holding a pointer writes a machine address.
    pub fn render(&self) -> (s: String)
        ensures
            (forall|i: int| 0 <= i < self.values@.len() ==> !has_pointer(#[trigger] self.values@[i]@)) ==> s@
                == print_text(self@.0, self.newline),
    {
        proof {
            lemma_obj_models(self.values@);
        }
        let ghost models = obj_models(self.values@);
        let mut s = String::new();
        let mut i: usize = 0;
        while i < self.values.len()
            invariant
                i <= self.values@.len(),
                models == obj_models(self.values@),
                models.len() == self.values@.len(),
                forall|j: int| 0 <= j < models.len() ==> #[trigger] models[j] == self.values@[j]@,
                (forall|j: int| 0 <= j < i ==> !has_pointer(#[trigger] self.values@[j]@)) ==> s@ == join_spaced(
                    models.subrange(0, i as int),
                ),
            decreases self.values@.len() - i,
        {
            let ghost after = models.subrange(0, i + 1);
            proof {
                assert(after.drop_last() =~= models.subrange(0, i as int));
            }
            if i > 0 {
                s.push(' ');
            }
            let t = self.values[i].to_display();
            append_str(&mut s, &t);
            i += 1;
            proof {
                if forall|j: int| 0 <= j < i ==> !has_pointer(#[trigger] self.values@[j]@) {
                    assert(!has_pointer(self.values@[i - 1]@));
                    assert(s@ =~= join_spaced(after));
                }
            }
        }
        proof {
            assert(models.subrange(0, i as int) =~= models);
        }
        if self.newline {
            s.push('\n');
        }
        s
    }
}

} // verus!
