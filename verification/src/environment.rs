//! A stack of scopes mapping names to values, innermost scope last.
use vstd::prelude::*;
use crate::text::{copy_string, string_eq};

verus! {

/// Values that can be copied into an equal value.
pub trait Duplicate: View + Sized {
    fn duplicate(&self) -> (r: Self)
        ensures
            r@ == self@,
    ;
}

/// The bindings of one scope, as a map from names to values.
pub open spec fn frame_map<V: View>(v: Seq<(String, V)>) -> Map<Seq<char>, V::V>
    decreases v.len(),
{
    if v.len() == 0 {
        Map::empty()
    } else {
        frame_map(v.drop_last()).insert(v.last().0@, v.last().1@)
    }
}

/// No name is bound twice within one scope.
pub open spec fn keys_unique<V>(v: Seq<(String, V)>) -> bool {
    forall|i: int, j: int| 0 <= i < j < v.len() ==> v[i].0@ != v[j].0@
}

/// The value bound to `key` in the innermost scope that binds it.
pub open spec fn scope_lookup<T>(scopes: Seq<Map<Seq<char>, T>>, key: Seq<char>) -> Option<T>
    decreases scopes.len(),
{
    if scopes.len() == 0 {
        None
    } else if scopes.last().contains_key(key) {
        Some(scopes.last()[key])
    } else {
        scope_lookup(scopes.drop_last(), key)
    }
}

#[derive(Debug)]
pub struct Environment<V> {
    pub env: Vec<(String, V)>,
    pub outer: Option<Box<Environment<V>>>,
}

impl<V: View> Environment<V> {
    /// All scopes, outermost first.
    pub open spec fn scopes(&self) -> Seq<Map<Seq<char>, V::V>>
        decreases self,
    {
        match &self.outer {
            Some(o) => o.scopes().push(frame_map(self.env@)),
            None => seq![frame_map(self.env@)],
        }
    }

    pub open spec fn wf(&self) -> bool
        decreases self,
    {
        &&& keys_unique(self.env@)
        &&& match &self.outer {
            Some(o) => o.wf(),
            None => true,
        }
    }
}

pub proof fn lemma_frame_map_find<V: View>(v: Seq<(String, V)>, i: int)
    requires
        keys_unique(v),
        0 <= i < v.len(),
    ensures
        frame_map(v).contains_key(v[i].0@),
        frame_map(v)[v[i].0@] == v[i].1@,
    decreases v.len(),
{
    if i < v.len() - 1 {
        lemma_frame_map_find(v.drop_last(), i);
    }
}

pub proof fn lemma_frame_map_absent<V: View>(v: Seq<(String, V)>, k: Seq<char>)
    requires
        forall|i: int| 0 <= i < v.len() ==> v[i].0@ != k,
    ensures
        !frame_map(v).contains_key(k),
    decreases v.len(),
{
    if v.len() > 0 {
        lemma_frame_map_absent(v.drop_last(), k);
    }
}

pub proof fn lemma_frame_map_update<V: View>(v: Seq<(String, V)>, i: int, e: (String, V))
    requires
        keys_unique(v),
        0 <= i < v.len(),
        e.0@ == v[i].0@,
    ensures
        keys_unique(v.update(i, e)),
        frame_map(v.update(i, e)) == frame_map(v).insert(e.0@, e.1@),
    decreases v.len(),
{
    let w = v.update(i, e);
    if i == v.len() - 1 {
        assert(w.drop_last() =~= v.drop_last());
    } else {
        lemma_frame_map_update(v.drop_last(), i, e);
        assert(w.drop_last() =~= v.drop_last().update(i, e));
        assert(frame_map(w) =~= frame_map(v).insert(e.0@, e.1@));
    }
}

impl<V: View + Duplicate> Environment<V> {
    pub fn new() -> (r: Self)
        ensures
            r.wf(),
            r.scopes() == seq![Map::<Seq<char>, V::V>::empty()],
            r.env@.len() == 0,
            r.outer is None,
    {
        Environment { env: Vec::new(), outer: None }
    }

    fn find_in_frame(&self, key: &String) -> (r: Option<usize>)
        requires
            keys_unique(self.env@),
        ensures
            match r {
                Some(i) => i < self.env@.len() && self.env@[i as int].0@ == key@,
                None => forall|i: int| 0 <= i < self.env@.len() ==> self.env@[i].0@ != key@,
            },
    {
        let mut i: usize = 0;
        while i < self.env.len()
            invariant
                i <= self.env@.len(),
                forall|j: int| 0 <= j < i ==> self.env@[j].0@ != key@,
            decreases self.env@.len() - i,
        {
            if string_eq(&self.env[i].0, key) {
                return Some(i);
            }
            i += 1;
        }
        None
    }

    /// Binds `key` in the innermost scope and returns the value it had there before.
    pub fn register_item(&mut self, key: String, value: V) -> (r: Option<V>)
        requires
            old(self).wf(),
        ensures
            final(self).wf(),
            final(self).scopes() == old(self).scopes().update(
                old(self).scopes().len() - 1,
                old(self).scopes().last().insert(key@, value@),
            ),
            final(self).outer == old(self).outer,
            match r {
                Some(v) => old(self).scopes().last().contains_key(key@) && v@ == old(self).scopes().last()[key@],
                None => !old(self).scopes().last().contains_key(key@),
            },
    {
        proof {
            self.lemma_scopes_last();
        }
        match self.find_in_frame(&key) {
            Some(i) => {
                let ghost old_env = self.env@;
                let mut entry = (key, value);
                proof {
                    lemma_frame_map_update(old_env, i as int, entry);
                    lemma_frame_map_find(old_env, i as int);
                }
                self.env.set_and_swap(i, &mut entry);
                let ghost new_env = self.env@;
                assert(new_env == old_env.update(i as int, (key, value)));
                proof {
                    self.lemma_scopes_last();
                }
                Some(entry.1)
            },
            None => {
                let ghost old_env = self.env@;
                proof {
                    lemma_frame_map_absent(old_env, key@);
                }
                self.env.push((key, value));
                proof {
                    assert(self.env@.drop_last() =~= old_env);
                    self.lemma_scopes_last();
                }
                None
            },
        }
    }

    pub proof fn lemma_scopes_last(&self)
        ensures
            self.scopes().len() >= 1,
            self.scopes().last() == frame_map(self.env@),
            match &self.outer {
                Some(o) => self.scopes().drop_last() == o.scopes(),
                None => self.scopes().len() == 1,
            },
    {
        match &self.outer {
            Some(o) => {
                assert(self.scopes().drop_last() =~= o.scopes());
            },
            None => {},
        }
    }

    /// The value bound to `key` in the innermost scope that binds it.
    pub fn get_item(&self, key: &String) -> (r: Option<&V>)
        requires
            self.wf(),
        ensures
            match r {
                Some(v) => scope_lookup(self.scopes(), key@) == Some(v@),
                None => scope_lookup(self.scopes(), key@) is None,
            },
        decreases self,
    {
        proof {
            self.lemma_scopes_last();
        }
        match self.find_in_frame(key) {
            Some(i) => {
                proof {
                    lemma_frame_map_find(self.env@, i as int);
                }
                Some(&self.env[i].1)
            },
            None => {
                proof {
                    lemma_frame_map_absent(self.env@, key@);
                }
                match &self.outer {
                    Some(outer) => {
                        let r = outer.get_item(key);
                        assert(scope_lookup(self.scopes(), key@) == scope_lookup(outer.scopes(), key@));
                        r
                    },
                    None => {
                        assert(scope_lookup(self.scopes().drop_last(), key@) is None);
                        None
                    },
                }
            },
        }
    }

    /// An environment with the same scopes.
    pub fn duplicate(&self) -> (r: Self)
        requires
            self.wf(),
        ensures
            r.wf(),
            r.scopes() == self.scopes(),
        decreases self,
    {
        let mut env: Vec<(String, V)> = Vec::new();
        let mut i: usize = 0;
        while i < self.env.len()
            invariant
                i <= self.env@.len(),
                keys_unique(self.env@),
                env@.len() == i,
                forall|j: int| 0 <= j < i ==> env@[j].0@ == self.env@[j].0@ && env@[j].1@ == self.env@[j].1@,
            decreases self.env@.len() - i,
        {
            let k = copy_string(&self.env[i].0);
            let v = self.env[i].1.duplicate();
            env.push((k, v));
            i += 1;
        }
        proof {
            lemma_frame_map_same(env@, self.env@);
        }
        let outer = match &self.outer {
            Some(o) => Some(Box::new(o.duplicate())),
            None => None,
        };
        Environment { env, outer }
    }

    /// Opens a new, empty innermost scope and returns a copy of the resulting environment.
    pub fn create_deeper_scope(&mut self) -> (r: Self)
        requires
            old(self).wf(),
        ensures
            final(self).wf(),
            final(self).scopes() == old(self).scopes().push(Map::empty()),
            final(self).env@.len() == 0,
            final(self).outer matches Some(o) && *o == *old(self),
            r.wf(),
            r.scopes() == final(self).scopes(),
    {
        let mut current = Environment::new();
        std::mem::swap(&mut current, self);
        self.outer = Some(Box::new(current));
        proof {
            assert(self.env@.len() == 0);
            assert(frame_map(self.env@) == Map::<Seq<char>, V::V>::empty());
            self.lemma_scopes_last();
            assert(self.scopes() =~= old(self).scopes().push(Map::empty()));
        }
        self.duplicate()
    }

    /// Closes the innermost scope and returns a copy of the resulting environment;
    /// when only the outermost scope is left nothing changes and `None` is returned.
    pub fn create_shallow_scope(&mut self) -> (r: Option<Self>)
        requires
            old(self).wf(),
        ensures
            final(self).wf(),
            old(self).scopes().len() > 1 ==> (final(self).scopes() == old(self).scopes().drop_last()
                && (r matches Some(e) && e.wf() && e.scopes() == final(self).scopes())),
            old(self).scopes().len() == 1 ==> final(self).scopes() == old(self).scopes() && r is None,
            old(self).outer matches Some(o) ==> *final(self) == *o,
            old(self).outer is None ==> *final(self) == *old(self),
    {
        proof {
            self.lemma_scopes_last();
        }
        match self.outer.take() {
            Some(outer) => {
                *self = *outer;
                Some(self.duplicate())
            },
            None => None,
        }
    }
}

/// Opening a scope, binding any number of names in it and closing it again restores the
/// environment exactly. `states[0]` is the environment as `create_deeper_scope` leaves `e0`
/// (its `outer` is `e0`), each later state is as `register_item` leaves the one before (the
/// same `outer`), and `last` is as `create_shallow_scope` leaves the final state (its
/// `outer`): then `last` is `e0`, field for field.
pub proof fn lemma_scope_calls_round_trip<V>(e0: Environment<V>, states: Seq<Environment<V>>, last: Environment<V>)
    requires
        states.len() > 0,
        states[0].outer matches Some(o) && *o == e0,
        forall|i: int| 0 <= i < states.len() - 1 ==> #[trigger] states[i + 1].outer == states[i].outer,
        states.last().outer matches Some(o) ==> last == *o,
    ensures
        last == e0,
{
    lemma_outer_kept(states, states.len() - 1);
}

proof fn lemma_outer_kept<V>(states: Seq<Environment<V>>, k: int)
    requires
        0 <= k < states.len(),
        forall|i: int| 0 <= i < states.len() - 1 ==> #[trigger] states[i + 1].outer == states[i].outer,
    ensures
        states[k].outer == states[0].outer,
    decreases k,
{
    if k > 0 {
        lemma_outer_kept(states, k - 1);
        assert(states[(k - 1) + 1].outer == states[k - 1].outer);
    }
}

/// The scopes after binding each of `items` in turn in the innermost scope, as
/// `register_item` does.
pub open spec fn register_all<T>(scopes: Seq<Map<Seq<char>, T>>, items: Seq<(Seq<char>, T)>) -> Seq<Map<Seq<char>, T>>
    decreases items.len(),
{
    if items.len() == 0 {
        scopes
    } else {
        let s1 = scopes.update(scopes.len() - 1, scopes.last().insert(items[0].0, items[0].1));
        register_all(s1, items.subrange(1, items.len() as int))
    }
}

/// Opening a scope, binding names in it and closing it again restores the scopes exactly:
/// the names bound inside are gone and the enclosing scopes are as they were.
pub proof fn lemma_scope_round_trip<T>(scopes: Seq<Map<Seq<char>, T>>, items: Seq<(Seq<char>, T)>)
    ensures
        register_all(scopes.push(Map::empty()), items).drop_last() == scopes,
        register_all(scopes.push(Map::empty()), items).len() == scopes.len() + 1,
{
    lemma_register_all_outer(scopes.push(Map::empty()), items);
    assert(scopes.push(Map::empty()).drop_last() =~= scopes);
}

/// Binding names in the innermost scope leaves the other scopes as they are.
pub proof fn lemma_register_all_outer<T>(scopes: Seq<Map<Seq<char>, T>>, items: Seq<(Seq<char>, T)>)
    requires
        scopes.len() > 0,
    ensures
        register_all(scopes, items).len() == scopes.len(),
        register_all(scopes, items).drop_last() == scopes.drop_last(),
    decreases items.len(),
{
    if items.len() > 0 {
        let s1 = scopes.update(scopes.len() - 1, scopes.last().insert(items[0].0, items[0].1));
        assert(s1.drop_last() =~= scopes.drop_last());
        lemma_register_all_outer(s1, items.subrange(1, items.len() as int));
    }
}

pub proof fn lemma_frame_map_same<V: View>(a: Seq<(String, V)>, b: Seq<(String, V)>)
    requires
        a.len() == b.len(),
        forall|j: int| 0 <= j < a.len() ==> a[j].0@ == b[j].0@ && a[j].1@ == b[j].1@,
        keys_unique(b),
    ensures
        frame_map(a) == frame_map(b),
        keys_unique(a),
    decreases a.len(),
{
    if a.len() > 0 {
        lemma_frame_map_same(a.drop_last(), b.drop_last());
    }
}

impl Duplicate for (crate::ty::Type, isize) {
    fn duplicate(&self) -> (r: Self) {
        (self.0.duplicate(), self.1)
    }
}

impl Duplicate for crate::ast::Ident {
    fn duplicate(&self) -> (r: Self) {
        crate::ast::Ident::duplicate(self)
    }
}

} // verus!
