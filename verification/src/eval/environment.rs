//! The variables of a running program: a chain of scopes, innermost last.
use vstd::prelude::*;
use crate::text::{copy_string, string_eq};
use crate::object::{Object, ObjModel};
use crate::environment::{frame_map, keys_unique, scope_lookup, lemma_frame_map_find, lemma_frame_map_absent,
    lemma_frame_map_update, lemma_frame_map_same};

verus! {

/// The scopes of an environment, outermost first.
pub type Frames = Seq<Map<Seq<char>, ObjModel>>;

/// Binds `key` to `value` in the innermost scope.
pub open spec fn frames_insert(f: Frames, key: Seq<char>, value: ObjModel) -> Frames {
    if f.len() == 0 {
        f
    } else {
        f.update(f.len() - 1, f.last().insert(key, value))
    }
}

/// Assigns `value` to `key`: the innermost scope always receives the binding, and when it
/// did not bind `key` before, the assignment goes on to the enclosing scopes. The second
/// component is the value replaced, if a scope on the way bound `key`.
pub open spec fn frames_update(f: Frames, key: Seq<char>, value: ObjModel) -> (Frames, Option<ObjModel>)
    decreases f.len(),
{
    if f.len() == 0 {
        (f, None)
    } else {
        let top = f.last();
        let inserted = frames_insert(f, key, value);
        if top.contains_key(key) {
            (inserted, Some(top[key]))
        } else if f.len() > 1 {
            let (rest, r) = frames_update(f.drop_last(), key, value);
            (rest.push(top.insert(key, value)), r)
        } else {
            (inserted, None)
        }
    }
}

pub struct Environment {
    store: Vec<(String, Object)>,
    outer: Option<Box<Environment>>,
}

impl Environment {
    /// All scopes, outermost first.
    pub closed spec fn frames(&self) -> Frames
        decreases self,
    {
        match &self.outer {
            Some(o) => o.frames().push(frame_map(self.store@)),
            None => seq![frame_map(self.store@)],
        }
    }

    pub closed spec fn wf(&self) -> bool
        decreases self,
    {
        &&& keys_unique(self.store@)
        &&& match &self.outer {
            Some(o) => o.wf(),
            None => true,
        }
    }

    /// Whether the environment has an enclosing one.
    pub closed spec fn has_outer(&self) -> bool {
        self.outer is Some
    }

    pub proof fn lemma_frames(&self)
        ensures
            self.frames().len() >= 1,
            self.has_outer() <==> self.frames().len() > 1,
        decreases self,
    {
        match &self.outer {
            Some(o) => {
                o.lemma_frames();
            },
            None => {},
        }
    }

    proof fn lemma_frames_last(&self)
        ensures
            self.frames().len() >= 1,
            self.frames().last() == frame_map(self.store@),
            match &self.outer {
                Some(o) => self.frames().drop_last() == o.frames(),
                None => self.frames().len() == 1,
            },
    {
        match &self.outer {
            Some(o) => {
                assert(self.frames().drop_last() =~= o.frames());
            },
            None => {},
        }
    }

    /// An environment with one empty scope inside `outer`, or on its own.
    pub fn new(outer: Option<Box<Environment>>) -> (r: Environment)
        requires
            outer matches Some(o) ==> o.wf(),
        ensures
            r.wf(),
            r.frames() == match outer {
                Some(o) => o.frames().push(Map::empty()),
                None => seq![Map::<Seq<char>, ObjModel>::empty()],
            },
    {
        let r = Environment { store: Vec::new(), outer };
        proof {
            assert(frame_map(r.store@) =~= Map::<Seq<char>, ObjModel>::empty());
        }
        r
    }

    /// Makes `outer` the enclosing environment; the innermost scope stays as it is.
    pub fn set_outer(&mut self, outer: Environment)
        requires
            old(self).wf(),
            outer.wf(),
        ensures
            final(self).wf(),
            final(self).frames() == outer.frames().push(old(self).frames().last()),
    {
        proof {
            self.lemma_frames_last();
        }
        self.outer = Some(Box::new(outer));
    }

    /// The enclosing environment, if there is one.
    pub fn outer(self) -> (r: Option<Environment>)
        requires
            self.wf(),
        ensures
            match r {
                Some(o) => self.frames().len() > 1 && o.wf() && o.frames() == self.frames().drop_last(),
                None => self.frames().len() == 1,
            },
    {
        proof {
            self.lemma_frames_last();
            self.lemma_frames();
        }
        match self.outer {
            Some(o) => Some(*o),
            None => None,
        }
    }

    fn find_in_store(&self, key: &String) -> (r: Option<usize>)
        requires
            keys_unique(self.store@),
        ensures
            match r {
                Some(i) => i < self.store@.len() && self.store@[i as int].0@ == key@,
                None => forall|i: int| 0 <= i < self.store@.len() ==> self.store@[i].0@ != key@,
            },
    {
        let mut i: usize = 0;
        while i < self.store.len()
            invariant
                i <= self.store@.len(),
                forall|j: int| 0 <= j < i ==> self.store@[j].0@ != key@,
            decreases self.store@.len() - i,
        {
            if string_eq(&self.store[i].0, key) {
                return Some(i);
            }
            i += 1;
        }
        None
    }

    /// The value bound to `key` in the innermost scope that binds it.
    pub fn get(&self, key: &String) -> (r: Option<&Object>)
        requires
            self.wf(),
        ensures
            match r {
                Some(v) => scope_lookup(self.frames(), key@) == Some(v@),
                None => scope_lookup(self.frames(), key@) is None,
            },
        decreases self,
    {
        proof {
            self.lemma_frames_last();
        }
        match self.find_in_store(key) {
            Some(i) => {
                proof {
                    lemma_frame_map_find(self.store@, i as int);
                }
                Some(&self.store[i].1)
            },
            None => {
                proof {
                    lemma_frame_map_absent(self.store@, key@);
                }
                match &self.outer {
                    Some(outer) => {
                        let r = outer.get(key);
                        assert(scope_lookup(self.frames(), key@) == scope_lookup(outer.frames(), key@));
                        r
                    },
                    None => {
                        assert(scope_lookup(self.frames().drop_last(), key@) is None);
                        None
                    },
                }
            },
        }
    }

    /// Binds `key` in the innermost scope and returns the value it had there before.
    pub fn insert(&mut self, key: String, value: Object) -> (r: Option<Object>)
        requires
            old(self).wf(),
        ensures
            final(self).wf(),
            final(self).frames() == frames_insert(old(self).frames(), key@, value@),
            match r {
                Some(v) => old(self).frames().last().contains_key(key@) && v@ == old(self).frames().last()[key@],
                None => !old(self).frames().last().contains_key(key@),
            },
    {
        proof {
            self.lemma_frames_last();
        }
        match self.find_in_store(&key) {
            Some(i) => {
                let ghost old_store = self.store@;
                let mut entry = (key, value);
                proof {
                    lemma_frame_map_update(old_store, i as int, entry);
                    lemma_frame_map_find(old_store, i as int);
                }
                self.store.set_and_swap(i, &mut entry);
                assert(self.store@ == old_store.update(i as int, (key, value)));
                proof {
                    self.lemma_frames_last();
                }
                Some(entry.1)
            },
            None => {
                let ghost old_store = self.store@;
                proof {
                    lemma_frame_map_absent(old_store, key@);
                }
                self.store.push((key, value));
                proof {
                    assert(self.store@.drop_last() =~= old_store);
                    self.lemma_frames_last();
                }
                None
            },
        }
    }

    /// Assigns `value` to `key` as `frames_update` describes.
    pub fn update(&mut self, key: String, value: Object) -> (r: Option<Object>)
        requires
            old(self).wf(),
        ensures
            final(self).wf(),
            final(self).frames() == frames_update(old(self).frames(), key@, value@).0,
            match r {
                Some(v) => frames_update(old(self).frames(), key@, value@).1 == Some(v@),
                None => frames_update(old(self).frames(), key@, value@).1 is None,
            },
        decreases old(self).frames().len(),
    {
        proof {
            self.lemma_frames_last();
        }
        let ghost f0 = self.frames();
        let k2 = copy_string(&key);
        let v2 = value.duplicate();
        let result = self.insert(key, value);
        if result.is_none() {
            proof {
                self.lemma_frames_last();
            }
            let ghost f1 = self.frames();
            let ghost top = frame_map(self.store@);
            let mut taken: Option<Box<Environment>> = None;
            std::mem::swap(&mut taken, &mut self.outer);
            match taken {
                Some(o) => {
                    let mut inner: Environment = *o;
                    proof {
                        inner.lemma_frames();
                        assert(inner.frames() == f1.drop_last());
                    }
                    let r = inner.update(k2, v2);
                    self.outer = Some(Box::new(inner));
                    proof {
                        self.lemma_frames_last();
                        assert(f1.drop_last() =~= f0.drop_last());
                        assert(top == f0.last().insert(k2@, v2@));
                        assert(self.frames() =~= frames_update(f0, k2@, v2@).0);
                    }
                    return r;
                },
                None => {
                    self.outer = None;
                },
            }
        }
        result
    }

    /// An environment with the same scopes.
    pub fn duplicate(&self) -> (r: Environment)
        requires
            self.wf(),
        ensures
            r.wf(),
            r.frames() == self.frames(),
        decreases self,
    {
        let mut store: Vec<(String, Object)> = Vec::new();
        let mut i: usize = 0;
        while i < self.store.len()
            invariant
                i <= self.store@.len(),
                keys_unique(self.store@),
                store@.len() == i,
                forall|j: int| 0 <= j < i ==> store@[j].0@ == self.store@[j].0@ && store@[j].1@ == self.store@[j].1@,
            decreases self.store@.len() - i,
        {
            let k = copy_string(&self.store[i].0);
            let v = self.store[i].1.duplicate();
            store.push((k, v));
            i += 1;
        }
        proof {
            lemma_frame_map_same(store@, self.store@);
        }
        let outer = match &self.outer {
            Some(o) => Some(Box::new(o.duplicate())),
            None => None,
        };
        Environment { store, outer }
    }
}

} // verus!
