//! A single scope of named values.
use vstd::prelude::*;
use crate::text::string_eq;
use crate::environment::{frame_map, keys_unique, lemma_frame_map_find, lemma_frame_map_absent, lemma_frame_map_update};
use crate::script::object::{Object, ObjModel};

verus! {

pub struct Environment {
    store: Vec<(String, Object)>,
}

impl View for Environment {
    type V = Map<Seq<char>, ObjModel>;

    closed spec fn view(&self) -> Map<Seq<char>, ObjModel> {
        frame_map(self.store@)
    }
}

impl Environment {
    pub closed spec fn wf(&self) -> bool {
        keys_unique(self.store@)
    }

    pub fn new() -> (r: Environment)
        ensures
            r.wf(),
            r@ == Map::<Seq<char>, ObjModel>::empty(),
    {
        let r = Environment { store: Vec::new() };
        assert(r@ =~= Map::<Seq<char>, ObjModel>::empty());
        r
    }

    fn find(&self, key: &String) -> (r: Option<usize>)
        requires
            self.wf(),
        ensures
            match r {
                Some(i) => i < self.store@.len() && self.store@[i as int].0@ == key@,
                None => forall|i: int| 0 <= i < self.store@.len() ==> self.store@[i].0@ != key@,
            },
    {
        let mut i: usize = 0;
        while i < self.store.len()
            invariant
                i <= self.store@.len(),
                forall|j: int| 0 <= j < i ==> self.store@[j].0@ != key@,
            decreases self.store@.len() - i,
        {
            if string_eq(&self.store[i].0, key) {
                return Some(i);
            }
            i += 1;
        }
        None
    }

    /// The value bound to `key`.
    pub fn get(&self, key: String) -> (r: Option<&Object>)
        requires
            self.wf(),
        ensures
            match r {
                Some(v) => self@.contains_key(key@) && self@[key@] == v@,
                None => !self@.contains_key(key@),
            },
    {
        match self.find(&key) {
            Some(i) => {
                proof {
                    lemma_frame_map_find(self.store@, i as int);
                }
                Some(&self.store[i].1)
            },
            None => {
                proof {
                    lemma_frame_map_absent(self.store@, key@);
                }
                None
            },
        }
    }

    /// Binds `key` to `value` and returns the value it was bound to before.
    pub fn insert(&mut self, key: String, value: Object) -> (r: Option<Object>)
        requires
            old(self).wf(),
        ensures
            final(self).wf(),
            final(self)@ == old(self)@.insert(key@, value@),
            match r {
                Some(v) => old(self)@.contains_key(key@) && v@ == old(self)@[key@],
                None => !old(self)@.contains_key(key@),
            },
    {
        match self.find(&key) {
            Some(i) => {
                let ghost old_store = self.store@;
                let mut entry = (key, value);
                proof {
                    lemma_frame_map_update(old_store, i as int, entry);
                    lemma_frame_map_find(old_store, i as int);
                }
                self.store.set_and_swap(i, &mut entry);
                assert(self.store@ == old_store.update(i as int, (key, value)));
                Some(entry.1)
            },
            None => {
                let ghost old_store = self.store@;
                proof {
                    lemma_frame_map_absent(old_store, key@);
                }
                self.store.push((key, value));
                proof {
                    assert(self.store@.drop_last() =~= old_store);
                }
                None
            },
        }
    }
}

} // verus!
