use crate::api::{avs, has_name, Api};
use crate::name::QualifiedName;
use vstd::prelude::*;

verus! {

/// One pipeline snapshot: an ordered collection of records. Insertion
/// order is preserved so that code generation is deterministic; each
/// phase consumes its input snapshot and produces a new one.
#[derive(Debug)]
pub struct ApiVec {
    pub v: Vec<Api>,
}

impl View for ApiVec {
    type V = Seq<Api>;

    open spec fn view(&self) -> Seq<Api> {
        self.v@
    }
}

impl ApiVec {
    pub fn new() -> (r: ApiVec)
        ensures
            r@.len() == 0,
    {
        ApiVec { v: Vec::new() }
    }

    pub fn len(&self) -> (r: usize)
        ensures
            r == self@.len(),
    {
        self.v.len()
    }

    pub fn is_empty(&self) -> (r: bool)
        ensures
            r == (self@.len() == 0),
    {
        self.v.is_empty()
    }

    pub fn get(&self, i: usize) -> (r: &Api)
        requires
            i < self@.len(),
        ensures
            *r == self@[i as int],
    {
        &self.v[i]
    }

    pub fn push(&mut self, a: Api)
        ensures
            final(self)@ == old(self)@.push(a),
    {
        self.v.push(a);
    }

    /// Take the oldest remaining record out of the snapshot; phases use
    /// this to consume their input in collection order.
    pub fn remove_first(&mut self) -> (r: Api)
        requires
            old(self)@.len() > 0,
        ensures
            r == old(self)@[0],
            final(self)@ == old(self)@.remove(0),
    {
        self.v.remove(0)
    }

    /// Index of the record with the given name, if one exists.
    pub fn find_by_name(&self, n: &QualifiedName) -> (r: Option<usize>)
        ensures
            match r {
                Some(i) => i < self@.len() && self@[i as int]@.name == n@,
                None => !has_name(avs(self@), n@),
            },
    {
        let mut i: usize = 0;
        let len = self.v.len();
        while i < len
            invariant
                i <= len,
                len == self@.len(),
                forall|j: int| 0 <= j < i ==> avs(self@)[j].name != n@,
            decreases len - i,
        {
            if self.v[i].name.eq_name(n) {
                proof {
                    assert(avs(self@)[i as int].name == n@);
                }
                return Some(i);
            }
            proof {
                assert(avs(self@)[i as int].name != n@);
            }
            i = i + 1;
        }
        None
    }

    pub fn contains_name(&self, n: &QualifiedName) -> (r: bool)
        ensures
            r == has_name(avs(self@), n@),
    {
        match self.find_by_name(n) {
            Some(i) => {
                proof {
                    assert(has_name(avs(self@), n@)) by {
                        assert(avs(self@)[i as int].name == n@);
                    }
                }
                true
            },
            None => false,
        }
    }
}

} // verus!
