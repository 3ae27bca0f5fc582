//! The table of declared variables.

use vstd::prelude::*;
use vstd::slice::slice_to_vec;
use crate::bytes::equal;
use crate::types::VarType;

verus! {

/// The variables declared so far, each with the type of the last value
/// given to it. All variables live in one flat namespace.
pub struct VarTable {
    names: Vec<Vec<u8>>,
    types: Vec<VarType>,
}

impl View for VarTable {
    type V = Map<Seq<u8>, VarType>;

    closed spec fn view(&self) -> Map<Seq<u8>, VarType> {
        Map::new(|name: Seq<u8>| self.holds(name), |name: Seq<u8>| self.types[self.slot(name)])
    }
}

impl VarTable {
    /// There is one type for each name, and no name stands twice.
    #[verifier::type_invariant]
    spec fn well_formed(&self) -> bool {
        &&& self.names.len() == self.types.len()
        &&& forall|i: int, j: int|
            0 <= i < j < self.names.len() ==> self.names[i]@ != self.names[j]@
    }

    spec fn holds(&self, name: Seq<u8>) -> bool {
        exists|i: int| 0 <= i < self.names.len() && self.names[i]@ == name
    }

    spec fn slot(&self, name: Seq<u8>) -> int {
        choose|i: int| 0 <= i < self.names.len() && self.names[i]@ == name
    }

    /// A table without variables.
    pub fn new() -> (table: VarTable)
        ensures
            table@ == Map::<Seq<u8>, VarType>::empty(),
    {
        VarTable { names: Vec::new(), types: Vec::new() }
    }

    /// Where `name` stands in the table.
    fn position(&self, name: &[u8]) -> (r: Option<usize>)
        ensures
            match r {
                Some(i) => i < self.names.len() && self.names[i as int]@ == name@,
                None => !self.holds(name@),
            },
    {
        let mut i: usize = 0;
        while i < self.names.len()
            invariant
                i <= self.names.len(),
                forall|j: int| 0 <= j < i ==> self.names[j]@ != name@,
            decreases self.names.len() - i,
        {
            if equal(self.names[i].as_slice(), name) {
                return Some(i);
            }
            i += 1;
        }
        None
    }

    /// The type of the variable `name`, if it was declared.
    pub fn get(&self, name: &[u8]) -> (r: Option<VarType>)
        ensures
            r == if self@.dom().contains(name@) {
                Some(self@[name@])
            } else {
                None
            },
    {
        proof {
            use_type_invariant(self);
        }
        match self.position(name) {
            Some(i) => Some(self.types[i]),
            None => None,
        }
    }

    /// Declares the variable `name` with the type `ty`. A variable declared
    /// before takes the new type.
    pub fn insert(&mut self, name: &[u8], ty: VarType)
        ensures
            final(self)@ == old(self)@.insert(name@, ty),
    {
        let found = self.position(name);
        let mut taken = VarTable::new();
        core::mem::swap(self, &mut taken);
        proof {
            use_type_invariant(&taken);
        }
        let VarTable { mut names, mut types } = taken;
        match found {
            Some(i) => {
                types.set(i, ty);
            },
            None => {
                names.push(slice_to_vec(name));
                types.push(ty);
            },
        }
        *self = VarTable { names, types };
        proof {
            let before = *old(self);
            let after = *self;
            let at: int = match found {
                Some(i) => i as int,
                None => before.names.len() as int,
            };
            assert(after.names[at]@ == name@);
            assert forall|k: Seq<u8>| after.holds(k) == (before.holds(k) || k == name@) by {
                if before.holds(k) {
                    assert(after.names[before.slot(k)]@ == k);
                }
            }
        }
    }
}

} // verus!
