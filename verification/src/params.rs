//! The parameters that a matched route binds.

use vstd::prelude::*;
use vstd::string::StringSliceAdditionalSpecFns;
use crate::octets::same_bytes;

verus! {

/// The names and values of a list of bindings, in order.
pub open spec fn binding_views(entries: Seq<(Vec<u8>, Vec<u8>)>) -> Seq<(Seq<u8>, Seq<u8>)> {
    Seq::new(entries.len(), |i: int| (entries[i].0@, entries[i].1@))
}

/// Whether the binding at `index` is the first one of `bindings` that has the
/// name `name`.
pub open spec fn is_first_binding(
    bindings: Seq<(Seq<u8>, Seq<u8>)>,
    name: Seq<u8>,
    index: int,
) -> bool {
    &&& 0 <= index < bindings.len()
    &&& bindings[index].0 == name
    &&& forall|j: int| 0 <= j < index ==> (#[trigger] bindings[j]).0 != name
}

/// Whether no binding of `bindings` has the name `name`.
pub open spec fn is_unbound(bindings: Seq<(Seq<u8>, Seq<u8>)>, name: Seq<u8>) -> bool {
    forall|j: int| 0 <= j < bindings.len() ==> (#[trigger] bindings[j]).0 != name
}

/// The path parameters of one request: each named segment of the matched
/// pattern with the segment of the path that it stands for, in the order of
/// the pattern.
#[derive(Debug)]
pub struct Params {
    entries: Vec<(Vec<u8>, Vec<u8>)>,
}

impl View for Params {
    type V = Seq<(Seq<u8>, Seq<u8>)>;

    closed spec fn view(&self) -> Seq<(Seq<u8>, Seq<u8>)> {
        binding_views(self.entries@)
    }
}

impl Params {
    /// No parameters.
    pub fn new() -> (r: Params)
        ensures
            r@ == Seq::<(Seq<u8>, Seq<u8>)>::empty(),
    {
        let r = Params { entries: Vec::new() };
        assert(r@ =~= Seq::empty());
        r
    }

    /// Adds the binding of `name` to `value` after those that are there.
    pub(crate) fn bind(&mut self, name: Vec<u8>, value: Vec<u8>)
        ensures
            final(self)@ == old(self)@.push((name@, value@)),
    {
        self.entries.push((name, value));
        assert(self@ =~= old(self)@.push((name@, value@)));
    }

    /// The number of bindings.
    pub fn len(&self) -> (r: usize)
        ensures
            r == self@.len(),
    {
        self.entries.len()
    }

    /// Whether there is no binding.
    pub fn is_empty(&self) -> (r: bool)
        ensures
            r == (self@.len() == 0),
    {
        self.entries.len() == 0
    }

    /// The name of the binding at `index`, if there is one.
    pub fn name_at(&self, index: usize) -> (r: Option<&[u8]>)
        ensures
            r is Some <==> index < self@.len(),
            r matches Some(name) ==> name@ == self@[index as int].0,
    {
        if index < self.entries.len() {
            Some(self.entries[index].0.as_slice())
        } else {
            None
        }
    }

    /// The value of the binding at `index`, if there is one.
    pub fn value_at(&self, index: usize) -> (r: Option<&[u8]>)
        ensures
            r is Some <==> index < self@.len(),
            r matches Some(value) ==> value@ == self@[index as int].1,
    {
        if index < self.entries.len() {
            Some(self.entries[index].1.as_slice())
        } else {
            None
        }
    }

    /// The value bound to `name`: that of the first binding with this name.
    pub fn find(&self, name: &str) -> (r: Option<&[u8]>)
        ensures
            match r {
                Some(value) => exists|i: int|
                    is_first_binding(self@, name.spec_bytes(), i) && value@ == (
                    #[trigger] self@[i]).1,
                None => is_unbound(self@, name.spec_bytes()),
            },
    {
        let wanted = name.as_bytes();
        let mut i: usize = 0;
        while i < self.entries.len()
            invariant
                i <= self.entries@.len(),
                wanted@ == name.spec_bytes(),
                forall|j: int| 0 <= j < i ==> (#[trigger] self@[j]).0 != wanted@,
            decreases self.entries@.len() - i,
        {
            if same_bytes(self.entries[i].0.as_slice(), wanted) {
                assert(is_first_binding(self@, name.spec_bytes(), i as int));
                return Some(self.entries[i].1.as_slice());
            }
            i += 1;
        }
        None
    }
}

} // verus!
