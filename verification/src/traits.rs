use vstd::prelude::*;

verus! {

/// A value that carries an identity by which it can be found again.
pub trait HasId {
    /// The identity of this value.
    spec fn id(&self) -> usize;

    /// Returns the identity of this value.
    fn get_id(&self) -> (id: usize)
        ensures
            id == self.id(),
    ;
}

} // verus!
