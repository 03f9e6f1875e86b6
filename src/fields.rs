use vstd::prelude::*;

verus! {

/// A field that has the same value at every position.
#[derive(Clone, Debug)]
pub struct ConstantField<T: Clone> {
    pub value: T,
}

impl<T: Clone> ConstantField<T> {
    pub fn new(value: T) -> (r: ConstantField<T>)
        ensures
            r.value == value,
    {
        ConstantField { value }
    }
}

} // verus!
