use vstd::prelude::*;

verus! {

/// A cell whose value its owner reaches freely.
pub struct SuperCell<T> {
    pub value: T,
}

impl<T> SuperCell<T> {
    pub fn new(value: T) -> (r: Self)
        ensures
            r.value == value,
    {
        SuperCell { value }
    }

    /// Runs `f` on the value and returns its result.
    pub fn with<R, F: FnOnce(&T) -> R>(&self, f: F) -> (r: R)
        requires
            f.requires((&self.value,)),
        ensures
            f.ensures((&self.value,), r),
    {
        f(&self.value)
    }

    /// The value, for changing it.
    pub fn get_mut(&mut self) -> (r: &mut T)
        ensures
            *r == old(self).value,
            final(self).value == *final(r),
    {
        &mut self.value
    }
}

} // verus!
