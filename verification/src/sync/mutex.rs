use vstd::prelude::*;

verus! {

/// A sleeping lock: who fails to take it sleeps on it at `priority` and tries again
/// when it is released.
pub struct Mutex<T> {
    pub locked: bool,
    pub priority: i16,
    pub value: T,
}

impl<T> Mutex<T> {
    /// An unlocked mutex holding `value`.
    pub fn new(value: T, priority: i16) -> (r: Self)
        ensures
            !r.locked && r.priority == priority && r.value == value,
    {
        Mutex { locked: false, priority, value }
    }

    /// Takes the lock if it is free; returns whether it did.
    pub fn try_lock(&mut self) -> (r: bool)
        ensures
            r == !old(self).locked,
            final(self).locked,
            final(self).priority == old(self).priority && final(self).value == old(self).value,
    {
        if self.locked {
            return false;
        }
        self.locked = true;
        true
    }

    /// Releases the lock (the sleepers on it are then to be woken); returns whether it
    /// was held.
    pub fn unlock(&mut self) -> (r: bool)
        ensures
            r == old(self).locked,
            !final(self).locked,
            final(self).priority == old(self).priority && final(self).value == old(self).value,
    {
        let was = self.locked;
        self.locked = false;
        was
    }

    /// The value, for changing it (exclusive access is proved by the borrow).
    pub fn get_mut(&mut self) -> (r: &mut T)
        ensures
            *r == old(self).value,
            final(self).value == *final(r),
            final(self).locked == old(self).locked && final(self).priority == old(self).priority,
    {
        &mut self.value
    }
}

} // verus!
