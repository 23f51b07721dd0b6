use vstd::prelude::*;

pub mod context;
pub mod exec;
pub mod manager;
pub mod process;

verus! {

/// A channel that sleepers can wait on: `sleep` and `wakeup` name it by a word.
pub trait Channel: Sized {
    /// The word that names the channel.
    spec fn channel(&self) -> usize;

    /// The word that names the channel.
    fn channel_addr(&self) -> (r: usize)
        ensures
            r == self.channel(),
    ;
}

/// A word names the channel it is.
impl Channel for usize {
    open spec fn channel(&self) -> usize {
        *self
    }

    fn channel_addr(&self) -> (r: usize) {
        *self
    }
}

} // verus!
