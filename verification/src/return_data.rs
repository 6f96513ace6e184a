//! The tags of what a finished call returned.

use crate::shadow::Shadow;
use std::ops::Deref;
use vstd::prelude::*;

verus! {

/// Return data buffer. Holds the shadow memory of a previous call and a
/// window into it. The buffer is a copy of its own, so nothing that happens
/// to another memory later shows in it, and the window cannot be written.
#[derive(Debug)]
pub struct ShadowReturnData<T: Shadow> {
    mem: Vec<T>,
    offset: usize,
    size: usize,
}

impl<T: Shadow> View for ShadowReturnData<T> {
    type V = Seq<T>;

    /// The tags inside the window.
    closed spec fn view(&self) -> Seq<T> {
        self.mem@.subrange(self.offset as int, self.offset + self.size)
    }
}

impl<T: Shadow> ShadowReturnData<T> {
    /// The window lies inside the buffer.
    #[verifier::type_invariant]
    spec fn window_fits(self) -> bool {
        self.offset + self.size <= self.mem@.len()
    }

    /// Create empty `ShadowReturnData`: what a call leaves that returned
    /// nothing.
    pub fn empty() -> (data: Self)
        ensures
            data@ == Seq::<T>::empty(),
    {
        Self { mem: Vec::new(), offset: 0, size: 0 }
    }

    /// Create `ShadowReturnData` from the given buffer and window, which
    /// must lie inside the buffer.
    pub fn new(mem: Vec<T>, offset: usize, size: usize) -> (data: Self)
        requires
            offset + size <= mem@.len(),
        ensures
            data@ == mem@.subrange(offset as int, offset + size),
    {
        Self { mem: mem, offset: offset, size: size }
    }
}

impl<T: Shadow> Deref for ShadowReturnData<T> {
    type Target = [T];

    /// The tags inside the window, to read.
    fn deref(&self) -> (window: &[T])
        ensures
            window@ == self@,
    {
        proof {
            use_type_invariant(self);
            assert(self.mem@.len() == self.mem.len());
        }
        &self.mem[self.offset..self.offset + self.size]
    }
}

} // verus!
