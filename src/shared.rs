//! The hand-off between a producer thread and the render thread: one current
//! value behind a lock, replaced whole on every publish and copied out whole on
//! every snapshot, so a reader never sees a mix of two values.
use vstd::prelude::*;
use vstd::rwlock::{RwLock, RwLockPredicate};

verus! {

/// Which values a shared buffer may hold: vectors of one fixed length, or of
/// any length.
pub struct LengthRule {
    pub fixed: Option<usize>,
}

impl<T> RwLockPredicate<Vec<T>> for LengthRule {
    open spec fn inv(self, v: Vec<T>) -> bool {
        match self.fixed {
            Some(n) => v@.len() == n,
            None => true,
        }
    }
}

/// A lock-protected "latest value" cell shared by one writer and any readers.
/// No history is kept: a publish replaces the value, a snapshot clones it out
/// and holds the lock only for the copy.
pub struct SharedFeatureBuffer<T> {
    lock: RwLock<Vec<T>, LengthRule>,
    fixed: Option<usize>,
}

impl<T> SharedFeatureBuffer<T> {
    #[verifier::type_invariant]
    spec fn rule_known(&self) -> bool {
        self.lock.pred().fixed == self.fixed
    }

    /// The length rule fixed when the buffer was made.
    pub closed spec fn rule(&self) -> LengthRule {
        self.lock.pred()
    }

    /// A value of length `len` may be stored.
    pub open spec fn accepts(&self, len: nat) -> bool {
        match self.rule().fixed {
            Some(n) => len == n,
            None => true,
        }
    }

    /// A buffer of `len` copies of `zero`; every later value must have length `len`.
    pub fn zeroed(len: usize, zero: T) -> (r: Self)
        where
            T: Copy,
        ensures
            r.rule().fixed == Some(len),
    {
        let mut initial: Vec<T> = Vec::with_capacity(len);
        let mut i: usize = 0;
        while i < len
            invariant
                i <= len,
                initial@.len() == i,
            decreases len - i,
        {
            initial.push(zero);
            i = i + 1;
        }
        let rule = LengthRule { fixed: Some(len) };
        SharedFeatureBuffer { lock: RwLock::new(initial, Ghost(rule)), fixed: Some(len) }
    }

    /// A buffer holding `initial` whose later values may have any length.
    pub fn any_length(initial: Vec<T>) -> (r: Self)
        ensures
            r.rule().fixed is None,
    {
        let rule = LengthRule { fixed: None };
        SharedFeatureBuffer { lock: RwLock::new(initial, Ghost(rule)), fixed: None }
    }

    /// The length every value must have, if the buffer was made with one.
    pub fn fixed_length(&self) -> (r: Option<usize>)
        ensures
            r == self.rule().fixed,
    {
        proof {
            use_type_invariant(self);
        }
        self.fixed
    }

    /// Replaces the current value with `value` in one critical section.
    pub fn publish(&self, value: Vec<T>)
        requires
            self.accepts(value@.len()),
    {
        let (_previous, handle) = self.lock.acquire_write();
        handle.release_write(value);
    }

    /// A copy of the current value; the lock is released before returning.
    pub fn snapshot(&self) -> (r: Vec<T>)
        where
            T: Clone,
        ensures
            self.accepts(r@.len()),
    {
        let handle = self.lock.acquire_read();
        let value = handle.borrow().clone();
        handle.release_read();
        value
    }
}

} // verus!
