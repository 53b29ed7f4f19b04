//! A guard that puts a new value in a variable and gives the old one back.

use vstd::prelude::*;

verus! {

/// Holds a variable that was given a new value, together with the value it
/// had before. [`ScopedPush::restore`] puts the old value back.
///
/// The borrow of the variable lasts as long as the guard. The fields are
/// public so that contracts can say what the variable holds once the guard
/// is gone.
pub struct ScopedPush<'a, T> {
    /// The variable.
    pub var: &'a mut T,
    /// The value to put back, until it has been put back.
    pub saved_value: Option<T>,
}

impl<'a, T> ScopedPush<'a, T> {
    /// Stores `new_value` in `var` and keeps the value that was there.
    /// What `var` holds in the end is what the guard leaves in it.
    pub fn new(var: &'a mut T, new_value: T) -> (guard: Self)
        ensures
            *guard.var == new_value,
            guard.saved_value == Some(*old(var)),
            *final(var) == *final(guard.var),
    {
        let mut slot = new_value;
        core::mem::swap(var, &mut slot);
        Self { var, saved_value: Some(slot) }
    }

    /// Puts the saved value back into the variable. A second call changes
    /// nothing.
    pub fn restore(&mut self)
        ensures
            final(self).saved_value is None,
            *final(self).var == match old(self).saved_value {
                Some(saved) => saved,
                None => *old(self).var,
            },
            *final(final(self).var) == *final(old(self).var),
    {
        if let Some(saved_value) = self.saved_value.take() {
            *self.var = saved_value;
        }
    }
}

} // verus!
