//! A value paired with a changed flag, so a presentation layer can poll
//! for updates and acknowledge them by reading.

use vstd::prelude::*;

verus! {

/// A value with a flag that is set on every change and cleared when the
/// changed value is read.
#[derive(Debug)]
pub struct Observable<T> {
    pub value: T,
    pub changed: bool,
}

impl<T> Observable<T> {
    /// A fresh observable counts as changed, so the first reader sees it.
    pub fn new(value: T) -> (r: Observable<T>)
        ensures
            r.value == value,
            r.changed,
    {
        Observable { value, changed: true }
    }

    pub fn is_changed(&self) -> (r: bool)
        ensures
            r == self.changed,
    {
        self.changed
    }

    /// The value if it changed since the last read; reading acknowledges
    /// the change.
    pub fn get_changed(&mut self) -> (r: Option<&T>)
        ensures
            final(self).value == old(self).value,
            !final(self).changed,
            old(self).changed ==> r == Some(&final(self).value),
            !old(self).changed ==> r is None,
    {
        if self.changed {
            self.changed = false;
            Some(&self.value)
        } else {
            None
        }
    }

    /// Replace the value and mark it changed.
    pub fn change(&mut self, value: T)
        ensures
            final(self).value == value,
            final(self).changed,
    {
        self.value = value;
        self.changed = true;
    }

    pub fn as_value(&self) -> (r: &T)
        ensures
            r == &self.value,
    {
        &self.value
    }
}

} // verus!
