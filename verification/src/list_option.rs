//! An option of a list together with its canonical index.

use vstd::prelude::*;

verus! {

/// A value paired with its position in the list of options it was taken
/// from. The position identifies the option whatever the list is filtered or
/// reordered to.
#[derive(Debug, PartialEq, Eq)]
pub struct ListOption<T> {
    /// Position of the option in the list as it was given.
    pub index: usize,
    /// The option itself.
    pub value: T,
}

impl<T> ListOption<T> {
    /// Pairs `value` with `index`.
    pub fn new(index: usize, value: T) -> (r: Self)
        ensures
            r.index == index,
            r.value == value,
    {
        ListOption { index, value }
    }

    /// The same pair, borrowing the value.
    pub fn as_ref(&self) -> (r: ListOption<&T>)
        ensures
            r.index == self.index,
            *r.value == self.value,
    {
        ListOption { index: self.index, value: &self.value }
    }
}

/// The options of `borrowed`, each with its value in place of the reference
/// to it.
pub open spec fn unborrowed<T>(borrowed: Seq<ListOption<&T>>) -> Seq<ListOption<T>> {
    Seq::new(
        borrowed.len(),
        |k: int| ListOption { index: borrowed[k].index, value: *borrowed[k].value },
    )
}

} // verus!
