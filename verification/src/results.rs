//! The list of what one search pass found, addressed by position.

use vstd::prelude::*;

verus! {

/// The entities of the current search pass, in the order in which they were
/// appended. The identifier of an entity is its position.
pub struct ResultList<T> {
    entries: Vec<T>,
}

impl<T> View for ResultList<T> {
    type V = Seq<T>;

    closed spec fn view(&self) -> Seq<T> {
        self.entries@
    }
}

impl<T> ResultList<T> {
    /// An empty list.
    pub fn new() -> (list: Self)
        ensures
            list@ == Seq::<T>::empty(),
    {
        ResultList { entries: Vec::new() }
    }

    /// Forgets every entity: identifiers handed out before are no longer valid.
    pub fn clear(&mut self)
        ensures
            final(self)@ == Seq::<T>::empty(),
    {
        self.entries.clear();
    }

    /// The number of entities.
    pub fn len(&self) -> (n: usize)
        ensures
            n == self@.len(),
    {
        self.entries.len()
    }

    /// Whether one more entity can be given an identifier.
    pub open spec fn has_room(&self) -> bool {
        self@.len() <= u32::MAX
    }

    /// Appends `entity` and returns its identifier, which is its position.
    pub fn push(&mut self, entity: T) -> (id: u32)
        requires
            old(self).has_room(),
        ensures
            final(self)@ == old(self)@.push(entity),
            id == old(self)@.len(),
    {
        let n: usize = self.entries.len();
        self.entries.push(entity);
        n as u32
    }

    /// The entity with identifier `id`, or `None` where the list holds none.
    pub fn get(&self, id: u32) -> (found: Option<&T>)
        ensures
            found is Some <==> id < self@.len(),
            found matches Some(entity) ==> *entity == self@[id as int],
    {
        let at: usize = id as usize;
        if at < self.entries.len() {
            Some(&self.entries[at])
        } else {
            None
        }
    }
}

} // verus!
