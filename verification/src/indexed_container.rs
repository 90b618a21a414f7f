use vstd::prelude::*;

verus! {

/// A growable list of items together with an index buffer referring into it,
/// in the style of an indexed triangle mesh: `items` holds the distinct
/// entries and `indices` holds positions into `items`.
///
/// Appending operations offset incoming indices so that they keep referring
/// to the entries they arrived with.
#[derive(Debug, Clone, PartialEq, Eq)]
pub struct IndexedContainer<T> {
    pub items: Vec<T>,
    pub indices: Vec<u32>,
}

impl<T> IndexedContainer<T> {
    /// Creates an empty container.
    pub fn new() -> (r: Self)
        ensures
            r.items@ == Seq::<T>::empty(),
            r.indices@ == Seq::<u32>::empty(),
    {
        Self { items: Vec::new(), indices: Vec::new() }
    }

    /// Creates an empty container with room reserved for `item_capacity`
    /// items and `index_capacity` indices.
    pub fn with_capacity(item_capacity: usize, index_capacity: usize) -> (r: Self)
        ensures
            r.items@ == Seq::<T>::empty(),
            r.indices@ == Seq::<u32>::empty(),
    {
        Self {
            items: Vec::with_capacity(item_capacity),
            indices: Vec::with_capacity(index_capacity),
        }
    }

    /// Appends one item, referenced by one new index.
    pub fn push(&mut self, item: T)
        requires
            old(self).items@.len() < u32::MAX,
        ensures
            final(self).items@ == old(self).items@.push(item),
            final(self).indices@ == old(self).indices@.push(old(self).items@.len() as u32),
    {
        let index = self.items.len() as u32;
        self.indices.push(index);
        self.items.push(item);
    }

    /// Appends one item, referenced by `amount` new copies of its index.
    pub fn push_repeated(&mut self, item: T, amount: u32)
        requires
            old(self).items@.len() < u32::MAX,
            old(self).indices@.len() + amount <= usize::MAX,
        ensures
            final(self).items@ == old(self).items@.push(item),
            final(self).indices@ == old(self).indices@
                + Seq::new(amount as nat, |i: int| old(self).items@.len() as u32),
    {
        let index = self.items.len() as u32;
        let mut pushed: u32 = 0;
        while pushed < amount
            invariant
                pushed <= amount,
                index == old(self).items@.len(),
                self.items@ == old(self).items@,
                self.indices@ == old(self).indices@
                    + Seq::new(pushed as nat, |i: int| old(self).items@.len() as u32),
            decreases amount - pushed,
        {
            self.indices.push(index);
            pushed = pushed + 1;
            proof {
                assert(self.indices@ =~= old(self).indices@
                    + Seq::new(pushed as nat, |i: int| old(self).items@.len() as u32));
            }
        }
        self.items.push(item);
    }

    /// Appends a batch of items along with indices given relative to the
    /// start of the batch; the stored indices are offset so that they refer
    /// to the newly appended items.
    pub fn push_relative_indexed(&mut self, items: Vec<T>, relative_indices: Vec<u32>)
        requires
            old(self).items@.len() <= u32::MAX,
            forall|i: int|
                0 <= i < relative_indices@.len()
                    ==> relative_indices@[i] + old(self).items@.len() <= u32::MAX,
        ensures
            final(self).items@ == old(self).items@ + items@,
            final(self).indices@ == old(self).indices@
                + relative_indices@.map_values(
                    |x: u32| (x + old(self).items@.len()) as u32,
                ),
    {
        let index_offset = self.items.len() as u32;
        let mut i: usize = 0;
        while i < relative_indices.len()
            invariant
                i <= relative_indices@.len(),
                index_offset == old(self).items@.len(),
                forall|j: int|
                    0 <= j < relative_indices@.len()
                        ==> relative_indices@[j] + old(self).items@.len() <= u32::MAX,
                self.items@ == old(self).items@,
                self.indices@ == old(self).indices@
                    + relative_indices@.take(i as int).map_values(
                        |x: u32| (x + old(self).items@.len()) as u32,
                    ),
            decreases relative_indices@.len() - i,
        {
            let shifted = relative_indices[i] + index_offset;
            self.indices.push(shifted);
            i = i + 1;
            proof {
                assert(self.indices@ =~= old(self).indices@
                    + relative_indices@.take(i as int).map_values(
                        |x: u32| (x + old(self).items@.len()) as u32,
                    ));
            }
        }
        proof {
            assert(relative_indices@.take(relative_indices@.len() as int)
                =~= relative_indices@);
        }
        let mut incoming = items;
        self.items.append(&mut incoming);
    }

    /// Appends another container, offsetting its indices so that they keep
    /// referring to the items that arrived with it.
    pub fn push_container(&mut self, other_container: Self)
        requires
            old(self).items@.len() <= u32::MAX,
            forall|i: int|
                0 <= i < other_container.indices@.len()
                    ==> other_container.indices@[i] + old(self).items@.len() <= u32::MAX,
        ensures
            final(self).items@ == old(self).items@ + other_container.items@,
            final(self).indices@ == old(self).indices@
                + other_container.indices@.map_values(
                    |x: u32| (x + old(self).items@.len()) as u32,
                ),
    {
        let mut other_container = other_container;
        let ghost incoming_indices = other_container.indices@;
        let ghost incoming_items = other_container.items@;
        self.items.reserve(other_container.items.len());
        self.indices.reserve(other_container.indices.len());
        let index_offset = self.items.len() as u32;
        self.items.append(&mut other_container.items);
        let mut i: usize = 0;
        while i < other_container.indices.len()
            invariant
                other_container.indices@ == incoming_indices,
                i <= incoming_indices.len(),
                index_offset == old(self).items@.len(),
                forall|j: int|
                    0 <= j < incoming_indices.len()
                        ==> incoming_indices[j] + old(self).items@.len() <= u32::MAX,
                self.items@ == old(self).items@ + incoming_items,
                self.indices@ == old(self).indices@
                    + incoming_indices.take(i as int).map_values(
                        |x: u32| (x + old(self).items@.len()) as u32,
                    ),
            decreases incoming_indices.len() - i,
        {
            let shifted = other_container.indices[i] + index_offset;
            self.indices.push(shifted);
            i = i + 1;
            proof {
                assert(self.indices@ =~= old(self).indices@
                    + incoming_indices.take(i as int).map_values(
                        |x: u32| (x + old(self).items@.len()) as u32,
                    ));
            }
        }
        proof {
            assert(incoming_indices.take(incoming_indices.len() as int)
                =~= incoming_indices);
        }
    }

    /// Removes every item and every index.
    pub fn clear(&mut self)
        ensures
            final(self).items@ == Seq::<T>::empty(),
            final(self).indices@ == Seq::<u32>::empty(),
    {
        self.items.clear();
        self.indices.clear();
    }
}

impl<T> Default for IndexedContainer<T> {
    /// An empty container.
    fn default() -> (r: Self)
        ensures
            r.items@ == Seq::<T>::empty(),
            r.indices@ == Seq::<u32>::empty(),
    {
        Self::new()
    }
}

} // verus!
