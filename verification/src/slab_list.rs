//! A list of slabs of optional slots, addressed by one running index.

use vstd::prelude::*;

verus! {

/// A list of slabs of `SLAB_SIZE` slots each. Slots are addressed by a global
/// index, from which the slabs and elements already freed are taken off.
pub struct SlabList<T, const SLAB_SIZE: usize> {
    num_slabs_freed: usize,
    num_elements_freed: usize,
    inner: Vec<Vec<Option<T>>>,
}

impl<T, const SLAB_SIZE: usize> View for SlabList<T, SLAB_SIZE> {
    type V = Seq<Seq<Option<T>>>;

    closed spec fn view(&self) -> Seq<Seq<Option<T>>> {
        self.inner@.map_values(|slab: Vec<Option<T>>| slab@)
    }
}

impl<T, const SLAB_SIZE: usize> SlabList<T, SLAB_SIZE> {
    /// How many slabs have been freed at the front.
    pub closed spec fn slabs_freed(&self) -> nat {
        self.num_slabs_freed as nat
    }

    /// How many elements have been freed at the front.
    pub closed spec fn elements_freed(&self) -> nat {
        self.num_elements_freed as nat
    }

    /// Whether the list is whole: slabs have room for at least one element,
    /// and every slab has all its slots.
    pub open spec fn wf(&self) -> bool {
        &&& SLAB_SIZE > 0
        &&& forall|i: int| 0 <= i < self@.len() ==> (#[trigger] self@[i]).len() == SLAB_SIZE
    }

    /// The slab that holds the slot `index`.
    pub open spec fn slab_of(&self, index: int) -> int {
        index / SLAB_SIZE as int - self.slabs_freed()
    }

    /// The place of the slot `index` in its slab.
    pub open spec fn slot_of(&self, index: int) -> int {
        index - self.elements_freed()
    }

    /// Whether `index` addresses a slot of the list: its slab is one of the
    /// list's, and its place in the slab lies in the slab and behind what has
    /// been freed of the slab.
    pub open spec fn addresses(&self, index: int) -> bool {
        &&& 0 <= self.slab_of(index) < self@.len()
        &&& 0 <= self.slot_of(index) < SLAB_SIZE
        &&& self.elements_freed() * SLAB_SIZE <= self.slot_of(index)
    }

    fn empty_slab() -> (slab: Vec<Option<T>>)
        ensures
            slab@.len() == SLAB_SIZE,
            forall|i: int| 0 <= i < SLAB_SIZE ==> (#[trigger] slab@[i]) is None,
    {
        let mut slab: Vec<Option<T>> = Vec::new();
        let mut i: usize = 0;
        while i < SLAB_SIZE
            invariant
                i <= SLAB_SIZE,
                slab@.len() == i,
                forall|j: int| 0 <= j < i ==> (#[trigger] slab@[j]) is None,
            decreases SLAB_SIZE - i,
        {
            slab.push(None);
            i = i + 1;
        }
        slab
    }

    /// A list of one slab, all of whose slots are empty.
    pub fn new() -> (list: Self)
        requires
            SLAB_SIZE > 0,
        ensures
            list.wf(),
            list.slabs_freed() == 0,
            list.elements_freed() == 0,
            list@.len() == 1,
            forall|i: int| 0 <= i < SLAB_SIZE ==> (#[trigger] list@[0][i]) is None,
    {
        let mut inner: Vec<Vec<Option<T>>> = Vec::new();
        inner.push(Self::empty_slab());
        SlabList { num_slabs_freed: 0, num_elements_freed: 0, inner }
    }

    fn global_index_to_slab_index(&self, index: usize) -> (place: (usize, usize))
        requires
            SLAB_SIZE > 0,
            0 <= self.slab_of(index as int),
            0 <= self.slot_of(index as int) < SLAB_SIZE,
        ensures
            place.0 == self.slab_of(index as int),
            place.1 == self.slot_of(index as int),
    {
        let slab = index / SLAB_SIZE - self.num_slabs_freed;
        let index = index - self.num_elements_freed;
        (slab, index)
    }

    fn add_n_slabs(&mut self, n: usize)
        requires
            old(self).wf(),
        ensures
            final(self).wf(),
            final(self).slabs_freed() == old(self).slabs_freed(),
            final(self).elements_freed() == old(self).elements_freed(),
            final(self)@.len() == old(self)@.len() + n,
            forall|i: int| 0 <= i < old(self)@.len() ==> #[trigger] final(self)@[i] == old(self)@[i],
    {
        let mut added: usize = 0;
        while added < n
            invariant
                added <= n,
                self.wf(),
                self.num_slabs_freed == old(self).num_slabs_freed,
                self.num_elements_freed == old(self).num_elements_freed,
                self@.len() == old(self)@.len() + added,
                forall|i: int| 0 <= i < old(self)@.len() ==> #[trigger] self@[i] == old(self)@[i],
            decreases n - added,
        {
            let ghost before = self@;
            self.inner.push(Self::empty_slab());
            assert(forall|i: int| 0 <= i < before.len() ==> #[trigger] self@[i] == before[i]);
            added = added + 1;
        }
    }

    /// Puts `val` into the slot that `index` addresses.
    pub fn insert_at(&mut self, index: usize, val: T)
        requires
            old(self).wf(),
            old(self).addresses(index as int),
        ensures
            final(self).wf(),
            final(self).slabs_freed() == old(self).slabs_freed(),
            final(self).elements_freed() == old(self).elements_freed(),
            final(self)@ == old(self)@.update(
                old(self).slab_of(index as int),
                old(self)@[old(self).slab_of(index as int)].update(
                    old(self).slot_of(index as int),
                    Some(val),
                ),
            ),
    {
        let (slab, index_in_slab) = self.global_index_to_slab_index(index);
        let current_num_slabs = self.inner.len();
        if current_num_slabs < slab {
            self.add_n_slabs(slab - current_num_slabs);
        }
        assert(self@[slab as int].len() == SLAB_SIZE);
        self.inner[slab][index_in_slab] = Some(val);
        assert(self@ =~= old(self)@.update(
            slab as int,
            old(self)@[slab as int].update(index_in_slab as int, Some(val)),
        ));
    }

    /// What the slot that `index` addresses holds.
    pub fn get(&self, index: usize) -> (found: Option<&T>)
        requires
            self.wf(),
            self.addresses(index as int),
        ensures
            match found {
                Some(element) => self@[self.slab_of(index as int)][self.slot_of(index as int)]
                    == Some(*element),
                None => self@[self.slab_of(index as int)][self.slot_of(index as int)] is None,
            },
    {
        let (slab, index_in_slab) = self.global_index_to_slab_index(index);
        assert(self@[slab as int].len() == SLAB_SIZE);
        self.inner[slab][index_in_slab].as_ref()
    }
}

} // verus!
