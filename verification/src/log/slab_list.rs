//! A list of fixed-size slabs.

use vstd::prelude::*;

verus! {

/// A compile-time condition, as a type.
pub struct Assert<const B: bool>;

/// Implemented by the conditions that hold.
pub trait True {

}

impl True for Assert<true> {

}

/// A list of slabs of `SLAB_SIZE` elements each.
pub struct SlabList<T, const SLAB_SIZE: usize> {
    internals: Vec<Vec<T>>,
}

/// The elements of `slabs`, slab after slab.
pub open spec fn elements_of<T>(slabs: Seq<Seq<T>>) -> Seq<T>
    decreases slabs.len(),
{
    if slabs.len() == 0 {
        Seq::empty()
    } else {
        elements_of(slabs.drop_last()) + slabs.last()
    }
}

impl<T, const SLAB_SIZE: usize> View for SlabList<T, SLAB_SIZE> {
    type V = Seq<Seq<T>>;

    closed spec fn view(&self) -> Seq<Seq<T>> {
        self.internals@.map_values(|slab: Vec<T>| slab@)
    }
}

impl<T, const SLAB_SIZE: usize> SlabList<T, SLAB_SIZE> {
    /// Whether the list is whole: slabs have room for at least one element,
    /// and every slab is full.
    pub open spec fn wf(&self) -> bool {
        &&& SLAB_SIZE > 0
        &&& forall|i: int| 0 <= i < self@.len() ==> (#[trigger] self@[i]).len() == SLAB_SIZE
    }

    /// What [`SlabList::get`] finds at `index`. The slab is counted from the
    /// back of the list: the slab number `index / SLAB_SIZE` is taken off the
    /// number of slabs, and the slab that many steps before the end of the
    /// list is read at `index % SLAB_SIZE`. Where that many steps lead out of
    /// the list, nothing is found.
    pub open spec fn spec_get(&self, index: int) -> Option<T> {
        let slab = index / SLAB_SIZE as int;
        if 1 <= slab <= self@.len() {
            Some(self@[slab - 1][index % SLAB_SIZE as int])
        } else {
            None
        }
    }

    /// A list without slabs.
    pub fn new() -> (list: Self)
        requires
            SLAB_SIZE > 0,
        ensures
            list.wf(),
            list@ == Seq::<Seq<T>>::empty(),
    {
        let list = SlabList { internals: Vec::new() };
        assert(list@ =~= Seq::<Seq<T>>::empty());
        list
    }

    /// The elements of the list in order, slab after slab.
    pub fn iter(&self) -> (all: Vec<&T>)
        requires
            self.wf(),
        ensures
            all@.len() == elements_of(self@).len(),
            forall|i: int| 0 <= i < all@.len() ==> *(#[trigger] all@[i]) == elements_of(self@)[i],
    {
        let mut all: Vec<&T> = Vec::new();
        let mut s: usize = 0;
        assert(self@.take(0) =~= Seq::<Seq<T>>::empty());
        while s < self.internals.len()
            invariant
                s <= self.internals@.len(),
                self@.len() == self.internals@.len(),
                all@.len() == elements_of(self@.take(s as int)).len(),
                forall|i: int|
                    0 <= i < all@.len() ==> *(#[trigger] all@[i]) == elements_of(
                        self@.take(s as int),
                    )[i],
            decreases self.internals@.len() - s,
        {
            let slab = &self.internals[s];
            let ghost before = all@;
            let ghost earlier = elements_of(self@.take(s as int));
            assert(forall|i: int| 0 <= i < before.len() ==> *(#[trigger] before[i]) == earlier[i]);
            let mut e: usize = 0;
            while e < slab.len()
                invariant
                    e <= slab@.len(),
                    all@.len() == before.len() + e,
                    forall|i: int| 0 <= i < before.len() ==> all@[i] == before[i],
                    forall|i: int| 0 <= i < e ==> *(#[trigger] all@[before.len() + i]) == slab@[i],
                decreases slab@.len() - e,
            {
                all.push(&slab[e]);
                e = e + 1;
            }
            proof {
                assert(self@.take(s + 1).drop_last() =~= self@.take(s as int));
                assert(self@.take(s + 1).last() == slab@);
                assert(elements_of(self@.take(s + 1)) == earlier + slab@);
                assert forall|i: int| 0 <= i < all@.len() implies *(#[trigger] all@[i])
                    == elements_of(self@.take(s + 1))[i] by {
                    if i >= before.len() {
                        assert(*all@[before.len() + (i - before.len())] == slab@[i - before.len()]);
                    } else {
                        assert(all@[i] == before[i]);
                        assert(*before[i] == earlier[i]);
                    }
                }
            }
            s = s + 1;
        }
        assert(self@.take(self@.len() as int) =~= self@);
        all
    }

    /// The element that an iteration over the list reaches at step
    /// `position`, to be changed in place; nothing where the iteration ends
    /// before that step.
    pub fn iter_mut(&mut self, position: usize) -> (element: Option<&mut T>)
        requires
            old(self).wf(),
        ensures
            match element {
                Some(e) => {
                    &&& position / SLAB_SIZE < old(self)@.len()
                    &&& *e == old(self)@[position as int / SLAB_SIZE as int][position as int
                        % SLAB_SIZE as int]
                    &&& final(self)@ == old(self)@.update(
                        position as int / SLAB_SIZE as int,
                        old(self)@[position as int / SLAB_SIZE as int].update(
                            position as int % SLAB_SIZE as int,
                            *final(e),
                        ),
                    )
                },
                None => position / SLAB_SIZE >= old(self)@.len() && final(self)@ == old(self)@,
            },
    {
        let slab = position / SLAB_SIZE;
        if slab >= self.internals.len() {
            None
        } else {
            assert(self@[slab as int].len() == SLAB_SIZE);
            Some(&mut self.internals[slab][position % SLAB_SIZE])
        }
    }

    /// What stands at `index`, as [`SlabList::spec_get`] says.
    pub fn get(&self, index: usize) -> (found: Option<&T>)
        requires
            self.wf(),
        ensures
            match found {
                Some(element) => self.spec_get(index as int) == Some(*element),
                None => self.spec_get(index as int) is None,
            },
    {
        let internals_len = self.internals.len();
        let slab_number = index / SLAB_SIZE;
        if slab_number > internals_len {
            return None;
        }
        let backwards_index = internals_len - slab_number;
        if backwards_index >= internals_len {
            return None;
        }
        let slab = &self.internals[internals_len - 1 - backwards_index];
        assert(slab@ == self@[slab_number - 1]);
        assert(index % SLAB_SIZE < slab@.len());
        Some(&slab[index % SLAB_SIZE])
    }

    /// What stands at `index`: the same as [`SlabList::get`].
    pub fn get_mut(&self, index: usize) -> (found: Option<&T>)
        requires
            self.wf(),
        ensures
            match found {
                Some(element) => self.spec_get(index as int) == Some(*element),
                None => self.spec_get(index as int) is None,
            },
    {
        self.get(index)
    }
}

impl<T, const SLAB_SIZE: usize> Default for SlabList<T, SLAB_SIZE> {
    fn default() -> (list: Self)
        ensures
            list@ == Seq::<Seq<T>>::empty(),
    {
        let list = SlabList { internals: Vec::new() };
        assert(list@ =~= Seq::<Seq<T>>::empty());
        list
    }
}

} // verus!
