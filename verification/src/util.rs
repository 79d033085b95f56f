//! A slot allocator: a growable list whose vacated slots are recycled, with
//! stable indices for the occupants.

use vstd::prelude::*;

verus! {

/// One slot of a `RecycleList`: either occupied by a value, or vacant and
/// holding the index of the next vacant slot in the free chain.
pub enum Space<T> {
    Vacant(usize),
    Occupied(T),
}

impl<T> Space<T> {
    /// Fills a vacant slot, returning the free-chain link it held.
    pub fn occupy(&mut self, occupant: T) -> (r: usize)
        requires
            *old(self) is Vacant,
        ensures
            *final(self) == Space::<T>::Occupied(occupant),
            r == old(self)->Vacant_0,
    {
        let link: usize = match self {
            Space::Vacant(n) => *n,
            Space::Occupied(_) => vstd::pervasive::unreached(),
        };
        *self = Space::Occupied(occupant);
        link
    }

    /// Empties an occupied slot, leaving it holding the given free-chain
    /// link, and returns the occupant.
    pub fn vacate(&mut self, next_open: usize) -> (r: T)
        requires
            *old(self) is Occupied,
        ensures
            *final(self) == Space::<T>::Vacant(next_open),
            r == old(self)->Occupied_0,
    {
        let mut swapper = Space::Vacant(next_open);
        core::mem::swap(self, &mut swapper);
        match swapper {
            Space::Occupied(dat) => dat,
            Space::Vacant(_) => vstd::pervasive::unreached(),
        }
    }

    pub fn is_vacant(&self) -> (r: bool)
        ensures
            r == (self is Vacant),
    {
        match self {
            Space::Vacant(_) => true,
            Space::Occupied(_) => false,
        }
    }

    pub fn is_occupied(&self) -> (r: bool)
        ensures
            r == (self is Occupied),
    {
        !self.is_vacant()
    }

    pub fn get(&self) -> (r: Option<&T>)
        ensures
            match r {
                Some(d) => self is Occupied && *d == self->Occupied_0,
                None => self is Vacant,
            },
    {
        match self {
            Space::Vacant(_) => None,
            Space::Occupied(dat) => Some(dat),
        }
    }

    pub fn get_mut(&mut self) -> (r: Option<&mut T>)
        ensures
            match r {
                Some(d) => {
                    &&& *old(self) is Occupied
                    &&& *d == old(self)->Occupied_0
                    &&& *final(self) == Space::<T>::Occupied(*final(d))
                },
                None => {
                    &&& *old(self) is Vacant
                    &&& *final(self) == *old(self)
                },
            },
    {
        match self {
            Space::Vacant(_) => None,
            Space::Occupied(dat) => Some(dat),
        }
    }
}

/// The vacant slots of `dat` reachable from `head` form exactly the chain
/// `s`: each vacant slot links to the next, and the last links one past the
/// end of the list.
spec fn chain_ok<T>(dat: Seq<Space<T>>, s: Seq<usize>, head: usize) -> bool
    decreases s.len(),
{
    if s.len() == 0 {
        head == dat.len()
    } else {
        &&& head == s[0]
        &&& head < dat.len()
        &&& dat[head as int] is Vacant
        &&& chain_ok(dat, s.drop_first(), dat[head as int]->Vacant_0)
    }
}

/// No index occurs twice in the chain.
spec fn distinct_chain(s: Seq<usize>) -> bool {
    forall|k1: int, k2: int| 0 <= k1 < k2 < s.len() ==> s[k1] != s[k2]
}

/// Every slot a chain passes through is vacant and in bounds.
proof fn lemma_chain_all_vacant<T>(dat: Seq<Space<T>>, s: Seq<usize>, head: usize)
    requires
        chain_ok(dat, s, head),
    ensures
        forall|k: int|
            0 <= k < s.len() ==> (#[trigger] s[k]) < dat.len() && dat[s[k] as int] is Vacant,
    decreases s.len(),
{
    if s.len() > 0 {
        lemma_chain_all_vacant(dat, s.drop_first(), dat[s[0] as int]->Vacant_0);
        assert forall|k: int|
            0 <= k < s.len() implies (#[trigger] s[k]) < dat.len() && dat[s[k] as int]
            is Vacant by {
            if k > 0 {
                assert(s.drop_first()[k - 1] == s[k]);
            }
        }
    }
}

/// A chain survives any edit of the list that leaves its own slots alone.
proof fn lemma_chain_frame<T>(dat: Seq<Space<T>>, dat2: Seq<Space<T>>, s: Seq<usize>, head: usize)
    requires
        chain_ok(dat, s, head),
        dat2.len() == dat.len(),
        forall|k: int| 0 <= k < s.len() ==> dat2[(#[trigger] s[k]) as int] == dat[s[k] as int],
    ensures
        chain_ok(dat2, s, head),
    decreases s.len(),
{
    if s.len() > 0 {
        assert(dat2[s[0] as int] == dat[s[0] as int]);
        assert forall|k: int|
            0 <= k < s.drop_first().len() implies dat2[(#[trigger] s.drop_first()[k]) as int]
            == dat[s.drop_first()[k] as int] by {
            assert(s.drop_first()[k] == s[k + 1]);
        }
        lemma_chain_frame(dat, dat2, s.drop_first(), dat[s[0] as int]->Vacant_0);
    }
}

/// A chain survives replacing the occupant of a slot it does not pass
/// through.
proof fn lemma_chain_update_occupied<T>(
    dat: Seq<Space<T>>,
    s: Seq<usize>,
    head: usize,
    idx: int,
    v: Space<T>,
)
    requires
        chain_ok(dat, s, head),
        0 <= idx < dat.len(),
        dat[idx] is Occupied,
    ensures
        chain_ok(dat.update(idx, v), s, head),
{
    lemma_chain_all_vacant(dat, s, head);
    lemma_chain_frame(dat, dat.update(idx, v), s, head);
}

/// The map from occupied index to occupant of a slot sequence.
spec fn seq_view<T>(dat: Seq<Space<T>>) -> Map<int, T> {
    Map::new(
        |i: int| 0 <= i < dat.len() && dat[i] is Occupied,
        |i: int| dat[i]->Occupied_0,
    )
}

/// Replacing the occupant of an occupied slot rebinds that index of the
/// map.
proof fn lemma_seq_view_update_occupied<T>(dat: Seq<Space<T>>, idx: int, v: T)
    requires
        0 <= idx < dat.len(),
    ensures
        seq_view(dat.update(idx, Space::Occupied(v))) == seq_view(dat).insert(idx, v),
{
    assert(seq_view(dat.update(idx, Space::Occupied(v))) =~= seq_view(dat).insert(idx, v));
}

/// Vacating a slot removes its index from the map.
proof fn lemma_seq_view_vacate<T>(dat: Seq<Space<T>>, idx: int, link: usize)
    requires
        0 <= idx < dat.len(),
    ensures
        seq_view(dat.update(idx, Space::Vacant(link))) == seq_view(dat).remove(idx),
{
    assert(seq_view(dat.update(idx, Space::Vacant(link))) =~= seq_view(dat).remove(idx));
}

/// Appending an occupied slot binds the fresh index.
proof fn lemma_seq_view_push_occupied<T>(dat: Seq<Space<T>>, v: T)
    ensures
        seq_view(dat.push(Space::Occupied(v))) == seq_view(dat).insert(dat.len() as int, v),
{
    assert(seq_view(dat.push(Space::Occupied(v))) =~= seq_view(dat).insert(dat.len() as int, v));
}

/// A growable list with stable indices: vacated slots are kept on a free
/// chain and recycled by later insertions. Its abstract value is the map
/// from occupied index to occupant.
pub struct RecycleList<T> {
    next_open: usize,
    dat: Vec<Space<T>>,
    chain: Ghost<Seq<usize>>,
}

impl<T> View for RecycleList<T> {
    type V = Map<int, T>;

    closed spec fn view(&self) -> Map<int, T> {
        seq_view(self.dat@)
    }
}

impl<T> RecycleList<T> {
    /// How many slots the list holds, vacant ones included: the exclusive
    /// upper bound on valid indices.
    pub closed spec fn spec_len(&self) -> nat {
        self.dat.len() as nat
    }

    /// The free chain accounts exactly for the vacant slots reachable from
    /// `next_open`, never revisiting one.
    pub closed spec fn wf(&self) -> bool {
        &&& chain_ok(self.dat@, self.chain@, self.next_open)
        &&& distinct_chain(self.chain@)
    }

    pub fn new() -> (r: Self)
        ensures
            r.wf(),
            r@ == Map::<int, T>::empty(),
            r.spec_len() == 0,
    {
        let r = Self { next_open: 0, dat: Vec::new(), chain: Ghost(Seq::empty()) };
        proof {
            assert(r@ =~= Map::<int, T>::empty());
        }
        r
    }

    pub fn len(&self) -> (r: usize)
        ensures
            r == self.spec_len(),
    {
        self.dat.len()
    }

    /// The occupant at `idx`, or an error if the slot is vacant.
    pub fn get(&self, idx: usize) -> (r: Result<&T, ()>)
        requires
            idx < self.spec_len(),
        ensures
            match r {
                Ok(d) => self@.contains_key(idx as int) && *d == self@[idx as int],
                Err(_) => !self@.contains_key(idx as int),
            },
    {
        match self.dat[idx].get() {
            Some(d) => Ok(d),
            None => Err(()),
        }
    }

    /// Exclusive access to the occupant at `idx`, or an error if the slot is
    /// vacant; writing through the result rebinds that index of the map.
    pub fn get_mut(&mut self, idx: usize) -> (r: Result<&mut T, ()>)
        requires
            old(self).wf(),
            idx < old(self).spec_len(),
        ensures
            match r {
                Ok(d) => {
                    &&& old(self)@.contains_key(idx as int)
                    &&& *d == old(self)@[idx as int]
                    &&& final(self).wf()
                    &&& final(self).spec_len() == old(self).spec_len()
                    &&& final(self)@ == old(self)@.insert(idx as int, *final(d))
                },
                Err(_) => {
                    &&& !old(self)@.contains_key(idx as int)
                    &&& final(self).wf()
                    &&& final(self)@ == old(self)@
                    &&& final(self).spec_len() == old(self).spec_len()
                },
            },
    {
        let ghost pre = *self;
        let slot = &mut self.dat[idx];
        match slot.get_mut() {
            Some(d) => {
                proof {
                    lemma_chain_update_occupied(
                        pre.dat@,
                        pre.chain@,
                        pre.next_open,
                        idx as int,
                        Space::Occupied(*final(d)),
                    );
                    lemma_seq_view_update_occupied(pre.dat@, idx as int, *final(d));
                }
                Ok(d)
            },
            None => {
                proof {
                    assert(pre.dat@.update(idx as int, pre.dat@[idx as int]) =~= pre.dat@);
                }
                Err(())
            },
        }
    }

    /// Whether the slot at `idx` is occupied.
    pub fn contains(&self, idx: usize) -> (r: bool)
        requires
            idx < self.spec_len(),
        ensures
            r == self@.contains_key(idx as int),
    {
        self.dat[idx].is_occupied()
    }

    /// Stores `item` in the first free slot — the head of the free chain,
    /// or a fresh slot at the end — and returns its index, which stays
    /// valid until the item is removed.
    pub fn insert(&mut self, item: T) -> (idx: usize)
        requires
            old(self).wf(),
        ensures
            final(self).wf(),
            idx < final(self).spec_len(),
            !old(self)@.contains_key(idx as int),
            final(self)@ == old(self)@.insert(idx as int, item),
            old(self).spec_len() <= final(self).spec_len() <= old(self).spec_len() + 1,
    {
        let ghost pre = *self;
        let idx = self.next_open;
        if idx == self.dat.len() {
            self.dat.push(Space::Occupied(item));
            self.next_open = self.dat.len();
            proof {
                assert(self.chain@.len() == 0);
                lemma_seq_view_push_occupied(pre.dat@, item);
            }
        } else {
            let slot = &mut self.dat[idx];
            let link = slot.occupy(item);
            self.next_open = link;
            proof {
                let s = pre.chain@;
                self.chain = Ghost(s.drop_first());
                assert(chain_ok(pre.dat@, s.drop_first(), link));
                lemma_chain_all_vacant(pre.dat@, s.drop_first(), link);
                assert forall|k: int|
                    0 <= k < s.drop_first().len() implies self.dat@[(#[trigger] s.drop_first()[k])
                    as int] == pre.dat@[s.drop_first()[k] as int] by {
                    assert(s.drop_first()[k] == s[k + 1]);
                    assert(s[k + 1] != s[0]);
                }
                lemma_chain_frame(pre.dat@, self.dat@, s.drop_first(), link);
                lemma_seq_view_update_occupied(pre.dat@, idx as int, item);
            }
        }
        idx
    }

    /// Takes the occupant out of the slot at `idx`, putting the slot at the
    /// head of the free chain.
    pub fn remove(&mut self, idx: usize) -> (r: T)
        requires
            old(self).wf(),
            idx < old(self).spec_len(),
            old(self)@.contains_key(idx as int),
        ensures
            final(self).wf(),
            r == old(self)@[idx as int],
            final(self)@ == old(self)@.remove(idx as int),
            final(self).spec_len() == old(self).spec_len(),
    {
        let ghost pre = *self;
        let head = self.next_open;
        let slot = &mut self.dat[idx];
        let rt = slot.vacate(head);
        self.next_open = idx;
        proof {
            let s = pre.chain@;
            let s2 = seq![idx].add(s);
            self.chain = Ghost(s2);
            lemma_chain_all_vacant(pre.dat@, s, pre.next_open);
            assert forall|k: int|
                0 <= k < s.len() implies self.dat@[(#[trigger] s[k]) as int] == pre.dat@[s[k]
                as int] by {}
            lemma_chain_frame(pre.dat@, self.dat@, s, pre.next_open);
            assert(s2.drop_first() =~= s);
            assert(chain_ok(self.dat@, s2, idx));
            lemma_seq_view_vacate(pre.dat@, idx as int, head);
        }
        rt
    }
}

} // verus!
