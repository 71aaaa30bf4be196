//! Fixed-capacity, allocation-free slot container.
//!
//! Every container has exactly [`CAPACITY`] slots, each either empty or
//! holding one value. `push` occupies the first empty slot; when no slot is
//! empty it silently overwrites slot 0 (a documented hazard of this design,
//! pinned down by the contract rather than hidden). `remove` vacates a slot,
//! and enumeration visits the occupied slots in ascending index order.

use vstd::prelude::*;

verus! {

/// Number of slots in every container.
pub const CAPACITY: usize = 4;

/// A fixed array of slots, each empty or holding a `T`.
pub struct Container<T> {
    data: Vec<Option<T>>,
}

impl<T> View for Container<T> {
    type V = Seq<Option<T>>;

    closed spec fn view(&self) -> Seq<Option<T>> {
        self.data@
    }
}

/// Number of occupied slots of the model sequence.
pub open spec fn occupied_count<T>(s: Seq<Option<T>>) -> nat
    decreases s.len(),
{
    if s.len() == 0 {
        0
    } else {
        occupied_count(s.drop_last()) + if s.last() is Some {
            1nat
        } else {
            0nat
        }
    }
}

/// Every slot of the model sequence is occupied.
pub open spec fn is_full<T>(s: Seq<Option<T>>) -> bool {
    forall|j: int| 0 <= j < s.len() ==> s[j] is Some
}

/// Index of the first empty slot at or after `i`; `s.len()` if there is none.
pub open spec fn first_empty_from<T>(s: Seq<Option<T>>, i: int) -> int
    decreases s.len() - i,
{
    if i < 0 || i >= s.len() {
        s.len() as int
    } else if s[i] is None {
        i
    } else {
        first_empty_from(s, i + 1)
    }
}

/// The slot that a push occupies: the first empty slot, or slot 0 when the
/// container is full.
pub open spec fn push_index<T>(s: Seq<Option<T>>) -> int {
    if first_empty_from(s, 0) == s.len() {
        0
    } else {
        first_empty_from(s, 0)
    }
}

/// The model sequence after a push of `v`.
pub open spec fn pushed<T>(s: Seq<Option<T>>, v: T) -> Seq<Option<T>> {
    s.update(push_index(s), Some(v))
}

/// The indices an enumeration starting at `from` visits, in order.
pub open spec fn visit_order<T>(s: Seq<Option<T>>, from: int) -> Seq<int>
    decreases s.len() - from,
{
    if from < 0 || from >= s.len() {
        Seq::empty()
    } else if s[from] is Some {
        seq![from] + visit_order(s, from + 1)
    } else {
        visit_order(s, from + 1)
    }
}

/// `first_empty_from(s, i)` is the least index of an empty slot at or after
/// `i`: every slot before it (from `i` on) is occupied, and it is empty
/// unless it equals `s.len()`.
pub proof fn lemma_first_empty_from<T>(s: Seq<Option<T>>, i: int)
    requires
        0 <= i <= s.len(),
    ensures
        i <= first_empty_from(s, i) <= s.len(),
        first_empty_from(s, i) < s.len() ==> s[first_empty_from(s, i)] is None,
        forall|j: int| i <= j < first_empty_from(s, i) ==> s[j] is Some,
    decreases s.len() - i,
{
    if i < s.len() && !(s[i] is None) {
        lemma_first_empty_from(s, i + 1);
    }
}

/// An update of one slot changes the occupied count exactly by the
/// occupancy it removes and the occupancy it adds.
pub proof fn lemma_occupied_count_update<T>(s: Seq<Option<T>>, i: int, v: Option<T>)
    requires
        0 <= i < s.len(),
    ensures
        occupied_count(s.update(i, v)) == occupied_count(s) - (if s[i] is Some {
            1int
        } else {
            0int
        }) + (if v is Some {
            1int
        } else {
            0int
        }),
    decreases s.len(),
{
    let t = s.update(i, v);
    if i == s.len() - 1 {
        assert(t.drop_last() =~= s.drop_last());
    } else {
        assert(t.drop_last() =~= s.drop_last().update(i, v));
        lemma_occupied_count_update(s.drop_last(), i, v);
    }
}

/// A sequence with no occupied slot has occupied count zero.
pub proof fn lemma_occupied_count_all_none<T>(s: Seq<Option<T>>)
    requires
        forall|j: int| 0 <= j < s.len() ==> s[j] is None,
    ensures
        occupied_count(s) == 0,
    decreases s.len(),
{
    if s.len() > 0 {
        lemma_occupied_count_all_none(s.drop_last());
    }
}

/// Law: pushing into a container that still has an empty slot raises the
/// live count by exactly one, and the push lands on an empty slot.
pub proof fn lemma_live_count_push<T>(s: Seq<Option<T>>, v: T)
    requires
        s.len() > 0,
        !is_full(s),
    ensures
        s[push_index(s)] is None,
        occupied_count(pushed(s, v)) == occupied_count(s) + 1,
{
    lemma_first_empty_from(s, 0);
    let fe = first_empty_from(s, 0);
    if fe == s.len() {
        assert(forall|j: int| 0 <= j < s.len() ==> s[j] is Some);
        assert(false);
    }
    lemma_occupied_count_update(s, push_index(s), Some(v));
}

/// Law: removing an occupied slot lowers the live count by exactly one.
pub proof fn lemma_live_count_remove<T>(s: Seq<Option<T>>, i: int)
    requires
        0 <= i < s.len(),
        s[i] is Some,
    ensures
        occupied_count(s.update(i, None)) == occupied_count(s) - 1,
{
    lemma_occupied_count_update(s, i, None);
}

/// Law: an enumeration pass visits exactly the occupied slots, each exactly
/// once, in strictly ascending index order.
pub proof fn lemma_visit_order<T>(s: Seq<Option<T>>, from: int)
    requires
        0 <= from <= s.len(),
    ensures
        forall|k: int|
            0 <= k < visit_order(s, from).len() ==> {
                &&& from <= #[trigger] visit_order(s, from)[k] < s.len()
                &&& s[visit_order(s, from)[k]] is Some
            },
        forall|k1: int, k2: int|
            0 <= k1 < k2 < visit_order(s, from).len() ==> #[trigger] visit_order(s, from)[k1]
                < #[trigger] visit_order(s, from)[k2],
        forall|i: int|
            from <= i < s.len() && s[i] is Some ==> visit_order(s, from).contains(i),
    decreases s.len() - from,
{
    if from < s.len() {
        lemma_visit_order(s, from + 1);
        let rest = visit_order(s, from + 1);
        if s[from] is Some {
            let v = visit_order(s, from);
            assert(v[0] == from);
            assert(forall|k: int| 1 <= k < v.len() ==> v[k] == rest[k - 1]);
            assert forall|i: int|
                from <= i < s.len() && s[i] is Some implies visit_order(s, from).contains(i) by {
                if i == from {
                    assert(v[0] == i);
                    assert(v.contains(i));
                } else {
                    assert(rest.contains(i));
                    let k = choose|k: int| 0 <= k < rest.len() && rest[k] == i;
                    assert(0 <= k + 1 < v.len() && v[k + 1] == i);
                    assert(v.contains(i));
                }
            }
        } else {
            assert forall|i: int|
                from <= i < s.len() && s[i] is Some implies visit_order(s, from).contains(i) by {
                assert(rest.contains(i));
                let k = choose|k: int| 0 <= k < rest.len() && rest[k] == i;
                assert(0 <= k < visit_order(s, from).len() && visit_order(s, from)[k] == i);
                assert(visit_order(s, from).contains(i));
            }
        }
    }
}

impl<T> Container<T> {
    /// Whether the container has its fixed shape of `CAPACITY` slots.
    pub open spec fn wf(&self) -> bool {
        self@.len() == CAPACITY
    }

    /// A container with every slot empty.
    pub fn new() -> (c: Container<T>)
        ensures
            c.wf(),
            forall|j: int| 0 <= j < CAPACITY ==> c@[j] is None,
            occupied_count(c@) == 0,
    {
        let mut data: Vec<Option<T>> = Vec::new();
        data.push(None);
        data.push(None);
        data.push(None);
        data.push(None);
        proof {
            lemma_occupied_count_all_none(data@);
        }
        Container { data }
    }

    /// Occupies the first empty slot with `v` and returns its index; when no
    /// slot is empty, silently overwrites slot 0.
    pub fn push(&mut self, v: T) -> (i: usize)
        requires
            old(self).wf(),
        ensures
            final(self).wf(),
            i as int == push_index(old(self)@),
            final(self)@ == pushed(old(self)@, v),
            i < CAPACITY,
    {
        proof {
            lemma_first_empty_from(old(self)@, 0);
        }
        let mut idx: usize = 0;
        let mut found = false;
        let mut j: usize = 0;
        while j < CAPACITY
            invariant
                self.wf(),
                self == old(self),
                j <= CAPACITY,
                !found ==> forall|k: int| 0 <= k < j ==> self@[k] is Some,
                found ==> {
                    &&& idx < j
                    &&& self@[idx as int] is None
                    &&& forall|k: int| 0 <= k < idx ==> self@[k] is Some
                },
            decreases CAPACITY - j,
        {
            if !found && self.data[j].is_none() {
                idx = j;
                found = true;
            }
            j += 1;
        }
        let target = if found {
            idx
        } else {
            0
        };
        proof {
            if found {
                assert(first_empty_from(self@, 0) == idx as int) by {
                    lemma_first_empty_from(self@, 0);
                    let fe = first_empty_from(self@, 0);
                    if fe < idx as int {
                        assert(self@[fe] is Some);
                    }
                    if fe > idx as int {
                        assert(self@[idx as int] is Some);
                    }
                }
            } else {
                lemma_first_empty_from(self@, 0);
                assert(first_empty_from(self@, 0) == CAPACITY);
            }
        }
        self.data[target] = Some(v);
        target
    }

    /// Count of the occupied slots.
    pub fn size(&self) -> (n: usize)
        requires
            self.wf(),
        ensures
            n == occupied_count(self@),
    {
        let mut n: usize = 0;
        let mut j: usize = 0;
        while j < CAPACITY
            invariant
                self.wf(),
                j <= CAPACITY,
                n <= j,
                n == occupied_count(self@.take(j as int)),
            decreases CAPACITY - j,
        {
            proof {
                assert(self@.take(j + 1).drop_last() =~= self@.take(j as int));
                assert(self@.take(j + 1).last() == self@[j as int]);
            }
            if self.data[j].is_some() {
                n += 1;
            }
            j += 1;
        }
        proof {
            assert(self@.take(CAPACITY as int) =~= self@);
        }
        n
    }

    /// Number of slots of the underlying storage.
    pub fn len(&self) -> (n: usize)
        requires
            self.wf(),
        ensures
            n == CAPACITY,
            n == self@.len(),
    {
        self.data.len()
    }

    /// A reference to the value in slot `i`, or `None` if the slot is empty.
    pub fn get(&self, i: usize) -> (r: Option<&T>)
        requires
            self.wf(),
            i < CAPACITY,
        ensures
            match r {
                Some(t) => self@[i as int] == Some(*t),
                None => self@[i as int] is None,
            },
    {
        match &self.data[i] {
            Some(t) => Some(t),
            None => None,
        }
    }

    /// Vacates slot `i`.
    pub fn remove(&mut self, i: usize)
        requires
            old(self).wf(),
            i < CAPACITY,
        ensures
            final(self).wf(),
            final(self)@ == old(self)@.update(i as int, None),
    {
        self.data[i] = None;
    }

    /// Writes `v` into slot `i`, occupying it.
    pub(crate) fn put(&mut self, i: usize, v: T)
        requires
            old(self).wf(),
            i < CAPACITY,
        ensures
            final(self).wf(),
            final(self)@ == old(self)@.update(i as int, Some(v)),
    {
        self.data[i] = Some(v);
    }

    /// A single-pass cursor over the occupied slots, in ascending index
    /// order.
    pub fn iter<'a>(&'a self) -> (it: ContainerIterator<'a, T>)
        requires
            self.wf(),
        ensures
            it.wf(),
            it.src() == self@,
            it.pos() == 0,
    {
        ContainerIterator { index: 0, container: self }
    }
}

impl<T: Copy> Container<T> {
    /// The value in slot `i`, copied out, or `None` if the slot is empty.
    pub(crate) fn get_copy(&self, i: usize) -> (r: Option<T>)
        requires
            self.wf(),
            i < CAPACITY,
        ensures
            r == self@[i as int],
    {
        self.data[i]
    }
}

/// A non-restartable cursor over a borrowed container.
pub struct ContainerIterator<'a, T> {
    index: usize,
    container: &'a Container<T>,
}

impl<'a, T> ContainerIterator<'a, T> {
    /// The model of the container under enumeration.
    pub closed spec fn src(&self) -> Seq<Option<T>> {
        self.container@
    }

    /// The cursor: the lowest index not yet visited.
    pub closed spec fn pos(&self) -> int {
        self.index as int
    }

    /// Whether the cursor is within bounds of its container.
    pub open spec fn wf(&self) -> bool {
        0 <= self.pos() <= CAPACITY && self.src().len() == CAPACITY
    }

    /// The next occupied slot at or after the cursor, as `(index, value)`,
    /// or `(0, None)` when none remains.
    pub fn next(&mut self) -> (r: (usize, Option<&'a T>))
        requires
            old(self).wf(),
        ensures
            final(self).wf(),
            final(self).src() == old(self).src(),
            match r.1 {
                Some(t) => {
                    &&& old(self).pos() <= r.0 < CAPACITY
                    &&& final(self).src()[r.0 as int] == Some(*t)
                    &&& forall|j: int| old(self).pos() <= j < r.0 ==> final(self).src()[j] is None
                    &&& final(self).pos() == r.0 + 1
                    &&& visit_order(final(self).src(), old(self).pos()) == seq![r.0 as int]
                        + visit_order(final(self).src(), final(self).pos())
                },
                None => {
                    &&& r.0 == 0
                    &&& final(self).pos() == CAPACITY
                    &&& forall|j: int|
                        old(self).pos() <= j < CAPACITY ==> final(self).src()[j] is None
                    &&& visit_order(final(self).src(), old(self).pos()) == Seq::<int>::empty()
                },
            },
    {
        while self.index < CAPACITY
            invariant
                self.wf(),
                self.src() == old(self).src(),
                old(self).pos() <= self.pos(),
                forall|j: int| old(self).pos() <= j < self.pos() ==> self.src()[j] is None,
                visit_order(self.src(), old(self).pos()) == visit_order(self.src(), self.pos()),
            decreases CAPACITY - self.index,
        {
            let i = self.index;
            match self.container.get(i) {
                Some(t) => {
                    self.index = i + 1;
                    return (i, Some(t));
                },
                None => {
                    self.index = i + 1;
                },
            }
        }
        (0, None)
    }
}

} // verus!
