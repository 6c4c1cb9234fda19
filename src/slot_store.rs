use vstd::prelude::*;

verus! {

/// Index of the first empty slot at or after `i`, or the length when there is none.
pub open spec fn free_from<T>(s: Seq<Option<T>>, i: int) -> int
    decreases s.len() - i,
{
    if i < 0 || i >= s.len() {
        s.len() as int
    } else if s[i] is None {
        i
    } else {
        free_from(s, i + 1)
    }
}

/// The slot that an insertion into `s` fills: the lowest empty one, else a new one at the end.
pub open spec fn first_free<T>(s: Seq<Option<T>>) -> int {
    free_from(s, 0)
}

/// The slots after storing `v` in the slot that `first_free` picks.
pub open spec fn inserted<T>(s: Seq<Option<T>>, v: T) -> Seq<Option<T>> {
    if first_free(s) == s.len() {
        s.push(Some(v))
    } else {
        s.update(first_free(s), Some(v))
    }
}

/// The slots after emptying slot `i` (nothing changes when `i` is past the end).
pub open spec fn deleted<T>(s: Seq<Option<T>>, i: int) -> Seq<Option<T>> {
    if 0 <= i < s.len() {
        s.update(i, None)
    } else {
        s
    }
}

/// Number of occupied slots.
pub open spec fn occupied<T>(s: Seq<Option<T>>) -> nat
    decreases s.len(),
{
    if s.len() == 0 {
        0
    } else {
        occupied(s.drop_last()) + if s.last() is Some { 1nat } else { 0nat }
    }
}

/// One step of a history of operations on a slot store.
pub enum SlotOp<T> {
    Insert(T),
    Delete(usize),
}

/// The slots after a history of operations, applied in order.
pub open spec fn apply_ops<T>(s: Seq<Option<T>>, ops: Seq<SlotOp<T>>) -> Seq<Option<T>>
    decreases ops.len(),
{
    if ops.len() == 0 {
        s
    } else {
        let next = match ops[0] {
            SlotOp::Insert(v) => inserted(s, v),
            SlotOp::Delete(i) => deleted(s, i as int),
        };
        apply_ops(next, ops.subrange(1, ops.len() as int))
    }
}

pub proof fn lemma_free_from_bounds<T>(s: Seq<Option<T>>, i: int)
    requires
        0 <= i <= s.len(),
    ensures
        i <= free_from(s, i) <= s.len(),
        free_from(s, i) < s.len() ==> s[free_from(s, i)] is None,
        forall|j: int| i <= j < free_from(s, i) ==> s[j] is Some,
    decreases s.len() - i,
{
    if i < s.len() && s[i] is Some {
        lemma_free_from_bounds(s, i + 1);
    }
}

pub proof fn lemma_occupied_update<T>(s: Seq<Option<T>>, i: int, v: Option<T>)
    requires
        0 <= i < s.len(),
    ensures
        occupied(s.update(i, v)) + (if s[i] is Some { 1int } else { 0int })
            == occupied(s) + (if v is Some { 1int } else { 0int }),
    decreases s.len(),
{
    let t = s.update(i, v);
    if i < s.len() - 1 {
        assert(t.drop_last() =~= s.drop_last().update(i, v));
        lemma_occupied_update(s.drop_last(), i, v);
    } else {
        assert(t.drop_last() =~= s.drop_last());
    }
}

pub proof fn lemma_occupied_le_len<T>(s: Seq<Option<T>>)
    ensures
        occupied(s) <= s.len(),
    decreases s.len(),
{
    if s.len() > 0 {
        lemma_occupied_le_len(s.drop_last());
    }
}

/// A slot that is occupied keeps its value through any history that never deletes it:
/// an id handed out by `insert` names the same entity until that entity's own `delete`.
pub proof fn lemma_id_stable<T>(s: Seq<Option<T>>, ops: Seq<SlotOp<T>>, id: int)
    requires
        0 <= id < s.len(),
        s[id] is Some,
        forall|k: int| 0 <= k < ops.len() ==> ops[k] != SlotOp::<T>::Delete(id as usize),
    ensures
        id < apply_ops(s, ops).len(),
        apply_ops(s, ops)[id] == s[id],
    decreases ops.len(),
{
    if ops.len() > 0 {
        let next = match ops[0] {
            SlotOp::Insert(v) => inserted(s, v),
            SlotOp::Delete(i) => deleted(s, i as int),
        };
        lemma_free_from_bounds(s, 0);
        assert(next.len() >= s.len());
        assert(next[id] == s[id]);
        let rest = ops.subrange(1, ops.len() as int);
        assert forall|k: int| 0 <= k < rest.len() implies rest[k] != SlotOp::<T>::Delete(
            id as usize,
        ) by {
            assert(rest[k] == ops[k + 1]);
        }
        lemma_id_stable(next, rest, id);
    }
}

/// A sparse store that gives each value a stable integer id: ids are slot indices,
/// and no operation moves a value to another slot.
pub struct SlotStore<T> {
    slots: Vec<Option<T>>,
    count: usize,
}

impl<T> View for SlotStore<T> {
    type V = Seq<Option<T>>;

    closed spec fn view(&self) -> Seq<Option<T>> {
        self.slots@
    }
}

impl<T> SlotStore<T> {
    pub closed spec fn wf(&self) -> bool {
        self.count == occupied(self.slots@)
    }

    pub fn new() -> (r: Self)
        ensures
            r.wf(),
            r@ == Seq::<Option<T>>::empty(),
    {
        SlotStore { slots: Vec::new(), count: 0 }
    }

    /// Total number of slots, empty ones included.
    pub fn len(&self) -> (r: usize)
        ensures
            r == self@.len(),
    {
        self.slots.len()
    }

    /// Number of occupied slots.
    pub fn count(&self) -> (r: usize)
        requires
            self.wf(),
        ensures
            r == occupied(self@),
    {
        self.count
    }

    /// Stores `v` in the lowest empty slot, or in a new slot at the end, and returns its id.
    pub fn insert(&mut self, v: T) -> (id: usize)
        requires
            old(self).wf(),
            old(self)@.len() < usize::MAX,
        ensures
            final(self).wf(),
            id == first_free(old(self)@),
            final(self)@ == inserted(old(self)@, v),
    {
        let ghost s = self.slots@;
        proof {
            lemma_free_from_bounds(s, 0);
            lemma_occupied_le_len(s);
        }
        let mut i: usize = 0;
        while i < self.slots.len()
            invariant
                self.slots@ == s,
                self.count == occupied(s),
                0 <= i <= s.len(),
                s.len() < usize::MAX,
                free_from(s, i as int) == free_from(s, 0),
            ensures
                free_from(s, 0) == i as int,
            decreases s.len() - i,
        {
            if self.slots[i].is_none() {
                assert(free_from(s, i as int) == i);
                break;
            }
            i = i + 1;
        }
        if i == self.slots.len() {
            self.slots.push(Some(v));
            proof {
                assert(self.slots@.drop_last() =~= s);
            }
        } else {
            self.slots.set(i, Some(v));
            proof {
                lemma_occupied_update(s, i as int, Some(v));
            }
        }
        self.count = self.count + 1;
        i
    }

    /// Empties slot `id`; a no-op when it is already empty or past the end.
    pub fn delete(&mut self, id: usize)
        requires
            old(self).wf(),
        ensures
            final(self).wf(),
            final(self)@ == deleted(old(self)@, id as int),
    {
        if id < self.slots.len() && self.slots[id].is_some() {
            proof {
                lemma_occupied_update(self.slots@, id as int, None);
            }
            self.slots.set(id, None);
            self.count = self.count - 1;
        }
        proof {
            if id < self.slots@.len() {
                assert(self.slots@ =~= deleted(old(self)@, id as int));
            }
        }
    }

    /// Removes every slot.
    pub fn clear(&mut self)
        requires
            old(self).wf(),
        ensures
            final(self).wf(),
            final(self)@ == Seq::<Option<T>>::empty(),
    {
        self.slots.clear();
        self.count = 0;
    }

    /// The value in slot `id`, if any.
    pub fn get(&self, id: usize) -> (r: Option<&T>)
        ensures
            r is Some == (id < self@.len() && self@[id as int] is Some),
            r is Some ==> *r.unwrap() == self@[id as int].unwrap(),
    {
        if id < self.slots.len() {
            self.slots[id].as_ref()
        } else {
            None
        }
    }

    /// Whether slot `id` holds a value.
    pub fn contains(&self, id: usize) -> (r: bool)
        ensures
            r == (id < self@.len() && self@[id as int] is Some),
    {
        id < self.slots.len() && self.slots[id].is_some()
    }

    /// Takes the value out of slot `id`, leaving it empty.
    pub fn take(&mut self, id: usize) -> (r: Option<T>)
        requires
            old(self).wf(),
        ensures
            final(self).wf(),
            final(self)@ == deleted(old(self)@, id as int),
            r == (if id < old(self)@.len() { old(self)@[id as int] } else { None }),
    {
        if id < self.slots.len() {
            let ghost s = self.slots@;
            let mut out: Option<T> = None;
            self.slots.set_and_swap(id, &mut out);
            proof {
                lemma_occupied_update(s, id as int, None);
                assert(self.slots@ =~= s.update(id as int, None));
            }
            if out.is_some() {
                self.count = self.count - 1;
            }
            out
        } else {
            None
        }
    }

    /// Puts `v` back into slot `id`, which must be empty.
    pub fn put(&mut self, id: usize, v: T)
        requires
            old(self).wf(),
            id < old(self)@.len(),
            old(self)@[id as int] is None,
        ensures
            final(self).wf(),
            final(self)@ == old(self)@.update(id as int, Some(v)),
    {
        let n = self.slots.len();
        proof {
            lemma_occupied_update(self.slots@, id as int, Some(v));
            lemma_occupied_le_len(self.slots@.update(id as int, Some(v)));
        }
        self.slots.set(id, Some(v));
        self.count = self.count + 1;
    }

    /// The ids of the occupied slots, in ascending order.
    pub fn ids(&self) -> (r: Vec<usize>)
        ensures
            forall|k: int| 0 <= k < r@.len() ==> r@[k] < self@.len() && self@[r@[k] as int] is Some,
            forall|id: int| 0 <= id < self@.len() && self@[id] is Some ==> r@.contains(id as usize),
            forall|a: int, b: int| 0 <= a < b < r@.len() ==> r@[a] < r@[b],
    {
        let mut r: Vec<usize> = Vec::new();
        let mut i: usize = 0;
        while i < self.slots.len()
            invariant
                0 <= i <= self@.len(),
                forall|k: int| 0 <= k < r@.len() ==> r@[k] < i && self@[r@[k] as int] is Some,
                forall|id: int| 0 <= id < i && self@[id] is Some ==> r@.contains(id as usize),
                forall|a: int, b: int| 0 <= a < b < r@.len() ==> r@[a] < r@[b],
            decreases self@.len() - i,
        {
            if self.slots[i].is_some() {
                let ghost before = r@;
                r.push(i);
                proof {
                    assert(r@[r@.len() - 1] == i);
                    assert forall|id: int| 0 <= id <= i && self@[id] is Some implies r@.contains(
                        id as usize,
                    ) by {
                        if id < i {
                            let k = choose|k: int| 0 <= k < before.len() && before[k] == id as usize;
                            assert(r@[k] == id as usize);
                        }
                    }
                }
            }
            i = i + 1;
        }
        r
    }
}

} // verus!
