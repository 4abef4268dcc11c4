//! Lists whose items keep a number of their own, so that a row can be removed by it.
use vstd::prelude::*;

verus! {

/// The items, each with its number, and the number of the next one.
#[derive(Debug)]
pub struct Tagged<T> {
    pub items: Vec<(u32, T)>,
    pub next_id: u32,
}

/// The items but those with the number `id`.
pub open spec fn without<T>(items: Seq<(u32, T)>, id: u32) -> Seq<(u32, T)>
    decreases items.len(),
{
    if items.len() == 0 {
        Seq::empty()
    } else if items.last().0 == id {
        without(items.drop_last(), id)
    } else {
        without(items.drop_last(), id).push(items.last())
    }
}

/// The numbers go up from item to item, and are all below `next_id`.
pub open spec fn numbered<T>(items: Seq<(u32, T)>, next_id: int) -> bool {
    &&& forall|i: int| 0 <= i < items.len() ==> (#[trigger] items[i]).0 < next_id
    &&& forall|i: int, j: int|
        0 <= i < j < items.len() ==> (#[trigger] items[i]).0 < (#[trigger] items[j]).0
}

impl<T> Tagged<T> {
    /// Each item has a number of its own, and no number comes again.
    pub open spec fn wf(self) -> bool {
        numbered(self.items@, self.next_id as int)
    }

    /// The items without their numbers.
    pub open spec fn values(self) -> Seq<T> {
        Seq::new(self.items@.len(), |i: int| self.items@[i].1)
    }

    /// An empty list.
    pub fn new() -> (res: Tagged<T>)
        ensures
            res.wf(),
            res.items@.len() == 0,
            res.next_id == 0,
    {
        Tagged { items: Vec::new(), next_id: 0 }
    }

    /// Puts an item at the end, and gives its number.
    pub fn push(&mut self, value: T) -> (res: u32)
        requires
            old(self).wf(),
            old(self).next_id < u32::MAX,
        ensures
            final(self).wf(),
            res == old(self).next_id,
            final(self).next_id == old(self).next_id + 1,
            final(self).items@ == old(self).items@.push((res, value)),
    {
        let id: u32 = self.next_id;
        self.next_id = id + 1;
        self.items.push((id, value));
        id
    }

    /// Takes out the item with the number `id`.
    pub fn remove(&mut self, id: u32)
        requires
            old(self).wf(),
        ensures
            final(self).wf(),
            final(self).next_id == old(self).next_id,
            final(self).items@ == without(old(self).items@, id),
    {
        let ghost all = self.items@;
        let ghost mut seen: int = 0;
        let mut i: usize = 0;
        proof {
            assert(all.take(0) =~= Seq::<(u32, T)>::empty());
            assert(self.items@.take(0) =~= Seq::<(u32, T)>::empty());
            assert(self.items@.skip(0) =~= all.skip(0));
        }
        while i < self.items.len()
            invariant
                i <= self.items@.len(),
                0 <= seen <= all.len(),
                all == old(self).items@,
                self.next_id == old(self).next_id,
                self.items@.take(i as int) == without(all.take(seen), id),
                self.items@.skip(i as int) == all.skip(seen),
                seen - i == all.len() - self.items@.len(),
            decreases self.items@.len() - i,
        {
            let ghost before = self.items@;
            proof {
                assert(before.skip(i as int)[0] == before[i as int]);
                assert(all.skip(seen)[0] == all[seen]);
                assert(all.take(seen + 1).drop_last() =~= all.take(seen));
                assert(before.skip(i as int).skip(1) =~= before.skip(i + 1));
                assert(all.skip(seen).skip(1) =~= all.skip(seen + 1));
            }
            if self.items[i].0 == id {
                self.items.remove(i);
                proof {
                    assert(self.items@.take(i as int) =~= before.take(i as int));
                    assert(self.items@.skip(i as int) =~= before.skip(i + 1));
                }
            } else {
                proof {
                    assert(before.take(i + 1) =~= before.take(i as int).push(before[i as int]));
                }
                i = i + 1;
            }
            proof {
                seen = seen + 1;
            }
        }
        proof {
            assert(self.items@.take(i as int) =~= self.items@);
            assert(all.take(seen) =~= all);
            lemma_without_numbered(all, id, self.next_id as int);
        }
    }
}

/// Taking an item out keeps the rest numbered.
proof fn lemma_without_numbered<T>(items: Seq<(u32, T)>, id: u32, next_id: int)
    requires
        numbered(items, next_id),
    ensures
        numbered(without(items, id), next_id),
        forall|i: int|
            0 <= i < without(items, id).len() ==> items.contains(#[trigger] without(items, id)[i]),
    decreases items.len(),
{
    if items.len() > 0 {
        let front = items.drop_last();
        assert forall|i: int, j: int| 0 <= i < j < front.len() implies (#[trigger] front[i]).0 < (
        #[trigger] front[j]).0 by {
            assert(front[i] == items[i]);
            assert(front[j] == items[j]);
        }
        assert forall|i: int| 0 <= i < front.len() implies (#[trigger] front[i]).0 < next_id by {
            assert(front[i] == items[i]);
        }
        lemma_without_numbered(front, id, next_id);
        let done = without(front, id);
        let all = without(items, id);
        assert forall|i: int| 0 <= i < all.len() implies items.contains(#[trigger] all[i]) by {
            if i < done.len() {
                assert(front.contains(done[i]));
                let k = choose|k: int| 0 <= k < front.len() && front[k] == done[i];
                assert(items[k] == all[i]);
            } else {
                assert(items[items.len() - 1] == all[i]);
            }
        }
        assert forall|i: int, j: int| 0 <= i < j < all.len() implies (#[trigger] all[i]).0 < (
        #[trigger] all[j]).0 by {
            if j == done.len() {
                assert(front.contains(done[i]));
                let k = choose|k: int| 0 <= k < front.len() && front[k] == done[i];
                assert(items[k] == front[k]);
            } else {
                assert(all[i] == done[i]);
                assert(all[j] == done[j]);
            }
        }
    }
}

/// A number that no item has takes nothing out.
proof fn lemma_without_absent<T>(items: Seq<(u32, T)>, id: u32)
    requires
        forall|i: int| 0 <= i < items.len() ==> (#[trigger] items[i]).0 != id,
    ensures
        without(items, id) == items,
    decreases items.len(),
{
    if items.len() > 0 {
        let front = items.drop_last();
        assert forall|i: int| 0 <= i < front.len() implies (#[trigger] front[i]).0 != id by {
            assert(front[i] == items[i]);
        }
        lemma_without_absent(front, id);
        assert(items[items.len() - 1] == items.last());
        assert(items =~= front.push(items.last()));
    }
}

/// Removing the item that was put in last gives the list back as it was.
pub proof fn removing_undoes_adding<T>(items: Seq<(u32, T)>, next_id: u32, value: T)
    requires
        numbered(items, next_id as int),
    ensures
        without(items.push((next_id, value)), next_id) == items,
{
    let more = items.push((next_id, value));
    assert(more.drop_last() =~= items);
    lemma_without_absent(items, next_id);
}

/// Removing an item takes out that item alone.
pub proof fn removing_takes_one<T>(items: Seq<(u32, T)>, next_id: int, k: int)
    requires
        numbered(items, next_id),
        0 <= k < items.len(),
    ensures
        without(items, items[k].0) == items.remove(k),
    decreases items.len(),
{
    let id = items[k].0;
    let front = items.drop_last();
    assert forall|i: int| 0 <= i < front.len() implies (#[trigger] front[i]).0 < next_id by {
        assert(front[i] == items[i]);
    }
    assert forall|i: int, j: int| 0 <= i < j < front.len() implies (#[trigger] front[i]).0 < (
    #[trigger] front[j]).0 by {
        assert(front[i] == items[i]);
        assert(front[j] == items[j]);
    }
    if k == items.len() - 1 {
        assert forall|i: int| 0 <= i < front.len() implies (#[trigger] front[i]).0 != id by {
            assert(front[i] == items[i]);
        }
        lemma_without_absent(front, id);
        assert(items.remove(k) =~= front);
    } else {
        assert(items[k].0 < items[items.len() - 1].0);
        assert(front[k] == items[k]);
        removing_takes_one(front, next_id, k);
        assert(items.remove(k) =~= front.remove(k).push(items.last()));
    }
}

} // verus!
