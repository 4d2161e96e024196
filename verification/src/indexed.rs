//! Values kept in the order of their indices.
use crate::text;
use vstd::prelude::*;

verus! {

/// Where the value with this index stands, or would stand, from `from` on.
pub open spec fn slot_from<V>(items: Seq<(usize, V)>, index: usize, from: int) -> int
    decreases items.len() - from,
{
    if from < 0 || from >= items.len() || items[from].0 >= index {
        from
    } else {
        slot_from(items, index, from + 1)
    }
}

/// Whether the values are in the order of their indices, each index once.
pub open spec fn sorted<V>(items: Seq<(usize, V)>) -> bool {
    forall|i: int, j: int| 0 <= i < j < items.len() ==> (#[trigger] items[i]).0 < (#[trigger] items[j]).0
}

/// The values before the slot have smaller indices, and the one in it has not.
pub proof fn lemma_slot<V>(items: Seq<(usize, V)>, index: usize, from: int)
    requires
        0 <= from <= items.len(),
        forall|k: int| 0 <= k < from ==> (#[trigger] items[k]).0 < index,
    ensures
        from <= slot_from(items, index, from) <= items.len(),
        forall|k: int| 0 <= k < slot_from(items, index, from) ==> (#[trigger] items[k]).0 < index,
        slot_from(items, index, from) < items.len() ==> items[slot_from(items, index, from)].0
            >= index,
    decreases items.len() - from,
{
    if from < items.len() && items[from].0 < index {
        lemma_slot(items, index, from + 1);
    }
}

/// Where the value with this index stands, or would stand.
pub fn find_slot<T: DeepView>(items: &[(usize, T)], index: usize) -> (slot: usize)
    ensures
        slot == slot_from(items.deep_view(), index, 0),
        slot <= items@.len(),
{
    let mut i: usize = 0;
    while i < items.len()
        invariant
            i <= items.len(),
            slot_from(items.deep_view(), index, 0) == slot_from(items.deep_view(), index, i as int),
        decreases items.len() - i,
    {
        assert(items.deep_view()[i as int].0 == items@[i as int].0);
        if items[i].0 >= index {
            return i;
        }
        i += 1;
    }
    i
}

} // verus!
