use vstd::prelude::*;

use std::collections::VecDeque;

verus! {

/// A history of capacity `capacity` after `item` arrives: nothing is kept
/// when the capacity is zero, and the oldest entry leaves when it is full.
pub open spec fn bounded_push<T>(history: Seq<T>, item: T, capacity: nat) -> Seq<T> {
    if capacity == 0 {
        history
    } else if history.len() >= capacity {
        history.drop_first().push(item)
    } else {
        history.push(item)
    }
}

/// A bounded history after `items` arrive in order.
pub open spec fn bounded_extend<T>(history: Seq<T>, items: Seq<T>, capacity: nat) -> Seq<T>
    decreases items.len(),
{
    if items.len() == 0 {
        history
    } else {
        bounded_push(bounded_extend(history, items.drop_last(), capacity), items.last(), capacity)
    }
}

/// A bounded history never holds more than its capacity, and a nonzero
/// capacity always keeps the newest item as the last entry.
pub proof fn lemma_bounded_push<T>(history: Seq<T>, item: T, capacity: nat)
    requires
        history.len() <= capacity,
    ensures
        bounded_push(history, item, capacity).len() <= capacity,
        capacity > 0 ==> bounded_push(history, item, capacity).last() == item,
        capacity > 0 && history.len() == capacity ==> bounded_push(history, item, capacity).len()
            == capacity,
        capacity > 0 && history.len() < capacity ==> bounded_push(history, item, capacity).len()
            == history.len() + 1,
{
}

/// Appends `item` to `queue`, dropping the oldest entry when the queue
/// already holds `capacity` entries; a zero capacity keeps nothing.
pub fn push_bounded<T>(queue: &mut VecDeque<T>, item: T, capacity: usize)
    ensures
        final(queue)@ == bounded_push(old(queue)@, item, capacity as nat),
        old(queue)@.len() <= capacity ==> final(queue)@.len() <= capacity,
{
    if capacity == 0 {
        return;
    }
    if queue.len() >= capacity {
        queue.pop_front();
    }
    queue.push_back(item);
    assert(queue@ =~= bounded_push(old(queue)@, item, capacity as nat));
}

} // verus!
