use std::collections::VecDeque;
use vstd::prelude::*;

verus! {

/// A first-in first-out queue. Items leave from the front (`dequeue`) and
/// enter at the back (`enqueue`); `peek` shows the front item.
#[derive(Debug, Clone, PartialEq)]
pub struct LinearQueue<T> {
    elements: VecDeque<T>,
}

impl<T> View for LinearQueue<T> {
    type V = Seq<T>;

    /// The items from front (oldest) to back (newest).
    closed spec fn view(&self) -> Seq<T> {
        self.elements@
    }
}

impl<T> LinearQueue<T> {
    /// An empty queue.
    pub fn new() -> (q: Self)
        ensures
            q@ == Seq::<T>::empty(),
    {
        LinearQueue { elements: VecDeque::new() }
    }

    /// A queue holding the items of `elements`, the first of them at the front.
    pub fn from(elements: Vec<T>) -> (q: Self)
        ensures
            q@ == elements@,
    {
        let mut llist: VecDeque<T> = VecDeque::new();
        for item in it: elements
            invariant
                llist@ == it.seq().take(it.index() as int),
                it.seq() == elements@,
        {
            llist.push_back(item);
        }
        LinearQueue { elements: llist }
    }

    /// Puts `item` at the back of the queue.
    pub fn enqueue(&mut self, item: T)
        ensures
            final(self)@ == old(self)@.push(item),
    {
        self.elements.push_back(item);
    }

    /// Takes the front item out of the queue; `None` when the queue is empty.
    pub fn dequeue(&mut self) -> (r: Option<T>)
        ensures
            old(self)@.len() == 0 ==> r is None && final(self)@ == old(self)@,
            old(self)@.len() > 0 ==> r == Some(old(self)@[0]) && final(self)@ == old(self)@.drop_first(),
    {
        self.elements.pop_front()
    }

    /// The item at the front of the queue, the one the next `dequeue`
    /// returns; `None` when the queue is empty. The queue is left as it is.
    pub fn peek(&self) -> (r: Option<&T>)
        ensures
            self@.len() == 0 ==> r is None,
            self@.len() > 0 ==> r == Some(&self@[0]),
    {
        if self.elements.len() == 0 {
            None
        } else {
            Some(&self.elements[0])
        }
    }

    /// The number of items in the queue.
    pub fn len(&self) -> (n: usize)
        ensures
            n == self@.len(),
    {
        self.elements.len()
    }

    /// Takes the front item out of the queue, as `dequeue` does: walking a
    /// queue item by item empties it from the front.
    pub fn next(&mut self) -> (r: Option<T>)
        ensures
            old(self)@.len() == 0 ==> r is None && final(self)@ == old(self)@,
            old(self)@.len() > 0 ==> r == Some(old(self)@[0]) && final(self)@ == old(self)@.drop_first(),
    {
        self.dequeue()
    }

    /// Walks the queue item by item with `next` until it gives `None`, and
    /// returns the items in the order they came: the front item first.
    pub fn collect_items(self) -> (v: Vec<T>)
        ensures
            v@ == self@,
    {
        let ghost items = self@;
        let mut queue = self;
        let mut v: Vec<T> = Vec::new();
        loop
            invariant
                v@ + queue@ == items,
            ensures
                v@ == items,
            decreases queue@.len(),
        {
            let ghost before = queue@;
            match queue.next() {
                Some(x) => {
                    v.push(x);
                    proof {
                        assert(v@ + queue@ =~= items) by {
                            assert(before =~= seq![x] + queue@);
                        }
                    }
                },
                None => {
                    proof {
                        assert(v@ + queue@ =~= v@);
                    }
                    break;
                },
            }
        }
        v
    }

    /// Whether the queue holds no item.
    pub fn is_empty(&self) -> (b: bool)
        ensures
            b <==> self@.len() == 0,
    {
        self.elements.len() == 0
    }
}

impl<T> Default for LinearQueue<T> {
    /// An empty queue.
    fn default() -> (q: Self)
        ensures
            q@ == Seq::<T>::empty(),
    {
        Self::new()
    }
}

/// Items leave in the order they came: enqueuing behind a non-empty queue
/// changes neither the item that the next `dequeue` returns nor the order of
/// the rest, and the new item waits behind them.
pub proof fn lemma_enqueue_keeps_front<T>(items: Seq<T>, item: T)
    requires
        items.len() > 0,
    ensures
        items.push(item)[0] == items[0],
        items.push(item).drop_first() == items.drop_first().push(item),
{
    assert(items.push(item).drop_first() =~= items.drop_first().push(item));
}

/// What goes into an empty queue comes back out: one `enqueue` then one
/// `dequeue` returns the item and leaves the queue empty.
pub proof fn lemma_enqueue_then_dequeue_empty<T>(item: T)
    ensures
        Seq::<T>::empty().push(item)[0] == item,
        Seq::<T>::empty().push(item).drop_first() == Seq::<T>::empty(),
{
    assert(Seq::<T>::empty().push(item).drop_first() =~= Seq::<T>::empty());
}

/// `peek` shows what the next `dequeue` returns, and enqueuing behind a
/// non-empty queue does not change it; one `enqueue` adds one to the length.
pub proof fn lemma_enqueue_then_peek<T>(items: Seq<T>, item: T)
    ensures
        items.len() > 0 ==> items.push(item)[0] == items[0],
        items.len() == 0 ==> items.push(item)[0] == item,
        items.push(item).len() == items.len() + 1,
{
}

/// The queue that enqueuing each item of `items`, in order, behind the
/// items of `queue` leaves.
pub open spec fn enqueue_all<T>(queue: Seq<T>, items: Seq<T>) -> Seq<T>
    decreases items.len(),
{
    if items.len() == 0 {
        queue
    } else {
        enqueue_all(queue.push(items[0]), items.drop_first())
    }
}

/// Enqueuing items one by one puts them behind the queue in their order.
proof fn lemma_enqueue_all<T>(queue: Seq<T>, items: Seq<T>)
    ensures
        enqueue_all(queue, items) == queue + items,
    decreases items.len(),
{
    if items.len() == 0 {
        assert(queue + items =~= queue);
    } else {
        lemma_enqueue_all(queue.push(items[0]), items.drop_first());
        assert(queue.push(items[0]) + items.drop_first() =~= queue + items);
    }
}

/// `from(items)` holds what enqueuing the items one by one into a new queue
/// gives: the items front to back in their order.
pub proof fn lemma_from_is_repeated_enqueue<T>(items: Seq<T>)
    ensures
        enqueue_all(Seq::<T>::empty(), items) == items,
{
    lemma_enqueue_all(Seq::<T>::empty(), items);
    assert(Seq::<T>::empty() + items =~= items);
}

} // verus!
