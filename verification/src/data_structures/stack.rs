use vstd::prelude::*;

verus! {

/// A stack of items with a pointer that counts the pushes.
#[derive(Debug)]
pub struct Stack<T> {
    elements: Vec<T>,
    pointer: usize,
}

impl<T> View for Stack<T> {
    type V = Seq<T>;

    /// The items, the one pushed first at index 0.
    closed spec fn view(&self) -> Seq<T> {
        self.elements@
    }
}

impl<T> Stack<T> {
    /// The pointer: the number of pushes so far.
    pub closed spec fn pointer(&self) -> nat {
        self.pointer as nat
    }

    /// The pointer counts the items: every push adds one item and one to
    /// the pointer, and nothing else changes either.
    pub closed spec fn wf(&self) -> bool {
        self.pointer == self.elements@.len()
    }

    /// An empty stack with its pointer at 0.
    pub fn new() -> (s: Self)
        ensures
            s@ == Seq::<T>::empty(),
            s.pointer() == 0,
            s.wf(),
    {
        Stack { elements: Vec::new(), pointer: 0 }
    }

    /// Puts `item` on top of the stack and moves the pointer up by one.
    pub fn push(&mut self, item: T)
        requires
            old(self).pointer() < usize::MAX,
        ensures
            final(self)@ == old(self)@.push(item),
            final(self).pointer() == old(self).pointer() + 1,
            old(self).wf() ==> final(self).wf(),
    {
        self.pointer += 1;
        self.elements.push(item);
    }

    /// Removes and returns the top item, the one pushed last, and moves the
    /// pointer down by one.
    pub fn pop(&mut self) -> (r: T)
        requires
            old(self).wf(),
            old(self)@.len() > 0,
        ensures
            r == old(self)@.last(),
            final(self)@ == old(self)@.drop_last(),
            final(self).pointer() == old(self).pointer() - 1,
            final(self).wf(),
    {
        self.pointer -= 1;
        let r = self.elements.remove(self.pointer);
        proof {
            assert(final(self)@ =~= old(self)@.drop_last());
        }
        r
    }
}

impl<T> Default for Stack<T> {
    /// An empty stack.
    fn default() -> (s: Self)
        ensures
            s@ == Seq::<T>::empty(),
            s.pointer() == 0,
            s.wf(),
    {
        Self::new()
    }
}

/// What is pushed last comes off first: pushing `item` and then popping
/// gives `item` back and leaves the items as they were.
pub proof fn lemma_push_then_pop<T>(items: Seq<T>, item: T)
    ensures
        items.push(item).last() == item,
        items.push(item).drop_last() == items,
{
    assert(items.push(item).drop_last() =~= items);
}

} // verus!
