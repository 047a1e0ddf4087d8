//! A singly linked list with a sequence view.

use vstd::prelude::*;

verus! {

pub struct LinkedListNode<T> {
    value: T,
    next: Option<Box<LinkedListNode<T>>>,
}

impl<T> LinkedListNode<T> {
    /// The values stored from this node onward, front first.
    pub closed spec fn values(self) -> Seq<T>
        decreases self,
    {
        match self.next {
            None => seq![self.value],
            Some(n) => seq![self.value] + n.values(),
        }
    }
}

pub struct LinkedList<T> {
    first: Option<Box<LinkedListNode<T>>>,
    count: usize,
}

impl<T> View for LinkedList<T> {
    type V = Seq<T>;

    /// The values stored in the list, front first.
    closed spec fn view(&self) -> Seq<T> {
        match self.first {
            None => Seq::empty(),
            Some(n) => n.values(),
        }
    }
}

impl<T> LinkedList<T> {
    /// The stored count always matches the number of values.
    pub closed spec fn wf(&self) -> bool {
        self.count == self.view().len()
    }

    pub fn new() -> (l: LinkedList<T>)
        ensures
            l.wf(),
            l@ == Seq::<T>::empty(),
    {
        LinkedList { first: None, count: 0 }
    }

    pub fn count(&self) -> (r: usize)
        requires
            self.wf(),
        ensures
            r == self@.len(),
    {
        self.count
    }

    /// Prepends a value.
    pub fn add_first(&mut self, value: T)
        requires
            old(self).wf(),
            old(self)@.len() < usize::MAX,
        ensures
            final(self).wf(),
            final(self)@ == seq![value] + old(self)@,
    {
        let mut first: Option<Box<LinkedListNode<T>>> = None;
        core::mem::swap(&mut first, &mut self.first);
        proof {
            match first {
                None => assert(seq![value] =~= seq![value] + old(self)@),
                Some(_) => {},
            }
        }
        self.first = Some(Box::new(LinkedListNode { value, next: first }));
        self.count = self.count + 1;
    }

    /// Removes and returns the front value, if any.
    pub fn pop_first(&mut self) -> (r: Option<T>)
        requires
            old(self).wf(),
        ensures
            final(self).wf(),
            old(self)@.len() == 0 ==> r is None && final(self)@ == old(self)@,
            old(self)@.len() > 0 ==> r == Some(old(self)@[0])
                && final(self)@ == old(self)@.drop_first(),
    {
        let mut first: Option<Box<LinkedListNode<T>>> = None;
        core::mem::swap(&mut first, &mut self.first);
        match first {
            None => None,
            Some(node) => {
                let node = *node;
                proof {
                    match node.next {
                        None => assert(old(self)@.drop_first() =~= Seq::<T>::empty()),
                        Some(ref n) => assert(old(self)@.drop_first() =~= n.values()),
                    }
                }
                self.first = node.next;
                self.count = self.count - 1;
                Some(node.value)
            },
        }
    }

    /// A borrowing cursor over the values, front first.
    pub fn iter(&self) -> (it: Iter<'_, T>)
        ensures
            it@ == self@,
    {
        match &self.first {
            Some(first) => Iter::new(Some(&**first)),
            None => Iter::new(None),
        }
    }

    /// A cursor handing out mutable borrows of the values, front first.
    /// What is written through those borrows is the caller's business:
    /// nothing is promised here beyond memory safety, so callers that
    /// need the list's invariants must re-establish them.
    pub fn iter_mut(&mut self) -> IterMut<'_, T> {
        match &mut self.first {
            Some(first) => IterMut::new(Some(&mut **first)),
            None => IterMut::new(None),
        }
    }

    /// A consuming cursor over the values, front first.
    pub fn into_iter(self) -> (it: IntoIter<T>)
        ensures
            it@ == self@,
    {
        match self.first {
            Some(first) => IntoIter::new(Some(*first)),
            None => IntoIter::new(None),
        }
    }
}

impl<T> Default for LinkedList<T> {
    fn default() -> (l: Self)
        ensures
            l.wf(),
            l@ == Seq::<T>::empty(),
    {
        LinkedList::new()
    }
}

pub struct Iter<'a, T> {
    next: Option<&'a LinkedListNode<T>>,
}

impl<'a, T> View for Iter<'a, T> {
    type V = Seq<T>;

    /// The values this cursor has not yet produced.
    closed spec fn view(&self) -> Seq<T> {
        match self.next {
            None => Seq::empty(),
            Some(node) => node.values(),
        }
    }
}

impl<'a, T> Iter<'a, T> {
    pub fn new(first_node: Option<&'a LinkedListNode<T>>) -> (it: Iter<'a, T>)
        ensures
            it@ == match first_node {
                None => Seq::<T>::empty(),
                Some(node) => node.values(),
            },
    {
        Iter { next: first_node }
    }

    /// Produces the next value, advancing the cursor.
    pub fn next(&mut self) -> (r: Option<&'a T>)
        ensures
            old(self)@.len() == 0 ==> r is None && final(self)@ == old(self)@,
            old(self)@.len() > 0 ==> (r matches Some(v) && *v == old(self)@[0])
                && final(self)@ == old(self)@.drop_first(),
    {
        let taken = self.next;
        match taken {
            None => None,
            Some(node) => {
                proof {
                    match node.next {
                        None => assert(old(self)@.drop_first() =~= Seq::<T>::empty()),
                        Some(ref n) => assert(old(self)@.drop_first() =~= n.values()),
                    }
                }
                self.next = match &node.next {
                    Some(next) => Some(&**next),
                    None => None,
                };
                Some(&node.value)
            },
        }
    }
}

pub struct IntoIter<T> {
    next: Option<LinkedListNode<T>>,
}

impl<T> View for IntoIter<T> {
    type V = Seq<T>;

    /// The values this cursor has not yet produced.
    closed spec fn view(&self) -> Seq<T> {
        match self.next {
            None => Seq::empty(),
            Some(node) => node.values(),
        }
    }
}

impl<T> IntoIter<T> {
    pub fn new(first_node: Option<LinkedListNode<T>>) -> (it: IntoIter<T>)
        ensures
            it@ == match first_node {
                None => Seq::<T>::empty(),
                Some(node) => node.values(),
            },
    {
        IntoIter { next: first_node }
    }

    /// Produces the next value, advancing the cursor.
    pub fn next(&mut self) -> (r: Option<T>)
        ensures
            old(self)@.len() == 0 ==> r is None && final(self)@ == old(self)@,
            old(self)@.len() > 0 ==> r == Some(old(self)@[0])
                && final(self)@ == old(self)@.drop_first(),
    {
        let mut taken: Option<LinkedListNode<T>> = None;
        core::mem::swap(&mut taken, &mut self.next);
        match taken {
            None => None,
            Some(node) => {
                proof {
                    match node.next {
                        None => assert(node.values().drop_first() =~= Seq::<T>::empty()),
                        Some(ref n) => assert(node.values().drop_first() =~= n.values()),
                    }
                }
                self.next = match node.next {
                    Some(next) => Some(*next),
                    None => None,
                };
                Some(node.value)
            },
        }
    }
}

pub struct IterMut<'a, T> {
    next: Option<&'a mut LinkedListNode<T>>,
}

impl<'a, T> IterMut<'a, T> {
    pub fn new(first_node: Option<&'a mut LinkedListNode<T>>) -> (it: IterMut<'a, T>) {
        IterMut { next: first_node }
    }

    pub fn next(&mut self) -> (r: Option<&'a mut T>) {
        let mut taken: Option<&'a mut LinkedListNode<T>> = None;
        core::mem::swap(&mut taken, &mut self.next);
        match taken {
            None => None,
            Some(node) => {
                self.next = match &mut node.next {
                    Some(next) => Some(&mut **next),
                    None => None,
                };
                Some(&mut node.value)
            },
        }
    }
}

} // verus!
