//! Thin, fully specified wrappers over `Vec`: a LIFO stack and a FIFO queue.
//!
//! The shunting-yard converter keeps its pending operators on a [`Stack`] and
//! its output tokens on a [`Queue`]; both are modelled by the sequence of
//! elements they hold, oldest first.

use vstd::prelude::*;

verus! {

/// A last-in-first-out stack. The view is the underlying sequence, with the
/// top of the stack at the end.
pub struct Stack<T> {
    pub stack: Vec<T>,
}

impl<T> View for Stack<T> {
    type V = Seq<T>;

    open spec fn view(&self) -> Seq<T> {
        self.stack@
    }
}

impl<T> Stack<T> {
    /// Creates an empty stack.
    pub fn new() -> (r: Self)
        ensures
            r@ == Seq::<T>::empty(),
    {
        Stack { stack: Vec::new() }
    }

    /// Removes and returns the most recently pushed element, or `None` if the
    /// stack is empty.
    pub fn pop(&mut self) -> (r: Option<T>)
        ensures
            old(self)@.len() == 0 ==> r is None && final(self)@ == old(self)@,
            old(self)@.len() > 0 ==> r == Some(old(self)@.last()) && final(self)@
                == old(self)@.drop_last(),
    {
        self.stack.pop()
    }

    /// Pushes an element on top of the stack.
    pub fn push(&mut self, item: T)
        ensures
            final(self)@ == old(self)@.push(item),
    {
        self.stack.push(item)
    }

    /// True exactly when the stack holds no elements.
    pub fn is_empty(&self) -> (r: bool)
        ensures
            r <==> self@.len() == 0,
    {
        self.stack.is_empty()
    }

    /// Returns a reference to the top element without removing it.
    pub fn peek(&self) -> (r: Option<&T>)
        ensures
            self@.len() == 0 ==> r is None,
            self@.len() > 0 ==> r is Some && *r.unwrap() == self@.last(),
    {
        self.stack.last()
    }

    /// The number of elements on the stack.
    pub fn size(&self) -> (r: usize)
        ensures
            r == self@.len(),
    {
        self.stack.len()
    }
}

/// A first-in-first-out queue. The view is the underlying sequence, with the
/// front of the queue at index 0.
pub struct Queue<T> {
    pub queue: Vec<T>,
}

impl<T> View for Queue<T> {
    type V = Seq<T>;

    open spec fn view(&self) -> Seq<T> {
        self.queue@
    }
}

impl<T> Queue<T> {
    /// Creates an empty queue.
    pub fn new() -> (r: Self)
        ensures
            r@ == Seq::<T>::empty(),
    {
        Queue { queue: Vec::new() }
    }

    /// Appends an element at the back of the queue.
    pub fn enqueue(&mut self, item: T)
        ensures
            final(self)@ == old(self)@.push(item),
    {
        self.queue.push(item)
    }

    /// Removes and returns the element at the front of the queue.
    pub fn dequeue(&mut self) -> (r: T)
        requires
            old(self)@.len() > 0,
        ensures
            r == old(self)@.first(),
            final(self)@ == old(self)@.drop_first(),
    {
        self.queue.remove(0)
    }

    /// True exactly when the queue holds no elements.
    pub fn is_empty(&self) -> (r: bool)
        ensures
            r <==> self@.len() == 0,
    {
        self.queue.is_empty()
    }
}

} // verus!
