use vstd::prelude::*;

use crate::error::ContainerError;
use crate::laws::{accepts, step};

verus! {

/// A last-in first-out stack of at most `N` elements. The live elements
/// occupy the slots `0..top`, the most recently pushed one at `top - 1`.
#[derive(Clone, Copy, Debug)]
pub struct BareMetalStack<T, const N: usize> {
    array: [T; N],
    top: usize,
}

impl<T, const N: usize> View for BareMetalStack<T, N> {
    type V = Seq<T>;

    /// The live elements, most recently pushed first.
    closed spec fn view(&self) -> Seq<T> {
        Seq::new(self.top as nat, |i: int| self.array@[self.top - 1 - i])
    }
}

impl<T: Default + Copy, const N: usize> BareMetalStack<T, N> {
    /// The top cursor stays within the array.
    pub closed spec fn wf(&self) -> bool {
        self.top <= N
    }

    /// An empty stack whose slots all hold `T::default()`.
    pub fn new() -> (r: Self)
        ensures
            r.wf(),
            r@ == Seq::<T>::empty(),
    {
        let r = BareMetalStack { array: [T::default(); N], top: 0 };
        assert(r@ =~= Seq::<T>::empty());
        r
    }

    /// Whether the stack holds no element.
    pub fn is_empty(&self) -> (r: bool)
        requires
            self.wf(),
        ensures
            r == (self@.len() == 0),
    {
        self.top == 0
    }

    /// Puts `value` on top. Refused with `CapacityExceeded` when all `N`
    /// slots are taken.
    pub fn push(&mut self, value: T) -> (r: Result<(), ContainerError>)
        requires
            old(self).wf(),
        ensures
            final(self).wf(),
            r is Ok == accepts(old(self)@, Some(value), N as nat),
            final(self)@ == step(old(self)@, Some(value), N as nat, true),
            old(self)@.len() < N ==> r is Ok && final(self)@ == seq![value] + old(self)@,
            old(self)@.len() == N ==> r == Err::<(), ContainerError>(ContainerError::CapacityExceeded)
                && *final(self) == *old(self),
    {
        if self.top == N {
            return Err(ContainerError::CapacityExceeded);
        }
        self.array[self.top] = value;
        self.top = self.top + 1;
        assert(self@ =~= seq![value] + old(self)@);
        Ok(())
    }

    /// The most recently pushed element, left in place. Refused with
    /// `Underflow` when the stack is empty.
    pub fn top(&self) -> (r: Result<T, ContainerError>)
        requires
            self.wf(),
        ensures
            self@.len() > 0 ==> r == Ok::<T, ContainerError>(self@[0]),
            self@.len() == 0 ==> r == Err::<T, ContainerError>(ContainerError::Underflow),
    {
        if self.top == 0 {
            return Err(ContainerError::Underflow);
        }
        Ok(self.array[self.top - 1])
    }

    /// The number of elements held.
    pub fn len(&self) -> (r: usize)
        requires
            self.wf(),
        ensures
            r == self@.len(),
            r <= N,
    {
        self.top
    }

    /// Removes and returns the most recently pushed element. Refused with
    /// `Underflow` when the stack is empty.
    pub fn pop(&mut self) -> (r: Result<T, ContainerError>)
        requires
            old(self).wf(),
        ensures
            final(self).wf(),
            r is Ok == accepts(old(self)@, None, N as nat),
            final(self)@ == step(old(self)@, None, N as nat, true),
            old(self)@.len() > 0 ==> r == Ok::<T, ContainerError>(old(self)@[0])
                && final(self)@ == old(self)@.drop_first(),
            old(self)@.len() == 0 ==> r == Err::<T, ContainerError>(ContainerError::Underflow)
                && *final(self) == *old(self),
    {
        let result = self.top();
        if result.is_ok() {
            self.top = self.top - 1;
            assert(self@ =~= old(self)@.drop_first());
        }
        result
    }

    /// The element pushed `i` pushes before the top one; `index(0)` is the top.
    pub fn index(&self, i: usize) -> (r: T)
        requires
            self.wf(),
            i < self@.len(),
        ensures
            r == self@[i as int],
    {
        self.array[self.top - i - 1]
    }

    /// The live elements, most recently pushed first.
    pub fn iter(&self) -> (r: Vec<T>)
        requires
            self.wf(),
        ensures
            r@ == self@,
            r@.len() == self@.len(),
            forall|i: int| 0 <= i < r@.len() ==> r@[i] == self@[i],
    {
        let mut r: Vec<T> = Vec::new();
        let mut i: usize = 0;
        while i < self.top
            invariant
                self.wf(),
                i <= self@.len(),
                r@ == self@.subrange(0, i as int),
            decreases self@.len() - i,
        {
            r.push(self.index(i));
            i = i + 1;
            assert(r@ =~= self@.subrange(0, i as int));
        }
        assert(r@ =~= self@);
        r
    }

    /// A stack built by pushing `items` in order, so that the last of them is
    /// on top. Refused with `CapacityExceeded` when there are more than `N`
    /// of them.
    pub fn from_iter(items: &[T]) -> (r: Result<Self, ContainerError>)
        ensures
            items@.len() <= N ==> r is Ok && r->Ok_0.wf() && r->Ok_0@ == items@.reverse(),
            items@.len() > N ==> r == Err::<Self, ContainerError>(ContainerError::CapacityExceeded),
    {
        let mut result = Self::new();
        let mut i: usize = 0;
        while i < items.len()
            invariant
                result.wf(),
                i <= items@.len(),
                result@ == items@.subrange(0, i as int).reverse(),
            decreases items@.len() - i,
        {
            if result.push(items[i]).is_err() {
                return Err(ContainerError::CapacityExceeded);
            }
            i = i + 1;
            assert(result@ =~= items@.subrange(0, i as int).reverse());
        }
        assert(items@.subrange(0, i as int) =~= items@);
        Ok(result)
    }
}

impl<T: Default + Copy, const N: usize> Default for BareMetalStack<T, N> {
    /// An empty stack, as `new` makes it.
    fn default() -> (r: Self)
        ensures
            r.wf(),
            r@ == Seq::<T>::empty(),
    {
        Self::new()
    }
}

} // verus!
