use vstd::prelude::*;

use vstd::arithmetic::div_mod::{lemma_mod_add_multiples_vanish, lemma_small_mod};

use crate::error::ContainerError;
use crate::laws::{accepts, step};

verus! {

/// A first-in first-out queue of at most `N` elements, stored in a ring
/// buffer: the live elements occupy the slots `(start + i) % N` for
/// `i < size`, oldest first.
#[derive(Clone, Copy, Debug)]
pub struct BareMetalQueue<T, const N: usize> {
    array: [T; N],
    start: usize,
    size: usize,
}

impl<T, const N: usize> View for BareMetalQueue<T, N> {
    type V = Seq<T>;

    /// The live elements, oldest first.
    closed spec fn view(&self) -> Seq<T> {
        Seq::new(self.size as nat, |i: int| self.array@[(self.start + i) % (N as int)])
    }
}

/// Below `2 * n`, reducing modulo `n` subtracts `n` at most once.
proof fn lemma_wrap(x: int, n: int)
    requires
        0 < n,
        0 <= x < 2 * n,
    ensures
        x % n == if x < n { x } else { x - n },
{
    if x < n {
        lemma_small_mod(x as nat, n as nat);
    } else {
        lemma_small_mod((x - n) as nat, n as nat);
        lemma_mod_add_multiples_vanish(x - n, n);
    }
}

impl<T: Default + Copy, const N: usize> BareMetalQueue<T, N> {
    /// The cursors stay within the array.
    pub closed spec fn wf(&self) -> bool {
        &&& self.size <= N
        &&& if N == 0 { self.start == 0 } else { self.start < N }
    }

    /// An empty queue whose slots all hold `T::default()`.
    pub fn new() -> (r: Self)
        ensures
            r.wf(),
            r@ == Seq::<T>::empty(),
    {
        let r = BareMetalQueue { array: [T::default(); N], start: 0, size: 0 };
        assert(r@ =~= Seq::<T>::empty());
        r
    }

    /// The number of elements held.
    pub fn len(&self) -> (r: usize)
        requires
            self.wf(),
        ensures
            r == self@.len(),
            r <= N,
    {
        self.size
    }

    /// Whether the queue holds no element.
    pub fn is_empty(&self) -> (r: bool)
        requires
            self.wf(),
        ensures
            r == (self@.len() == 0),
    {
        self.size == 0
    }

    /// The slot that holds the element `i` places after the oldest one.
    fn slot(&self, i: usize) -> (r: usize)
        requires
            self.wf(),
            i <= N,
            N > 0,
        ensures
            r < N,
            r == (self.start + i) % (N as int),
    {
        proof {
            lemma_wrap(self.start + i, N as int);
        }
        if self.start < N - i {
            self.start + i
        } else {
            self.start - (N - i)
        }
    }

    /// Appends `value` after the newest element. Refused with
    /// `CapacityExceeded` when all `N` slots are taken.
    pub fn enqueue(&mut self, value: T) -> (r: Result<(), ContainerError>)
        requires
            old(self).wf(),
        ensures
            final(self).wf(),
            r is Ok == accepts(old(self)@, Some(value), N as nat),
            final(self)@ == step(old(self)@, Some(value), N as nat, false),
            old(self)@.len() < N ==> r is Ok && final(self)@ == old(self)@.push(value),
            old(self)@.len() == N ==> r == Err::<(), ContainerError>(ContainerError::CapacityExceeded)
                && *final(self) == *old(self),
    {
        if self.size == N {
            return Err(ContainerError::CapacityExceeded);
        }
        let index = self.slot(self.size);
        self.array[index] = value;
        self.size = self.size + 1;
        assert forall|j: int| 0 <= j < old(self)@.len() implies self@[j] == old(self)@[j] by {
            lemma_wrap(self.start + j, N as int);
            lemma_wrap(self.start + old(self).size, N as int);
        }
        assert(self@ =~= old(self)@.push(value));
        Ok(())
    }

    /// The oldest element, left in place. Refused with `Underflow` when the
    /// queue is empty.
    pub fn peek(&self) -> (r: Result<T, ContainerError>)
        requires
            self.wf(),
        ensures
            self@.len() > 0 ==> r == Ok::<T, ContainerError>(self@[0]),
            self@.len() == 0 ==> r == Err::<T, ContainerError>(ContainerError::Underflow),
    {
        if self.size == 0 {
            return Err(ContainerError::Underflow);
        }
        proof {
            lemma_wrap(self.start as int, N as int);
        }
        Ok(self.array[self.start])
    }

    /// Removes and returns the oldest element. Refused with `Underflow` when
    /// the queue is empty.
    pub fn dequeue(&mut self) -> (r: Result<T, ContainerError>)
        requires
            old(self).wf(),
        ensures
            final(self).wf(),
            r is Ok == accepts(old(self)@, None, N as nat),
            final(self)@ == step(old(self)@, None, N as nat, false),
            old(self)@.len() > 0 ==> r == Ok::<T, ContainerError>(old(self)@[0])
                && final(self)@ == old(self)@.drop_first(),
            old(self)@.len() == 0 ==> r == Err::<T, ContainerError>(ContainerError::Underflow)
                && *final(self) == *old(self),
    {
        let result = self.peek();
        if result.is_ok() {
            self.start = self.slot(1);
            self.size = self.size - 1;
            assert forall|j: int| 0 <= j < self@.len() implies self@[j] == old(self)@[j + 1] by {
                lemma_wrap(self.start + j, N as int);
                lemma_wrap(old(self).start + j + 1, N as int);
                lemma_wrap(old(self).start + 1, N as int);
            }
            assert(self@ =~= old(self)@.drop_first());
        }
        result
    }

    /// The element `i` places after the oldest one.
    pub fn index(&self, i: usize) -> (r: T)
        requires
            self.wf(),
            i < self@.len(),
        ensures
            r == self@[i as int],
    {
        self.array[self.slot(i)]
    }

    /// The live elements, oldest first.
    pub fn iter(&self) -> (r: Vec<T>)
        requires
            self.wf(),
        ensures
            r@ == self@,
            r@.len() == self@.len(),
            forall|i: int| 0 <= i < r@.len() ==> r@[i] == self@[i],
    {
        let mut r: Vec<T> = Vec::new();
        let mut i: usize = 0;
        while i < self.size
            invariant
                self.wf(),
                i <= self@.len(),
                r@ == self@.subrange(0, i as int),
            decreases self@.len() - i,
        {
            r.push(self.index(i));
            i = i + 1;
            assert(r@ =~= self@.subrange(0, i as int));
        }
        assert(r@ =~= self@);
        r
    }

    /// A queue holding `items`, the first of them oldest. Refused with
    /// `CapacityExceeded` when there are more than `N` of them.
    pub fn from_iter(items: &[T]) -> (r: Result<Self, ContainerError>)
        ensures
            items@.len() <= N ==> r is Ok && r->Ok_0.wf() && r->Ok_0@ == items@,
            items@.len() > N ==> r == Err::<Self, ContainerError>(ContainerError::CapacityExceeded),
    {
        let mut result = Self::new();
        let mut i: usize = 0;
        while i < items.len()
            invariant
                result.wf(),
                i <= items@.len(),
                result@ == items@.subrange(0, i as int),
            decreases items@.len() - i,
        {
            if result.enqueue(items[i]).is_err() {
                return Err(ContainerError::CapacityExceeded);
            }
            i = i + 1;
            assert(result@ =~= items@.subrange(0, i as int));
        }
        assert(result@ =~= items@);
        Ok(result)
    }
}

impl<T: Default + Copy, const N: usize> Default for BareMetalQueue<T, N> {
    /// An empty queue, as `new` makes it.
    fn default() -> (r: Self)
        ensures
            r.wf(),
            r@ == Seq::<T>::empty(),
    {
        Self::new()
    }
}

} // verus!
