//! A model of a run of operations on either container, over its view (the
//! live elements in removal order), and the laws that hold of such runs.
//!
//! An operation is `Some(v)`, an insertion of `v` (`enqueue` or `push`), or
//! `None`, a removal (`dequeue` or `pop`). `step` is what their contracts
//! state: an accepted insertion appends `v` to a queue's view and prepends it
//! to a stack's, an accepted removal takes the first element of the view off,
//! and a refused operation leaves the view unchanged.
use vstd::prelude::*;

verus! {

/// The view after one operation on a container of capacity `cap`; `lifo`
/// tells a stack from a queue.
pub open spec fn step<T>(s: Seq<T>, op: Option<T>, cap: nat, lifo: bool) -> Seq<T> {
    match op {
        Some(v) => if s.len() < cap {
            if lifo {
                seq![v] + s
            } else {
                s.push(v)
            }
        } else {
            s
        },
        None => if s.len() > 0 {
            s.drop_first()
        } else {
            s
        },
    }
}

/// Whether the container accepts `op` when its view is `s`.
pub open spec fn accepts<T>(s: Seq<T>, op: Option<T>, cap: nat) -> bool {
    match op {
        Some(_) => s.len() < cap,
        None => s.len() > 0,
    }
}

/// The view after the operations `ops`, in order, starting from `s`.
pub open spec fn run<T>(s: Seq<T>, ops: Seq<Option<T>>, cap: nat, lifo: bool) -> Seq<T>
    decreases ops.len(),
{
    if ops.len() == 0 {
        s
    } else {
        run(step(s, ops[0], cap, lifo), ops.drop_first(), cap, lifo)
    }
}

/// The values that the accepted removals among `ops` return, in order.
pub open spec fn removed<T>(s: Seq<T>, ops: Seq<Option<T>>, cap: nat, lifo: bool) -> Seq<T>
    decreases ops.len(),
{
    if ops.len() == 0 {
        Seq::empty()
    } else {
        let out = if ops[0] is None && s.len() > 0 {
            seq![s[0]]
        } else {
            Seq::empty()
        };
        out + removed(step(s, ops[0], cap, lifo), ops.drop_first(), cap, lifo)
    }
}

/// Whether every operation of `ops` is accepted, starting from `s`.
pub open spec fn all_accepted<T>(s: Seq<T>, ops: Seq<Option<T>>, cap: nat, lifo: bool) -> bool
    decreases ops.len(),
{
    ops.len() == 0 || (accepts(s, ops[0], cap) && all_accepted(
        step(s, ops[0], cap, lifo),
        ops.drop_first(),
        cap,
        lifo,
    ))
}

/// The number of insertions in `ops` minus the number of removals.
pub open spec fn balance<T>(ops: Seq<Option<T>>) -> int
    decreases ops.len(),
{
    if ops.len() == 0 {
        0
    } else {
        (if ops[0] is Some {
            1int
        } else {
            -1int
        }) + balance(ops.drop_first())
    }
}

/// One insertion of each of `items`, in order.
pub open spec fn insertions<T>(items: Seq<T>) -> Seq<Option<T>> {
    Seq::new(items.len(), |i: int| Some(items[i]))
}

/// `k` removals.
pub open spec fn removals<T>(k: nat) -> Seq<Option<T>> {
    Seq::new(k, |i: int| None::<T>)
}

/// Occupancy: a container never holds more than its capacity, whatever is
/// asked of it; and after a run in which every operation is accepted it holds
/// as many elements as it held before, plus the insertions, minus the
/// removals.
pub proof fn lemma_occupancy<T>(s: Seq<T>, ops: Seq<Option<T>>, cap: nat, lifo: bool)
    requires
        s.len() <= cap,
    ensures
        run(s, ops, cap, lifo).len() <= cap,
        all_accepted(s, ops, cap, lifo) ==> run(s, ops, cap, lifo).len() == s.len() + balance(ops),
    decreases ops.len(),
{
    if ops.len() > 0 {
        lemma_occupancy(step(s, ops[0], cap, lifo), ops.drop_first(), cap, lifo);
    }
}

/// Running `a` and then `b` is running `a + b`: the view is the same, and
/// the removed values of `b` follow those of `a`.
proof fn lemma_run_concat<T>(s: Seq<T>, a: Seq<Option<T>>, b: Seq<Option<T>>, cap: nat, lifo: bool)
    ensures
        run(s, a + b, cap, lifo) == run(run(s, a, cap, lifo), b, cap, lifo),
        removed(s, a + b, cap, lifo) == removed(s, a, cap, lifo) + removed(
            run(s, a, cap, lifo),
            b,
            cap,
            lifo,
        ),
    decreases a.len(),
{
    if a.len() == 0 {
        assert(a + b =~= b);
        assert(removed(s, a, cap, lifo) + removed(s, b, cap, lifo) =~= removed(s, b, cap, lifo));
    } else {
        assert((a + b).drop_first() =~= a.drop_first() + b);
        lemma_run_concat(step(s, a[0], cap, lifo), a.drop_first(), b, cap, lifo);
        let out = if a[0] is None && s.len() > 0 {
            seq![s[0]]
        } else {
            Seq::<T>::empty()
        };
        let t = step(s, a[0], cap, lifo);
        assert(out + (removed(t, a.drop_first(), cap, lifo) + removed(
            run(t, a.drop_first(), cap, lifo),
            b,
            cap,
            lifo,
        )) =~= (out + removed(t, a.drop_first(), cap, lifo)) + removed(
            run(t, a.drop_first(), cap, lifo),
            b,
            cap,
            lifo,
        ));
    }
}

/// Inserting `items` where there is room for all of them adds them behind
/// the view of a queue, and in reverse in front of the view of a stack, and
/// removes nothing.
proof fn lemma_insert_all<T>(s: Seq<T>, items: Seq<T>, cap: nat, lifo: bool)
    requires
        s.len() + items.len() <= cap,
    ensures
        run(s, insertions(items), cap, lifo) == if lifo {
            items.reverse() + s
        } else {
            s + items
        },
        removed(s, insertions(items), cap, lifo) == Seq::<T>::empty(),
    decreases items.len(),
{
    let ops = insertions(items);
    if items.len() == 0 {
        assert(s + items =~= s);
        assert(items.reverse() + s =~= s);
    } else {
        let rest = items.drop_first();
        assert(ops.drop_first() =~= insertions(rest));
        let t = step(s, ops[0], cap, lifo);
        lemma_insert_all(t, rest, cap, lifo);
        if lifo {
            assert(rest.reverse() + (seq![items[0]] + s) =~= items.reverse() + s);
        } else {
            assert(s.push(items[0]) + rest =~= s + items);
        }
        assert(Seq::<T>::empty() + Seq::<T>::empty() =~= Seq::<T>::empty());
    }
}

/// Removing as many times as there are elements returns the whole view, in
/// order, and leaves the container empty.
proof fn lemma_remove_all<T>(s: Seq<T>, cap: nat, lifo: bool)
    ensures
        run(s, removals(s.len()), cap, lifo) == Seq::<T>::empty(),
        removed(s, removals(s.len()), cap, lifo) == s,
    decreases s.len(),
{
    let ops = removals::<T>(s.len());
    if s.len() == 0 {
        assert(s =~= Seq::<T>::empty());
    } else {
        assert(ops.drop_first() =~= removals::<T>(s.drop_first().len()));
        lemma_remove_all(s.drop_first(), cap, lifo);
        assert(seq![s[0]] + s.drop_first() =~= s);
    }
}

/// First in, first out: inserting `items` into an empty queue of capacity
/// `items.len()` and then removing as many times returns exactly `items`, in
/// order, and leaves the queue empty.
pub proof fn lemma_fifo_order<T>(items: Seq<T>)
    ensures
        removed(Seq::empty(), insertions(items) + removals(items.len()), items.len(), false)
            == items,
        run(Seq::empty(), insertions(items) + removals(items.len()), items.len(), false)
            == Seq::<T>::empty(),
{
    let e = Seq::<T>::empty();
    lemma_run_concat(e, insertions(items), removals(items.len()), items.len(), false);
    lemma_insert_all(e, items, items.len(), false);
    assert(e + items =~= items);
    lemma_remove_all(items, items.len(), false);
    assert(e + items =~= items);
}

/// Last in, first out: pushing `items` onto an empty stack of capacity
/// `items.len()` and then popping as many times returns `items` in reverse
/// order, and leaves the stack empty.
pub proof fn lemma_lifo_order<T>(items: Seq<T>)
    ensures
        removed(Seq::empty(), insertions(items) + removals(items.len()), items.len(), true)
            == items.reverse(),
        run(Seq::empty(), insertions(items) + removals(items.len()), items.len(), true)
            == Seq::<T>::empty(),
{
    let e = Seq::<T>::empty();
    let r = items.reverse();
    lemma_run_concat(e, insertions(items), removals(items.len()), items.len(), true);
    lemma_insert_all(e, items, items.len(), true);
    assert(r + e =~= r);
    assert(r.len() == items.len());
    lemma_remove_all(r, items.len(), true);
    assert(e + r =~= r);
}

/// The element that an accepted push puts on a stack is the one at its
/// logical index 0.
pub proof fn lemma_push_then_index_zero<T>(s: Seq<T>, v: T, cap: nat)
    requires
        s.len() < cap,
    ensures
        step(s, Some(v), cap, true)[0] == v,
{
}

} // verus!
