use bare_metal_containers::{BareMetalQueue, BareMetalStack, ContainerError};

#[test]
fn length_counts_insertions_minus_removals() {
    let mut q = BareMetalQueue::<u32, 3>::new();
    let mut s = BareMetalStack::<u32, 3>::new();
    // true inserts, false removes; never more than 3 held, never fewer than 0
    let ops = [true, true, false, true, true, false, false, true, false, false];
    let mut expected: usize = 0;
    for (k, insert) in ops.iter().enumerate() {
        if *insert {
            q.enqueue(k as u32).unwrap();
            s.push(k as u32).unwrap();
            expected += 1;
        } else {
            q.dequeue().unwrap();
            s.pop().unwrap();
            expected -= 1;
        }
        assert_eq!(q.len(), expected);
        assert_eq!(s.len(), expected);
        assert!(q.len() <= 3);
    }
    assert!(q.is_empty());
    assert!(s.is_empty());
}

#[test]
fn queue_returns_in_insertion_order() {
    let mut q = BareMetalQueue::<u64, 8>::new();
    for i in 0..8u64 {
        q.enqueue(i).unwrap();
    }
    for i in 0..8u64 {
        assert_eq!(q.dequeue(), Ok(i));
    }
    assert!(q.is_empty());
}

#[test]
fn stack_returns_in_reverse_order() {
    let mut s = BareMetalStack::<u64, 8>::new();
    for i in 0..8u64 {
        s.push(i).unwrap();
    }
    for i in (0..8u64).rev() {
        assert_eq!(s.pop(), Ok(i));
    }
    assert!(s.is_empty());
}

#[test]
fn queue_wraps_around_its_array() {
    let mut q = BareMetalQueue::<u8, 4>::new();
    for x in 11..15u8 {
        q.enqueue(x).unwrap();
    }
    assert_eq!(q.len(), 4);
    for x in 11..15u8 {
        assert_eq!(q.dequeue(), Ok(x));
    }
    assert_eq!(q.len(), 0);
    q.enqueue(12).unwrap();
    q.enqueue(1).unwrap();
    assert_eq!(q.len(), 2);
    assert_eq!(q.dequeue(), Ok(12));
    assert_eq!(q.len(), 1);
    for x in 2..5u8 {
        q.enqueue(x).unwrap();
    }
    assert_eq!(q.len(), 4);
    for x in 1..5u8 {
        assert_eq!(q.dequeue(), Ok(x));
    }
    assert!(q.is_empty());
}

#[test]
fn queue_index_after_wrap() {
    let mut q = BareMetalQueue::<i32, 3>::new();
    q.enqueue(-1).unwrap();
    q.enqueue(-2).unwrap();
    q.dequeue().unwrap();
    q.enqueue(-3).unwrap();
    q.enqueue(-4).unwrap();
    assert_eq!(q.index(0), -2);
    assert_eq!(q.index(1), -3);
    assert_eq!(q.index(2), -4);
    assert_eq!(q.peek(), Ok(-2));
}

#[test]
fn stack_index_zero_is_last_push() {
    let mut s = BareMetalStack::<char, 4>::new();
    for c in ['a', 'b', 'c'] {
        s.push(c).unwrap();
        assert_eq!(s.index(0), c);
    }
    assert_eq!(s.index(1), 'b');
    assert_eq!(s.index(2), 'a');
}

#[test]
fn iteration_matches_indexing() {
    let mut q = BareMetalQueue::<u16, 5>::new();
    for x in 0..5u16 {
        q.enqueue(x * 10).unwrap();
    }
    q.dequeue().unwrap();
    q.dequeue().unwrap();
    q.enqueue(70).unwrap();
    let seen = q.iter();
    assert_eq!(seen, vec![20, 30, 40, 70]);
    for i in 0..q.len() {
        assert_eq!(seen[i], q.index(i));
    }

    let mut s = BareMetalStack::<u16, 5>::new();
    for x in 1..4u16 {
        s.push(x).unwrap();
    }
    let seen = s.iter();
    assert_eq!(seen, vec![3, 2, 1]);
    for i in 0..s.len() {
        assert_eq!(seen[i], s.index(i));
    }
}

#[test]
fn empty_containers_iterate_to_nothing() {
    let q = BareMetalQueue::<u8, 2>::new();
    let s = BareMetalStack::<u8, 2>::new();
    assert!(q.iter().is_empty());
    assert!(s.iter().is_empty());
}

#[test]
fn full_queue_refuses_enqueue() {
    let mut q = BareMetalQueue::<u8, 2>::new();
    q.enqueue(1).unwrap();
    q.enqueue(2).unwrap();
    assert_eq!(q.enqueue(3), Err(ContainerError::CapacityExceeded));
    assert_eq!(q.len(), 2);
    assert_eq!(q.dequeue(), Ok(1));
    assert_eq!(q.dequeue(), Ok(2));
}

#[test]
fn empty_queue_refuses_dequeue_and_peek() {
    let mut q = BareMetalQueue::<u8, 2>::new();
    assert_eq!(q.dequeue(), Err(ContainerError::Underflow));
    assert_eq!(q.peek(), Err(ContainerError::Underflow));
    assert_eq!(q.len(), 0);
}

#[test]
fn full_stack_refuses_push() {
    let mut s = BareMetalStack::<u8, 2>::new();
    s.push(1).unwrap();
    s.push(2).unwrap();
    assert_eq!(s.push(3), Err(ContainerError::CapacityExceeded));
    assert_eq!(s.len(), 2);
    assert_eq!(s.top(), Ok(2));
}

#[test]
fn empty_stack_refuses_pop_and_top() {
    let mut s = BareMetalStack::<u8, 2>::new();
    assert_eq!(s.pop(), Err(ContainerError::Underflow));
    assert_eq!(s.top(), Err(ContainerError::Underflow));
    assert_eq!(s.len(), 0);
}

#[test]
fn zero_capacity_refuses_everything() {
    let mut q = BareMetalQueue::<u8, 0>::new();
    assert_eq!(q.enqueue(1), Err(ContainerError::CapacityExceeded));
    assert_eq!(q.dequeue(), Err(ContainerError::Underflow));
    let mut s = BareMetalStack::<u8, 0>::new();
    assert_eq!(s.push(1), Err(ContainerError::CapacityExceeded));
    assert_eq!(s.pop(), Err(ContainerError::Underflow));
}

#[test]
fn bulk_construction_at_capacity() {
    let items: Vec<u32> = vec![5, 6, 7, 8];
    let q = BareMetalQueue::<u32, 4>::from_iter(&items).unwrap();
    assert_eq!(q.len(), 4);
    assert_eq!(q.iter(), vec![5, 6, 7, 8]);
    let s = BareMetalStack::<u32, 4>::from_iter(&items).unwrap();
    assert_eq!(s.len(), 4);
    assert_eq!(s.top(), Ok(8));
    assert_eq!(s.iter(), vec![8, 7, 6, 5]);
}

#[test]
fn bulk_construction_over_capacity() {
    let items: Vec<u32> = vec![5, 6, 7, 8, 9];
    assert_eq!(
        BareMetalQueue::<u32, 4>::from_iter(&items).err(),
        Some(ContainerError::CapacityExceeded)
    );
    assert_eq!(
        BareMetalStack::<u32, 4>::from_iter(&items).err(),
        Some(ContainerError::CapacityExceeded)
    );
}

#[test]
fn default_is_empty() {
    let q: BareMetalQueue<u8, 3> = Default::default();
    let s: BareMetalStack<u8, 3> = Default::default();
    assert!(q.is_empty());
    assert!(s.is_empty());
}

#[test]
fn copies_are_independent() {
    let mut q = BareMetalQueue::<u8, 3>::new();
    q.enqueue(1).unwrap();
    let mut r = q;
    r.enqueue(2).unwrap();
    assert_eq!(q.len(), 1);
    assert_eq!(r.len(), 2);
}
