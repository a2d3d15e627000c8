use xtra::inbox::heap::BinaryHeap;

#[test]
fn test_heap() {
    let mut heap = BinaryHeap::new();
    heap.push(3);
    heap.push(4);
    assert_eq!(heap.pop().unwrap(), 4);
    assert_eq!(heap.pop().unwrap(), 3);

    heap.push(0);
    heap.push(1);
    heap.push(1);
    heap.push(1);
    heap.push(2);

    assert_eq!(heap.pop().unwrap(), 2);
    assert_eq!(heap.pop().unwrap(), 1);
    assert_eq!(heap.pop().unwrap(), 1);
    assert_eq!(heap.pop().unwrap(), 1);
    assert_eq!(heap.pop().unwrap(), 0);

    heap.push(2);
    heap.push(4);
    heap.push(1);
    heap.push(1);
    heap.push(1);
    assert_eq!(heap.pop().unwrap(), 4);
    assert_eq!(heap.pop().unwrap(), 2);
    assert_eq!(heap.pop().unwrap(), 1);
    assert_eq!(heap.pop().unwrap(), 1);
    assert_eq!(heap.pop().unwrap(), 1);
}

#[test]
fn heap_peek_is_next_pop() {
    let mut heap = BinaryHeap::new();
    assert_eq!(heap.peek(), None);
    heap.push(7);
    heap.push(9);
    heap.push(8);
    assert_eq!(heap.peek(), Some(&9));
    assert_eq!(heap.pop(), Some(9));
}

#[test]
fn heap_pops_greatest_after_pop() {
    let mut heap = BinaryHeap::new();
    heap.push(1);
    heap.push(2);
    heap.push(3);
    assert_eq!(heap.pop(), Some(3));
    assert_eq!(heap.peek(), Some(&2));
    assert_eq!(heap.pop(), Some(2));
    assert_eq!(heap.pop(), Some(1));
    assert_eq!(heap.peek(), None);
}

#[test]
fn heap_pops_in_descending_order() {
    let mut heap = BinaryHeap::new();
    let items = [5u64, 1, 9, 3, 9, 0, 7, 2, 8, 8, 4, 6];
    for x in items {
        heap.push(x);
    }
    assert_eq!(heap.pop(), Some(9));
    heap.push(10);
    heap.push(0);
    let mut out = vec![];
    for _ in 0..items.len() + 1 {
        out.push(heap.pop().unwrap());
    }
    assert_eq!(out, vec![10, 9, 8, 8, 7, 6, 5, 4, 3, 2, 1, 0, 0]);
    assert_eq!(heap.peek(), None);
}

#[test]
fn heap_filled_by_pushes_pops_greatest() {
    let mut heap = BinaryHeap::new();
    for x in [5u64, 1, 9, 3, 9, 0, 7] {
        heap.push(x);
    }
    assert_eq!(heap.pop(), Some(9));
}

#[test]
fn heap_orders_any_ord_items() {
    let mut heap = BinaryHeap::new();
    for x in [(1u8, 'b'), (3, 'a'), (1, 'c'), (2, 'z')] {
        heap.push(x);
    }
    assert_eq!(heap.peek(), Some(&(3, 'a')));
    assert_eq!(heap.pop(), Some((3, 'a')));
    assert_eq!(heap.pop(), Some((2, 'z')));
    assert_eq!(heap.pop(), Some((1, 'c')));
    assert_eq!(heap.pop(), Some((1, 'b')));
    assert_eq!(heap.peek(), None);
}
