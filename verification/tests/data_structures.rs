use vulkys::data_structures::linearqueue::LinearQueue;
use vulkys::data_structures::stack::Stack;

#[test]
fn check_queue_add() {
    let mut l: LinearQueue<usize> = LinearQueue::new();
    l.enqueue(2_usize);

    assert_eq!(l, LinearQueue::from(vec![2_usize]))
}

#[test]
fn data_structures_check_queue_add() {
    let mut l: LinearQueue<usize> = LinearQueue::new();
    l.enqueue(2 as usize);

    assert_eq!(l, LinearQueue::from(vec![2 as usize]))
}

#[test]
fn queue_dequeues_in_enqueue_order() {
    let mut q: LinearQueue<u32> = LinearQueue::new();
    q.enqueue(1);
    q.enqueue(2);
    q.enqueue(3);
    assert_eq!(q.len(), 3);
    assert_eq!(q.dequeue(), Some(1));
    q.enqueue(4);
    assert_eq!(q.dequeue(), Some(2));
    assert_eq!(q.dequeue(), Some(3));
    assert_eq!(q.dequeue(), Some(4));
    assert_eq!(q.dequeue(), None);
    assert!(q.is_empty());
}

#[test]
fn queue_peek_shows_front() {
    let mut q: LinearQueue<char> = LinearQueue::new();
    assert_eq!(q.peek(), None);
    q.enqueue('a');
    q.enqueue('b');
    assert_eq!(q.peek(), Some(&'a'));
    assert_eq!(q.len(), 2);
    let q = LinearQueue::from(vec![1, 2, 3]);
    assert_eq!(q.peek(), Some(&1));
    assert_eq!(q.len(), 3);
}

#[test]
fn queue_from_vec_keeps_order() {
    let mut q = LinearQueue::from(vec![7, 8, 9]);
    assert_eq!(q.next(), Some(7));
    assert_eq!(q.next(), Some(8));
    assert_eq!(q.next(), Some(9));
    assert_eq!(q.next(), None);
}

#[test]
fn queue_default_is_empty() {
    let q: LinearQueue<u8> = LinearQueue::default();
    assert!(q.is_empty());
    assert_eq!(q.len(), 0);
    assert_eq!(q, LinearQueue::from(Vec::new()));
}

#[test]
fn enqueue_into_empty_then_dequeue_returns_item() {
    let mut q: LinearQueue<&str> = LinearQueue::new();
    q.enqueue("x");
    assert_eq!(q.dequeue(), Some("x"));
    assert!(q.is_empty());
}

#[test]
fn stack_push_counts_items() {
    let mut s: Stack<u8> = Stack::new();
    s.push(1);
    s.push(2);
    let d: Stack<u8> = Stack::default();
    assert_eq!(format!("{:?}", s), "Stack { elements: [1, 2], pointer: 2 }");
    assert_eq!(format!("{:?}", d), "Stack { elements: [], pointer: 0 }");
}

#[test]
fn stack_pops_last_pushed_first() {
    let mut s: Stack<i32> = Stack::new();
    s.push(1);
    s.push(2);
    assert_eq!(s.pop(), 2);
    assert_eq!(s.pop(), 1);
    assert_eq!(format!("{:?}", s), "Stack { elements: [], pointer: 0 }");
}

#[test]
fn queue_collects_items_front_first() {
    let v = vec![4, 5, 6];
    assert_eq!(LinearQueue::from(v.clone()).collect_items(), v);
    let mut q: LinearQueue<i32> = LinearQueue::new();
    for x in v.clone() {
        q.enqueue(x);
    }
    assert_eq!(q, LinearQueue::from(v));
    assert_eq!(LinearQueue::<i32>::new().collect_items(), Vec::<i32>::new());
}
