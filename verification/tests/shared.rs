use hen_local::shared::{ChunkQueue, DirtyValue};

#[test]
fn take_dirty_consumes_the_flag_without_changing_the_value() {
    let mut value = DirtyValue::new(String::from("before"));
    assert!(!value.take_dirty());

    value.set(String::from("after"));
    assert!(value.take_dirty());
    assert!(!value.take_dirty());
    assert_eq!(value.read(), "after");
}

#[test]
fn read_if_dirty_reports_a_change_once() {
    let mut value = DirtyValue::new(1_u32);
    assert_eq!(value.read_if_dirty(), None);
    value.set(2);
    assert_eq!(value.read_if_dirty(), Some(&2));
    assert_eq!(value.read_if_dirty(), None);
    assert_eq!(*value.read(), 2);
}

#[test]
fn queue_keeps_the_newest_chunks() {
    let mut queue = ChunkQueue::new(3);
    for chunk in 1..=5 {
        queue.push(chunk);
    }
    assert_eq!(queue.drain(), vec![3, 4, 5]);
    assert_eq!(queue.drain(), Vec::<i32>::new());
}

#[test]
fn clear_signal_is_taken_once() {
    let mut queue = ChunkQueue::new(2);
    queue.push(1);
    assert!(!queue.take_clear_signal());
    queue.signal_clear();
    assert!(queue.take_clear_signal());
    assert!(!queue.take_clear_signal());
    assert_eq!(queue.drain(), Vec::<i32>::new());
}
