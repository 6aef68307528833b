use libafl::{Error, QueueScheduler};

#[test]
fn test_queuecorpus() {
    // A corpus holding one testcase: the scheduler picks it.
    let mut scheduler = QueueScheduler::new();
    let mut current = None;
    let next_id = scheduler.next(1, &mut current).unwrap();
    assert_eq!(next_id, 0);
    assert_eq!(current, Some(0));
}

#[test]
fn queue_empty_corpus_is_an_error() {
    let mut scheduler = QueueScheduler::new();
    let mut current = None;
    assert_eq!(scheduler.next(0, &mut current), Err(Error::Empty));
    assert_eq!(current, None);
    assert_eq!(scheduler.queue_cycles(), 0);
}

#[test]
fn queue_walks_in_order_and_wraps() {
    let mut scheduler = QueueScheduler::default();
    let mut current = None;
    assert_eq!(scheduler.next(3, &mut current), Ok(0));
    assert_eq!(scheduler.next(3, &mut current), Ok(1));
    assert_eq!(scheduler.queue_cycles(), 0);
    assert_eq!(scheduler.next(3, &mut current), Ok(2));
    assert_eq!(scheduler.queue_cycles(), 1);
    assert_eq!(scheduler.next(3, &mut current), Ok(0));
    assert_eq!(scheduler.queue_cycles(), 2);
    assert_eq!(current, Some(0));
}

#[test]
fn queue_on_add_records_parent() {
    let mut scheduler = QueueScheduler::new();
    let mut parents: Vec<Option<usize>> = vec![None, None, None];
    assert_eq!(scheduler.on_add(&mut parents, Some(0), 2), Ok(()));
    assert_eq!(parents, vec![None, None, Some(0)]);
    assert_eq!(scheduler.on_add(&mut parents, Some(1), 3), Err(Error::KeyNotFound));
    assert_eq!(parents, vec![None, None, Some(0)]);
}
