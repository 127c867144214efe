use voyager_core::memory_queue::{MemoryQueue, Refused};

#[test]
fn items_come_out_in_the_order_they_went_in() {
    let mut queue: MemoryQueue<&str> = MemoryQueue::new();
    assert_eq!(queue.pop_ready(), None);
    assert_eq!(queue.push("a"), Ok(0));
    assert_eq!(queue.push("b"), Ok(1));
    assert_eq!(queue.ready_len(), 2);
    assert_eq!(queue.pop_ready(), Some((0, "a")));
    assert_eq!((queue.ready_len(), queue.in_flight_len()), (1, 1));
    assert_eq!(queue.commit(0, vec!["a1", "a2"]), Ok(()));
    assert_eq!((queue.ready_len(), queue.in_flight_len()), (3, 0));
    assert_eq!(queue.pop_ready(), Some((1, "b")));
    assert_eq!(queue.pop_ready(), Some((2, "a1")));
    assert_eq!(queue.pop_ready(), Some((3, "a2")));
    assert_eq!(queue.pop_ready(), None);
    assert_eq!(queue.commit(2, vec![]), Ok(()));
    assert_eq!(queue.in_flight_len(), 2);
    assert_eq!(queue.push("c"), Ok(4));
}

#[test]
fn a_commit_needs_an_item_in_flight() {
    let mut queue: MemoryQueue<&str> = MemoryQueue::new();
    queue.push("a").unwrap();
    assert_eq!(queue.commit(0, vec!["x"]), Err(Refused::NotInFlight));
    assert_eq!(queue.commit(5, vec![]), Err(Refused::NotInFlight));
    assert_eq!(queue.ready_len(), 1);
    assert_eq!(queue.pop_ready(), Some((0, "a")));
    assert_eq!(queue.commit(0, vec!["x"]), Ok(()));
    assert_eq!(queue.commit(0, vec!["y"]), Err(Refused::NotInFlight));
    assert_eq!(queue.pop_ready(), Some((1, "x")));
    assert_eq!(queue.pop_ready(), None);
}

#[test]
fn parked_items_wait_until_they_are_woken() {
    let mut queue: MemoryQueue<String> = MemoryQueue::new();
    for item in ["a", "b", "c", "d"] {
        queue.push(item.to_string()).unwrap();
    }
    for _ in 0..3 {
        let (ticket, item) = queue.pop_ready().unwrap();
        assert_eq!(queue.park(ticket, item + " parked"), Ok(()));
    }
    assert_eq!((queue.ready_len(), queue.in_flight_len(), queue.parked_len()), (1, 0, 3));
    assert_eq!(queue.park(3, "not popped".to_string()), Err("not popped".to_string()));
    assert_eq!(queue.park(9, "never".to_string()), Err("never".to_string()));

    queue.wake(&vec![2, 0, 7]);
    assert_eq!(queue.parked_len(), 1);
    assert_eq!(queue.pop_ready(), Some((3, "d".to_string())));
    assert_eq!(queue.pop_ready(), Some((0, "a parked".to_string())));
    assert_eq!(queue.pop_ready(), Some((2, "c parked".to_string())));
    assert_eq!(queue.pop_ready(), None);

    queue.wake(&vec![]);
    assert_eq!(queue.parked_len(), 1);
    queue.wake(&vec![1]);
    assert_eq!(queue.pop_ready(), Some((1, "b parked".to_string())));
}

#[test]
fn what_was_in_flight_is_ready_again_after_a_stop() {
    let mut queue: MemoryQueue<&str> = MemoryQueue::new();
    for item in ["effect", "fetch", "wait"] {
        queue.push(item).unwrap();
    }
    assert_eq!(queue.pop_ready(), Some((0, "effect")));
    assert_eq!(queue.pop_ready(), Some((1, "fetch")));
    // the process stops before either was committed
    queue.recover();
    assert_eq!((queue.ready_len(), queue.in_flight_len()), (3, 0));
    assert_eq!(queue.pop_ready(), Some((0, "effect")));
    assert_eq!(queue.commit(0, vec![]), Ok(()));
    assert_eq!(queue.pop_ready(), Some((1, "fetch")));
    assert_eq!(queue.pop_ready(), Some((2, "wait")));
    queue.recover();
    queue.recover();
    assert_eq!(queue.pop_ready(), Some((1, "fetch")));
    assert_eq!(queue.pop_ready(), Some((2, "wait")));
    assert_eq!(queue.pop_ready(), None);
}

#[test]
fn a_parked_item_is_woken_in_the_state_it_is_given() {
    let mut queue: MemoryQueue<String> = MemoryQueue::new();
    for item in ["a", "b", "c"] {
        queue.push(item.to_string()).unwrap();
    }
    for _ in 0..2 {
        let (ticket, item) = queue.pop_ready().unwrap();
        assert_eq!(queue.park(ticket, item), Ok(()));
    }
    assert_eq!(queue.wake_as(1, "b with data".to_string()), Ok(()));
    assert_eq!((queue.ready_len(), queue.in_flight_len(), queue.parked_len()), (2, 0, 1));
    // what is ready or unknown is not parked
    assert_eq!(queue.wake_as(1, "again".to_string()), Err("again".to_string()));
    assert_eq!(queue.wake_as(2, "ready".to_string()), Err("ready".to_string()));
    assert_eq!(queue.wake_as(9, "never".to_string()), Err("never".to_string()));
    assert_eq!(queue.pop_ready(), Some((2, "c".to_string())));
    assert_eq!(queue.pop_ready(), Some((1, "b with data".to_string())));
    assert_eq!(queue.pop_ready(), None);
    assert_eq!(queue.parked_len(), 1);
}

#[test]
fn a_parked_item_keeps_its_place_when_its_state_changes() {
    let mut queue: MemoryQueue<String> = MemoryQueue::new();
    for item in ["a", "b"] {
        queue.push(item.to_string()).unwrap();
    }
    for _ in 0..2 {
        let (ticket, item) = queue.pop_ready().unwrap();
        assert_eq!(queue.park(ticket, item), Ok(()));
    }
    assert_eq!(queue.park_again(0, "a with data".to_string()), Ok(()));
    assert_eq!(queue.park_again(5, "never".to_string()), Err("never".to_string()));
    assert_eq!((queue.ready_len(), queue.in_flight_len(), queue.parked_len()), (0, 0, 2));
    queue.wake(&vec![1, 0]);
    assert_eq!(queue.pop_ready(), Some((0, "a with data".to_string())));
    assert_eq!(queue.pop_ready(), Some((1, "b".to_string())));
}
