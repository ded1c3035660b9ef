use guvnuh::commands::Command;
use guvnuh::queue::{CommandQueue, QUEUE_CAPACITY};

fn drain_all(q: &mut CommandQueue) -> Vec<(Command, u32)> {
    let mut out = Vec::new();
    while let Some(item) = q.pop() {
        out.push(item);
    }
    out
}

#[test]
fn queue_is_first_in_first_out() {
    let mut q = CommandQueue::new();
    assert_eq!(q.len(), 0);
    assert_eq!(q.pop(), None);
    assert_eq!(q.push((Command::Ping, 1)), Ok(()));
    assert_eq!(q.push((Command::Start, 2)), Ok(()));
    assert_eq!(q.len(), 2);
    assert_eq!(q.pop(), Some((Command::Ping, 1)));
    assert_eq!(q.pop(), Some((Command::Start, 2)));
    assert_eq!(q.pop(), None);
}

#[test]
fn full_queue_refuses_and_keeps_its_items() {
    let mut q = CommandQueue::new();
    for t in 0..QUEUE_CAPACITY as u32 {
        assert_eq!(q.push((Command::Ping, t)), Ok(()));
    }
    assert_eq!(q.len(), QUEUE_CAPACITY);
    assert_eq!(q.push((Command::Stop, 99)), Err((Command::Stop, 99)));
    assert_eq!(q.len(), QUEUE_CAPACITY);
    let items = drain_all(&mut q);
    assert_eq!(items.len(), QUEUE_CAPACITY);
    assert!(items.iter().enumerate().all(|(i, it)| *it == (Command::Ping, i as u32)));
}

#[test]
fn drain_keeps_other_commands_in_order() {
    let mut q = CommandQueue::new();
    for item in [
        (Command::Ping, 1),
        (Command::HelloAck, 2),
        (Command::Start, 3),
        (Command::HelloAck, 4),
        (Command::Stop, 5),
    ] {
        q.push(item).unwrap();
    }
    assert!(q.drain_hello_acks());
    assert_eq!(drain_all(&mut q), vec![(Command::Ping, 1), (Command::Start, 3), (Command::Stop, 5)]);
}

#[test]
fn drain_without_acks_changes_nothing() {
    let mut q = CommandQueue::new();
    q.push((Command::Ping, 7)).unwrap();
    q.push((Command::Start, 8)).unwrap();
    assert!(!q.drain_hello_acks());
    assert_eq!(drain_all(&mut q), vec![(Command::Ping, 7), (Command::Start, 8)]);
    let mut empty = CommandQueue::new();
    assert!(!empty.drain_hello_acks());
    assert_eq!(empty.len(), 0);
}

#[test]
fn drain_of_only_acks_empties_the_queue() {
    let mut q = CommandQueue::new();
    for t in 0..QUEUE_CAPACITY as u32 {
        q.push((Command::HelloAck, t)).unwrap();
    }
    assert!(q.drain_hello_acks());
    assert_eq!(q.len(), 0);
    q.push((Command::Stop, 42)).unwrap();
    assert_eq!(q.pop(), Some((Command::Stop, 42)));
}
