//! The command queue between the UART receive path and the control loop: a
//! fixed-capacity `heapless::Deque`. Each item is a command kind with a ticket by
//! which the caller finds the full message (with its numeric payload) again.

use vstd::prelude::*;
use crate::commands::{Command, without_acks, not_ack, is_ack, lemma_without_acks_is_filter};

verus! {

/// A queued command: its kind, and the ticket by which the caller finds the
/// full message again.
pub type QueuedCommand = (Command, u32);

/// Items the queue holds at most.
pub const QUEUE_CAPACITY: usize = 8;

#[verifier::external_type_specification]
#[verifier::external_body]
#[verifier::reject_recursive_types(T)]
pub struct ExDeque<T, const N: usize>(heapless::Deque<T, N>);

/// What a deque of queued commands holds, front first.
pub uninterp spec fn queued(q: heapless::Deque<QueuedCommand, 8>) -> Seq<QueuedCommand>;

/// `heapless::Deque::new`: an empty deque.
#[verifier::external_body]
fn deque_new() -> (q: heapless::Deque<QueuedCommand, 8>)
    ensures
        queued(q) == Seq::<QueuedCommand>::empty(),
{
    heapless::Deque::new()
}

/// `heapless::Deque::push_back`: when the deque is not full (fewer than 8 items) the
/// item goes to the back and `Ok` is returned; when it is full the item is handed
/// back in `Err` and the deque is unchanged. A deque never holds more than 8 items.
#[verifier::external_body]
fn deque_push_back(q: &mut heapless::Deque<QueuedCommand, 8>, item: QueuedCommand) -> (pushed: Result<(), QueuedCommand>)
    ensures
        pushed is Ok <==> queued(*old(q)).len() < 8,
        pushed is Ok ==> queued(*final(q)) == queued(*old(q)).push(item),
        pushed matches Err(back) ==> back == item && queued(*final(q)) == queued(*old(q)),
{
    q.push_back(item)
}

/// `heapless::Deque::pop_front`: the front item, removed, or `None` (deque unchanged)
/// when it is empty.
#[verifier::external_body]
fn deque_pop_front(q: &mut heapless::Deque<QueuedCommand, 8>) -> (r: Option<QueuedCommand>)
    ensures
        queued(*old(q)).len() == 0 ==> r is None && queued(*final(q)) == queued(*old(q)),
        queued(*old(q)).len() > 0 ==> r == Some(queued(*old(q))[0]) && queued(*final(q)) == queued(*old(q)).drop_first(),
{
    q.pop_front()
}

/// `heapless::Deque::len`: the number of items.
#[verifier::external_body]
fn deque_len(q: &heapless::Deque<QueuedCommand, 8>) -> (r: usize)
    ensures
        r == queued(*q).len(),
        r <= 8,
{
    q.len()
}

/// A command queue.
pub struct CommandQueue {
    q: heapless::Deque<QueuedCommand, 8>,
}

impl View for CommandQueue {
    type V = Seq<QueuedCommand>;

    closed spec fn view(&self) -> Seq<QueuedCommand> {
        queued(self.q)
    }
}

impl CommandQueue {
    /// An empty queue.
    pub fn new() -> (r: CommandQueue)
        ensures
            r@ == Seq::<QueuedCommand>::empty(),
    {
        CommandQueue { q: deque_new() }
    }

    /// Number of queued commands (never more than `QUEUE_CAPACITY`).
    pub fn len(&self) -> (r: usize)
        ensures
            r == self@.len(),
            r <= QUEUE_CAPACITY,
    {
        deque_len(&self.q)
    }

    /// Queue a command at the back; refused (queue unchanged, item handed back)
    /// when the queue is full.
    pub fn push(&mut self, item: QueuedCommand) -> (r: Result<(), QueuedCommand>)
        ensures
            r is Ok <==> old(self)@.len() < QUEUE_CAPACITY,
            r is Ok ==> final(self)@ == old(self)@.push(item),
            r matches Err(back) ==> back == item && final(self)@ == old(self)@,
    {
        deque_push_back(&mut self.q, item)
    }

    /// Take the front command, if any.
    pub fn pop(&mut self) -> (r: Option<QueuedCommand>)
        ensures
            old(self)@.len() == 0 ==> r is None && final(self)@ == old(self)@,
            old(self)@.len() > 0 ==> r == Some(old(self)@[0]) && final(self)@ == old(self)@.drop_first(),
    {
        deque_pop_front(&mut self.q)
    }
    /// Take every handshake acknowledgement out of the queue, leaving the other
    /// commands in their order; reports whether any acknowledgement was there.
    pub fn drain_hello_acks(&mut self) -> (found: bool)
        ensures
            found == exists|i: int| 0 <= i < old(self)@.len() && (#[trigger] old(self)@[i]).0 == Command::HelloAck,
            final(self)@ == without_acks(old(self)@),
            final(self)@ == old(self)@.filter(not_ack::<u32>()),
            final(self)@.len() + old(self)@.filter(is_ack::<u32>()).len() == old(self)@.len(),
    {
        proof {
            lemma_without_acks_is_filter(self@);
        }
        let n = deque_len(&self.q);
        let ghost all = self@;
        let ghost mut seen: Seq<QueuedCommand> = Seq::empty();
        let mut found = false;
        let mut keep = deque_new();
        let mut i: usize = 0;
        while i < n
            invariant
                n == all.len(),
                n <= QUEUE_CAPACITY,
                i <= n,
                queued(self.q) == all.subrange(i as int, n as int),
                seen == all.subrange(0, i as int),
                queued(keep) == without_acks(seen),
                found == exists|j: int| 0 <= j < seen.len() && (#[trigger] seen[j]).0 == Command::HelloAck,
            decreases n - i,
        {
            let ghost before = queued(self.q);
            assert(before.len() > 0);
            let popped = deque_pop_front(&mut self.q);
            let item = popped.unwrap();
            assert(item == all[i as int]);
            assert(queued(self.q) =~= all.subrange(i + 1, n as int));
            let ghost next_seen = seen.push(item);
            assert(next_seen =~= all.subrange(0, i + 1));
            assert(next_seen.drop_last() =~= seen);
            if matches!(item.0, Command::HelloAck) {
                found = true;
            } else {
                proof {
                    lemma_without_acks_len(seen);
                }
                let pushed = deque_push_back(&mut keep, item);
                assert(pushed is Ok);
            }
            proof {
                if !(item.0 == Command::HelloAck) {
                    assert forall|j: int| 0 <= j < next_seen.len() && (#[trigger] next_seen[j]).0 == Command::HelloAck implies 0 <= j < seen.len() && seen[j].0 == Command::HelloAck by {
                        if j < seen.len() {
                            assert(next_seen[j] == seen[j]);
                        }
                    }
                } else {
                    assert(next_seen[seen.len() as int] == item);
                }
                assert forall|j: int| 0 <= j < seen.len() && (#[trigger] seen[j]).0 == Command::HelloAck implies next_seen[j].0 == Command::HelloAck by {
                    assert(next_seen[j] == seen[j]);
                }
                seen = next_seen;
            }
            i = i + 1;
        }
        proof {
            assert(seen =~= all);
        }
        self.q = keep;
        found
    }
}

/// Dropping acknowledgements never lengthens a queue.
proof fn lemma_without_acks_len(s: Seq<QueuedCommand>)
    ensures
        without_acks(s).len() <= s.len(),
    decreases s.len(),
{
    if s.len() > 0 {
        lemma_without_acks_len(s.drop_last());
    }
}

} // verus!
