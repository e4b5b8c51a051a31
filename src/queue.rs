//! The queue of decoded events behind the one-event-at-a-time poll.
//!
//! One receive may yield many events while the consumer takes one per call.
//! The socket side calls [`EventQueue::pop`] first; when that gives nothing
//! it receives one datagram and hands the outcome to
//! [`EventQueue::complete_receive`]. A failed receive and a datagram without
//! events give the same answer, "no event": the caller simply polls again.

use vstd::prelude::*;

use crate::event::{parse_msg, PidEvent};
use crate::frames::{batch_events, frame_len, frame_ok, frame_record, next_frame, records_from};
use crate::wire::{
    read_u16, read_u32, ByteOrder, NLMSG_ERROR, NLMSG_HEADER_LEN, NLMSG_NOOP,
};
use std::collections::VecDeque;

verus! {

/// What taking the head of `q` returns, and what is left.
pub open spec fn take_head(q: Seq<PidEvent>) -> (Option<PidEvent>, Seq<PidEvent>) {
    if q.len() == 0 {
        (None, q)
    } else {
        (Some(q[0]), q.drop_first())
    }
}

/// The records that a receive outcome brings: none for a failed receive,
/// those of the datagram otherwise.
pub open spec fn received_records(received: Option<Seq<u8>>, order: ByteOrder) -> Seq<PidEvent> {
    match received {
        Some(d) => batch_events(d, order),
        None => seq![],
    }
}

/// What is left of `q` after `n` heads were taken.
pub open spec fn after_pops(q: Seq<PidEvent>, n: nat) -> Seq<PidEvent>
    decreases n,
{
    if n == 0 {
        q
    } else {
        after_pops(take_head(q).1, (n - 1) as nat)
    }
}

/// The records that an optional record stands for.
pub open spec fn record_seq(r: Option<PidEvent>) -> Seq<PidEvent> {
    match r {
        Some(e) => seq![e],
        None => seq![],
    }
}

proof fn lemma_walk_end(b: Seq<u8>, pos: int, order: ByteOrder)
    requires
        !frame_ok(b, pos, order),
    ensures
        records_from(b, pos, order) == Seq::<PidEvent>::empty(),
{
}

proof fn lemma_walk_advance(q: Seq<PidEvent>, b: Seq<u8>, pos: int, order: ByteOrder)
    requires
        frame_ok(b, pos, order),
    ensures
        q + records_from(b, pos, order) == (q + record_seq(frame_record(b, pos, order))) + (
        if next_frame(b, pos, order) > b.len() {
            Seq::<PidEvent>::empty()
        } else {
            records_from(b, next_frame(b, pos, order), order)
        }),
{
    let rest = if next_frame(b, pos, order) > b.len() {
        Seq::<PidEvent>::empty()
    } else {
        records_from(b, next_frame(b, pos, order), order)
    };
    assert(records_from(b, pos, order) =~= record_seq(frame_record(b, pos, order)) + rest);
    assert(q + records_from(b, pos, order) =~= (q + record_seq(frame_record(b, pos, order)))
        + rest);
}

/// First-in, first-out queue of decoded process events.
#[derive(Debug)]
pub struct EventQueue {
    order: ByteOrder,
    queue: VecDeque<PidEvent>,
}

impl View for EventQueue {
    type V = Seq<PidEvent>;

    closed spec fn view(&self) -> Seq<PidEvent> {
        self.queue@
    }
}

impl EventQueue {
    /// The byte order in which received datagrams are read.
    pub closed spec fn order(&self) -> ByteOrder {
        self.order
    }

    /// An empty queue for datagrams written in `order`.
    pub fn new(order: ByteOrder) -> (r: EventQueue)
        ensures
            r@ == Seq::<PidEvent>::empty(),
            r.order() == order,
    {
        EventQueue { order, queue: VecDeque::new() }
    }

    /// The byte order in which received datagrams are read.
    pub fn byte_order(&self) -> (r: ByteOrder)
        ensures
            r == self.order(),
    {
        self.order
    }

    /// Number of queued events.
    pub fn len(&self) -> (r: usize)
        ensures
            r == self@.len(),
    {
        self.queue.len()
    }

    /// Whether no event is queued, so that the next poll must receive.
    pub fn is_empty(&self) -> (r: bool)
        ensures
            r == (self@.len() == 0),
    {
        self.queue.len() == 0
    }

    /// Takes the oldest queued event; `None` when the queue is empty.
    pub fn pop(&mut self) -> (r: Option<PidEvent>)
        ensures
            (r, final(self)@) == take_head(old(self)@),
            final(self).order() == old(self).order(),
    {
        self.queue.pop_front()
    }

    /// Queues the event of the whole frame at `pos`, unless it is control
    /// noise or carries none.
    fn queue_frame(&mut self, datagram: &[u8], pos: usize, msg_len: usize)
        requires
            frame_ok(datagram@, pos as int, old(self).order),
            msg_len == frame_len(datagram@, pos as int, old(self).order),
        ensures
            final(self)@ == old(self)@ + record_seq(
                frame_record(datagram@, pos as int, old(self).order),
            ),
            final(self).order == old(self).order,
    {
        // a slice's length fits in usize, so the offset below does too
        let _len = datagram.len();
        let msg_type = read_u16(datagram, pos + 4, self.order);
        if msg_type != NLMSG_ERROR && msg_type != NLMSG_NOOP {
            if let Some(event) = parse_msg(datagram, pos, msg_len, self.order) {
                self.queue.push_back(event);
            }
        }
        assert(final(self)@ =~= old(self)@ + record_seq(
            frame_record(datagram@, pos as int, old(self).order),
        ));
    }

    /// Walks the frames of one received datagram and queues, in wire order,
    /// the event of every frame that carries one.
    pub fn get_events(&mut self, datagram: &[u8])
        ensures
            final(self)@ == old(self)@ + batch_events(datagram@, old(self).order()),
            final(self).order() == old(self).order(),
    {
        let n = datagram.len();
        let order = self.order;
        let ghost b = datagram@;
        let ghost start = self.queue@;
        let mut pos: usize = 0;
        while pos < n
            invariant
                n == b.len(),
                b == datagram@,
                order == self.order,
                pos <= n,
                self.queue@ + records_from(b, pos as int, order) == start + records_from(
                    b,
                    0,
                    order,
                ),
            ensures
                pos == n,
                self.queue@ + records_from(b, pos as int, order) == start + records_from(
                    b,
                    0,
                    order,
                ),
            decreases n - pos,
        {
            if n - pos < NLMSG_HEADER_LEN {
                // no room for a header: the batch ends here
                proof {
                    lemma_walk_end(b, pos as int, order);
                    lemma_walk_end(b, n as int, order);
                }
                pos = n;
                break;
            }
            let msg_len = read_u32(datagram, pos, order) as usize;
            if msg_len < NLMSG_HEADER_LEN || n - pos < msg_len {
                // malformed or truncated frame: never decode part of one
                proof {
                    lemma_walk_end(b, pos as int, order);
                    lemma_walk_end(b, n as int, order);
                }
                pos = n;
                break;
            }
            let ghost before = self.queue@;
            self.queue_frame(datagram, pos, msg_len);
            proof {
                lemma_walk_advance(before, b, pos as int, order);
            }
            // the padding that brings the frame to a multiple of four bytes
            let padding = (4 - msg_len % 4) % 4;
            assert(pos + msg_len + padding == next_frame(b, pos as int, order));
            if padding > n - pos - msg_len {
                proof {
                    lemma_walk_end(b, n as int, order);
                }
                pos = n;
                break;
            }
            pos = pos + msg_len + padding;
        }
        proof {
            lemma_walk_end(b, n as int, order);
            assert(self.queue@ =~= start + batch_events(b, order));
        }
    }

    /// Finishes a poll after a receive: queues the events of the received
    /// datagram (none when `received` is `None`, a failed receive) and takes
    /// the oldest queued event.
    ///
    /// A failed receive, an empty datagram and a datagram without events all
    /// give `None` and leave the queue as it was; the caller polls again.
    pub fn complete_receive(&mut self, received: Option<&[u8]>) -> (r: Option<PidEvent>)
        ensures
            (r, final(self)@) == take_head(
                old(self)@ + received_records(
                    match received {
                        Some(d) => Some(d@),
                        None => None,
                    },
                    old(self).order(),
                ),
            ),
            final(self).order() == old(self).order(),
    {
        if let Some(datagram) = received {
            self.get_events(datagram);
        } else {
            assert(self.queue@ =~= self.queue@ + Seq::<PidEvent>::empty());
        }
        self.queue.pop_front()
    }
}

/// Events come out in the order in which their frames stood in the
/// datagram: after a receive into an empty queue, the `i`-th poll returns
/// the `i`-th record of the datagram, and once all are taken the queue is
/// empty again, so the next poll receives anew.
pub proof fn lemma_poll_fifo(d: Seq<u8>, order: ByteOrder, i: nat)
    ensures
        ({
            let batch = batch_events(d, order);
            let q = Seq::<PidEvent>::empty() + received_records(Some(d), order);
            &&& i < batch.len() ==> take_head(after_pops(q, i)).0 == Some(batch[i as int])
            &&& after_pops(q, batch.len()).len() == 0
        }),
{
    let batch = batch_events(d, order);
    let q = Seq::<PidEvent>::empty() + received_records(Some(d), order);
    assert(q =~= batch);
    lemma_after_pops(q, i);
    lemma_after_pops(q, batch.len());
}

proof fn lemma_after_pops(q: Seq<PidEvent>, n: nat)
    ensures
        after_pops(q, n) =~= q.skip(if n <= q.len() { n as int } else { q.len() as int }),
    decreases n,
{
    if n > 0 {
        lemma_after_pops(take_head(q).1, (n - 1) as nat);
    }
}

/// A receive of zero bytes yields no event and leaves the queue empty, so
/// nothing marks the session as finished and the next poll receives again.
pub proof fn lemma_empty_receive(order: ByteOrder)
    ensures
        take_head(Seq::<PidEvent>::empty() + received_records(Some(Seq::<u8>::empty()), order))
            == (None::<PidEvent>, Seq::<PidEvent>::empty()),
{
    assert(!frame_ok(Seq::<u8>::empty(), 0, order));
    assert(Seq::<PidEvent>::empty() + Seq::<PidEvent>::empty() =~= Seq::<PidEvent>::empty());
}

} // verus!
