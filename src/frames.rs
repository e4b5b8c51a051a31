//! The walk over the netlink frames of one received datagram.

use vstd::prelude::*;

use crate::event::{
    event_code, frame_event, is_proc_namespace, PidEvent, PROC_EVENT_COREDUMP, PROC_EVENT_EXEC,
    PROC_EVENT_EXIT, PROC_EVENT_FORK,
};
use crate::wire::{align4, u16_at, u32_at, ByteOrder, NLMSG_ERROR, NLMSG_HEADER_LEN, NLMSG_NOOP};

verus! {

/// The declared length of the frame at `pos`.
pub open spec fn frame_len(b: Seq<u8>, pos: int, order: ByteOrder) -> int {
    u32_at(b, pos, order) as int
}

/// Whether a whole frame starts at `pos`: a header fits in what is left,
/// the declared length covers at least the header, and what is left covers
/// the declared length.
pub open spec fn frame_ok(b: Seq<u8>, pos: int, order: ByteOrder) -> bool {
    &&& 0 <= pos
    &&& b.len() - pos >= NLMSG_HEADER_LEN
    &&& frame_len(b, pos, order) >= NLMSG_HEADER_LEN
    &&& frame_len(b, pos, order) <= b.len() - pos
}

/// Where the frame after the one at `pos` starts.
pub open spec fn next_frame(b: Seq<u8>, pos: int, order: ByteOrder) -> int {
    pos + align4(frame_len(b, pos, order))
}

/// Whether the frame at `pos` is an error report or a no-op.
pub open spec fn is_control_noise(b: Seq<u8>, pos: int, order: ByteOrder) -> bool {
    u16_at(b, pos + 4, order) == NLMSG_ERROR || u16_at(b, pos + 4, order) == NLMSG_NOOP
}

/// The record that the frame at `pos` yields, if any.
pub open spec fn frame_record(b: Seq<u8>, pos: int, order: ByteOrder) -> Option<PidEvent> {
    if is_control_noise(b, pos, order) {
        None
    } else {
        frame_event(b, pos, frame_len(b, pos, order), order)
    }
}

/// The records of the frames from `pos` on, in wire order; the walk stops
/// at the first position that holds no whole frame, and after a frame whose
/// padding runs past the end of the buffer.
pub open spec fn records_from(b: Seq<u8>, pos: int, order: ByteOrder) -> Seq<PidEvent>
    decreases b.len() - pos,
{
    if !frame_ok(b, pos, order) {
        seq![]
    } else {
        let rest = if next_frame(b, pos, order) > b.len() {
            seq![]
        } else {
            records_from(b, next_frame(b, pos, order), order)
        };
        match frame_record(b, pos, order) {
            Some(e) => seq![e] + rest,
            None => rest,
        }
    }
}

/// The records of a whole datagram.
pub open spec fn batch_events(b: Seq<u8>, order: ByteOrder) -> Seq<PidEvent> {
    records_from(b, 0, order)
}

/// The start offsets of the frames that the walk visits from `pos` on.
pub open spec fn frame_positions(b: Seq<u8>, pos: int, order: ByteOrder) -> Seq<int>
    decreases b.len() - pos,
{
    if !frame_ok(b, pos, order) {
        seq![]
    } else if next_frame(b, pos, order) > b.len() {
        seq![pos]
    } else {
        seq![pos] + frame_positions(b, next_frame(b, pos, order), order)
    }
}

/// The records of the frames at `ps`, in the order of `ps`.
pub open spec fn records_at(b: Seq<u8>, ps: Seq<int>, order: ByteOrder) -> Seq<PidEvent>
    decreases ps.len(),
{
    if ps.len() == 0 {
        seq![]
    } else {
        let rest = records_at(b, ps.drop_first(), order);
        match frame_record(b, ps[0], order) {
            Some(e) => seq![e] + rest,
            None => rest,
        }
    }
}

/// The frame walk visits frames in wire order: it starts at `pos`, each
/// visited frame is whole, each next frame starts where the previous one's
/// length rounded up to four bytes ends, and the walk stops at the first
/// position that holds no whole frame (or where the padding runs past the
/// end). The records are those of the visited frames, in that order.
pub proof fn lemma_frame_walk(b: Seq<u8>, pos: int, order: ByteOrder)
    ensures
        ({
            let ps = frame_positions(b, pos, order);
            &&& ps.len() == 0 <==> !frame_ok(b, pos, order)
            &&& ps.len() > 0 ==> ps[0] == pos
            &&& forall|i: int| 0 <= i < ps.len() ==> #[trigger] frame_ok(b, ps[i], order)
            &&& forall|i: int|
                0 <= i < ps.len() - 1 ==> ps[i + 1] == #[trigger] next_frame(b, ps[i], order)
            &&& ps.len() > 0 ==> (next_frame(b, ps.last(), order) > b.len() || !frame_ok(
                b,
                next_frame(b, ps.last(), order),
                order,
            ))
            &&& records_from(b, pos, order) == records_at(b, ps, order)
        }),
    decreases b.len() - pos,
{
    let ps = frame_positions(b, pos, order);
    if frame_ok(b, pos, order) && next_frame(b, pos, order) <= b.len() {
        let next = next_frame(b, pos, order);
        lemma_frame_walk(b, next, order);
        let rest = frame_positions(b, next, order);
        assert(ps == seq![pos] + rest);
        assert(ps.drop_first() =~= rest);
        assert forall|i: int| 0 <= i < ps.len() implies #[trigger] frame_ok(b, ps[i], order) by {
            if i > 0 {
                assert(ps[i] == rest[i - 1]);
            }
        }
        assert forall|i: int| 0 <= i < ps.len() - 1 implies ps[i + 1] == #[trigger] next_frame(
            b,
            ps[i],
            order,
        ) by {
            if i > 0 {
                assert(ps[i] == rest[i - 1]);
                assert(ps[i + 1] == rest[i]);
            }
        }
        if rest.len() > 0 {
            assert(ps.last() == rest.last());
        }
        assert(records_at(b, ps, order) == records_from(b, pos, order));
    } else if frame_ok(b, pos, order) {
        assert(ps.drop_first() =~= Seq::<int>::empty());
        assert(records_at(b, ps.drop_first(), order) == Seq::<PidEvent>::empty());
        assert(records_at(b, ps, order) == records_from(b, pos, order));
    }
}

/// The span of a frame of declared length `L` is `L` rounded up to four
/// bytes, and the next frame starts right after it.
pub proof fn lemma_frame_span(b: Seq<u8>, pos: int, order: ByteOrder)
    requires
        frame_ok(b, pos, order),
    ensures
        next_frame(b, pos, order) - pos == ((frame_len(b, pos, order) + 3) / 4) * 4,
        next_frame(b, pos, order) - pos >= frame_len(b, pos, order),
        next_frame(b, pos, order) - pos < frame_len(b, pos, order) + 4,
        (next_frame(b, pos, order) - pos) % 4 == 0,
{
}

/// A frame outside the process-events namespace yields no record, and the
/// walk goes on with the next frame.
pub proof fn lemma_foreign_frame_skipped(b: Seq<u8>, pos: int, order: ByteOrder)
    requires
        frame_ok(b, pos, order),
        !is_proc_namespace(b, pos, frame_len(b, pos, order), order),
    ensures
        frame_record(b, pos, order) is None,
        next_frame(b, pos, order) <= b.len() ==> records_from(b, pos, order) == records_from(
            b,
            next_frame(b, pos, order),
            order,
        ),
{
}

/// A frame whose event code is none of the four known ones yields no
/// record, and the walk goes on with the next frame.
pub proof fn lemma_unknown_event_skipped(b: Seq<u8>, pos: int, order: ByteOrder)
    requires
        frame_ok(b, pos, order),
        event_code(b, pos, order) != PROC_EVENT_FORK,
        event_code(b, pos, order) != PROC_EVENT_EXEC,
        event_code(b, pos, order) != PROC_EVENT_EXIT,
        event_code(b, pos, order) != PROC_EVENT_COREDUMP,
    ensures
        frame_record(b, pos, order) is None,
        next_frame(b, pos, order) <= b.len() ==> records_from(b, pos, order) == records_from(
            b,
            next_frame(b, pos, order),
            order,
        ),
{
}

} // verus!
