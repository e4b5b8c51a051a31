//! The subscription request and the size of the receive buffer.

use vstd::prelude::*;

use crate::wire::{
    lemma_u16_round_trip, lemma_u32_round_trip, u16_at, u32_at,
    nlmsg_length, push_u16, push_u32, u16_bytes, u32_bytes, ByteOrder, CN_IDX_PROC, CN_MSG_LEN,
    CN_VAL_PROC, NLMSG_DONE, NLMSG_HEADER_LEN, PROC_CN_MCAST_LISTEN,
};

verus! {

/// Size in bytes of the multicast operation code (`enum proc_cn_mcast_op`).
pub const MCAST_OP_LEN: usize = 4;

/// Largest receive buffer, in bytes.
pub const MAX_RECEIVE_LEN: usize = 8192;

/// The subscription request of subscriber `id`, in three parts.
///
/// Netlink header: length of the whole request, type "done", no flags,
/// sequence 0, destination `id`. Connector header: the process-events
/// namespace pair, sequence and acknowledgement 0, payload of one operation
/// code, no flags. Payload: the "listen" operation code.
pub open spec fn listen_message(id: u32, order: ByteOrder) -> Seq<u8> {
    let total = (NLMSG_HEADER_LEN + CN_MSG_LEN + MCAST_OP_LEN) as u32;
    let header = u32_bytes(total, order) + u16_bytes(NLMSG_DONE, order) + u16_bytes(0, order)
        + u32_bytes(0, order) + u32_bytes(id, order);
    let connector = u32_bytes(CN_IDX_PROC, order) + u32_bytes(CN_VAL_PROC, order) + u32_bytes(
        0,
        order,
    ) + u32_bytes(0, order) + u16_bytes(MCAST_OP_LEN as u16, order) + u16_bytes(0, order);
    header + connector + u32_bytes(PROC_CN_MCAST_LISTEN, order)
}

/// Read back with the frame readers, the subscription request holds what
/// it was built from: its own length, the "done" type and the subscriber id
/// in the netlink header; the process-events namespace pair and a payload of
/// one operation code in the connector header; then the "listen" code.
pub proof fn lemma_listen_message_fields(id: u32, order: ByteOrder)
    ensures
        ({
            let m = listen_message(id, order);
            &&& m.len() == NLMSG_HEADER_LEN + CN_MSG_LEN + MCAST_OP_LEN
            &&& u32_at(m, 0, order) == m.len()
            &&& u16_at(m, 4, order) == NLMSG_DONE
            &&& u32_at(m, 12, order) == id
            &&& u32_at(m, 16, order) == CN_IDX_PROC
            &&& u32_at(m, 20, order) == CN_VAL_PROC
            &&& u16_at(m, 32, order) == MCAST_OP_LEN
            &&& u32_at(m, 36, order) == PROC_CN_MCAST_LISTEN
        }),
{
    let m = listen_message(id, order);
    let total = (NLMSG_HEADER_LEN + CN_MSG_LEN + MCAST_OP_LEN) as u32;
    lemma_u32_round_trip(total, order);
    lemma_u16_round_trip(NLMSG_DONE, order);
    lemma_u16_round_trip(0, order);
    lemma_u32_round_trip(0, order);
    lemma_u32_round_trip(id, order);
    lemma_u32_round_trip(CN_IDX_PROC, order);
    lemma_u32_round_trip(CN_VAL_PROC, order);
    lemma_u16_round_trip(MCAST_OP_LEN as u16, order);
    lemma_u32_round_trip(PROC_CN_MCAST_LISTEN, order);
    assert(m.subrange(0, 4) =~= u32_bytes(total, order));
    lemma_u32_at_part(m, 0, u32_bytes(total, order), order);
    assert(m.subrange(4, 6) =~= u16_bytes(NLMSG_DONE, order));
    lemma_u16_at_part(m, 4, u16_bytes(NLMSG_DONE, order), order);
    assert(m.subrange(12, 16) =~= u32_bytes(id, order));
    lemma_u32_at_part(m, 12, u32_bytes(id, order), order);
    assert(m.subrange(16, 20) =~= u32_bytes(CN_IDX_PROC, order));
    lemma_u32_at_part(m, 16, u32_bytes(CN_IDX_PROC, order), order);
    assert(m.subrange(20, 24) =~= u32_bytes(CN_VAL_PROC, order));
    lemma_u32_at_part(m, 20, u32_bytes(CN_VAL_PROC, order), order);
    assert(m.subrange(32, 34) =~= u16_bytes(MCAST_OP_LEN as u16, order));
    lemma_u16_at_part(m, 32, u16_bytes(MCAST_OP_LEN as u16, order), order);
    assert(m.subrange(36, 40) =~= u32_bytes(PROC_CN_MCAST_LISTEN, order));
    lemma_u32_at_part(m, 36, u32_bytes(PROC_CN_MCAST_LISTEN, order), order);
}

proof fn lemma_u32_at_part(m: Seq<u8>, k: int, part: Seq<u8>, order: ByteOrder)
    requires
        0 <= k,
        k + 4 <= m.len(),
        m.subrange(k, k + 4) == part,
    ensures
        u32_at(m, k, order) == u32_at(part, 0, order),
{
    assert(m[k] == part[0] && m[k + 1] == part[1] && m[k + 2] == part[2] && m[k + 3] == part[3]);
}

proof fn lemma_u16_at_part(m: Seq<u8>, k: int, part: Seq<u8>, order: ByteOrder)
    requires
        0 <= k,
        k + 2 <= m.len(),
        m.subrange(k, k + 2) == part,
    ensures
        u16_at(m, k, order) == u16_at(part, 0, order),
{
    assert(m[k] == part[0] && m[k + 1] == part[1]);
}

/// The bytes of the request that starts the delivery of process events to
/// subscriber `id`.
pub fn listen_request(id: u32, order: ByteOrder) -> (r: Vec<u8>)
    ensures
        r@ == listen_message(id, order),
        r@.len() == NLMSG_HEADER_LEN + CN_MSG_LEN + MCAST_OP_LEN,
{
    let total = nlmsg_length(CN_MSG_LEN + MCAST_OP_LEN);
    let mut out: Vec<u8> = Vec::new();
    push_u32(&mut out, total as u32, order);
    push_u16(&mut out, NLMSG_DONE, order);
    push_u16(&mut out, 0, order);
    push_u32(&mut out, 0, order);
    push_u32(&mut out, id, order);
    push_u32(&mut out, CN_IDX_PROC, order);
    push_u32(&mut out, CN_VAL_PROC, order);
    push_u32(&mut out, 0, order);
    push_u32(&mut out, 0, order);
    push_u16(&mut out, MCAST_OP_LEN as u16, order);
    push_u16(&mut out, 0, order);
    push_u32(&mut out, PROC_CN_MCAST_LISTEN, order);
    assert(out@ =~= listen_message(id, order));
    out
}

/// Size of the receive buffer: the page size, but no more than 8 KiB.
pub fn receive_buffer_len(page_size: usize) -> (r: usize)
    ensures
        r == if page_size < MAX_RECEIVE_LEN {
            page_size
        } else {
            MAX_RECEIVE_LEN
        },
{
    if page_size < MAX_RECEIVE_LEN {
        page_size
    } else {
        MAX_RECEIVE_LEN
    }
}

} // verus!
