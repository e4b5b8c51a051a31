//! Decoding of the Linux process-events connector stream.
//!
//! The library holds everything that can be computed without the socket:
//! the fixed wire layout of the kernel messages, the frame walk over one
//! received datagram, the decoder of process events, the bytes of the
//! subscription request, and the event queue that hands records out one at
//! a time.

mod event;
mod frames;
mod queue;
mod subscribe;
mod wire;

pub use wire::{
    lemma_u16_round_trip, lemma_u32_round_trip, nlmsg_align, nlmsg_hdrlen, nlmsg_length,
    read_u16, read_u32, ByteOrder, CN_IDX_PROC, CN_MSG_LEN, CN_VAL_PROC, NETLINK_CONNECTOR,
    NETLINK_NO_ENOBUFS, NLMSG_DONE, NLMSG_ERROR, NLMSG_HEADER_LEN, NLMSG_NOOP,
    PROC_CN_MCAST_LISTEN,
};

pub use event::{
    frame_event, parse_msg, PidEvent, PROC_EVENT_COREDUMP, PROC_EVENT_EXEC, PROC_EVENT_EXIT,
    PROC_EVENT_FORK,
};

pub use frames::{
    batch_events, frame_len, frame_ok, frame_positions, frame_record, lemma_foreign_frame_skipped,
    lemma_frame_span, lemma_frame_walk, lemma_unknown_event_skipped, next_frame, records_at,
    records_from,
};

pub use queue::{
    after_pops, lemma_empty_receive, lemma_poll_fifo, received_records, take_head, EventQueue,
};

pub use subscribe::{
    lemma_listen_message_fields, listen_message, listen_request, receive_buffer_len,
    MAX_RECEIVE_LEN, MCAST_OP_LEN,
};
