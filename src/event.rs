//! Process events and their decoding from one netlink frame.

use vstd::prelude::*;

use crate::wire::{read_u32, u32_at, ByteOrder, CN_IDX_PROC, CN_VAL_PROC};

verus! {

/// Event code of a fork.
pub const PROC_EVENT_FORK: u32 = 1;

/// Event code of an exec.
pub const PROC_EVENT_EXEC: u32 = 2;

/// Event code of a core dump.
pub const PROC_EVENT_COREDUMP: u32 = 0x4000_0000;

/// Event code of an exit.
pub const PROC_EVENT_EXIT: u32 = 0x8000_0000;

/// Offset, from the start of a frame, of the connector index (`cn_msg.id.idx`).
pub const CN_IDX_OFFSET: usize = 16;

/// Offset, from the start of a frame, of the connector value (`cn_msg.id.val`).
pub const CN_VAL_OFFSET: usize = 20;

/// Offset, from the start of a frame, of the event code (`proc_event.what`).
pub const EVENT_WHAT_OFFSET: usize = 36;

/// Offset, from the start of a frame, of the event data (`proc_event.event_data`).
pub const EVENT_DATA_OFFSET: usize = 52;

/// Events we are interested in
#[derive(Clone, Copy, Debug, PartialEq, Eq, Structural)]
pub enum PidEvent {
    ///  PROC_EVENT_EXEC
    Exec { process_pid: i32, process_tgid: i32 },
    ///  PROC_EVENT_FORK
    Fork { child_pid: i32, child_tgid: i32, parent_pid: i32, parent_tgid: i32 },
    /// PROC_EVENT_COREDUMP
    Coredump { process_pid: i32, process_tgid: i32, parent_pid: i32, parent_tgid: i32 },
    /// PROC_EVENT_EXIT
    Exit {
        process_pid: i32,
        process_tgid: i32,
        parent_pid: i32,
        parent_tgid: i32,
        exit_code: u32,
        exit_signal: u32,
    },
}

/// The signed 32-bit integer stored at `i` in `b`.
pub open spec fn i32_at(b: Seq<u8>, i: int, order: ByteOrder) -> i32 {
    u32_at(b, i, order) as i32
}

/// Whether the frame at `pos` carries the process-events namespace pair.
pub open spec fn is_proc_namespace(b: Seq<u8>, pos: int, len: int, order: ByteOrder) -> bool {
    &&& len >= CN_VAL_OFFSET + 4
    &&& u32_at(b, pos + CN_IDX_OFFSET, order) == CN_IDX_PROC
    &&& u32_at(b, pos + CN_VAL_OFFSET, order) == CN_VAL_PROC
}

/// The event code of the frame at `pos`.
pub open spec fn event_code(b: Seq<u8>, pos: int, order: ByteOrder) -> u32 {
    u32_at(b, pos + EVENT_WHAT_OFFSET, order)
}

/// The event that the frame of `len` bytes at `pos` in `b` carries, if any.
///
/// A frame outside the process-events namespace, with an event code other
/// than the four known ones, or too short for the fields of its event,
/// carries none.
pub open spec fn frame_event(b: Seq<u8>, pos: int, len: int, order: ByteOrder) -> Option<PidEvent> {
    let d = pos + EVENT_DATA_OFFSET;
    if !is_proc_namespace(b, pos, len, order) || len < EVENT_WHAT_OFFSET + 4 {
        None
    } else if event_code(b, pos, order) == PROC_EVENT_FORK && len >= EVENT_DATA_OFFSET + 16 {
        Some(
            PidEvent::Fork {
                parent_pid: i32_at(b, d, order),
                parent_tgid: i32_at(b, d + 4, order),
                child_pid: i32_at(b, d + 8, order),
                child_tgid: i32_at(b, d + 12, order),
            },
        )
    } else if event_code(b, pos, order) == PROC_EVENT_EXEC && len >= EVENT_DATA_OFFSET + 8 {
        Some(
            PidEvent::Exec {
                process_pid: i32_at(b, d, order),
                process_tgid: i32_at(b, d + 4, order),
            },
        )
    } else if event_code(b, pos, order) == PROC_EVENT_EXIT && len >= EVENT_DATA_OFFSET + 24 {
        Some(
            PidEvent::Exit {
                process_pid: i32_at(b, d, order),
                process_tgid: i32_at(b, d + 4, order),
                exit_code: u32_at(b, d + 8, order),
                exit_signal: u32_at(b, d + 12, order),
                parent_pid: i32_at(b, d + 16, order),
                parent_tgid: i32_at(b, d + 20, order),
            },
        )
    } else if event_code(b, pos, order) == PROC_EVENT_COREDUMP && len >= EVENT_DATA_OFFSET + 16 {
        Some(
            PidEvent::Coredump {
                process_pid: i32_at(b, d, order),
                process_tgid: i32_at(b, d + 4, order),
                parent_pid: i32_at(b, d + 8, order),
                parent_tgid: i32_at(b, d + 12, order),
            },
        )
    } else {
        None
    }
}

fn read_i32(buf: &[u8], i: usize, order: ByteOrder) -> (r: i32)
    requires
        i + 4 <= buf@.len(),
    ensures
        r == i32_at(buf@, i as int, order),
{
    read_u32(buf, i, order) as i32
}

/// Decodes the process event carried by the frame of `len` bytes that starts
/// at `start` in `buf`.
///
/// Only bytes inside the frame are read, and none past the namespace pair
/// when that pair is not the process-events one.
pub fn parse_msg(buf: &[u8], start: usize, len: usize, order: ByteOrder) -> (r: Option<PidEvent>)
    requires
        start + len <= buf@.len(),
    ensures
        r == frame_event(buf@, start as int, len as int, order),
{
    // a slice's length fits in usize, so the offsets below do too
    let _len = buf.len();
    if len < CN_VAL_OFFSET + 4 || read_u32(buf, start + CN_IDX_OFFSET, order) != CN_IDX_PROC
        || read_u32(buf, start + CN_VAL_OFFSET, order) != CN_VAL_PROC {
        return None;
    }
    // every known event needs at least the two fields of an exec
    if len < EVENT_DATA_OFFSET + 8 {
        return None;
    }
    let what = read_u32(buf, start + EVENT_WHAT_OFFSET, order);
    let d = start + EVENT_DATA_OFFSET;
    if what == PROC_EVENT_FORK && len >= EVENT_DATA_OFFSET + 16 {
        Some(
            PidEvent::Fork {
                parent_pid: read_i32(buf, d, order),
                parent_tgid: read_i32(buf, d + 4, order),
                child_pid: read_i32(buf, d + 8, order),
                child_tgid: read_i32(buf, d + 12, order),
            },
        )
    } else if what == PROC_EVENT_EXEC && len >= EVENT_DATA_OFFSET + 8 {
        Some(
            PidEvent::Exec {
                process_pid: read_i32(buf, d, order),
                process_tgid: read_i32(buf, d + 4, order),
            },
        )
    } else if what == PROC_EVENT_EXIT && len >= EVENT_DATA_OFFSET + 24 {
        Some(
            PidEvent::Exit {
                process_pid: read_i32(buf, d, order),
                process_tgid: read_i32(buf, d + 4, order),
                exit_code: read_u32(buf, d + 8, order),
                exit_signal: read_u32(buf, d + 12, order),
                parent_pid: read_i32(buf, d + 16, order),
                parent_tgid: read_i32(buf, d + 20, order),
            },
        )
    } else if what == PROC_EVENT_COREDUMP && len >= EVENT_DATA_OFFSET + 16 {
        Some(
            PidEvent::Coredump {
                process_pid: read_i32(buf, d, order),
                process_tgid: read_i32(buf, d + 4, order),
                parent_pid: read_i32(buf, d + 8, order),
                parent_tgid: read_i32(buf, d + 12, order),
            },
        )
    } else {
        None
    }
}

} // verus!
