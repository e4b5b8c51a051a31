use cnproc::{
    listen_request, nlmsg_align, nlmsg_hdrlen, nlmsg_length, parse_msg, read_u16, read_u32,
    receive_buffer_len, ByteOrder, EventQueue, PidEvent, PROC_EVENT_COREDUMP, PROC_EVENT_EXEC,
    PROC_EVENT_EXIT, PROC_EVENT_FORK,
};

const FRAME_LEN: u32 = 76;

fn push32(out: &mut Vec<u8>, x: u32, big: bool) {
    if big {
        out.extend_from_slice(&x.to_be_bytes());
    } else {
        out.extend_from_slice(&x.to_le_bytes());
    }
}

fn push16(out: &mut Vec<u8>, x: u16, big: bool) {
    if big {
        out.extend_from_slice(&x.to_be_bytes());
    } else {
        out.extend_from_slice(&x.to_le_bytes());
    }
}

/// One netlink frame of `len` declared bytes holding a process event; the
/// event data is padded with zeros to the kernel's 24 bytes.
fn frame_with(len: u32, msg_type: u16, idx: u32, val: u32, what: u32, data: &[u32], big: bool) -> Vec<u8> {
    let mut out = Vec::new();
    push32(&mut out, len, big);
    push16(&mut out, msg_type, big);
    push16(&mut out, 0, big);
    push32(&mut out, 7, big);
    push32(&mut out, 0, big);
    push32(&mut out, idx, big);
    push32(&mut out, val, big);
    push32(&mut out, 0, big);
    push32(&mut out, 0, big);
    push16(&mut out, 40, big);
    push16(&mut out, 0, big);
    push32(&mut out, what, big);
    push32(&mut out, 3, big);
    out.extend_from_slice(&[0u8; 8]);
    for i in 0..6 {
        push32(&mut out, if i < data.len() { data[i] } else { 0 }, big);
    }
    out
}

fn frame(what: u32, data: &[u32]) -> Vec<u8> {
    frame_with(FRAME_LEN, 3, 1, 1, what, data, false)
}

fn fork_frame() -> Vec<u8> {
    // parent_pid, parent_tgid, child_pid, child_tgid
    frame(PROC_EVENT_FORK, &[1, 1, 100, 100])
}

fn exit_frame() -> Vec<u8> {
    // process_pid, process_tgid, exit_code, exit_signal, parent_pid, parent_tgid
    frame(PROC_EVENT_EXIT, &[100, 100, 256, 17, 1, 1])
}

fn exec_frame() -> Vec<u8> {
    frame(PROC_EVENT_EXEC, &[42, 41])
}

fn fork_event() -> PidEvent {
    PidEvent::Fork { child_pid: 100, child_tgid: 100, parent_pid: 1, parent_tgid: 1 }
}

fn exit_event() -> PidEvent {
    PidEvent::Exit {
        process_pid: 100,
        process_tgid: 100,
        parent_pid: 1,
        parent_tgid: 1,
        exit_code: 256,
        exit_signal: 17,
    }
}

fn poll_once(q: &mut EventQueue, datagram: &[u8]) -> Option<PidEvent> {
    match q.pop() {
        Some(e) => Some(e),
        None => q.complete_receive(Some(datagram)),
    }
}

#[test]
fn it_works() {}

#[test]
fn single_fork_frame_is_returned_and_queue_drained() {
    let mut q = EventQueue::new(ByteOrder::Little);
    let buf = fork_frame();
    assert_eq!(poll_once(&mut q, &buf), Some(fork_event()));
    assert!(q.is_empty());
    assert_eq!(q.len(), 0);
}

#[test]
fn two_frames_come_out_in_wire_order() {
    let mut q = EventQueue::new(ByteOrder::Little);
    let mut buf = fork_frame();
    buf.extend(exit_frame());
    assert_eq!(poll_once(&mut q, &buf), Some(fork_event()));
    assert_eq!(q.len(), 1);
    assert_eq!(q.pop(), Some(exit_event()));
    // the queue is empty again: the third poll must receive anew
    assert!(q.is_empty());
    assert_eq!(q.pop(), None);
    assert_eq!(q.complete_receive(Some(&exec_frame())), Some(PidEvent::Exec { process_pid: 42, process_tgid: 41 }));
}

#[test]
fn foreign_namespace_frame_is_skipped() {
    let mut q = EventQueue::new(ByteOrder::Little);
    let mut buf = frame_with(FRAME_LEN, 3, 9, 2, PROC_EVENT_FORK, &[1, 1, 2, 2], false);
    buf.extend(exec_frame());
    assert_eq!(q.complete_receive(Some(&buf)), Some(PidEvent::Exec { process_pid: 42, process_tgid: 41 }));
    assert!(q.is_empty());
}

#[test]
fn unknown_event_code_is_skipped() {
    let mut q = EventQueue::new(ByteOrder::Little);
    let mut buf = frame(0x0000_0200, &[5, 5]);
    buf.extend(exec_frame());
    q.get_events(&buf);
    assert_eq!(q.len(), 1);
    assert_eq!(q.pop(), Some(PidEvent::Exec { process_pid: 42, process_tgid: 41 }));
}

#[test]
fn empty_receive_gives_none_and_next_poll_receives_again() {
    let mut q = EventQueue::new(ByteOrder::Little);
    assert_eq!(q.complete_receive(Some(&[])), None);
    assert!(q.is_empty());
    assert_eq!(poll_once(&mut q, &fork_frame()), Some(fork_event()));
}

#[test]
fn failed_receive_gives_none() {
    let mut q = EventQueue::new(ByteOrder::Little);
    assert_eq!(q.complete_receive(None), None);
    assert!(q.is_empty());
}

#[test]
fn control_noise_frames_are_skipped_and_walk_goes_on() {
    let mut q = EventQueue::new(ByteOrder::Little);
    let mut buf = frame_with(FRAME_LEN, 2, 1, 1, PROC_EVENT_FORK, &[1, 1, 2, 2], false);
    buf.extend(frame_with(FRAME_LEN, 1, 1, 1, PROC_EVENT_FORK, &[1, 1, 2, 2], false));
    buf.extend(exec_frame());
    q.get_events(&buf);
    assert_eq!(q.len(), 1);
    assert_eq!(q.pop(), Some(PidEvent::Exec { process_pid: 42, process_tgid: 41 }));
}

#[test]
fn truncated_frame_stops_the_walk() {
    let mut q = EventQueue::new(ByteOrder::Little);
    // the second frame declares 76 bytes but only 60 arrived
    let mut buf = fork_frame();
    let mut second = exit_frame();
    second.truncate(60);
    buf.extend(second);
    q.get_events(&buf);
    assert_eq!(q.len(), 1);
    assert_eq!(q.pop(), Some(fork_event()));
}

#[test]
fn short_header_tail_is_ignored() {
    let mut q = EventQueue::new(ByteOrder::Little);
    let mut buf = exec_frame();
    buf.extend_from_slice(&[0xff; 10]);
    q.get_events(&buf);
    assert_eq!(q.len(), 1);
}

#[test]
fn declared_length_below_header_stops_the_walk() {
    let mut q = EventQueue::new(ByteOrder::Little);
    // a malformed frame in the middle: nothing after it is looked at
    let mut buf = fork_frame();
    buf.extend(frame_with(8, 3, 1, 1, PROC_EVENT_EXEC, &[1, 1], false));
    buf.extend(exec_frame());
    q.get_events(&buf);
    assert_eq!(q.len(), 1);
    assert_eq!(q.pop(), Some(fork_event()));
}

#[test]
fn unaligned_length_is_padded_to_four_bytes() {
    let mut q = EventQueue::new(ByteOrder::Little);
    // a 61-byte exec frame occupies 64 bytes
    let mut buf = frame_with(61, 3, 1, 1, PROC_EVENT_EXEC, &[7, 8], false);
    buf.truncate(64);
    buf.extend(exec_frame());
    q.get_events(&buf);
    assert_eq!(q.len(), 2);
    assert_eq!(q.pop(), Some(PidEvent::Exec { process_pid: 7, process_tgid: 8 }));
    assert_eq!(q.pop(), Some(PidEvent::Exec { process_pid: 42, process_tgid: 41 }));
}

#[test]
fn last_frame_padding_past_end_still_decodes() {
    let mut q = EventQueue::new(ByteOrder::Little);
    let mut buf = frame_with(61, 3, 1, 1, PROC_EVENT_EXEC, &[7, 8], false);
    buf.truncate(61);
    q.get_events(&buf);
    assert_eq!(q.pop(), Some(PidEvent::Exec { process_pid: 7, process_tgid: 8 }));
}

#[test]
fn coredump_and_negative_pids_decode() {
    let buf = frame(PROC_EVENT_COREDUMP, &[10, 11, 0xffff_ffff, 13]);
    assert_eq!(
        parse_msg(&buf, 0, buf.len(), ByteOrder::Little),
        Some(PidEvent::Coredump { process_pid: 10, process_tgid: 11, parent_pid: -1, parent_tgid: 13 })
    );
}

#[test]
fn frame_too_short_for_its_event_decodes_to_none() {
    let buf = frame(PROC_EVENT_EXIT, &[1, 2, 3, 4, 5, 6]);
    assert_eq!(parse_msg(&buf, 0, 72, ByteOrder::Little), None);
    assert!(parse_msg(&buf, 0, 76, ByteOrder::Little).is_some());
}

#[test]
fn big_endian_frames_decode() {
    let mut q = EventQueue::new(ByteOrder::Big);
    let buf = frame_with(FRAME_LEN, 3, 1, 1, PROC_EVENT_FORK, &[1, 1, 100, 100], true);
    assert_eq!(q.byte_order(), ByteOrder::Big);
    assert_eq!(q.complete_receive(Some(&buf)), Some(fork_event()));
}

#[test]
fn integer_reads_follow_byte_order() {
    let b = [0x01u8, 0x02, 0x03, 0x04];
    assert_eq!(read_u32(&b, 0, ByteOrder::Little), 0x0403_0201);
    assert_eq!(read_u32(&b, 0, ByteOrder::Big), 0x0102_0304);
    assert_eq!(read_u16(&b, 1, ByteOrder::Little), 0x0302);
    assert_eq!(read_u16(&b, 1, ByteOrder::Big), 0x0203);
}

#[test]
fn netlink_length_helpers() {
    assert_eq!(nlmsg_align(0), 0);
    assert_eq!(nlmsg_align(1), 4);
    assert_eq!(nlmsg_align(4), 4);
    assert_eq!(nlmsg_align(61), 64);
    assert_eq!(nlmsg_hdrlen(), 16);
    assert_eq!(nlmsg_length(24), 40);
}

#[test]
fn listen_request_bytes() {
    let r = listen_request(4242, ByteOrder::Little);
    let mut expected = Vec::new();
    push32(&mut expected, 40, false);
    push16(&mut expected, 3, false);
    push16(&mut expected, 0, false);
    push32(&mut expected, 0, false);
    push32(&mut expected, 4242, false);
    push32(&mut expected, 1, false);
    push32(&mut expected, 1, false);
    push32(&mut expected, 0, false);
    push32(&mut expected, 0, false);
    push16(&mut expected, 4, false);
    push16(&mut expected, 0, false);
    push32(&mut expected, 1, false);
    assert_eq!(r, expected);
    let big = listen_request(4242, ByteOrder::Big);
    assert_eq!(&big[12..16], &4242u32.to_be_bytes());
    assert_eq!(big.len(), 40);
}

#[test]
fn receive_buffer_is_capped_at_8k() {
    assert_eq!(receive_buffer_len(4096), 4096);
    assert_eq!(receive_buffer_len(8192), 8192);
    assert_eq!(receive_buffer_len(65536), 8192);
}
