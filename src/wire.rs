//! Fixed layout of netlink and connector messages, and host-order integer
//! access to byte buffers.

use vstd::prelude::*;

verus! {

/// Netlink protocol number of the kernel connector.
pub const NETLINK_CONNECTOR: i32 = 11;

/// Socket option that turns off "no buffer space" errors on a netlink socket.
pub const NETLINK_NO_ENOBUFS: i32 = 5;

/// Netlink message type: nothing to do.
pub const NLMSG_NOOP: u16 = 1;

/// Netlink message type: error report.
pub const NLMSG_ERROR: u16 = 2;

/// Netlink message type: last (or only) part of a message.
pub const NLMSG_DONE: u16 = 3;

/// Connector index of the process-events registration (also its multicast group).
pub const CN_IDX_PROC: u32 = 1;

/// Connector value of the process-events registration.
pub const CN_VAL_PROC: u32 = 1;

/// Multicast operation code that starts the delivery of process events.
pub const PROC_CN_MCAST_LISTEN: u32 = 1;

/// Size in bytes of a netlink message header (`struct nlmsghdr`).
pub const NLMSG_HEADER_LEN: usize = 16;

/// Size in bytes of a connector message header (`struct cn_msg`).
pub const CN_MSG_LEN: usize = 20;

/// Order of the bytes of a multi-byte integer on the wire.
///
/// The kernel writes its messages in the order of the host it runs on; the
/// caller says which one that is.
#[derive(Clone, Copy, Debug, PartialEq, Eq, Structural)]
pub enum ByteOrder {
    Little,
    Big,
}

/// `len` rounded up to the next multiple of four.
pub open spec fn align4(len: int) -> int {
    ((len + 3) / 4) * 4
}

/// Value of four bytes, least significant first.
pub open spec fn le_value4(a: u8, b: u8, c: u8, d: u8) -> int {
    a as int + 256 * (b as int + 256 * (c as int + 256 * d as int))
}

/// The 32-bit integer stored at `i` in `b`.
pub open spec fn u32_at(b: Seq<u8>, i: int, order: ByteOrder) -> u32 {
    match order {
        ByteOrder::Little => le_value4(b[i], b[i + 1], b[i + 2], b[i + 3]) as u32,
        ByteOrder::Big => le_value4(b[i + 3], b[i + 2], b[i + 1], b[i]) as u32,
    }
}

/// The 16-bit integer stored at `i` in `b`.
pub open spec fn u16_at(b: Seq<u8>, i: int, order: ByteOrder) -> u16 {
    match order {
        ByteOrder::Little => (b[i] as int + 256 * b[i + 1] as int) as u16,
        ByteOrder::Big => (b[i + 1] as int + 256 * b[i] as int) as u16,
    }
}

/// The bytes that store `x` as a 32-bit integer.
pub open spec fn u32_bytes(x: u32, order: ByteOrder) -> Seq<u8> {
    let le = seq![
        (x % 256) as u8,
        ((x / 256) % 256) as u8,
        ((x / 65536) % 256) as u8,
        (x / 16777216) as u8,
    ];
    match order {
        ByteOrder::Little => le,
        ByteOrder::Big => seq![le[3], le[2], le[1], le[0]],
    }
}

/// The bytes that store `x` as a 16-bit integer.
pub open spec fn u16_bytes(x: u16, order: ByteOrder) -> Seq<u8> {
    match order {
        ByteOrder::Little => seq![(x % 256) as u8, (x / 256) as u8],
        ByteOrder::Big => seq![(x / 256) as u8, (x % 256) as u8],
    }
}

/// Reading back the bytes that store a 32-bit integer gives that integer.
pub proof fn lemma_u32_round_trip(x: u32, order: ByteOrder)
    ensures
        u32_bytes(x, order).len() == 4,
        u32_at(u32_bytes(x, order), 0, order) == x,
{
    let b = u32_bytes(x, order);
    assert(b.len() == 4);
    let v = le_value4(
        (x % 256) as u8,
        ((x / 256) % 256) as u8,
        ((x / 65536) % 256) as u8,
        (x / 16777216) as u8,
    );
    let q1 = x as int / 256;
    let q2 = q1 / 256;
    let q3 = q2 / 256;
    assert(x as int / 65536 == q2) by {
        vstd::arithmetic::div_mod::lemma_div_denominator(x as int, 256, 256);
    }
    assert(x as int / 16777216 == q3) by {
        vstd::arithmetic::div_mod::lemma_div_denominator(x as int, 65536, 256);
    }
    assert(v == x as int);
}

/// Reading back the bytes that store a 16-bit integer gives that integer.
pub proof fn lemma_u16_round_trip(x: u16, order: ByteOrder)
    ensures
        u16_bytes(x, order).len() == 2,
        u16_at(u16_bytes(x, order), 0, order) == x,
{
}

/// Rounds a message length up to the netlink alignment of four bytes.
pub fn nlmsg_align(len: usize) -> (r: usize)
    requires
        len + 3 <= usize::MAX,
    ensures
        r == align4(len as int),
{
    (len + 3) / 4 * 4
}

/// Length of a netlink message header, alignment included.
pub fn nlmsg_hdrlen() -> (r: usize)
    ensures
        r == NLMSG_HEADER_LEN,
{
    nlmsg_align(NLMSG_HEADER_LEN)
}

/// Total length of a netlink message whose payload is `len` bytes long.
pub fn nlmsg_length(len: usize) -> (r: usize)
    requires
        len + NLMSG_HEADER_LEN <= usize::MAX,
    ensures
        r == len + NLMSG_HEADER_LEN,
{
    len + nlmsg_hdrlen()
}

/// Reads the 32-bit integer stored at `i`.
pub fn read_u32(buf: &[u8], i: usize, order: ByteOrder) -> (r: u32)
    requires
        i + 4 <= buf@.len(),
    ensures
        r == u32_at(buf@, i as int, order),
{
    // a slice's length fits in usize, so the offsets below do too
    let _len = buf.len();
    let (a, b, c, d) = match order {
        ByteOrder::Little => (buf[i], buf[i + 1], buf[i + 2], buf[i + 3]),
        ByteOrder::Big => (buf[i + 3], buf[i + 2], buf[i + 1], buf[i]),
    };
    a as u32 + 256 * (b as u32 + 256 * (c as u32 + 256 * d as u32))
}

/// Reads the 16-bit integer stored at `i`.
pub fn read_u16(buf: &[u8], i: usize, order: ByteOrder) -> (r: u16)
    requires
        i + 2 <= buf@.len(),
    ensures
        r == u16_at(buf@, i as int, order),
{
    // a slice's length fits in usize, so the offsets below do too
    let _len = buf.len();
    let (a, b) = match order {
        ByteOrder::Little => (buf[i], buf[i + 1]),
        ByteOrder::Big => (buf[i + 1], buf[i]),
    };
    a as u16 + 256 * b as u16
}

/// Appends the bytes that store `x` as a 32-bit integer.
pub fn push_u32(out: &mut Vec<u8>, x: u32, order: ByteOrder)
    ensures
        final(out)@ == old(out)@ + u32_bytes(x, order),
{
    let le: [u8; 4] = [
        (x % 256) as u8,
        ((x / 256) % 256) as u8,
        ((x / 65536) % 256) as u8,
        (x / 16777216) as u8,
    ];
    match order {
        ByteOrder::Little => {
            out.push(le[0]);
            out.push(le[1]);
            out.push(le[2]);
            out.push(le[3]);
        },
        ByteOrder::Big => {
            out.push(le[3]);
            out.push(le[2]);
            out.push(le[1]);
            out.push(le[0]);
        },
    }
    assert(final(out)@ =~= old(out)@ + u32_bytes(x, order));
}

/// Appends the bytes that store `x` as a 16-bit integer.
pub fn push_u16(out: &mut Vec<u8>, x: u16, order: ByteOrder)
    ensures
        final(out)@ == old(out)@ + u16_bytes(x, order),
{
    let lo = (x % 256) as u8;
    let hi = (x / 256) as u8;
    match order {
        ByteOrder::Little => {
            out.push(lo);
            out.push(hi);
        },
        ByteOrder::Big => {
            out.push(hi);
            out.push(lo);
        },
    }
    assert(final(out)@ =~= old(out)@ + u16_bytes(x, order));
}

} // verus!
