use vstd::prelude::*;

verus! {

/// Size of a message header: request code, flags and body size, each a
/// little-endian `u32`.
pub const HEADER_LEN: usize = 12;

/// Bit of the header's flags that marks a message as a reply.
pub const REPLY_FLAG: u32 = 0x4;

/// The little-endian `u32` that starts at byte `i` of `b`.
pub open spec fn le_u32(b: Seq<u8>, i: int) -> int {
    b[i] as int + 256 * b[i + 1] + 65536 * b[i + 2] + 16777216 * b[i + 3]
}

/// The flags field of the header at the start of `m`.
pub open spec fn flags_of(m: Seq<u8>) -> u32 {
    le_u32(m, 4) as u32
}

/// The body length declared by the header at the start of `m`.
pub open spec fn body_len_of(m: Seq<u8>) -> nat {
    le_u32(m, 8) as nat
}

/// Whether the header at the start of `m` marks a reply.
pub open spec fn is_reply_msg(m: Seq<u8>) -> bool {
    flags_of(m) & REPLY_FLAG != 0
}

/// The length of the whole message that the header at the start of `m` declares.
pub open spec fn framed_len(m: Seq<u8>) -> nat {
    (HEADER_LEN + body_len_of(m)) as nat
}

/// `m` holds exactly one message: a header and the body it declares.
pub open spec fn is_framed(m: Seq<u8>) -> bool {
    m.len() >= HEADER_LEN && m.len() == framed_len(m)
}

/// A parsed message header.
#[derive(Debug, Clone, Copy, PartialEq, Eq, Structural)]
pub struct MsgHeader {
    pub request: u32,
    pub flags: u32,
    pub size: u32,
}

impl MsgHeader {
    /// Whether the message is a reply.
    pub fn is_reply(&self) -> (r: bool)
        ensures
            r == (self.flags & REPLY_FLAG != 0),
    {
        self.flags & REPLY_FLAG != 0
    }

    /// The declared body length.
    pub fn get_size(&self) -> (r: u32)
        ensures
            r == self.size,
    {
        self.size
    }
}

/// Reads the little-endian `u32` at byte `i` of `b`.
pub fn read_le_u32(b: &[u8], i: usize) -> (r: u32)
    requires
        i + 4 <= b@.len(),
    ensures
        r as int == le_u32(b@, i as int),
{
    let b0 = b[i] as u32;
    let b1 = b[i + 1] as u32;
    let b2 = b[i + 2] as u32;
    let b3 = b[i + 3] as u32;
    assert(b0 + 256 * b1 + 65536 * b2 + 16777216 * b3 <= 0xffff_ffff) by (nonlinear_arith)
        requires
            b0 <= 255,
            b1 <= 255,
            b2 <= 255,
            b3 <= 255,
    ;
    b0 + 256 * b1 + 65536 * b2 + 16777216 * b3
}

/// Parses the header at the start of `b`; `None` when `b` is shorter than a header.
pub fn header_from_bytes(b: &[u8]) -> (r: Option<MsgHeader>)
    ensures
        r is Some <==> b@.len() >= HEADER_LEN,
        r matches Some(h) ==> {
            &&& h.request as int == le_u32(b@, 0)
            &&& h.flags == flags_of(b@)
            &&& h.size as nat == body_len_of(b@)
        },
{
    if b.len() < HEADER_LEN {
        return None;
    }
    let request = read_le_u32(b, 0);
    let flags = read_le_u32(b, 4);
    let size = read_le_u32(b, 8);
    Some(MsgHeader { request, flags, size })
}

} // verus!
