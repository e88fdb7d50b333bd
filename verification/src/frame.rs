//! The framing of messages inside a tunnelled call: one flag byte, the
//! length of the payload as four bytes with the most significant first,
//! then the payload.

use crate::error::Error;
use crate::wire::append_bytes;
use vstd::prelude::*;

verus! {

/// The length of the prefix of a frame.
pub const FRAME_HEADER_LEN: usize = 5;

/// The four bytes of a 32-bit number, the most significant first.
pub open spec fn be32(n: u32) -> Seq<u8> {
    seq![
        (n / 0x1000000) as u8,
        (n / 0x10000 % 256) as u8,
        (n / 0x100 % 256) as u8,
        (n % 256) as u8,
    ]
}

/// The number that four bytes stand for, the most significant first.
pub open spec fn be32_value(b: Seq<u8>) -> nat {
    (b[0] * 0x1000000 + b[1] * 0x10000 + b[2] * 0x100 + b[3]) as nat
}

/// The frame of a payload.
pub open spec fn framed(payload: Seq<u8>) -> Seq<u8> {
    seq![0u8] + be32(payload.len() as u32) + payload
}

/// What stands at the front of a buffer.
pub ghost enum FrameView {
    /// Less than a whole frame: more bytes are needed.
    Incomplete,
    /// A frame whose flag byte is not zero.
    Unsupported,
    /// A frame that announces more bytes than the limit allows.
    TooLarge,
    /// A whole frame: its payload, and the length of the frame.
    Message { payload: Seq<u8>, consumed: nat },
}

/// Reads the front of a buffer. The flag and the length are judged as soon
/// as the five bytes of the prefix are there.
pub open spec fn parse_frame(b: Seq<u8>, limit: u32) -> FrameView {
    if b.len() < 5 {
        FrameView::Incomplete
    } else if b[0] != 0 {
        FrameView::Unsupported
    } else {
        let len = be32_value(b.subrange(1, 5));
        if len > limit {
            FrameView::TooLarge
        } else if b.len() < 5 + len {
            FrameView::Incomplete
        } else {
            FrameView::Message { payload: b.subrange(5, (5 + len) as int), consumed: 5 + len }
        }
    }
}

/// What stands at the front of a buffer.
#[derive(Debug, Clone, PartialEq, Eq)]
pub enum Unframed {
    /// Less than a whole frame: more bytes are needed.
    Incomplete,
    /// A frame whose flag byte is not zero.
    Unsupported,
    /// A frame that announces more bytes than the limit allows.
    TooLarge,
    /// A whole frame: its payload, and the length of the frame.
    Message { payload: Vec<u8>, consumed: usize },
}

impl View for Unframed {
    type V = FrameView;

    open spec fn view(&self) -> FrameView {
        match self {
            Unframed::Incomplete => FrameView::Incomplete,
            Unframed::Unsupported => FrameView::Unsupported,
            Unframed::TooLarge => FrameView::TooLarge,
            Unframed::Message { payload, consumed } => FrameView::Message {
                payload: payload@,
                consumed: *consumed as nat,
            },
        }
    }
}

/// The frame of a payload. Fails with a protocol error exactly where the
/// payload is longer than a 32-bit length can say.
pub fn frame_message(payload: &[u8]) -> (r: Result<Vec<u8>, Error>)
    ensures
        payload@.len() <= u32::MAX ==> r is Ok && r.unwrap()@ == framed(payload@),
        payload@.len() > u32::MAX ==> (r matches Err(Error::Protocol(m)) && m@
            == "message is too long for one frame"@),
{
    if payload.len() > u32::MAX as usize {
        return Err(Error::protocol("message is too long for one frame"));
    }
    let n: u32 = payload.len() as u32;
    let mut out: Vec<u8> = Vec::new();
    out.push(0u8);
    out.push((n / 0x1000000) as u8);
    out.push((n / 0x10000 % 256) as u8);
    out.push((n / 0x100 % 256) as u8);
    out.push((n % 256) as u8);
    assert(out@ =~= seq![0u8] + be32(n));
    append_bytes(&mut out, payload);
    Ok(out)
}

/// Reads the front of a buffer.
pub fn next_frame(buf: &[u8], limit: u32) -> (r: Unframed)
    ensures
        r@ == parse_frame(buf@, limit),
{
    if buf.len() < 5 {
        return Unframed::Incomplete;
    }
    if buf[0] != 0 {
        return Unframed::Unsupported;
    }
    let ghost head = buf@.subrange(1, 5);
    assert(head[0] == buf@[1] && head[1] == buf@[2] && head[2] == buf@[3] && head[3] == buf@[4]);
    let len: u64 = (buf[1] as u64) * 0x1000000 + (buf[2] as u64) * 0x10000 + (buf[3] as u64)
        * 0x100 + (buf[4] as u64);
    if len > limit as u64 {
        return Unframed::TooLarge;
    }
    if ((buf.len() - 5) as u64) < len {
        return Unframed::Incomplete;
    }
    let end: usize = 5 + len as usize;
    let payload = vstd::slice::slice_to_vec(vstd::slice::slice_subrange(buf, 5, end));
    Unframed::Message { payload, consumed: end }
}

/// The four bytes of a number stand for that number.
pub proof fn lemma_be32_roundtrip(n: u32)
    ensures
        be32_value(be32(n)) == n,
{
}

/// A frame, whatever follows it, is read back as its payload and its own
/// length.
pub proof fn lemma_frame_roundtrip(payload: Seq<u8>, rest: Seq<u8>, limit: u32)
    requires
        payload.len() <= limit,
    ensures
        parse_frame(framed(payload) + rest, limit) == (FrameView::Message {
            payload,
            consumed: 5 + payload.len(),
        }),
{
    let n = payload.len() as u32;
    let b = framed(payload) + rest;
    lemma_be32_roundtrip(n);
    assert(b.subrange(1, 5) =~= be32(n));
    assert(b.subrange(5, (5 + payload.len()) as int) =~= payload);
}

} // verus!
