//! Length-prefixed framing of the messages exchanged on a control stream.
//!
//! A frame is a four-byte big-endian length followed by that many payload
//! bytes. Encoding appends one frame to the output buffer; decoding waits
//! until a whole frame is buffered, then removes exactly that frame and hands
//! out its payload.

use vstd::prelude::*;

use crate::buffer::{
    bytes_extend_from_slice, bytes_index, bytes_into_vec, bytes_len, bytes_put_u32, bytes_reserve,
    bytes_split_to, bytes_view,
};

verus! {

/// The largest payload length that a frame header can carry.
pub open spec fn max_payload() -> int {
    0x1_0000_0000 - 1
}

/// The four big-endian bytes of `n`.
pub open spec fn be_u32_bytes(n: u32) -> Seq<u8> {
    seq![
        (n / 16777216) as u8,
        ((n / 65536) % 256) as u8,
        ((n / 256) % 256) as u8,
        (n % 256) as u8,
    ]
}

/// The number that four big-endian bytes denote.
pub open spec fn be_u32_value(b: Seq<u8>) -> int {
    b[0] * 16777216 + b[1] * 65536 + b[2] * 256 + b[3]
}

/// The header that announces a payload of `len` bytes, for `len` up to
/// [`max_payload`]: the length written as a `u32`.
pub open spec fn frame_header(len: nat) -> Seq<u8> {
    be_u32_bytes((len % 0x1_0000_0000) as u32)
}

/// The frame that carries `data`.
pub open spec fn frame_of(data: Seq<u8>) -> Seq<u8> {
    frame_header(data.len()) + data
}

/// The length that the header at the front of `buf` announces.
pub open spec fn announced_len(buf: Seq<u8>) -> int {
    be_u32_value(buf.take(4))
}

/// Whether `buf` starts with a whole frame.
pub open spec fn frame_complete(buf: Seq<u8>) -> bool {
    buf.len() >= 4 && buf.len() >= announced_len(buf) + 4
}

/// What decoding `buf` yields: nothing while the first frame is incomplete,
/// otherwise the payload of the first frame and the bytes after it.
pub open spec fn decode_spec(buf: Seq<u8>) -> Option<(Seq<u8>, Seq<u8>)> {
    if frame_complete(buf) {
        let n = announced_len(buf);
        Some((buf.subrange(4, n + 4), buf.skip(n + 4)))
    } else {
        None
    }
}

proof fn lemma_be_u32_roundtrip(n: u32)
    ensures
        be_u32_value(be_u32_bytes(n)) == n,
        be_u32_bytes(n).len() == 4,
{
    let b = be_u32_bytes(n);
    assert(b[0] == n / 16777216);
    assert(b[1] == (n / 65536) % 256);
    assert(b[2] == (n / 256) % 256);
    assert(b[3] == n % 256);
    assert((n / 16777216) * 16777216 + ((n / 65536) % 256) * 65536 + ((n / 256) % 256) * 256 + n
        % 256 == n) by (nonlinear_arith);
}

proof fn lemma_be_u32_value_bytes(b: Seq<u8>)
    requires
        b.len() == 4,
    ensures
        0 <= be_u32_value(b) <= max_payload(),
        be_u32_bytes(be_u32_value(b) as u32) =~= b,
{
    let v = be_u32_value(b);
    let (b0, b1, b2, b3) = (b[0] as int, b[1] as int, b[2] as int, b[3] as int);
    assert(0 <= v <= max_payload()) by (nonlinear_arith)
        requires
            v == b0 * 16777216 + b1 * 65536 + b2 * 256 + b3,
            0 <= b0 < 256,
            0 <= b1 < 256,
            0 <= b2 < 256,
            0 <= b3 < 256,
    ;
    assert(v / 16777216 == b0 && (v / 65536) % 256 == b1 && (v / 256) % 256 == b2 && v % 256
        == b3) by (nonlinear_arith)
        requires
            v == b0 * 16777216 + b1 * 65536 + b2 * 256 + b3,
            0 <= b0 < 256,
            0 <= b1 < 256,
            0 <= b2 < 256,
            0 <= b3 < 256,
    ;
}

/// A frame is read back whole: decoding a frame followed by any bytes gives
/// back its payload and leaves exactly the bytes that followed it.
pub proof fn lemma_frame_roundtrip(data: Seq<u8>, rest: Seq<u8>)
    requires
        data.len() <= max_payload(),
    ensures
        decode_spec(frame_of(data) + rest) == Some((data, rest)),
{
    let buf = frame_of(data) + rest;
    let n = data.len() as int;
    lemma_be_u32_roundtrip(n as u32);
    assert(n % 0x1_0000_0000 == n);
    assert(buf.take(4) =~= frame_header(data.len()));
    assert(announced_len(buf) == n);
    assert(buf.subrange(4, n + 4) =~= data);
    assert(buf.skip(n + 4) =~= rest);
}

/// A frame is its payload's length in four bytes, most significant first,
/// followed by the payload itself.
pub proof fn lemma_frame_layout(data: Seq<u8>)
    requires
        data.len() < 0x1_0000_0000,
    ensures
        frame_of(data).len() == data.len() + 4,
        frame_of(data)[0] == data.len() / 0x100_0000,
        frame_of(data)[1] == (data.len() / 0x1_0000) % 0x100,
        frame_of(data)[2] == (data.len() / 0x100) % 0x100,
        frame_of(data)[3] == data.len() % 0x100,
        frame_of(data)[0] * 0x100_0000 + frame_of(data)[1] * 0x1_0000 + frame_of(data)[2] * 0x100
            + frame_of(data)[3] == data.len(),
        frame_of(data).skip(4) == data,
{
    let n = data.len();
    lemma_be_u32_roundtrip(n as u32);
    assert(n % 0x1_0000_0000 == n);
    assert(frame_of(data).skip(4) =~= data);
}

/// Any payload shorter than 2^32 bytes can be framed, as long as the buffer
/// it is appended to stays within the largest allocation; no longer payload can.
pub proof fn lemma_frame_capacity(dst: Seq<u8>, data: Seq<u8>)
    ensures
        encode_fits(dst, data) <==> (data.len() < 0x1_0000_0000 && dst.len() + data.len() + 4
            <= isize::MAX),
{
}

/// A frame that has only partly arrived is not decoded.
pub proof fn lemma_frame_prefix_incomplete(data: Seq<u8>, k: int)
    requires
        data.len() <= max_payload(),
        0 <= k < frame_of(data).len(),
    ensures
        decode_spec(frame_of(data).take(k)) is None,
{
    let n = data.len();
    let buf = frame_of(data).take(k);
    lemma_be_u32_roundtrip(n as u32);
    assert(n % 0x1_0000_0000 == n);
    if k >= 4 {
        assert(buf.take(4) =~= frame_header(n));
    }
}

/// Whatever decoding takes from a buffer is one frame: the frame of the payload
/// it hands out, followed by the bytes it leaves, is the buffer it started from.
pub proof fn lemma_frame_decode_restores(buf: Seq<u8>)
    requires
        decode_spec(buf) is Some,
    ensures
        ({
            let (payload, rest) = decode_spec(buf)->0;
            &&& payload.len() <= max_payload()
            &&& frame_of(payload) + rest == buf
        }),
{
    let n = announced_len(buf);
    lemma_be_u32_value_bytes(buf.take(4));
    let (payload, rest) = decode_spec(buf)->0;
    assert(payload.len() == n);
    assert((n as nat) % 0x1_0000_0000 == n);
    assert(frame_header(payload.len()) =~= buf.take(4));
    assert(frame_of(payload) + rest =~= buf);
}

/// Appends the frame that carries `data` to `dst`.
pub fn encode_frame(data: &[u8], dst: &mut bytes::BytesMut)
    requires
        data@.len() <= max_payload(),
        bytes_view(*old(dst)).len() + data@.len() + 4 <= isize::MAX,
    ensures
        bytes_view(*final(dst)) == bytes_view(*old(dst)) + frame_of(data@),
{
    let data_len = data.len();
    bytes_reserve(dst, data_len + 4);
    let header = data_len as u32;
    assert(header as u64 == (data_len as u64) % 0x1_0000_0000u64) by (bit_vector)
        requires
            header == data_len as u32,
    ;
    bytes_put_u32(dst, header);
    bytes_extend_from_slice(dst, data);
    assert(bytes_view(*dst) =~= bytes_view(*old(dst)) + frame_of(data@));
}

/// Takes the first whole frame out of `src` and returns its payload; returns
/// `None`, with `src` unchanged, while the frame has not fully arrived.
/// The header length is bounded by the largest allocation (always so where
/// `usize` has 64 bits), as growing the buffer toward a larger frame panics.
pub fn decode_frame(src: &mut bytes::BytesMut) -> (payload: Option<Vec<u8>>)
    requires
        bytes_view(*old(src)).len() >= 4 ==> announced_len(bytes_view(*old(src))) + 4
            <= isize::MAX,
    ensures
        match decode_spec(bytes_view(*old(src))) {
            None => payload is None && bytes_view(*final(src)) == bytes_view(*old(src)),
            Some((p, rest)) => payload matches Some(v) && v@ == p && bytes_view(*final(src))
                == rest,
        },
{
    let buf_len = bytes_len(src);
    if buf_len < 4 {
        return None;
    }
    let b0 = bytes_index(src, 0);
    let b1 = bytes_index(src, 1);
    let b2 = bytes_index(src, 2);
    let b3 = bytes_index(src, 3);
    proof {
        let s = bytes_view(*src);
        assert(s.take(4) =~= seq![b0, b1, b2, b3]);
        lemma_be_u32_value_bytes(s.take(4));
    }
    let data_len: u64 = (b0 as u64) * 16777216 + (b1 as u64) * 65536 + (b2 as u64) * 256
        + (b3 as u64);
    let frame_len: u64 = data_len + 4;
    if (buf_len as u64) < frame_len {
        bytes_reserve(src, (frame_len - buf_len as u64) as usize);
        return None;
    }
    let frame_len = frame_len as usize;
    let mut frame = bytes_split_to(src, frame_len);
    let _header = bytes_split_to(&mut frame, 4);
    let payload = bytes_into_vec(frame);
    proof {
        let s = bytes_view(*old(src));
        assert(bytes_view(frame) =~= s.subrange(4, frame_len as int));
    }
    Some(payload)
}

/// Why a frame cannot be handled.
#[derive(Debug, Clone, Copy, PartialEq, Eq)]
pub enum FrameError {
    /// The payload is longer than a header can announce, or the frame would
    /// make the buffer larger than the largest allocation.
    TooLarge,
}

/// Whether a header can announce `data` and appending its frame keeps `dst`
/// within the largest allocation.
pub open spec fn encode_fits(dst: Seq<u8>, data: Seq<u8>) -> bool {
    data.len() <= max_payload() && dst.len() + data.len() + 4 <= isize::MAX
}

/// Whether the frame announced at the front of `buf` can be buffered: no
/// header yet, or a header whose frame stays within the largest allocation.
pub open spec fn decode_fits(buf: Seq<u8>) -> bool {
    buf.len() >= 4 ==> announced_len(buf) + 4 <= isize::MAX
}

/// Appends the frame that carries `data` to `dst`, or refuses, leaving `dst`
/// as it is, when a header cannot announce `data` or the buffer could not
/// grow to hold the frame.
pub fn try_encode_frame(data: &[u8], dst: &mut bytes::BytesMut) -> (r: Result<(), FrameError>)
    ensures
        r is Ok <==> encode_fits(bytes_view(*old(dst)), data@),
        r is Ok ==> bytes_view(*final(dst)) == bytes_view(*old(dst)) + frame_of(data@),
        r is Err ==> bytes_view(*final(dst)) == bytes_view(*old(dst)),
{
    let held = bytes_len(dst);
    let room: usize = isize::MAX as usize;
    if data.len() as u64 > 0xffff_ffffu64 || held > room || data.len() > room - held || 4 > room
        - held - data.len() {
        return Err(FrameError::TooLarge);
    }
    encode_frame(data, dst);
    Ok(())
}

/// Reads the header at the front of `src` and refuses, leaving `src` as it
/// is, a frame that could not be buffered; otherwise decodes as
/// [`decode_frame`] does.
pub fn try_decode_frame(src: &mut bytes::BytesMut) -> (r: Result<Option<Vec<u8>>, FrameError>)
    ensures
        r is Err <==> !decode_fits(bytes_view(*old(src))),
        r is Err ==> bytes_view(*final(src)) == bytes_view(*old(src)),
        r is Ok ==> match decode_spec(bytes_view(*old(src))) {
            None => r == Ok::<Option<Vec<u8>>, FrameError>(None) && bytes_view(*final(src))
                == bytes_view(*old(src)),
            Some((p, rest)) => r matches Ok(Some(v)) && v@ == p && bytes_view(*final(src))
                == rest,
        },
{
    if bytes_len(src) >= 4 {
        let b0 = bytes_index(src, 0);
        let b1 = bytes_index(src, 1);
        let b2 = bytes_index(src, 2);
        let b3 = bytes_index(src, 3);
        proof {
            let s = bytes_view(*src);
            assert(s.take(4) =~= seq![b0, b1, b2, b3]);
            lemma_be_u32_value_bytes(s.take(4));
        }
        let announced: u64 = (b0 as u64) * 16777216 + (b1 as u64) * 65536 + (b2 as u64) * 256
            + (b3 as u64);
        if announced + 4 > isize::MAX as u64 {
            return Err(FrameError::TooLarge);
        }
    }
    Ok(decode_frame(src))
}

} // verus!
