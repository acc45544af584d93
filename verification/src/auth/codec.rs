//! The codecs of the authentication handshake.
//!
//! A request or response travels as one frame (see [`crate::frame`]) whose
//! payload is the message as JSON text; the codecs here frame and unframe
//! those payloads.

use vstd::prelude::*;

use crate::buffer::bytes_view;
use crate::frame::{
    FrameError, decode_fits, decode_spec, encode_fits, frame_of, try_decode_frame,
    try_encode_frame,
};

verus! {

/// Frames authentication requests.
pub struct AuthReqCodec;

/// Frames authentication responses.
pub struct AuthRespCodec;

impl AuthReqCodec {
    /// Appends the frame of a request's JSON text to `dst`;
    /// refuses, leaving `dst` as it is, a payload longer than a header can
    /// announce or a frame that `dst` could not hold.
    pub fn encode(&mut self, data: &[u8], dst: &mut bytes::BytesMut) -> (r: Result<(), FrameError>)
        ensures
            r is Ok <==> encode_fits(bytes_view(*old(dst)), data@),
            r is Ok ==> bytes_view(*final(dst)) == bytes_view(*old(dst)) + frame_of(data@),
            r is Err ==> bytes_view(*final(dst)) == bytes_view(*old(dst)),
    {
        try_encode_frame(data, dst)
    }

    /// Takes the next whole frame out of `src` and returns the request's JSON
    /// text; `None`, leaving `src` as it is, while the frame has not fully
    /// arrived. A frame too large to buffer is refused and `src` left
    /// as it is.
    pub fn decode(&mut self, src: &mut bytes::BytesMut) -> (r: Result<Option<Vec<u8>>, FrameError>)
        ensures
            r is Err <==> !decode_fits(bytes_view(*old(src))),
            r is Err ==> bytes_view(*final(src)) == bytes_view(*old(src)),
            r is Ok ==> match decode_spec(bytes_view(*old(src))) {
                None => r == Ok::<Option<Vec<u8>>, FrameError>(None) && bytes_view(*final(src))
                    == bytes_view(*old(src)),
                Some((p, rest)) => r matches Ok(Some(v)) && v@ == p && bytes_view(*final(src))
                    == rest,
            },
    {
        try_decode_frame(src)
    }
}

impl AuthRespCodec {
    /// Appends the frame of a response's JSON text to `dst`;
    /// refuses, leaving `dst` as it is, a payload longer than a header can
    /// announce or a frame that `dst` could not hold.
    pub fn encode(&mut self, data: &[u8], dst: &mut bytes::BytesMut) -> (r: Result<(), FrameError>)
        ensures
            r is Ok <==> encode_fits(bytes_view(*old(dst)), data@),
            r is Ok ==> bytes_view(*final(dst)) == bytes_view(*old(dst)) + frame_of(data@),
            r is Err ==> bytes_view(*final(dst)) == bytes_view(*old(dst)),
    {
        try_encode_frame(data, dst)
    }

    /// Takes the next whole frame out of `src` and returns the response's
    /// JSON text; `None`, leaving `src` as it is, while the frame has not
    /// fully arrived. A frame too large to buffer is refused and `src` left
    /// as it is.
    pub fn decode(&mut self, src: &mut bytes::BytesMut) -> (r: Result<Option<Vec<u8>>, FrameError>)
        ensures
            r is Err <==> !decode_fits(bytes_view(*old(src))),
            r is Err ==> bytes_view(*final(src)) == bytes_view(*old(src)),
            r is Ok ==> match decode_spec(bytes_view(*old(src))) {
                None => r == Ok::<Option<Vec<u8>>, FrameError>(None) && bytes_view(*final(src))
                    == bytes_view(*old(src)),
                Some((p, rest)) => r matches Ok(Some(v)) && v@ == p && bytes_view(*final(src))
                    == rest,
            },
    {
        try_decode_frame(src)
    }
}

} // verus!
