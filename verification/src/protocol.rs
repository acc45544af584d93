//! The commands exchanged on a proxy's control stream, and their codecs.
//!
//! A command travels as one frame (see [`crate::frame`]) whose payload is the
//! command in the binary encoding of the wire format; the codecs here frame
//! and unframe those payloads.

use vstd::prelude::*;

use crate::buffer::bytes_view;
use crate::frame::{
    FrameError, decode_fits, decode_spec, encode_fits, frame_of, try_decode_frame,
    try_encode_frame,
};

verus! {

/// Commands from the server to the client.
#[derive(Debug, PartialEq, Eq)]
pub enum ServerCommand {
    /// The proxy is up and listens at this address.
    ForwardingStarted(String),
    /// The proxy could not be set up, for this reason.
    ForwardingFailed(String),
    /// The server closed the proxy.
    ForwardingShutdown,
    /// Keepalive probe.
    Ping,
}

/// Commands from the client to the server.
#[derive(Debug, Clone, Copy, PartialEq, Eq)]
pub enum ClientCommand {
    /// The client closes the proxy.
    ClientShutdown,
    /// Answer to a keepalive probe.
    Ack,
}

/// Frames server commands.
pub struct ServerCommandCodec;

/// Frames client commands.
pub struct ClientCommandCodec;

impl ServerCommandCodec {
    /// Appends the frame of an encoded server command to `dst`;
    /// refuses, leaving `dst` as it is, a payload longer than a header can
    /// announce or a frame that `dst` could not hold.
    pub fn encode(&mut self, data: &[u8], dst: &mut bytes::BytesMut) -> (r: Result<(), FrameError>)
        ensures
            r is Ok <==> encode_fits(bytes_view(*old(dst)), data@),
            r is Ok ==> bytes_view(*final(dst)) == bytes_view(*old(dst)) + frame_of(data@),
            r is Err ==> bytes_view(*final(dst)) == bytes_view(*old(dst)),
    {
        try_encode_frame(data, dst)
    }

    /// Takes the next whole frame out of `src` and returns the encoded
    /// server command it carries; `None`, leaving `src` as it is, while the
    /// frame has not fully arrived. A frame too large to buffer is refused and `src` left
    /// as it is.
    pub fn decode(&mut self, src: &mut bytes::BytesMut) -> (r: Result<Option<Vec<u8>>, FrameError>)
        ensures
            r is Err <==> !decode_fits(bytes_view(*old(src))),
            r is Err ==> bytes_view(*final(src)) == bytes_view(*old(src)),
            r is Ok ==> match decode_spec(bytes_view(*old(src))) {
                None => r == Ok::<Option<Vec<u8>>, FrameError>(None) && bytes_view(*final(src))
                    == bytes_view(*old(src)),
                Some((p, rest)) => r matches Ok(Some(v)) && v@ == p && bytes_view(*final(src))
                    == rest,
            },
    {
        try_decode_frame(src)
    }
}

impl ClientCommandCodec {
    /// Appends the frame of an encoded client command to `dst`;
    /// refuses, leaving `dst` as it is, a payload longer than a header can
    /// announce or a frame that `dst` could not hold.
    pub fn encode(&mut self, data: &[u8], dst: &mut bytes::BytesMut) -> (r: Result<(), FrameError>)
        ensures
            r is Ok <==> encode_fits(bytes_view(*old(dst)), data@),
            r is Ok ==> bytes_view(*final(dst)) == bytes_view(*old(dst)) + frame_of(data@),
            r is Err ==> bytes_view(*final(dst)) == bytes_view(*old(dst)),
    {
        try_encode_frame(data, dst)
    }

    /// Takes the next whole frame out of `src` and returns the encoded
    /// client command it carries; `None`, leaving `src` as it is, while the
    /// frame has not fully arrived. A frame too large to buffer is refused and `src` left
    /// as it is.
    pub fn decode(&mut self, src: &mut bytes::BytesMut) -> (r: Result<Option<Vec<u8>>, FrameError>)
        ensures
            r is Err <==> !decode_fits(bytes_view(*old(src))),
            r is Err ==> bytes_view(*final(src)) == bytes_view(*old(src)),
            r is Ok ==> match decode_spec(bytes_view(*old(src))) {
                None => r == Ok::<Option<Vec<u8>>, FrameError>(None) && bytes_view(*final(src))
                    == bytes_view(*old(src)),
                Some((p, rest)) => r matches Ok(Some(v)) && v@ == p && bytes_view(*final(src))
                    == rest,
            },
    {
        try_decode_frame(src)
    }
}

/// When a peer on a control stream is given up: after `timeout` time units
/// in which nothing was heard from it. Times are read from one clock that
/// does not go back, and given as plain numbers.
pub struct Keepalive {
    last_heard: u64,
    timeout: u64,
}

impl Keepalive {
    /// The last time the peer was heard from.
    pub closed spec fn last_heard(&self) -> u64 {
        self.last_heard
    }

    /// How long the peer may stay silent.
    pub closed spec fn timeout(&self) -> u64 {
        self.timeout
    }

    /// The time from which the peer counts as gone.
    pub open spec fn deadline_of(&self) -> int {
        self.last_heard() + self.timeout()
    }

    /// A peer first heard from at `now`.
    pub fn new(now: u64, timeout: u64) -> (k: Self)
        ensures
            k.last_heard() == now,
            k.timeout() == timeout,
    {
        Keepalive { last_heard: now, timeout }
    }

    /// The peer was heard from at `now`; an earlier time changes nothing.
    pub fn heard(&mut self, now: u64)
        ensures
            final(self).timeout() == old(self).timeout(),
            final(self).last_heard() == if now > old(self).last_heard() {
                now
            } else {
                old(self).last_heard()
            },
    {
        if now > self.last_heard {
            self.last_heard = now;
        }
    }

    /// The time from which the peer counts as gone: `timeout` after it was
    /// last heard from (the clock's end if that lies beyond it).
    pub fn deadline(&self) -> (d: u64)
        ensures
            d == if self.deadline_of() <= u64::MAX {
                self.deadline_of()
            } else {
                u64::MAX as int
            },
    {
        if self.timeout > u64::MAX - self.last_heard {
            u64::MAX
        } else {
            self.last_heard + self.timeout
        }
    }

    /// Whether the peer counts as gone at `now`.
    pub fn expired(&self, now: u64) -> (b: bool)
        ensures
            b == (now >= self.deadline_of()),
    {
        now >= self.last_heard && now - self.last_heard >= self.timeout
    }
}

/// A peer counts as gone exactly when it has been silent for the whole
/// timeout: at any time `now` from its last hearing on, `now` is past the
/// deadline if and only if `now - last_heard >= timeout`. In particular it is
/// gone at `last_heard + timeout`, and the deadline is that time.
pub proof fn lemma_gone_after_timeout(k: Keepalive, now: int)
    requires
        now >= k.last_heard(),
    ensures
        now >= k.deadline_of() <==> now - k.last_heard() >= k.timeout(),
        k.deadline_of() == k.last_heard() + k.timeout(),
{
}

/// Hearing from a peer keeps it alive for a whole timeout: right after it was
/// heard from at `now`, it is not gone before `now + timeout`.
pub proof fn lemma_heard_keeps_alive(k: Keepalive, now: u64, later: u64)
    requires
        k.last_heard() == now,
        now <= later,
        later < now + k.timeout(),
    ensures
        later < k.deadline_of(),
{
}

} // verus!
