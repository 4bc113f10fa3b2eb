//! Reading frames out of the byte buffers that a transport delivers.

use vstd::prelude::*;
use std::collections::VecDeque;
use crate::error::ProtocolError;
use crate::frame::{header_bytes, parse_header, Frame, FrameType, HEADER_LEN};
use crate::packet::frame_bytes;

verus! {

/// Bytes received and not yet read. The transport's buffers are pushed in as
/// they come; reads take exactly as many bytes as asked, or none.
pub struct HandyReceiver {
    cache: VecDeque<u8>,
}

impl View for HandyReceiver {
    type V = Seq<u8>;

    closed spec fn view(&self) -> Seq<u8> {
        self.cache@
    }
}

impl HandyReceiver {
    pub fn new() -> (r: HandyReceiver)
        ensures
            r@ == Seq::<u8>::empty(),
    {
        HandyReceiver { cache: VecDeque::new() }
    }

    /// Appends a buffer that the transport delivered.
    pub fn push(&mut self, bytes: Vec<u8>)
        ensures
            final(self)@ == old(self)@ + bytes@,
    {
        let mut i: usize = 0;
        while i < bytes.len()
            invariant
                i <= bytes@.len(),
                self@ == old(self)@ + bytes@.subrange(0, i as int),
            decreases bytes@.len() - i,
        {
            self.cache.push_back(bytes[i]);
            i = i + 1;
            assert(bytes@.subrange(0, i as int) =~= bytes@.subrange(0, i - 1) + seq![bytes@[i - 1]]);
        }
        assert(bytes@.subrange(0, bytes@.len() as int) =~= bytes@);
    }

    /// How many bytes wait to be read.
    pub fn available(&self) -> (r: usize)
        ensures
            r == self@.len(),
    {
        self.cache.len()
    }

    /// The byte `i` places from the front, without taking it.
    pub fn peek(&self, i: usize) -> (r: u8)
        requires
            i < self@.len(),
        ensures
            r == self@[i as int],
    {
        self.cache[i]
    }

    /// Takes exactly `len` bytes from the front, or, where fewer wait, takes
    /// nothing and keeps every byte.
    pub fn read_exact(&mut self, len: usize) -> (r: Option<Vec<u8>>)
        ensures
            r is Some <==> len <= old(self)@.len(),
            r matches Some(v) ==> v@ == old(self)@.subrange(0, len as int) && final(self)@
                == old(self)@.subrange(len as int, old(self)@.len() as int),
            r is None ==> final(self)@ == old(self)@,
    {
        if self.cache.len() < len {
            return None;
        }
        let mut out: Vec<u8> = Vec::new();
        let mut i: usize = 0;
        while i < len
            invariant
                i <= len <= old(self)@.len(),
                out@ == old(self)@.subrange(0, i as int),
                self@ == old(self)@.subrange(i as int, old(self)@.len() as int),
            decreases len - i,
        {
            let b = self.cache.pop_front().unwrap();
            out.push(b);
            i = i + 1;
            assert(out@ =~= old(self)@.subrange(0, i as int));
            assert(self@ =~= old(self)@.subrange(i as int, old(self)@.len() as int));
        }
        Some(out)
    }
}

/// What the front of a receive buffer holds.
pub enum FramePoll {
    /// Not yet a whole frame.
    Incomplete,
    /// A header with an unknown type byte.
    Malformed,
    /// A whole frame: its type, sequence id and payload, and the bytes after it.
    Ready(FrameType, u8, Seq<u8>, Seq<u8>),
}

/// The frame at the front of `b`, if all of it is there.
pub open spec fn next_frame(b: Seq<u8>) -> FramePoll {
    if b.len() < 4 {
        FramePoll::Incomplete
    } else {
        match parse_header(b) {
            None => FramePoll::Malformed,
            Some(h) => if b.len() < 4 + h.len {
                FramePoll::Incomplete
            } else {
                FramePoll::Ready(
                    h.typ,
                    h.seq_id,
                    b.subrange(4, 4 + h.len),
                    b.subrange(4 + h.len, b.len() as int),
                )
            },
        }
    }
}

/// Reads whole frames from the bytes a transport delivers.
pub struct PackageReceiver {
    receiver: HandyReceiver,
}

impl View for PackageReceiver {
    type V = Seq<u8>;

    closed spec fn view(&self) -> Seq<u8> {
        self.receiver@
    }
}

impl PackageReceiver {
    pub fn new() -> (r: PackageReceiver)
        ensures
            r@ == Seq::<u8>::empty(),
    {
        PackageReceiver { receiver: HandyReceiver::new() }
    }

    /// Appends a buffer that the transport delivered.
    pub fn push(&mut self, bytes: Vec<u8>)
        ensures
            final(self)@ == old(self)@ + bytes@,
    {
        self.receiver.push(bytes);
    }

    /// Takes the next whole frame: `Ok(None)` while it is not all there (no byte
    /// is taken), `Err(MalformedFrame)` on an unknown type byte.
    pub fn read_package(&mut self) -> (r: Result<Option<(FrameType, u8, Vec<u8>)>, ProtocolError>)
        ensures
            match next_frame(old(self)@) {
                FramePoll::Incomplete => r == Ok::<_, ProtocolError>(None::<(FrameType, u8, Vec<u8>)>)
                    && final(self)@ == old(self)@,
                FramePoll::Malformed => r == Err::<Option<(FrameType, u8, Vec<u8>)>, _>(
                    ProtocolError::MalformedFrame,
                ),
                FramePoll::Ready(t, s, p, rest) => r matches Ok(Some((t2, s2, p2))) && t2 == t
                    && s2 == s && p2@ == p && final(self)@ == rest,
            },
    {
        let avail = self.receiver.available();
        if avail < HEADER_LEN {
            return Ok(None);
        }
        let hdr = vec![
            self.receiver.peek(0),
            self.receiver.peek(1),
            self.receiver.peek(2),
            self.receiver.peek(3),
        ];
        let ghost b = self@;
        assert(hdr@.subrange(0, 4) =~= b.subrange(0, 4));
        let frame = match Frame::decode(hdr.as_slice()) {
            Some(f) => f,
            None => return Err(ProtocolError::MalformedFrame),
        };
        if avail - HEADER_LEN < frame.len as usize {
            return Ok(None);
        }
        let _ = self.receiver.read_exact(HEADER_LEN);
        let payload = self.receiver.read_exact(frame.len as usize).unwrap();
        assert(payload@ =~= b.subrange(4, 4 + frame.len));
        assert(self@ =~= b.subrange(4 + frame.len, b.len() as int));
        Ok(Some((frame.typ, frame.seq_id, payload)))
    }
}

/// A frame as written, followed by any bytes, reads back as its type,
/// sequence id and payload, and leaves exactly the bytes that followed: the
/// header is four bytes and the payload is as long as the header declares.
pub proof fn lemma_frame_round_trip(typ: FrameType, seq_id: u8, payload: Seq<u8>, rest: Seq<u8>)
    requires
        payload.len() <= 65535,
    ensures
        frame_bytes(typ, seq_id, payload).len() == 4 + payload.len(),
        next_frame(frame_bytes(typ, seq_id, payload) + rest) == FramePoll::Ready(
            typ,
            seq_id,
            payload,
            rest,
        ),
{
    let h = Frame { typ, seq_id, len: payload.len() as u16 };
    crate::frame::lemma_header_round_trip(h);
    let b = frame_bytes(typ, seq_id, payload) + rest;
    assert(b.subrange(0, 4) =~= header_bytes(h));
    assert(parse_header(b) == parse_header(header_bytes(h)));
    assert(b.subrange(4, 4 + payload.len() as int) =~= payload);
    assert(b.subrange(4 + payload.len() as int, b.len() as int) =~= rest);
}

} // verus!
