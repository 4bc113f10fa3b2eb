//! The packet layer: sequence ids and whole frames, header and payload together.

use vstd::prelude::*;
use crate::error::ProtocolError;
use crate::frame::{header_bytes, Frame, FrameType};

verus! {

/// Largest payload that a header can declare.
pub const MAX_PAYLOAD: usize = 65535;

/// The sequence id that follows `s`: 1 after 255 (and after a fresh 0), never 0.
pub open spec fn next_seq(s: u8) -> u8 {
    if s >= 255 {
        1
    } else {
        (s + 1) as u8
    }
}

/// The counter after `n` emissions from a fresh counter.
pub open spec fn seq_after(n: nat) -> u8
    decreases n,
{
    if n == 0 {
        0
    } else {
        next_seq(seq_after((n - 1) as nat))
    }
}

/// The bytes of a whole frame: header, then payload.
pub open spec fn frame_bytes(typ: FrameType, seq_id: u8, payload: Seq<u8>) -> Seq<u8> {
    header_bytes(Frame { typ, seq_id, len: payload.len() as u16 }) + payload
}

/// Emits frames and hands out sequence ids.
pub struct PackageSender {
    seq_id: u8,
}

impl PackageSender {
    /// The last sequence id handed out (0 before the first).
    pub closed spec fn last_seq(&self) -> u8 {
        self.seq_id
    }

    pub fn new() -> (r: PackageSender)
        ensures
            r.last_seq() == 0,
    {
        PackageSender { seq_id: 0 }
    }

    /// The next sequence id, which is now the last one handed out.
    pub fn next_seq_id(&mut self) -> (r: u8)
        ensures
            r == next_seq(old(self).last_seq()),
            final(self).last_seq() == r,
    {
        if self.seq_id >= 255 {
            self.seq_id = 0;
        }
        self.seq_id = self.seq_id + 1;
        self.seq_id
    }

    /// The sequence id that `next_seq_id` would hand out now.
    pub fn peek_seq_id(&self) -> (r: u8)
        ensures
            r == next_seq(self.last_seq()),
    {
        if self.seq_id >= 255 {
            1
        } else {
            self.seq_id + 1
        }
    }

    /// A frame of the given type and sequence id around `msg`, as one buffer,
    /// so that no other frame can come between its header and its payload.
    pub fn write_package(typ: FrameType, seq_id: u8, msg: &Vec<u8>) -> (r: Result<
        Vec<u8>,
        ProtocolError,
    >)
        ensures
            msg@.len() <= MAX_PAYLOAD <==> r is Ok,
            r matches Ok(b) ==> b@ == frame_bytes(typ, seq_id, msg@),
            r matches Err(e) ==> e == ProtocolError::PayloadTooLarge,
    {
        if msg.len() > MAX_PAYLOAD {
            return Err(ProtocolError::PayloadTooLarge);
        }
        let mut res = Frame::new(typ, seq_id, msg.len() as u16).encode();
        let mut i: usize = 0;
        while i < msg.len()
            invariant
                i <= msg@.len(),
                res@ == header_bytes(Frame { typ, seq_id, len: msg@.len() as u16 }) + msg@.subrange(
                    0,
                    i as int,
                ),
            decreases msg@.len() - i,
        {
            res.push(msg[i]);
            i = i + 1;
            assert(msg@.subrange(0, i as int) =~= msg@.subrange(0, i - 1) + seq![msg@[i - 1]]);
        }
        assert(msg@.subrange(0, msg@.len() as int) =~= msg@);
        Ok(res)
    }

    /// A response frame for the request that came with `seq_id`.
    pub fn send_response(seq_id: u8, rsp: &Vec<u8>) -> (r: Result<Vec<u8>, ProtocolError>)
        ensures
            rsp@.len() <= MAX_PAYLOAD <==> r is Ok,
            r matches Ok(b) ==> b@ == frame_bytes(FrameType::Response, seq_id, rsp@),
            r matches Err(e) ==> e == ProtocolError::PayloadTooLarge,
    {
        Self::write_package(FrameType::Response, seq_id, rsp)
    }
}

/// Sequence ids run 1, 2, ..., 255, 1, ... from a fresh counter: the n-th one
/// handed out is ((n - 1) mod 255) + 1, and 0 never comes.
pub proof fn lemma_seq_cycle(n: nat)
    requires
        n >= 1,
    ensures
        seq_after(n) as int == (n - 1) % 255 + 1,
        seq_after(n) != 0,
        seq_after(n + 1) == (if seq_after(n) == 255 { 1 } else { seq_after(n) + 1 }),
    decreases n,
{
    if n == 1 {
        assert(seq_after(1) == next_seq(seq_after(0)));
    } else {
        lemma_seq_cycle((n - 1) as nat);
        assert(seq_after(n) == next_seq(seq_after((n - 1) as nat)));
        let k = (n - 2) as int;
        assert(k % 255 + 1 == 255 ==> (k + 1) % 255 == 0) by (nonlinear_arith)
            requires k >= 0;
        assert(k % 255 + 1 < 255 ==> (k + 1) % 255 == k % 255 + 1) by (nonlinear_arith)
            requires k >= 0;
    }
}

/// After 255 emissions from a fresh counter, the next sequence id is 1.
pub proof fn lemma_seq_wraps_after_255()
    ensures
        seq_after(255) == 255,
        seq_after(256) == 1,
{
    lemma_seq_cycle(255);
}

} // verus!
