//! The 4-byte frame header: type, sequence id and big-endian payload length.

use vstd::prelude::*;
use byteorder::{ByteOrder, NetworkEndian};

verus! {

/// Length of a frame header on the wire.
pub const HEADER_LEN: usize = 4;

/// What a frame carries.
#[derive(PartialEq, Eq, Structural, Debug, Clone, Copy)]
pub enum FrameType {
    Request,
    Response,
    Notify,
}

/// The byte that stands for a frame type on the wire.
pub open spec fn type_code(t: FrameType) -> u8 {
    match t {
        FrameType::Request => 1,
        FrameType::Response => 2,
        FrameType::Notify => 0,
    }
}

/// The frame type that a byte stands for, if any.
pub open spec fn type_of_code(b: u8) -> Option<FrameType> {
    if b == 1 {
        Some(FrameType::Request)
    } else if b == 2 {
        Some(FrameType::Response)
    } else if b == 0 {
        Some(FrameType::Notify)
    } else {
        None
    }
}

impl FrameType {
    pub fn to_byte(self) -> (r: u8)
        ensures
            r == type_code(self),
    {
        match self {
            FrameType::Request => 1,
            FrameType::Response => 2,
            FrameType::Notify => 0,
        }
    }

    /// Reads a type byte; any byte but 0, 1 and 2 is refused.
    pub fn from_byte(b: u8) -> (r: Option<FrameType>)
        ensures
            r == type_of_code(b),
    {
        match b {
            1 => Some(FrameType::Request),
            2 => Some(FrameType::Response),
            0 => Some(FrameType::Notify),
            _ => None,
        }
    }
}

/// A frame header.
#[derive(PartialEq, Eq, Structural, Debug, Clone, Copy)]
pub struct Frame {
    pub typ: FrameType,
    pub seq_id: u8,
    pub len: u16,
}

/// The four header bytes of a frame.
pub open spec fn header_bytes(f: Frame) -> Seq<u8> {
    seq![type_code(f.typ), f.seq_id, (f.len / 256) as u8, (f.len % 256) as u8]
}

/// The header that the first four bytes of `b` describe, if their type byte is known.
pub open spec fn parse_header(b: Seq<u8>) -> Option<Frame>
    recommends
        b.len() >= 4,
{
    match type_of_code(b[0]) {
        Some(t) => Some(Frame { typ: t, seq_id: b[1], len: (b[2] as int * 256 + b[3] as int) as u16 }),
        None => None,
    }
}

/// Relies on byteorder's `NetworkEndian::read_u16`: the first two bytes, most significant first.
#[verifier::external_body]
fn read_be_u16(b: &[u8]) -> (r: u16)
    requires
        b@.len() >= 2,
    ensures
        r as int == b@[0] as int * 256 + b@[1] as int,
{
    NetworkEndian::read_u16(b)
}

/// Relies on byteorder's `NetworkEndian::write_u16`: two bytes, most significant first.
#[verifier::external_body]
fn be_bytes_u16(n: u16) -> (r: Vec<u8>)
    ensures
        r@ == seq![(n / 256) as u8, (n % 256) as u8],
{
    let mut buf = vec![0u8; 2];
    NetworkEndian::write_u16(&mut buf, n);
    buf
}

impl Frame {
    pub fn new(typ: FrameType, seq_id: u8, len: u16) -> (r: Frame)
        ensures
            r == (Frame { typ, seq_id, len }),
    {
        Frame { typ, seq_id, len }
    }

    /// The size of a header on the wire.
    pub fn len() -> (r: usize)
        ensures
            r == 4,
    {
        HEADER_LEN
    }

    /// The header as it goes on the wire.
    pub fn encode(&self) -> (r: Vec<u8>)
        ensures
            r@ == header_bytes(*self),
    {
        let len = be_bytes_u16(self.len);
        let mut res: Vec<u8> = Vec::new();
        res.push(self.typ.to_byte());
        res.push(self.seq_id);
        res.push(len[0]);
        res.push(len[1]);
        assert(res@ =~= header_bytes(*self));
        res
    }

    /// Reads a header from the first four bytes; an unknown type byte is refused.
    pub fn decode(b: &[u8]) -> (r: Option<Frame>)
        requires
            b@.len() >= 4,
        ensures
            r == parse_header(b@),
    {
        match FrameType::from_byte(b[0]) {
            Some(typ) => {
                let len = read_be_u16(&b[2..4]);
                Some(Frame { typ, seq_id: b[1], len })
            },
            None => None,
        }
    }
}

/// A header encoded and decoded again is the header itself, for every type,
/// sequence id and length.
pub proof fn lemma_header_round_trip(f: Frame)
    ensures
        header_bytes(f).len() == 4,
        parse_header(header_bytes(f)) == Some(f),
{
    let b = header_bytes(f);
    assert(b[2] as int * 256 + b[3] as int == f.len as int);
}

/// A header whose type byte is not 0, 1 or 2 is refused.
pub proof fn lemma_unknown_type_refused(b: Seq<u8>)
    requires
        b.len() >= 4,
        b[0] > 2,
    ensures
        parse_header(b) is None,
{
}

} // verus!
