//! The tagged, length-delimited field encoding that messages are written in:
//! base-128 varints, and fields made of a tag (field number and wire type)
//! followed by a varint or a length-prefixed run of bytes.

use vstd::prelude::*;

verus! {

/// Wire type of a varint field.
pub const WT_VARINT: u64 = 0;
/// Wire type of an eight-byte field.
pub const WT_FIXED64: u64 = 1;
/// Wire type of a length-delimited field.
pub const WT_LEN: u64 = 2;
/// Wire type of a four-byte field.
pub const WT_FIXED32: u64 = 5;

/// The varint of `v`: seven bits a byte, least significant first, the high
/// bit set on every byte but the last.
pub open spec fn varint_bytes(v: nat) -> Seq<u8>
    decreases v,
{
    if v < 128 {
        seq![v as u8]
    } else {
        seq![(v % 128 + 128) as u8] + varint_bytes(v / 128)
    }
}

/// The varint that starts at `i`, read over at most `fuel` bytes: its value
/// and the index just past it. None where it runs out of bytes or of fuel,
/// or exceeds 64 bits.
pub open spec fn varint_at(b: Seq<u8>, i: int, fuel: nat) -> Option<(u64, int)>
    decreases fuel,
{
    if fuel == 0 || i < 0 || i >= b.len() {
        None
    } else if b[i] < 128 {
        Some((b[i] as u64, i + 1))
    } else {
        match varint_at(b, i + 1, (fuel - 1) as nat) {
            Some((v, e)) => {
                let w = (b[i] - 128) + 128 * v;
                if w <= u64::MAX {
                    Some((w as u64, e))
                } else {
                    None
                }
            },
            None => None,
        }
    }
}

/// A 64-bit varint: at most ten bytes, its value within 64 bits.
pub open spec fn parse_varint(b: Seq<u8>, i: int) -> Option<(u64, int)> {
    varint_at(b, i, 10)
}

/// A 32-bit varint, as tags and lengths are read: at most five bytes, its
/// value within 32 bits.
pub open spec fn parse_varint32(b: Seq<u8>, i: int) -> Option<(u32, int)> {
    match varint_at(b, i, 5) {
        Some((v, e)) => if v <= u32::MAX {
            Some((v as u32, e))
        } else {
            None
        },
        None => None,
    }
}

/// One field as read: its tag; for a varint its value, for a length-delimited
/// field its length; where its content starts; and where the next field starts.
#[derive(PartialEq, Eq, Structural, Debug, Clone, Copy)]
pub struct FieldRead {
    pub tag: u64,
    pub value: u64,
    pub start: usize,
    pub next: usize,
}

/// Wire type of the tag that opens a group.
pub const WT_START_GROUP: u64 = 3;
/// Wire type of the tag that closes a group.
pub const WT_END_GROUP: u64 = 4;

/// The tag at `i` and the index past it, where it ends at or before `limit`,
/// names a field other than 0 and has a wire type from 0 to 5.
pub open spec fn tag_at(b: Seq<u8>, i: int, limit: int) -> Option<(u64, int)> {
    match parse_varint32(b, i) {
        Some((t, p)) => if i < p <= limit && t / 8 != 0 && t % 8 <= 5 {
            Some((t as u64, p))
        } else {
            None
        },
        None => None,
    }
}

/// The field that starts at `i` and ends at or before `limit`. A group is
/// skipped up to its closing tag, or to `limit` where none comes; a closing
/// tag out of place is refused.
pub open spec fn field_at(b: Seq<u8>, i: int, limit: int) -> Option<FieldRead>
    decreases limit - i, 1int,
{
    match tag_at(b, i, limit) {
        None => None,
        Some((tag, p)) => {
            let wt = tag % 8;
            if wt == WT_VARINT {
                match parse_varint(b, p) {
                    Some((v, q)) => if q <= limit {
                        Some(FieldRead { tag, value: v, start: p as usize, next: q as usize })
                    } else {
                        None
                    },
                    None => None,
                }
            } else if wt == WT_LEN {
                match parse_varint32(b, p) {
                    Some((n, q)) => if q + n <= limit {
                        Some(
                            FieldRead {
                                tag,
                                value: n as u64,
                                start: q as usize,
                                next: (q + n) as usize,
                            },
                        )
                    } else {
                        None
                    },
                    None => None,
                }
            } else if wt == WT_FIXED64 {
                if p + 8 <= limit {
                    Some(FieldRead { tag, value: 0, start: p as usize, next: (p + 8) as usize })
                } else {
                    None
                }
            } else if wt == WT_FIXED32 {
                if p + 4 <= limit {
                    Some(FieldRead { tag, value: 0, start: p as usize, next: (p + 4) as usize })
                } else {
                    None
                }
            } else if wt == WT_START_GROUP {
                match group_end(b, p, limit) {
                    Some(q) => Some(FieldRead { tag, value: 0, start: p as usize, next: q as usize }),
                    None => None,
                }
            } else {
                None
            }
        },
    }
}

/// Where a group whose fields start at `i` ends: just past its closing tag,
/// or at `limit` where the fields run out first.
pub open spec fn group_end(b: Seq<u8>, i: int, limit: int) -> Option<int>
    decreases limit - i, 2int,
{
    if i >= limit {
        if i == limit {
            Some(i)
        } else {
            None
        }
    } else {
        match tag_at(b, i, limit) {
            None => None,
            Some((t, p)) => if t % 8 == WT_END_GROUP {
                Some(p)
            } else {
                match field_at(b, i, limit) {
                    Some(f) => if i < f.next <= limit {
                        group_end(b, f.next as int, limit)
                    } else {
                        None
                    },
                    None => None,
                }
            },
        }
    }
}

/// Relies on protobuf's `CodedInputStream::read_raw_varint64`, reading from
/// `i`: the value and the number of bytes read, or an error where the varint
/// runs out of bytes, is longer than ten bytes or exceeds 64 bits.
#[verifier::external_body]
fn pb_read_varint64(b: &[u8], i: usize) -> (r: Option<(u64, usize)>)
    requires
        i <= b@.len(),
    ensures
        r is Some <==> varint_at(b@, i as int, 10) is Some,
        r matches Some((v, n)) ==> varint_at(b@, i as int, 10) == Some((v, i + n)),
{
    let mut is = protobuf::CodedInputStream::from_bytes(&b[i..]);
    match is.read_raw_varint64() {
        Ok(v) => Some((v, is.pos() as usize)),
        Err(_) => None,
    }
}

/// Relies on protobuf's `CodedInputStream::read_raw_varint32`, reading from
/// `i`: the value and the number of bytes read, or an error where the varint
/// runs out of bytes, is longer than five bytes or exceeds 32 bits.
#[verifier::external_body]
fn pb_read_varint32(b: &[u8], i: usize) -> (r: Option<(u32, usize)>)
    requires
        i <= b@.len(),
    ensures
        r is Some <==> parse_varint32(b@, i as int) is Some,
        r matches Some((v, n)) ==> parse_varint32(b@, i as int) == Some((v, i + n)),
{
    let mut is = protobuf::CodedInputStream::from_bytes(&b[i..]);
    match is.read_raw_varint32() {
        Ok(v) => Some((v, is.pos() as usize)),
        Err(_) => None,
    }
}

/// Relies on protobuf's `CodedOutputStream::write_raw_varint64` on a vector:
/// it appends the varint of `v`.
#[verifier::external_body]
fn pb_write_varint(out: &mut Vec<u8>, v: u64)
    ensures
        final(out)@ == old(out)@ + varint_bytes(v as nat),
{
    let mut os = protobuf::CodedOutputStream::vec(out);
    let _ = os.write_raw_varint64(v);
    let _ = os.flush();
}

proof fn lemma_varint_ends_after(b: Seq<u8>, i: int, fuel: nat)
    ensures
        varint_at(b, i, fuel) matches Some((_, e)) ==> i < e <= b.len(),
    decreases fuel,
{
    if fuel > 0 && 0 <= i < b.len() && b[i] >= 128 {
        lemma_varint_ends_after(b, i + 1, (fuel - 1) as nat);
    }
}

/// Reads the 64-bit varint that starts at `i`.
pub fn read_varint(b: &[u8], i: usize) -> (r: Option<(u64, usize)>)
    ensures
        r is Some <==> parse_varint(b@, i as int) is Some,
        r matches Some((v, e)) ==> parse_varint(b@, i as int) == Some((v, e as int)) && i < e
            <= b@.len(),
{
    if i > b.len() {
        return None;
    }
    proof {
        lemma_varint_ends_after(b@, i as int, 10);
    }
    match pb_read_varint64(b, i) {
        Some((v, n)) => Some((v, i + n)),
        None => None,
    }
}

/// Reads the 32-bit varint that starts at `i`.
pub fn read_varint32(b: &[u8], i: usize) -> (r: Option<(u32, usize)>)
    ensures
        r is Some <==> parse_varint32(b@, i as int) is Some,
        r matches Some((v, e)) ==> parse_varint32(b@, i as int) == Some((v, e as int)) && i < e
            <= b@.len(),
{
    if i > b.len() {
        return None;
    }
    proof {
        lemma_varint_ends_after(b@, i as int, 5);
    }
    match pb_read_varint32(b, i) {
        Some((v, n)) => Some((v, i + n)),
        None => None,
    }
}

fn read_tag(b: &[u8], i: usize, limit: usize) -> (r: Option<(u64, usize)>)
    requires
        limit <= b@.len(),
    ensures
        match tag_at(b@, i as int, limit as int) {
            Some((t, p)) => r == Some((t, p as usize)),
            None => r is None,
        },
{
    match read_varint32(b, i) {
        Some((t, p)) => if p <= limit && t / 8 != 0 && t % 8 <= 5 {
            Some((t as u64, p))
        } else {
            None
        },
        None => None,
    }
}

/// Reads the field that starts at `i` and must end at or before `limit`.
pub fn read_field(b: &[u8], i: usize, limit: usize) -> (r: Option<FieldRead>)
    requires
        limit <= b@.len(),
    ensures
        r == field_at(b@, i as int, limit as int),
        r matches Some(f) ==> i < f.next <= limit && f.start <= f.next,
    decreases limit - i, 1int,
{
    let (tag, p) = match read_tag(b, i, limit) {
        Some(x) => x,
        None => return None,
    };
    let wt = tag % 8;
    if wt == WT_VARINT {
        match read_varint(b, p) {
            Some((v, q)) => if q <= limit {
                Some(FieldRead { tag, value: v, start: p, next: q })
            } else {
                None
            },
            None => None,
        }
    } else if wt == WT_LEN {
        match read_varint32(b, p) {
            Some((n, q)) => if q <= limit && n as usize <= limit - q {
                Some(FieldRead { tag, value: n as u64, start: q, next: q + n as usize })
            } else {
                None
            },
            None => None,
        }
    } else if wt == WT_FIXED64 {
        if limit - p >= 8 {
            Some(FieldRead { tag, value: 0, start: p, next: p + 8 })
        } else {
            None
        }
    } else if wt == WT_FIXED32 {
        if limit - p >= 4 {
            Some(FieldRead { tag, value: 0, start: p, next: p + 4 })
        } else {
            None
        }
    } else if wt == WT_START_GROUP {
        match skip_group(b, p, limit) {
            Some(q) => Some(FieldRead { tag, value: 0, start: p, next: q }),
            None => None,
        }
    } else {
        None
    }
}

/// Skips the fields of a group that start at `i`: returns the index just
/// past its closing tag, or `limit` where the fields run out first.
pub fn skip_group(b: &[u8], i: usize, limit: usize) -> (r: Option<usize>)
    requires
        limit <= b@.len(),
    ensures
        match group_end(b@, i as int, limit as int) {
            Some(q) => r == Some(q as usize) && i <= q <= limit,
            None => r is None,
        },
    decreases limit - i, 2int,
{
    if i >= limit {
        return if i == limit {
            Some(i)
        } else {
            None
        };
    }
    let (t, p) = match read_tag(b, i, limit) {
        Some(x) => x,
        None => return None,
    };
    if t % 8 == WT_END_GROUP {
        return Some(p);
    }
    match read_field(b, i, limit) {
        Some(f) => skip_group(b, f.next, limit),
        None => None,
    }
}

/// Appends the varint of `v`.
pub fn write_varint(out: &mut Vec<u8>, v: u64)
    ensures
        final(out)@ == old(out)@ + varint_bytes(v as nat),
{
    pb_write_varint(out, v);
}

/// Appends the bytes of `b`.
pub fn write_bytes(out: &mut Vec<u8>, b: &[u8])
    ensures
        final(out)@ == old(out)@ + b@,
{
    let mut i: usize = 0;
    while i < b.len()
        invariant
            i <= b@.len(),
            out@ == old(out)@ + b@.subrange(0, i as int),
        decreases b@.len() - i,
    {
        out.push(b[i]);
        i = i + 1;
        assert(b@.subrange(0, i as int) =~= b@.subrange(0, i - 1) + seq![b@[i - 1]]);
    }
    assert(b@.subrange(0, b@.len() as int) =~= b@);
}

/// Powers of 128.
pub open spec fn pow128(k: nat) -> nat
    decreases k,
{
    if k == 0 {
        1
    } else {
        128 * pow128((k - 1) as nat)
    }
}

/// A value under 128^k takes at most k bytes.
pub proof fn lemma_varint_len(v: nat, k: nat)
    requires
        v < pow128(k),
        k >= 1,
    ensures
        1 <= varint_bytes(v).len() <= k,
    decreases k,
{
    if v < 128 {
    } else {
        assert(v / 128 < pow128((k - 1) as nat)) by (nonlinear_arith)
            requires
                v < 128 * pow128((k - 1) as nat),
        ;
        assert(k - 1 >= 1) by {
            if k - 1 == 0 {
                assert(pow128(0) == 1);
            }
        }
        lemma_varint_len(v / 128, (k - 1) as nat);
    }
}

/// A 64-bit value takes at most ten bytes.
pub proof fn lemma_varint_len_u64(v: u64)
    ensures
        1 <= varint_bytes(v as nat).len() <= 10,
{
    assert(pow128(10) == 1180591620717411303424nat) by {
        reveal_with_fuel(pow128, 11);
    }
    lemma_varint_len(v as nat, 10);
}

/// The varint of `v`, found at `i`, reads back as `v`.
pub proof fn lemma_varint_at(b: Seq<u8>, i: int, v: nat, fuel: nat)
    requires
        v <= u64::MAX,
        0 <= i,
        i + varint_bytes(v).len() <= b.len(),
        b.subrange(i, i + varint_bytes(v).len()) == varint_bytes(v),
        varint_bytes(v).len() <= fuel,
    ensures
        varint_at(b, i, fuel) == Some((v as u64, i + varint_bytes(v).len())),
    decreases v,
{
    let vb = varint_bytes(v);
    assert(b[i] == b.subrange(i, i + vb.len())[0]);
    if v < 128 {
    } else {
        let rest = varint_bytes(v / 128);
        assert(vb == seq![(v % 128 + 128) as u8] + rest);
        assert(b.subrange(i + 1, i + 1 + rest.len()) =~= vb.subrange(1, vb.len() as int));
        assert(vb.subrange(1, vb.len() as int) =~= rest);
        lemma_varint_at(b, i + 1, v / 128, (fuel - 1) as nat);
    }
}

/// The varint of a 64-bit value, found at `i`, reads back as that value.
pub proof fn lemma_parse_varint(b: Seq<u8>, i: int, v: u64)
    requires
        0 <= i,
        i + varint_bytes(v as nat).len() <= b.len(),
        b.subrange(i, i + varint_bytes(v as nat).len()) == varint_bytes(v as nat),
    ensures
        parse_varint(b, i) == Some((v, i + varint_bytes(v as nat).len())),
{
    lemma_varint_len_u64(v);
    lemma_varint_at(b, i, v as nat, 10);
}

/// The varint of a 32-bit value, found at `i`, reads back as that value.
pub proof fn lemma_parse_varint32(b: Seq<u8>, i: int, v: u32)
    requires
        0 <= i,
        i + varint_bytes(v as nat).len() <= b.len(),
        b.subrange(i, i + varint_bytes(v as nat).len()) == varint_bytes(v as nat),
    ensures
        parse_varint32(b, i) == Some((v, i + varint_bytes(v as nat).len())),
        varint_bytes(v as nat).len() <= 5,
{
    assert(pow128(5) == 34359738368nat) by {
        reveal_with_fuel(pow128, 6);
    }
    lemma_varint_len(v as nat, 5);
    lemma_varint_at(b, i, v as nat, 5);
}

} // verus!
