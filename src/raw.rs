//! Raw records from the event ring and their sections.
//!
//! A record is `[u32 total_len][u32 seq]` followed by `total_len` bytes of
//! sections, each `[u8 owner][u8 data_type][u16 len][len bytes]`. Multi-byte
//! header fields are little-endian, the byte order of the hosts the in-kernel
//! programs run on; decoders read network-order fields as big-endian.

use vstd::prelude::*;

use crate::error::RetisError;

verus! {

/// `a` then `b`, little-endian.
pub open spec fn le16(a: u8, b: u8) -> nat {
    a as nat + 256 * (b as nat)
}

/// Four bytes, little-endian.
pub open spec fn le32(s: Seq<u8>, off: int) -> nat {
    le16(s[off], s[off + 1]) + 65536 * le16(s[off + 2], s[off + 3])
}

/// Eight bytes, little-endian.
pub open spec fn le64(s: Seq<u8>, off: int) -> nat {
    le32(s, off) + 4294967296 * le32(s, off + 4)
}

/// Two bytes, big-endian (network order).
pub open spec fn be16(s: Seq<u8>, off: int) -> nat {
    256 * (s[off] as nat) + s[off + 1] as nat
}

/// Four bytes, big-endian (network order).
pub open spec fn be32(s: Seq<u8>, off: int) -> nat {
    65536 * be16(s, off) + be16(s, off + 2)
}

pub fn read_le16(d: &Vec<u8>, off: usize) -> (r: u16)
    requires
        off + 2 <= d.len(),
    ensures
        r == le16(d@[off as int], d@[off + 1]),
{
    d[off] as u16 + (d[off + 1] as u16) * 256
}

pub fn read_le32(d: &Vec<u8>, off: usize) -> (r: u32)
    requires
        off + 4 <= d.len(),
    ensures
        r == le32(d@, off as int),
{
    let lo = read_le16(d, off) as u32;
    let hi = read_le16(d, off + 2) as u32;
    lo + hi * 65536
}

pub fn read_le64(d: &Vec<u8>, off: usize) -> (r: u64)
    requires
        off + 8 <= d.len(),
    ensures
        r == le64(d@, off as int),
{
    let lo = read_le32(d, off) as u64;
    let hi = read_le32(d, off + 4) as u64;
    lo + hi * 4294967296
}

pub fn read_be16(d: &Vec<u8>, off: usize) -> (r: u16)
    requires
        off + 2 <= d.len(),
    ensures
        r == be16(d@, off as int),
{
    (d[off] as u16) * 256 + d[off + 1] as u16
}

pub fn read_be32(d: &Vec<u8>, off: usize) -> (r: u32)
    requires
        off + 4 <= d.len(),
    ensures
        r == be32(d@, off as int),
{
    let hi = read_be16(d, off) as u32;
    let lo = read_be16(d, off + 2) as u32;
    hi * 65536 + lo
}

/// Header of a raw section.
#[derive(Debug, Clone, Copy, PartialEq, Eq, Structural)]
pub struct RawSectionHeader {
    pub owner: u8,
    pub data_type: u8,
    pub size: u16,
}

/// A raw section: its header and its payload.
#[derive(Debug)]
pub struct RawSection {
    pub header: RawSectionHeader,
    pub data: Vec<u8>,
}

/// What a raw section holds.
pub struct RawSectionView {
    pub owner: u8,
    pub data_type: u8,
    pub data: Seq<u8>,
}

pub open spec fn raw_view(r: RawSection) -> RawSectionView {
    RawSectionView { owner: r.header.owner, data_type: r.header.data_type, data: r.data@ }
}

/// What a list of raw sections holds.
pub open spec fn raw_views(s: Seq<RawSection>) -> Seq<RawSectionView> {
    s.map_values(|x: RawSection| raw_view(x))
}

/// The sections packed in `s`, or `None` when they do not exactly fill it.
pub open spec fn split_sections(s: Seq<u8>) -> Option<Seq<RawSectionView>>
    decreases s.len(),
{
    if s.len() == 0 {
        Some(Seq::empty())
    } else if s.len() < 4 {
        None
    } else {
        let len = le16(s[2], s[3]) as int;
        if 4 + len > s.len() {
            None
        } else {
            match split_sections(s.subrange(4 + len, s.len() as int)) {
                Some(rest) => Some(
                    seq![RawSectionView { owner: s[0], data_type: s[1], data: s.subrange(4, 4 + len) }]
                        + rest,
                ),
                None => None,
            }
        }
    }
}

/// The sections of a record, or `None` when it is malformed.
pub open spec fn record_sections(rec: Seq<u8>) -> Option<Seq<RawSectionView>> {
    if rec.len() < 8 || le32(rec, 0) > rec.len() - 8 {
        None
    } else {
        split_sections(rec.subrange(8, 8 + le32(rec, 0) as int))
    }
}

pub fn copy_bytes(d: &Vec<u8>, from: usize, to: usize) -> (r: Vec<u8>)
    requires
        from <= to <= d@.len(),
    ensures
        r@ == d@.subrange(from as int, to as int),
{
    let mut r: Vec<u8> = Vec::new();
    let mut i: usize = from;
    while i < to
        invariant
            from <= i <= to <= d@.len(),
            r@ == d@.subrange(from as int, i as int),
        decreases to - i,
    {
        r.push(d[i]);
        i += 1;
    }
    r
}

/// Splits a record into its raw sections, in record order.
pub fn parse_record(rec: &Vec<u8>) -> (r: Result<Vec<RawSection>, RetisError>)
    ensures
        match record_sections(rec@) {
            Some(secs) => r matches Ok(v) && v@.map_values(|x: RawSection| raw_view(x)) == secs,
            None => r == Err::<Vec<RawSection>, RetisError>(RetisError::MalformedRecord),
        },
{
    if rec.len() < 8 {
        return Err(RetisError::MalformedRecord);
    }
    let total = read_le32(rec, 0) as usize;
    if total > rec.len() - 8 {
        return Err(RetisError::MalformedRecord);
    }
    let end = 8 + total;
    let ghost body = rec@.subrange(8, end as int);
    let mut out: Vec<RawSection> = Vec::new();
    let mut off: usize = 8;
    while off < end
        invariant
            8 <= off <= end <= rec@.len(),
            body == rec@.subrange(8, end as int),
            record_sections(rec@) == split_sections(body),
            split_sections(body) == match split_sections(rec@.subrange(off as int, end as int)) {
                Some(rest) => Some(out@.map_values(|x: RawSection| raw_view(x)) + rest),
                None => None::<Seq<RawSectionView>>,
            },
        decreases end - off,
    {
        let ghost s = rec@.subrange(off as int, end as int);
        if end - off < 4 {
            return Err(RetisError::MalformedRecord);
        }
        let len = read_le16(rec, off + 2) as usize;
        if len > end - off - 4 {
            return Err(RetisError::MalformedRecord);
        }
        let data = copy_bytes(rec, off + 4, off + 4 + len);
        let sec = RawSection {
            header: RawSectionHeader { owner: rec[off], data_type: rec[off + 1], size: len as u16 },
            data,
        };
        assert(s.subrange(4 + len, s.len() as int) =~= rec@.subrange(off + 4 + len, end as int));
        assert(s.subrange(4, 4 + len) =~= data@);
        let ghost prev = out@.map_values(|x: RawSection| raw_view(x));
        out.push(sec);
        assert(out@.map_values(|x: RawSection| raw_view(x)) =~= prev.push(raw_view(sec)));
        proof {
            let head = seq![raw_view(sec)];
            match split_sections(rec@.subrange(off + 4 + len, end as int)) {
                Some(rest) => {
                    assert(prev + (head + rest) =~= prev.push(raw_view(sec)) + rest);
                },
                None => {},
            }
        }
        off = off + 4 + len;
    }
    assert(rec@.subrange(off as int, end as int) =~= Seq::<u8>::empty());
    assert(out@.map_values(|x: RawSection| raw_view(x)) + Seq::<RawSectionView>::empty() =~= out@.map_values(
        |x: RawSection| raw_view(x),
    ));
    Ok(out)
}

} // verus!
