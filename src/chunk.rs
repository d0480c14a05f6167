use vstd::prelude::*;
use vstd::slice::{slice_subrange, slice_to_vec};
use vstd::utf8::{decode_utf8, valid_utf8};

use crate::chunk_type::{lemma_code_len, utf8_to_string, ChunkType};
use crate::error::ChunkError;

verus! {

/// The CRC-32/ISO-HDLC checksum (the PNG and zlib "CRC-32") of a byte sequence.
pub uninterp spec fn crc32_of(bytes: Seq<u8>) -> u32;

/// Relies on crc::Crc::<u32>::checksum with the CRC_32_ISO_HDLC parameters:
/// the checksum is a function of the bytes alone.
#[verifier::external_body]
fn crc32(bytes: &[u8]) -> (r: u32)
    ensures
        r == crc32_of(bytes@),
{
    crc::Crc::<u32>::new(&crc::CRC_32_ISO_HDLC).checksum(bytes)
}

/// The four bytes of `x`, most significant first.
pub open spec fn be_bytes(x: u32) -> Seq<u8> {
    seq![(x >> 24u32) as u8, (x >> 16u32) as u8, (x >> 8u32) as u8, x as u8]
}

/// The unsigned integer that the first four bytes of `b` spell, most significant first.
pub open spec fn be_value(b: Seq<u8>) -> u32 {
    ((b[0] as u32) << 24u32) | ((b[1] as u32) << 16u32) | ((b[2] as u32) << 8u32) | (b[3] as u32)
}

/// The payload length that the header of a buffer declares.
pub open spec fn declared_len(b: Seq<u8>) -> int {
    be_value(b.subrange(0, 4)) as int
}

/// The four type bytes of a buffer.
pub open spec fn type_part(b: Seq<u8>) -> Seq<u8> {
    b.subrange(4, 8)
}

/// The payload bytes of a buffer, as its header declares them.
pub open spec fn data_part(b: Seq<u8>) -> Seq<u8> {
    b.subrange(8, 8 + declared_len(b))
}

/// The checksum stored after the payload of a buffer.
pub open spec fn stored_crc(b: Seq<u8>) -> u32 {
    be_value(b.subrange(8 + declared_len(b), 12 + declared_len(b)))
}

/// Why a buffer holds no well-formed chunk, or `None` when it does.
pub open spec fn parse_fault(b: Seq<u8>) -> Option<ChunkError> {
    if b.len() == 0 {
        Some(ChunkError::EmptyInput)
    } else if b.len() < 12 || b.len() < 12 + declared_len(b) {
        Some(ChunkError::TruncatedInput)
    } else if crc32_of(type_part(b) + data_part(b)) != stored_crc(b) {
        Some(
            ChunkError::CrcMismatch {
                expected: crc32_of(type_part(b) + data_part(b)),
                found: stored_crc(b),
            },
        )
    } else {
        None
    }
}

/// The wire form of a chunk with the given type bytes and payload: length,
/// type, payload and the checksum over type and payload.
#[verifier::opaque]
pub open spec fn wire(kind: Seq<u8>, data: Seq<u8>) -> Seq<u8> {
    be_bytes(data.len() as u32) + kind + data + be_bytes(crc32_of(kind + data))
}

proof fn lemma_be_round_trip(x: u32)
    ensures
        be_value(be_bytes(x)) == x,
{
    let b = be_bytes(x);
    assert(b[0] == (x >> 24u32) as u8 && b[1] == (x >> 16u32) as u8 && b[2] == (x >> 8u32) as u8
        && b[3] == x as u8);
    assert(((((x >> 24u32) as u8) as u32) << 24u32) | ((((x >> 16u32) as u8) as u32) << 16u32) | ((
    ((x >> 8u32) as u8) as u32) << 8u32) | ((x as u8) as u32) == x) by (bit_vector);
}

proof fn lemma_be_injective(s: Seq<u8>, t: Seq<u8>)
    requires
        s.len() == 4,
        t.len() == 4,
        be_value(s) == be_value(t),
    ensures
        s == t,
{
    let (a0, a1, a2, a3) = (s[0], s[1], s[2], s[3]);
    let (c0, c1, c2, c3) = (t[0], t[1], t[2], t[3]);
    assert(((a0 as u32) << 24u32) | ((a1 as u32) << 16u32) | ((a2 as u32) << 8u32) | (a3 as u32)
        == ((c0 as u32) << 24u32) | ((c1 as u32) << 16u32) | ((c2 as u32) << 8u32) | (c3 as u32)
        ==> a0 == c0 && a1 == c1 && a2 == c2 && a3 == c3) by (bit_vector);
    assert(s =~= t);
}

/// Round trip: the wire form of the record built from type code `t` and
/// payload `d` parses without fault, back to length `d.len()`, type `t`,
/// payload `d` and the checksum of `t`'s bytes followed by `d`.
pub proof fn lemma_round_trip(t: ChunkType, d: Seq<u8>)
    requires
        d.len() <= u32::MAX,
    ensures
        ({
            let w = wire(t@, d);
            &&& parse_fault(w) is None
            &&& w.len() == 12 + d.len()
            &&& declared_len(w) == d.len()
            &&& type_part(w) == t@
            &&& data_part(w) == d
            &&& stored_crc(w) == crc32_of(t@ + d)
        }),
{
    let w = wire(t@, d);
    let n = d.len() as int;
    reveal(wire);
    lemma_code_len(t);
    lemma_be_round_trip(d.len() as u32);
    lemma_be_round_trip(crc32_of(t@ + d));
    assert(w.subrange(0, 4) =~= be_bytes(d.len() as u32));
    assert(type_part(w) =~= t@);
    assert(data_part(w) =~= d);
    assert(w.subrange(8 + n, 12 + n) =~= be_bytes(crc32_of(t@ + d)));
}

/// Re-serialising: when a buffer holds a well-formed record, the length,
/// type, payload and checksum that parsing reads from it, written back out,
/// give exactly the first `12 + length` bytes of the buffer.
pub proof fn lemma_reserialize(b: Seq<u8>)
    requires
        parse_fault(b) is None,
    ensures
        be_bytes(declared_len(b) as u32) + type_part(b) + data_part(b) + be_bytes(stored_crc(b))
            == b.subrange(0, 12 + declared_len(b)),
{
    let n = declared_len(b);
    lemma_be_bytes_of_value(b.subrange(0, 4));
    lemma_be_bytes_of_value(b.subrange(8 + n, 12 + n));
    assert(be_bytes(declared_len(b) as u32) + type_part(b) + data_part(b) + be_bytes(stored_crc(b))
        =~= b.subrange(0, 12 + n));
}

proof fn lemma_be_bytes_of_value(s: Seq<u8>)
    requires
        s.len() == 4,
    ensures
        be_bytes(be_value(s)) == s,
{
    let (a0, a1, a2, a3) = (s[0], s[1], s[2], s[3]);
    let v = be_value(s);
    assert(v == ((a0 as u32) << 24u32) | ((a1 as u32) << 16u32) | ((a2 as u32) << 8u32) | (a3 as u32));
    assert(v == ((a0 as u32) << 24u32) | ((a1 as u32) << 16u32) | ((a2 as u32) << 8u32) | (a3 as u32)
        ==> (v >> 24u32) as u8 == a0 && (v >> 16u32) as u8 == a1 && (v >> 8u32) as u8 == a2
        && v as u8 == a3) by (bit_vector);
    assert(be_bytes(v) =~= s);
}

/// Checksum sensitivity: flipping bit `k` of byte `i` in the wire form of a
/// record, anywhere in its type, payload or checksum, is caught. A flip in
/// the checksum always makes parsing fail with a mismatch; a flip in the type
/// or payload does so unless the altered bytes happen to have the same
/// checksum as the original ones.
pub proof fn lemma_flip_detected(t: ChunkType, d: Seq<u8>, i: int, k: u8)
    requires
        d.len() <= u32::MAX,
        4 <= i < 12 + d.len(),
        k < 8,
    ensures
        ({
            let w = wire(t@, d);
            let f = w.update(i, w[i] ^ (1u8 << k));
            let c = crc32_of(t@ + d);
            let altered = crc32_of(f.subrange(4, 8 + d.len() as int));
            &&& 8 + d.len() <= i ==> stored_crc(f) != c && parse_fault(f) == Some(
                ChunkError::CrcMismatch { expected: c, found: stored_crc(f) },
            )
            &&& i < 8 + d.len() ==> parse_fault(f) == if altered == c {
                None::<ChunkError>
            } else {
                Some(ChunkError::CrcMismatch { expected: altered, found: c })
            }
        }),
{
    let w = wire(t@, d);
    lemma_code_len(t);
    lemma_round_trip(t, d);
    lemma_flip_in_frame(w, i, k);
}

/// A one-bit flip in the type, payload or checksum of a buffer that holds
/// exactly one well-formed record.
proof fn lemma_flip_in_frame(w: Seq<u8>, i: int, k: u8)
    requires
        parse_fault(w) is None,
        w.len() == 12 + declared_len(w),
        4 <= i < w.len(),
        k < 8,
    ensures
        ({
            let n = declared_len(w);
            let f = w.update(i, w[i] ^ (1u8 << k));
            let c = crc32_of(type_part(w) + data_part(w));
            let altered = crc32_of(f.subrange(4, 8 + n));
            &&& 8 + n <= i ==> stored_crc(f) != c && parse_fault(f) == Some(
                ChunkError::CrcMismatch { expected: c, found: stored_crc(f) },
            )
            &&& i < 8 + n ==> parse_fault(f) == if altered == c {
                None::<ChunkError>
            } else {
                Some(ChunkError::CrcMismatch { expected: altered, found: c })
            }
        }),
{
    let n = declared_len(w);
    let f = w.update(i, w[i] ^ (1u8 << k));
    assert(f.subrange(0, 4) =~= w.subrange(0, 4));
    assert(declared_len(f) == n);
    let x = w[i];
    assert(x ^ (1u8 << k) != x) by (bit_vector)
        requires
            k < 8,
    ;
    if 8 + n <= i {
        assert(type_part(f) =~= type_part(w));
        assert(data_part(f) =~= data_part(w));
        let s = w.subrange(8 + n, 12 + n);
        let g = f.subrange(8 + n, 12 + n);
        assert(g[i - 8 - n] != s[i - 8 - n]);
        if be_value(g) == be_value(s) {
            lemma_be_injective(g, s);
        }
    } else {
        assert(f.subrange(8 + n, 12 + n) =~= w.subrange(8 + n, 12 + n));
        assert(type_part(f) + data_part(f) =~= f.subrange(4, 8 + n));
    }
}

/// Reads the big-endian integer in `b[at..at + 4]`.
fn read_be_u32(b: &[u8], at: usize) -> (r: u32)
    requires
        at + 4 <= b@.len(),
    ensures
        r == be_value(b@.subrange(at as int, at + 4)),
{
    ((b[at] as u32) << 24u32) | ((b[at + 1] as u32) << 16u32) | ((b[at + 2] as u32) << 8u32) | (b[at
        + 3] as u32)
}

/// Appends the four big-endian bytes of `x`.
fn push_be_u32(out: &mut Vec<u8>, x: u32)
    ensures
        final(out)@ == old(out)@ + be_bytes(x),
{
    out.push((x >> 24u32) as u8);
    out.push((x >> 16u32) as u8);
    out.push((x >> 8u32) as u8);
    out.push(x as u8);
    assert(final(out)@ =~= old(out)@ + be_bytes(x));
}

/// Appends every byte of `src`.
fn push_all(out: &mut Vec<u8>, src: &[u8])
    ensures
        final(out)@ == old(out)@ + src@,
{
    let ghost start = out@;
    let mut i: usize = 0;
    while i < src.len()
        invariant
            i <= src@.len(),
            out@ == start + src@.subrange(0, i as int),
        decreases src@.len() - i,
    {
        out.push(src[i]);
        i = i + 1;
        assert(out@ =~= start + src@.subrange(0, i as int));
    }
    assert(src@.subrange(0, i as int) =~= src@);
}

/// One length-prefixed, type-tagged, checksummed record.
#[derive(Debug)]
pub struct Chunk {
    length: u32,
    chunk_type: ChunkType,
    chunk_data: Vec<u8>,
    crc: u32,
}

impl Chunk {
    /// The payload length the record carries.
    pub closed spec fn spec_length(&self) -> u32 {
        self.length
    }

    /// The record's type code.
    pub closed spec fn kind(&self) -> ChunkType {
        self.chunk_type
    }

    /// The record's payload.
    pub closed spec fn payload(&self) -> Seq<u8> {
        self.chunk_data@
    }

    /// The record's checksum.
    pub closed spec fn spec_crc(&self) -> u32 {
        self.crc
    }

    /// The length matches the payload, and the checksum is that of the type
    /// bytes followed by the payload.
    #[verifier::type_invariant]
    pub closed spec fn inv(&self) -> bool {
        &&& self.length as int == self.chunk_data@.len()
        &&& self.crc == crc32_of(self.chunk_type@ + self.chunk_data@)
    }

    /// Builds a record from a type code and a payload, computing its checksum.
    pub fn new(chunk_type: ChunkType, data: Vec<u8>) -> (r: Chunk)
        requires
            data@.len() <= u32::MAX,
        ensures
            r.spec_length() as int == data@.len(),
            r.kind() == chunk_type,
            r.payload() == data@,
            r.spec_crc() == crc32_of(chunk_type@ + data@),
    {
        let length = data.len() as u32;
        let kind = chunk_type.bytes();
        let mut span: Vec<u8> = Vec::new();
        push_all(&mut span, kind.as_slice());
        push_all(&mut span, data.as_slice());
        let crc = crc32(span.as_slice());
        Chunk { length, chunk_type, chunk_data: data, crc }
    }

    /// Reads one record from the front of `b`, checking its checksum.
    /// Bytes after the record are ignored.
    pub fn parse(b: &[u8]) -> (r: Result<Chunk, ChunkError>)
        ensures
            match parse_fault(b@) {
                Some(e) => r == Err::<Chunk, ChunkError>(e),
                None => {
                    &&& r is Ok
                    &&& r->Ok_0.spec_length() as int == declared_len(b@)
                    &&& r->Ok_0.kind()@ == type_part(b@)
                    &&& r->Ok_0.payload() == data_part(b@)
                    &&& r->Ok_0.spec_crc() == stored_crc(b@)
                },
            },
    {
        if b.len() == 0 {
            return Err(ChunkError::EmptyInput);
        }
        if b.len() < 12 {
            return Err(ChunkError::TruncatedInput);
        }
        let length = read_be_u32(b, 0);
        if b.len() - 12 < length as usize {
            return Err(ChunkError::TruncatedInput);
        }
        let n = length as usize;
        let chunk_type = ChunkType::from_bytes([b[4], b[5], b[6], b[7]]);
        let data = slice_to_vec(slice_subrange(b, 8, 8 + n));
        let found = read_be_u32(b, 8 + n);
        let span = slice_subrange(b, 4, 8 + n);
        proof {
            assert(chunk_type@ =~= type_part(b@));
            assert(span@ =~= type_part(b@) + data_part(b@));
        }
        let expected = crc32(span);
        if expected != found {
            return Err(ChunkError::CrcMismatch { expected, found });
        }
        Ok(Chunk { length, chunk_type, chunk_data: data, crc: found })
    }

    /// The payload length.
    pub fn length(&self) -> (r: u32)
        ensures
            r == self.spec_length(),
            r as int == self.payload().len(),
    {
        proof {
            use_type_invariant(self);
        }
        self.length
    }

    /// The type code.
    pub fn chunk_type(&self) -> (r: &ChunkType)
        ensures
            *r == self.kind(),
    {
        &self.chunk_type
    }

    /// The payload bytes.
    pub fn data(&self) -> (r: &[u8])
        ensures
            r@ == self.payload(),
    {
        self.chunk_data.as_slice()
    }

    /// The checksum.
    pub fn crc(&self) -> (r: u32)
        ensures
            r == self.spec_crc(),
            r == crc32_of(self.kind()@ + self.payload()),
    {
        proof {
            use_type_invariant(self);
        }
        self.crc
    }

    /// The payload read as UTF-8 text.
    pub fn data_as_string(&self) -> (r: Result<String, ChunkError>)
        ensures
            valid_utf8(self.payload()) ==> r is Ok && r->Ok_0@ == decode_utf8(self.payload()),
            !valid_utf8(self.payload()) ==> r == Err::<String, ChunkError>(
                ChunkError::InvalidUtf8,
            ),
    {
        match utf8_to_string(slice_to_vec(self.chunk_data.as_slice())) {
            Some(t) => Ok(t),
            None => Err(ChunkError::InvalidUtf8),
        }
    }

    /// The record's wire form: length, type, payload and checksum, the two
    /// integers big-endian.
    pub fn as_bytes(&self) -> (r: Vec<u8>)
        ensures
            r@ == be_bytes(self.spec_length()) + self.kind()@ + self.payload() + be_bytes(
                self.spec_crc(),
            ),
            r@ == wire(self.kind()@, self.payload()),
    {
        proof {
            use_type_invariant(self);
            reveal(wire);
        }
        let kind = self.chunk_type.bytes();
        let mut out: Vec<u8> = Vec::new();
        push_be_u32(&mut out, self.length);
        push_all(&mut out, kind.as_slice());
        push_all(&mut out, self.chunk_data.as_slice());
        push_be_u32(&mut out, self.crc);
        out
    }
}

impl<'a> TryFrom<&'a [u8]> for Chunk {
    type Error = ChunkError;

    /// Reads one record from the front of `b`, as `Chunk::parse` does.
    fn try_from(b: &'a [u8]) -> (r: Result<Chunk, ChunkError>)
        ensures
            match parse_fault(b@) {
                Some(e) => r == Err::<Chunk, ChunkError>(e),
                None => {
                    &&& r is Ok
                    &&& r->Ok_0.spec_length() as int == declared_len(b@)
                    &&& r->Ok_0.kind()@ == type_part(b@)
                    &&& r->Ok_0.payload() == data_part(b@)
                    &&& r->Ok_0.spec_crc() == stored_crc(b@)
                },
            },
    {
        Chunk::parse(b)
    }
}

impl<'a> vstd::std_specs::convert::TryFromSpecImpl<&'a [u8]> for Chunk {
    open spec fn obeys_try_from_spec() -> bool {
        false
    }

    closed spec fn try_from_spec(b: &'a [u8]) -> Result<Chunk, ChunkError> {
        arbitrary()
    }
}

} // verus!
