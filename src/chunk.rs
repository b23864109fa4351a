use vstd::prelude::*;
use vstd::slice::{slice_subrange, slice_to_vec};
use vstd::utf8::{encode_utf8, valid_utf8};

use crate::checksum::{checksum_ieee, crc32_ieee};
use crate::chunk_type::ChunkType;
use crate::error::PngError;
use crate::text::utf8_text;

verus! {

/// The unsigned 32-bit value that four bytes spell in big-endian order.
pub open spec fn be_u32(b: Seq<u8>) -> u32 {
    ((b[0] as u32) << 24u32) | ((b[1] as u32) << 16u32) | ((b[2] as u32) << 8u32) | (b[3] as u32)
}

/// The four big-endian bytes of an unsigned 32-bit value.
pub open spec fn be_bytes(x: u32) -> Seq<u8> {
    seq![(x >> 24u32) as u8, (x >> 16u32) as u8, (x >> 8u32) as u8, x as u8]
}

/// What a chunk holds, as plain values.
pub struct ChunkView {
    pub length: u32,
    pub chunk_type: Seq<u8>,
    pub data: Seq<u8>,
    pub crc: u32,
}

/// A chunk's length agrees with its payload, and its checksum with its tag
/// and payload.
pub open spec fn view_is_consistent(v: ChunkView) -> bool {
    &&& v.chunk_type.len() == 4
    &&& v.length == v.data.len()
    &&& v.crc == crc32_ieee(v.chunk_type + v.data)
}

/// The result of decoding one record from the front of a byte sequence.
pub open spec fn decode_spec(b: Seq<u8>) -> Result<ChunkView, PngError> {
    if b.len() < 8 {
        Err(PngError::TooShort)
    } else {
        let len = be_u32(b.subrange(0, 4));
        let end = 8 + len;
        if b.len() < end + 4 {
            Err(PngError::TooShort)
        } else {
            let stored = be_u32(b.subrange(end, end + 4));
            if stored != crc32_ieee(b.subrange(4, end)) {
                Err(PngError::CrcMismatch)
            } else {
                Ok(
                    ChunkView {
                        length: len,
                        chunk_type: b.subrange(4, 8),
                        data: b.subrange(8, end),
                        crc: stored,
                    },
                )
            }
        }
    }
}

/// The wire form of a chunk: length, tag, payload, then a checksum computed
/// afresh over tag and payload.
pub open spec fn encode_spec(v: ChunkView) -> Seq<u8> {
    be_bytes(v.length) + v.chunk_type + v.data + be_bytes(crc32_ieee(v.chunk_type + v.data))
}

/// A byte sequence with bit `k` of byte `i` inverted.
pub open spec fn flip_bit(b: Seq<u8>, i: int, k: u8) -> Seq<u8> {
    b.update(i, b[i] ^ (1u8 << k))
}

proof fn lemma_be_round_trip(x: u32)
    ensures
        be_u32(be_bytes(x)) == x,
{
    let b = be_bytes(x);
    assert(((((x >> 24u32) as u8) as u32) << 24u32) | ((((x >> 16u32) as u8) as u32) << 16u32)
        | ((((x >> 8u32) as u8) as u32) << 8u32) | ((x as u8) as u32) == x) by (bit_vector);
    assert(b[0] == (x >> 24u32) as u8 && b[1] == (x >> 16u32) as u8 && b[2] == (x >> 8u32) as u8
        && b[3] == x as u8);
}

/// A consistent chunk decodes from its own wire form, unchanged.
pub proof fn lemma_encode_then_decode(v: ChunkView)
    requires
        view_is_consistent(v),
    ensures
        decode_spec(encode_spec(v)) == Ok::<ChunkView, PngError>(v),
{
    let e = encode_spec(v);
    let end = 8 + v.length;
    lemma_be_round_trip(v.length);
    lemma_be_round_trip(v.crc);
    assert(e.subrange(0, 4) =~= be_bytes(v.length));
    assert(e.subrange(4, 8) =~= v.chunk_type);
    assert(e.subrange(8, end) =~= v.data);
    assert(e.subrange(4, end) =~= v.chunk_type + v.data);
    assert(e.subrange(end, end + 4) =~= be_bytes(v.crc));
}

/// Re-encoding a chunk that was decoded from a record, and decoding that,
/// gives back the same chunk.
pub proof fn lemma_decode_encode_round_trip(b: Seq<u8>)
    requires
        decode_spec(b) is Ok,
    ensures
        decode_spec(encode_spec(decode_spec(b)->Ok_0)) == decode_spec(b),
{
    let v = decode_spec(b)->Ok_0;
    assert(b.subrange(4, 8 + v.length) =~= v.chunk_type + v.data);
    lemma_encode_then_decode(v);
}

/// An encoded record cut short of its declared size, `8 + length + 4`
/// bytes, fails to decode with `TooShort`.
pub proof fn lemma_truncated_record_too_short(v: ChunkView, n: int)
    requires
        view_is_consistent(v),
        0 <= n < 12 + v.length,
    ensures
        decode_spec(encode_spec(v).subrange(0, n)) == Err::<ChunkView, PngError>(
            PngError::TooShort,
        ),
{
    let e = encode_spec(v);
    let t = e.subrange(0, n);
    if n >= 8 {
        lemma_be_round_trip(v.length);
        assert(t.subrange(0, 4) =~= be_bytes(v.length));
    }
}

/// Inverting one bit of the tag or payload of an encoded record makes
/// decoding fail with `CrcMismatch`, whenever the checksum of the altered tag
/// and payload differs from that of the original ones.
pub proof fn lemma_flipped_bit_rejected(v: ChunkView, i: int, k: u8)
    requires
        view_is_consistent(v),
        4 <= i < 8 + v.length,
        k < 8,
        crc32_ieee(flip_bit(encode_spec(v), i, k).subrange(4, 8 + v.length)) != crc32_ieee(
            v.chunk_type + v.data,
        ),
    ensures
        decode_spec(flip_bit(encode_spec(v), i, k)) == Err::<ChunkView, PngError>(
            PngError::CrcMismatch,
        ),
{
    let e = encode_spec(v);
    let f = flip_bit(e, i, k);
    let end = 8 + v.length;
    lemma_be_round_trip(v.length);
    lemma_be_round_trip(v.crc);
    assert(f.subrange(0, 4) =~= be_bytes(v.length));
    assert(f.subrange(end, end + 4) =~= be_bytes(v.crc));
}

/// A length-prefixed, typed record whose checksum has been verified.
#[derive(Debug)]
pub struct Chunk {
    pub(crate) length: u32,
    pub(crate) chunk_type: ChunkType,
    pub(crate) crc: u32,
    pub(crate) chunk_data: Vec<u8>,
}

impl View for Chunk {
    type V = ChunkView;

    open(crate) spec fn view(&self) -> ChunkView {
        ChunkView {
            length: self.length,
            chunk_type: self.chunk_type@,
            data: self.chunk_data@,
            crc: self.crc,
        }
    }
}

/// Whether two byte sequences hold the same bytes.
fn same_bytes(a: &[u8], b: &[u8]) -> (r: bool)
    ensures
        r == (a@ == b@),
{
    if a.len() != b.len() {
        return false;
    }
    let mut i: usize = 0;
    while i < a.len()
        invariant
            a@.len() == b@.len(),
            0 <= i <= a@.len(),
            forall|j: int| 0 <= j < i ==> a@[j] == b@[j],
        decreases a@.len() - i,
    {
        if a[i] != b[i] {
            return false;
        }
        i = i + 1;
    }
    assert(a@ =~= b@);
    true
}

impl PartialEq for Chunk {
    fn eq(&self, other: &Chunk) -> (r: bool) {
        self.length == other.length && self.chunk_type == other.chunk_type && self.crc
            == other.crc && same_bytes(self.chunk_data.as_slice(), other.chunk_data.as_slice())
    }
}

impl Eq for Chunk {

}

impl vstd::std_specs::cmp::PartialEqSpecImpl for Chunk {
    open spec fn obeys_eq_spec() -> bool {
        true
    }

    open spec fn eq_spec(&self, other: &Chunk) -> bool {
        self@ == other@
    }
}

/// Reads four big-endian bytes starting at `i`.
fn read_be_u32(bytes: &[u8], i: usize) -> (r: u32)
    requires
        i + 4 <= bytes@.len(),
    ensures
        r == be_u32(bytes@.subrange(i as int, i + 4)),
{
    let b0 = bytes[i];
    let b1 = bytes[i + 1];
    let b2 = bytes[i + 2];
    let b3 = bytes[i + 3];
    ((b0 as u32) << 24u32) | ((b1 as u32) << 16u32) | ((b2 as u32) << 8u32) | (b3 as u32)
}

/// Appends the four big-endian bytes of `x`.
fn push_be_u32(out: &mut Vec<u8>, x: u32)
    ensures
        final(out)@ == old(out)@ + be_bytes(x),
{
    out.push((x >> 24u32) as u8);
    out.push((x >> 16u32) as u8);
    out.push((x >> 8u32) as u8);
    out.push(x as u8);
    proof {
        assert(final(out)@ =~= old(out)@ + be_bytes(x));
    }
}

/// Appends every byte of `src`.
fn push_all(out: &mut Vec<u8>, src: &[u8])
    ensures
        final(out)@ == old(out)@ + src@,
{
    let ghost start = out@;
    let mut i: usize = 0;
    while i < src.len()
        invariant
            0 <= i <= src@.len(),
            out@ == start + src@.subrange(0, i as int),
        decreases src@.len() - i,
    {
        out.push(src[i]);
        i = i + 1;
        proof {
            assert(out@ =~= start + src@.subrange(0, i as int));
        }
    }
    proof {
        assert(src@.subrange(0, i as int) =~= src@);
    }
}

impl Chunk {
    #[verifier::type_invariant]
    spec fn inv(&self) -> bool {
        view_is_consistent(self@)
    }

    /// Decodes the record at the front of `bytes`; bytes after it are ignored.
    pub fn decode(bytes: &[u8]) -> (r: Result<Chunk, PngError>)
        ensures
            r is Ok <==> decode_spec(bytes@) is Ok,
            r matches Ok(c) ==> decode_spec(bytes@) == Ok::<ChunkView, PngError>(c@)
                && view_is_consistent(c@),
            r matches Err(e) ==> decode_spec(bytes@) == Err::<ChunkView, PngError>(e),
    {
        if bytes.len() < 8 {
            return Err(PngError::TooShort);
        }
        let length = read_be_u32(bytes, 0);
        let chunk_type = ChunkType::from_bytes([bytes[4], bytes[5], bytes[6], bytes[7]]);
        if bytes.len() < 12 || length as usize > bytes.len() - 12 {
            return Err(PngError::TooShort);
        }
        let end: usize = 8 + length as usize;
        let computed = checksum_ieee(slice_subrange(bytes, 4, end));
        let crc = read_be_u32(bytes, end);
        if crc != computed {
            return Err(PngError::CrcMismatch);
        }
        let chunk_data = slice_to_vec(slice_subrange(bytes, 8, end));
        proof {
            assert(chunk_type@ =~= bytes@.subrange(4, 8));
            assert(bytes@.subrange(4, end as int) =~= chunk_type@ + chunk_data@);
        }
        let c = Chunk { length, chunk_type, crc, chunk_data };
        proof {
            assert(c@ == decode_spec(bytes@)->Ok_0);
        }
        Ok(c)
    }

    /// The wire form of the chunk, with the checksum computed afresh.
    pub fn encode(&self) -> (r: Vec<u8>)
        ensures
            r@ == encode_spec(self@),
    {
        let tag = self.chunk_type.bytes();
        let mut body: Vec<u8> = Vec::new();
        push_all(&mut body, tag.as_slice());
        push_all(&mut body, self.chunk_data.as_slice());
        let crc = checksum_ieee(body.as_slice());
        let mut out: Vec<u8> = Vec::new();
        push_be_u32(&mut out, self.length);
        push_all(&mut out, body.as_slice());
        push_be_u32(&mut out, crc);
        proof {
            assert(out@ =~= encode_spec(self@));
        }
        out
    }

    /// The payload's byte count.
    pub fn length(&self) -> (r: u32)
        ensures
            r == self@.length,
            r == self@.data.len(),
    {
        proof {
            use_type_invariant(self);
        }
        self.length
    }

    /// The chunk's tag.
    pub fn chunk_type(&self) -> (r: &ChunkType)
        ensures
            r@ == self@.chunk_type,
    {
        &self.chunk_type
    }

    /// The payload bytes.
    pub fn data(&self) -> (r: &[u8])
        ensures
            r@ == self@.data,
    {
        self.chunk_data.as_slice()
    }

    /// The checksum over tag and payload.
    pub fn crc(&self) -> (r: u32)
        ensures
            r == self@.crc,
            r == crc32_ieee(self@.chunk_type + self@.data),
    {
        proof {
            use_type_invariant(self);
        }
        self.crc
    }

    /// The payload read as UTF-8 text.
    pub fn data_as_string(&self) -> (r: Result<String, PngError>)
        ensures
            r is Ok <==> valid_utf8(self@.data),
            r matches Ok(s) ==> encode_utf8(s@) == self@.data,
            r matches Err(e) ==> e == PngError::NotUtf8,
    {
        match utf8_text(self.data()) {
            Some(s) => Ok(s),
            None => Err(PngError::NotUtf8),
        }
    }

    /// An owned copy of the payload bytes.
    pub fn as_bytes(&self) -> (r: Vec<u8>)
        ensures
            r@ == self@.data,
    {
        slice_to_vec(self.data())
    }
}

} // verus!
