use vstd::prelude::*;
use vstd::string::StringSliceAdditionalSpecFns;
use vstd::utf8::{encode_utf8, valid_utf8};

use crate::error::PngError;
use crate::text::{lossy_text, utf8_lossy};

verus! {

/// An ASCII upper-case letter, `A` to `Z`.
pub open spec fn is_upper(b: u8) -> bool {
    65 <= b <= 90
}

/// An ASCII lower-case letter, `a` to `z`.
pub open spec fn is_lower(b: u8) -> bool {
    97 <= b <= 122
}

/// An ASCII letter of either case.
pub open spec fn is_letter(b: u8) -> bool {
    is_upper(b) || is_lower(b)
}

/// Every byte of the tag is an ASCII letter.
pub open spec fn all_letters(tag: Seq<u8>) -> bool {
    forall|i: int| 0 <= i < tag.len() ==> #[trigger] is_letter(tag[i])
}

/// A tag that the chunk naming rules accept: four letters, the third one
/// upper case.
pub open spec fn tag_is_valid(tag: Seq<u8>) -> bool {
    tag.len() == 4 && all_letters(tag) && is_upper(tag[2])
}

/// A four-byte chunk tag whose letter case carries the chunk's flags.
#[derive(Debug, Clone, Copy)]
pub struct ChunkType {
    pub(crate) chunk_type: [u8; 4],
}

impl View for ChunkType {
    type V = Seq<u8>;

    open(crate) spec fn view(&self) -> Seq<u8> {
        self.chunk_type@
    }
}

impl PartialEq for ChunkType {
    fn eq(&self, other: &ChunkType) -> (r: bool) {
        let a = &self.chunk_type;
        let b = &other.chunk_type;
        let r = a[0] == b[0] && a[1] == b[1] && a[2] == b[2] && a[3] == b[3];
        proof {
            if r {
                assert(self@ =~= other@);
            }
        }
        r
    }
}

impl Eq for ChunkType {

}

impl vstd::std_specs::cmp::PartialEqSpecImpl for ChunkType {
    open spec fn obeys_eq_spec() -> bool {
        true
    }

    open spec fn eq_spec(&self, other: &ChunkType) -> bool {
        self@ == other@
    }
}

fn is_alphabet(byte: &u8) -> (r: bool)
    ensures
        r == is_letter(*byte),
{
    (65 <= *byte && *byte <= 90) || (97 <= *byte && *byte <= 122)
}

impl ChunkType {
    /// The tag holds its four bytes as given; nothing is checked.
    pub fn from_bytes(bytes: [u8; 4]) -> (r: ChunkType)
        ensures
            r@ == bytes@,
    {
        ChunkType { chunk_type: bytes }
    }

    /// Parses a textual tag: exactly four bytes, each an ASCII letter.
    pub fn from_str(s: &str) -> (r: Result<ChunkType, PngError>)
        ensures
            r is Ok <==> s.spec_bytes().len() == 4 && all_letters(s.spec_bytes()),
            r matches Ok(t) ==> t@ == s.spec_bytes(),
            r == Err::<ChunkType, PngError>(PngError::InvalidLength) <==> s.spec_bytes().len()
                != 4,
            r == Err::<ChunkType, PngError>(PngError::InvalidCharacter) <==> s.spec_bytes().len()
                == 4 && !all_letters(s.spec_bytes()),
    {
        let b = s.as_bytes();
        if b.len() != 4 {
            return Err(PngError::InvalidLength);
        }
        let arr: [u8; 4] = [b[0], b[1], b[2], b[3]];
        let mut i: usize = 0;
        while i < 4
            invariant
                0 <= i <= 4,
                b@ == s.spec_bytes(),
                b@.len() == 4,
                arr@ == b@,
                forall|j: int| 0 <= j < i ==> #[trigger] is_letter(b@[j]),
            decreases 4 - i,
        {
            if !is_alphabet(&arr[i]) {
                assert(!is_letter(s.spec_bytes()[i as int]));
                return Err(PngError::InvalidCharacter);
            }
            i = i + 1;
        }
        proof {
            assert(arr@ =~= b@);
        }
        Ok(ChunkType { chunk_type: arr })
    }

    /// A copy of the four tag bytes.
    pub fn bytes(&self) -> (r: [u8; 4])
        ensures
            r@ == self@,
    {
        self.chunk_type
    }

    /// Critical chunks have an upper-case first byte.
    pub fn is_critical(&self) -> (r: bool)
        ensures
            r == is_upper(self@[0]),
    {
        65 <= self.chunk_type[0] && self.chunk_type[0] <= 90
    }

    /// Public chunks have an upper-case second byte.
    pub fn is_public(&self) -> (r: bool)
        ensures
            r == is_upper(self@[1]),
    {
        65 <= self.chunk_type[1] && self.chunk_type[1] <= 90
    }

    /// The tag is made of letters and its reserved (third) byte is upper case.
    pub fn is_valid(&self) -> (r: bool)
        ensures
            r == tag_is_valid(self@),
    {
        let mut all_alphabets = true;
        let mut i: usize = 0;
        while i < 4
            invariant
                0 <= i <= 4,
                self@.len() == 4,
                all_alphabets == forall|j: int| 0 <= j < i ==> #[trigger] is_letter(self@[j]),
            decreases 4 - i,
        {
            if !is_alphabet(&self.chunk_type[i]) {
                all_alphabets = false;
            }
            i = i + 1;
        }
        all_alphabets && self.is_reserved_bit_valid()
    }

    /// The reserved bit is clear when the third byte is upper case.
    pub fn is_reserved_bit_valid(&self) -> (r: bool)
        ensures
            r == is_upper(self@[2]),
    {
        65 <= self.chunk_type[2] && self.chunk_type[2] <= 90
    }

    /// Safe-to-copy chunks have a lower-case fourth byte.
    pub fn is_safe_to_copy(&self) -> (r: bool)
        ensures
            r == is_lower(self@[3]),
    {
        97 <= self.chunk_type[3] && self.chunk_type[3] <= 122
    }

    /// The tag read as text; bytes that are not UTF-8 become replacement
    /// characters instead of failing.
    pub fn to_string(&self) -> (r: String)
        ensures
            r@ == lossy_text(self@),
            valid_utf8(self@) ==> encode_utf8(r@) == self@,
    {
        utf8_lossy(self.chunk_type.as_slice())
    }
}

} // verus!
