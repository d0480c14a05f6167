use vstd::prelude::*;
use vstd::utf8::{decode_utf8, valid_utf8};

use crate::error::ChunkError;

verus! {

/// The flag carried by a type byte: bit 5 (value 0x20), which is clear for
/// upper-case ASCII letters and set for lower-case ones.
pub open spec fn flag_bit(b: u8) -> bool {
    b & 0x20u8 != 0
}

/// Reads the flag bit of one type byte.
fn fifth_bit_to_bool(number: &u8) -> (r: bool)
    ensures
        r == flag_bit(*number),
{
    *number & 0x20 != 0
}

/// An ASCII letter, `A`-`Z` or `a`-`z`.
pub open spec fn is_ascii_letter(c: char) -> bool {
    ('A' <= c && c <= 'Z') || ('a' <= c && c <= 'z')
}

/// The four bytes that a type code given as text stands for, or the reason it
/// stands for none.
pub open spec fn text_code(s: Seq<char>) -> Result<Seq<u8>, ChunkError> {
    if s.len() != 4 {
        Err(ChunkError::InvalidLength)
    } else if exists|i: int| 0 <= i < 4 && !is_ascii_letter(#[trigger] s[i]) {
        Err(ChunkError::InvalidCharacter)
    } else {
        Ok(s.map_values(|c: char| (c as u32) as u8))
    }
}

/// A four-byte chunk type code. Its four flags are read from bit 5 of each
/// byte in turn: ancillary, private, reserved and safe-to-copy.
#[derive(Debug, Clone, Copy)]
pub struct ChunkType {
    bytes: [u8; 4],
}

impl View for ChunkType {
    type V = Seq<u8>;

    closed spec fn view(&self) -> Seq<u8> {
        self.bytes@
    }
}

/// A type code always views as exactly four bytes.
pub broadcast proof fn lemma_code_len(t: ChunkType)
    ensures
        #[trigger] t@.len() == 4,
{
}

/// Relies on String::from_utf8: it accepts exactly the well-formed UTF-8
/// byte sequences and decodes them to their characters.
#[verifier::external_body]
pub(crate) fn utf8_to_string(bytes: Vec<u8>) -> (r: Option<String>)
    ensures
        r is Some <==> valid_utf8(bytes@),
        r is Some ==> r->0@ == decode_utf8(bytes@),
{
    String::from_utf8(bytes).ok()
}

impl ChunkType {
    pub open spec fn ancillary_bit(&self) -> bool {
        flag_bit(self@[0])
    }

    pub open spec fn private_bit(&self) -> bool {
        flag_bit(self@[1])
    }

    pub open spec fn reserved_bit(&self) -> bool {
        flag_bit(self@[2])
    }

    pub open spec fn safe_to_copy_bit(&self) -> bool {
        flag_bit(self@[3])
    }

    /// Takes any four bytes verbatim; no character class is enforced.
    pub fn from_bytes(bytes: [u8; 4]) -> (r: ChunkType)
        ensures
            r@ == bytes@,
    {
        ChunkType { bytes }
    }

    /// Builds a type code from exactly four ASCII letters.
    pub fn from_text(s: &str) -> (r: Result<ChunkType, ChunkError>)
        ensures
            match text_code(s@) {
                Ok(b) => r is Ok && r->Ok_0@ == b,
                Err(e) => r == Err::<ChunkType, ChunkError>(e),
            },
    {
        let mut chars: Vec<char> = Vec::new();
        for c in it: s.chars()
            invariant
                chars@ == it.seq().subrange(0, it.index() as int),
        {
            chars.push(c);
        }
        proof {
            assert(chars@ =~= s@);
        }
        if chars.len() != 4 {
            return Err(ChunkError::InvalidLength);
        }
        let mut bytes: [u8; 4] = [0u8; 4];
        let mut i: usize = 0;
        while i < 4
            invariant
                chars@ == s@,
                s@.len() == 4,
                i <= 4,
                forall|j: int| 0 <= j < i ==> is_ascii_letter(#[trigger] s@[j]),
                forall|j: int| 0 <= j < i ==> bytes@[j] == (s@[j] as u32) as u8,
            decreases 4 - i,
        {
            let c = chars[i];
            if !(('A' <= c && c <= 'Z') || ('a' <= c && c <= 'z')) {
                return Err(ChunkError::InvalidCharacter);
            }
            bytes[i] = (c as u32) as u8;
            i = i + 1;
        }
        proof {
            assert(bytes@ =~= s@.map_values(|c: char| (c as u32) as u8));
        }
        Ok(ChunkType { bytes })
    }

    /// A copy of the four raw bytes.
    pub fn bytes(&self) -> (r: [u8; 4])
        ensures
            r@ == self@,
    {
        self.bytes
    }

    /// True when the reserved bit (byte 2) is clear.
    pub fn is_valid(&self) -> (r: bool)
        ensures
            r == !self.reserved_bit(),
    {
        !fifth_bit_to_bool(&self.bytes[2])
    }

    /// True when the ancillary bit (byte 0) is clear.
    pub fn is_critical(&self) -> (r: bool)
        ensures
            r == !self.ancillary_bit(),
    {
        !fifth_bit_to_bool(&self.bytes[0])
    }

    /// True when the private bit (byte 1) is clear.
    pub fn is_public(&self) -> (r: bool)
        ensures
            r == !self.private_bit(),
    {
        !fifth_bit_to_bool(&self.bytes[1])
    }

    /// The same predicate as `is_valid`: the reserved bit is clear.
    pub fn is_reserved_bit_valid(&self) -> (r: bool)
        ensures
            r == !self.reserved_bit(),
    {
        !fifth_bit_to_bool(&self.bytes[2])
    }

    /// True when the safe-to-copy bit (byte 3) is set.
    pub fn is_safe_to_copy(&self) -> (r: bool)
        ensures
            r == self.safe_to_copy_bit(),
    {
        fifth_bit_to_bool(&self.bytes[3])
    }

    /// The four bytes read as UTF-8 text.
    pub fn to_text(&self) -> (r: Result<String, ChunkError>)
        ensures
            valid_utf8(self@) ==> r is Ok && r->Ok_0@ == decode_utf8(self@),
            !valid_utf8(self@) ==> r == Err::<String, ChunkError>(ChunkError::InvalidUtf8),
    {
        let v: Vec<u8> = vec![self.bytes[0], self.bytes[1], self.bytes[2], self.bytes[3]];
        proof {
            assert(v@ =~= self@);
        }
        match utf8_to_string(v) {
            Some(t) => Ok(t),
            None => Err(ChunkError::InvalidUtf8),
        }
    }
}

impl PartialEq for ChunkType {
    fn eq(&self, other: &ChunkType) -> (r: bool)
        ensures
            r == (self@ == other@),
    {
        let r = self.bytes[0] == other.bytes[0] && self.bytes[1] == other.bytes[1]
            && self.bytes[2] == other.bytes[2] && self.bytes[3] == other.bytes[3];
        proof {
            if r {
                assert(self@ =~= other@);
            }
        }
        r
    }
}

impl vstd::std_specs::cmp::PartialEqSpecImpl for ChunkType {
    open spec fn obeys_eq_spec() -> bool {
        true
    }

    open spec fn eq_spec(&self, other: &ChunkType) -> bool {
        self@ == other@
    }
}

impl Eq for ChunkType {
}

impl TryFrom<[u8; 4]> for ChunkType {
    type Error = ChunkError;

    fn try_from(bytes: [u8; 4]) -> (r: Result<ChunkType, ChunkError>)
        ensures
            r is Ok && r->Ok_0@ == bytes@,
    {
        Ok(ChunkType { bytes })
    }
}

impl vstd::std_specs::convert::TryFromSpecImpl<[u8; 4]> for ChunkType {
    open spec fn obeys_try_from_spec() -> bool {
        true
    }

    closed spec fn try_from_spec(bytes: [u8; 4]) -> Result<ChunkType, ChunkError> {
        Ok(ChunkType { bytes })
    }
}

impl core::str::FromStr for ChunkType {
    type Err = ChunkError;

    fn from_str(s: &str) -> (r: Result<ChunkType, ChunkError>)
        ensures
            match text_code(s@) {
                Ok(b) => r is Ok && r->Ok_0@ == b,
                Err(e) => r == Err::<ChunkType, ChunkError>(e),
            },
    {
        ChunkType::from_text(s)
    }
}

} // verus!
