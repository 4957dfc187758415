//! The four-byte type tag of a record and its classification bits.
use vstd::prelude::*;
use vstd::string::StringSliceAdditionalSpecFns;
use vstd::utf8::{decode_utf8, valid_utf8};
use std::string::FromUtf8Error;
use vstd::slice::slice_to_vec;

verus! {

/// Bit 5 of a tag byte: clear for an ASCII upper-case letter, set for a lower-case one.
pub const CASE_BIT: u8 = 0x20;

/// True when the case bit of `b` is clear (an upper-case letter, for alphabetic bytes).
pub open spec fn case_bit_clear(b: u8) -> bool {
    b & 0x20 == 0
}

/// ASCII letters, upper or lower case.
pub open spec fn is_ascii_letter(b: u8) -> bool {
    (65 <= b && b <= 90) || (97 <= b && b <= 122)
}

/// Why a tag could not be built from text.
#[derive(Debug, Clone, Copy, PartialEq, Eq, Structural)]
pub enum TagError {
    /// The text has fewer than four bytes.
    InvalidFormat,
    /// One of the first four bytes is not an ASCII letter.
    InvalidCharacter,
}

/// What building a tag from text gives for the UTF-8 bytes `b` of that text.
pub open spec fn tag_from_text_spec(b: Seq<u8>) -> Result<Seq<u8>, TagError> {
    if b.len() < 4 {
        Err(TagError::InvalidFormat)
    } else if !(forall|i: int| 0 <= i < 4 ==> is_ascii_letter(#[trigger] b[i])) {
        Err(TagError::InvalidCharacter)
    } else {
        Ok(b.subrange(0, 4))
    }
}

/// A four-byte record type tag. Equality is byte-wise.
#[derive(Debug, Clone, Copy, PartialEq, Eq, Structural)]
pub struct ChunkType {
    b0: u8,
    b1: u8,
    b2: u8,
    b3: u8,
}

impl View for ChunkType {
    type V = Seq<u8>;

    closed spec fn view(&self) -> Seq<u8> {
        seq![self.b0, self.b1, self.b2, self.b3]
    }
}

/// A tag always has four bytes.
pub broadcast proof fn lemma_tag_len(t: ChunkType)
    ensures
        (#[trigger] t@).len() == 4,
{
}

/// Two tags are the same value exactly when their bytes are.
pub broadcast proof fn lemma_tag_view_injective(a: ChunkType, b: ChunkType)
    ensures
        (#[trigger] a@ == #[trigger] b@) <==> a == b,
{
    if a@ == b@ {
        assert(a@[0] == b@[0] && a@[1] == b@[1] && a@[2] == b@[2] && a@[3] == b@[3]);
    }
}

impl From<[u8; 4]> for ChunkType {
    /// Wraps four raw bytes as they are, as `ChunkType::from_bytes` does.
    fn from(bytes: [u8; 4]) -> (r: ChunkType)
        ensures
            r@ == bytes@,
    {
        ChunkType::from_bytes(bytes)
    }
}

impl vstd::std_specs::convert::FromSpecImpl<[u8; 4]> for ChunkType {
    open spec fn obeys_from_spec() -> bool {
        true
    }

    closed spec fn from_spec(bytes: [u8; 4]) -> ChunkType {
        ChunkType { b0: bytes[0], b1: bytes[1], b2: bytes[2], b3: bytes[3] }
    }
}

impl std::str::FromStr for ChunkType {
    type Err = TagError;

    /// Builds a tag from text, as `ChunkType::from_text` does.
    fn from_str(s: &str) -> (r: Result<ChunkType, TagError>)
        ensures
            match r {
                Ok(t) => tag_from_text_spec(s.spec_bytes()) == Ok::<Seq<u8>, TagError>(t@),
                Err(e) => tag_from_text_spec(s.spec_bytes()) == Err::<Seq<u8>, TagError>(e),
            },
    {
        ChunkType::from_text(s)
    }
}

impl ChunkType {
    /// Wraps four raw bytes as they are; any bytes are accepted.
    pub fn from_bytes(bytes: [u8; 4]) -> (r: ChunkType)
        ensures
            r@ == bytes@,
    {
        let r = ChunkType { b0: bytes[0], b1: bytes[1], b2: bytes[2], b3: bytes[3] };
        assert(r@ =~= bytes@);
        r
    }

    /// Builds a tag from the first four bytes of `s`, which must all be ASCII letters.
    pub fn from_text(s: &str) -> (r: Result<ChunkType, TagError>)
        ensures
            match r {
                Ok(t) => tag_from_text_spec(s.spec_bytes()) == Ok::<Seq<u8>, TagError>(t@),
                Err(e) => tag_from_text_spec(s.spec_bytes()) == Err::<Seq<u8>, TagError>(e),
            },
    {
        let b = s.as_bytes();
        if b.len() < 4 {
            return Err(TagError::InvalidFormat);
        }
        let mut i: usize = 0;
        while i < 4
            invariant
                i <= 4,
                b.len() >= 4,
                b@ == s.spec_bytes(),
                forall|j: int| 0 <= j < i ==> is_ascii_letter(#[trigger] b@[j]),
            decreases 4 - i,
        {
            let c = b[i];
            if !((c >= 65 && c <= 90) || (c >= 97 && c <= 122)) {
                assert(!is_ascii_letter(b@[i as int]));
                return Err(TagError::InvalidCharacter);
            }
            i = i + 1;
        }
        let r = ChunkType { b0: b[0], b1: b[1], b2: b[2], b3: b[3] };
        assert(r@ =~= b@.subrange(0, 4));
        Ok(r)
    }

    /// The four bytes of the tag.
    pub fn bytes(&self) -> (r: [u8; 4])
        ensures
            r@ == self@,
    {
        let r = [self.b0, self.b1, self.b2, self.b3];
        assert(r@ =~= self@);
        r
    }

    /// Byte 0: a clear case bit marks a critical record, a set one an ancillary record.
    pub fn is_critical(&self) -> (r: bool)
        ensures
            r == case_bit_clear(self@[0]),
    {
        self.b0 & CASE_BIT == 0
    }

    /// Byte 1: a clear case bit marks a public record type, a set one a private type.
    pub fn is_public(&self) -> (r: bool)
        ensures
            r == case_bit_clear(self@[1]),
    {
        self.b1 & CASE_BIT == 0
    }

    /// Byte 2: the reserved bit is valid when the case bit is clear.
    pub fn is_reserved_bit_valid(&self) -> (r: bool)
        ensures
            r == case_bit_clear(self@[2]),
    {
        self.b2 & CASE_BIT == 0
    }

    /// Byte 3: a set case bit (lower case) marks a record that is safe to copy.
    pub fn is_safe_to_copy(&self) -> (r: bool)
        ensures
            r == !case_bit_clear(self@[3]),
    {
        self.b3 & CASE_BIT != 0
    }

    /// The tag as text.
    pub fn to_string(&self) -> (r: String)
        requires
            valid_utf8(self@),
        ensures
            r@ == decode_utf8(self@),
    {
        let tag = self.bytes();
        match utf8_to_string(slice_to_vec(tag.as_slice())) {
            Ok(s) => s,
            Err(_) => {
                assert(false);
                String::new()
            },
        }
    }

    /// A tag is valid when its third byte is an ASCII upper-case letter.
    pub fn is_valid(&self) -> (r: bool)
        ensures
            r == (65 <= self@[2] && self@[2] <= 90),
    {
        self.b2 >= 65 && self.b2 <= 90
    }
}

} // verus!

verus! {

/// Relies on `String::from_utf8`: it succeeds exactly on valid UTF-8, and the
/// string then holds the characters that the bytes encode.
#[verifier::external_body]
pub(crate) fn utf8_to_string(v: Vec<u8>) -> (r: Result<String, FromUtf8Error>)
    ensures
        r is Ok <==> valid_utf8(v@),
        r matches Ok(s) ==> s@ == decode_utf8(v@),
{
    String::from_utf8(v)
}

#[verifier::external_type_specification]
#[verifier::external_body]
pub struct ExFromUtf8Error(FromUtf8Error);

} // verus!
