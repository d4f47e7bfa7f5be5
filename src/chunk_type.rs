//! Four-letter chunk type codes and the property bits carried in their case.
use crate::text::{
    ascii_chars, byte_char, hex_digits, lemma_ascii_utf8, str_from_utf8, upper_hex,
};
use vstd::prelude::*;
use vstd::string::{StringExecFns, StringSliceAdditionalSpecFns};

verus! {

/// True when `b` is an ASCII letter (`A`-`Z` or `a`-`z`).
pub open spec fn is_letter(b: u8) -> bool {
    (65 <= b && b <= 90) || (97 <= b && b <= 122)
}

/// True when all four bytes of a type code are ASCII letters.
pub open spec fn all_letters(code: Seq<u8>) -> bool {
    code.len() == 4 && forall|i: int| 0 <= i < 4 ==> is_letter(#[trigger] code[i])
}

/// True when `b` is an uppercase ASCII letter.
pub open spec fn is_upper(b: u8) -> bool {
    65 <= b && b <= 90
}

/// Bit 5 of a byte: set for lowercase letters, clear for uppercase ones.
pub open spec fn property_bit(b: u8) -> bool {
    (b >> 5u8) & 1u8 == 1u8
}

/// The byte of a type code that fails validation, tagged with its position,
/// or `None` when all four bytes are letters.
pub open spec fn first_invalid_byte(code: Seq<u8>) -> Option<PropertyByte>
    recommends
        code.len() == 4,
{
    if !is_letter(code[0]) {
        Some(PropertyByte::Ancillary(code[0]))
    } else if !is_letter(code[1]) {
        Some(PropertyByte::Private(code[1]))
    } else if !is_letter(code[2]) {
        Some(PropertyByte::Reserved(code[2]))
    } else if !is_letter(code[3]) {
        Some(PropertyByte::SafeToCopy(code[3]))
    } else {
        None
    }
}

/// The outcome of building a type code from its bytes.
pub open spec fn parse_type_code(code: Seq<u8>) -> Result<Seq<u8>, PropertyByte>
    recommends
        code.len() == 4,
{
    match first_invalid_byte(code) {
        Some(b) => Err(b),
        None => Ok(code),
    }
}

/// The error tag for byte `b` at position `i` of a type code.
pub open spec fn tag_at(i: int, b: u8) -> PropertyByte {
    if i == 0 {
        PropertyByte::Ancillary(b)
    } else if i == 1 {
        PropertyByte::Private(b)
    } else if i == 2 {
        PropertyByte::Reserved(b)
    } else {
        PropertyByte::SafeToCopy(b)
    }
}

/// Four letters always make a type code, with the bytes kept as they are.
pub proof fn lemma_letters_accepted(code: Seq<u8>)
    requires
        all_letters(code),
    ensures
        parse_type_code(code) == Ok::<Seq<u8>, PropertyByte>(code),
{
    assert(is_letter(code[0]) && is_letter(code[1]) && is_letter(code[2]) && is_letter(code[3]));
}

/// Four bytes with a non-letter are refused, naming the first offending
/// position and its byte.
pub proof fn lemma_first_non_letter_rejected(code: Seq<u8>, i: int)
    requires
        code.len() == 4,
        0 <= i < 4,
        !is_letter(code[i]),
        forall|j: int| 0 <= j < i ==> is_letter(#[trigger] code[j]),
    ensures
        parse_type_code(code) == Err::<Seq<u8>, PropertyByte>(tag_at(i, code[i])),
{
    if i > 0 {
        assert(is_letter(code[0]));
    }
    if i > 1 {
        assert(is_letter(code[1]));
    }
    if i > 2 {
        assert(is_letter(code[2]));
    }
}

/// Bit 5 of a letter is clear exactly when the letter is uppercase.
pub proof fn lemma_property_bit_is_case(b: u8)
    requires
        is_letter(b),
    ensures
        property_bit(b) == !is_upper(b),
{
    assert(((65 <= b && b <= 90) || (97 <= b && b <= 122)) ==> (((b >> 5u8) & 1u8 == 1u8) == !(
    65 <= b && b <= 90))) by (bit_vector);
}

#[verifier::external_type_specification]
#[verifier::external_body]
pub struct ExTryFromSliceError(core::array::TryFromSliceError);

/// Relies on `<[u8; 4] as TryFrom<&[u8]>>::try_from`: it succeeds exactly when
/// the slice holds four bytes, and copies them.
#[verifier::external_body]
fn four_bytes(bytes: &[u8]) -> (r: Result<[u8; 4], core::array::TryFromSliceError>)
    ensures
        r is Ok <==> bytes@.len() == 4,
        r matches Ok(a) ==> a@ == bytes@,
{
    <[u8; 4]>::try_from(bytes)
}

/// Position of an offending byte inside a type code, with the byte itself.
#[derive(Debug, Clone, Copy, PartialEq, Eq, Structural)]
pub enum PropertyByte {
    Ancillary(u8),
    Private(u8),
    Reserved(u8),
    SafeToCopy(u8),
}

/// The name of the property whose byte is at fault.
pub open spec fn property_name(p: PropertyByte) -> Seq<char> {
    match p {
        PropertyByte::Ancillary(_) => "ancillary"@,
        PropertyByte::Private(_) => "private"@,
        PropertyByte::Reserved(_) => "reserved"@,
        PropertyByte::SafeToCopy(_) => "safe to copy"@,
    }
}

/// The message describing a type code error.
pub open spec fn chunk_type_error_text(e: ChunkTypeError) -> Seq<char> {
    match e {
        ChunkTypeError::InvalidByte(p) => "invalid '"@ + property_name(p) + "' byte: ['"@ + seq![
            p.spec_value() as char,
        ] + "'/'0x"@ + hex_digits(p.spec_value() as nat) + "'].\n"@
            + "Chunk type codes are restricted to consist of uppercase or lowercase "@
            + "ASCII letters (A-Z or a-z)."@,
        ChunkTypeError::InvalidLength(_) => "invalid length: chunk type codes are 4 bytes"@,
    }
}

impl PropertyByte {
    /// The name of the property whose byte is at fault.
    pub fn to_string(&self) -> (r: String)
        ensures
            r@ == property_name(*self),
    {
        match self {
            PropertyByte::Ancillary(_) => String::from_str("ancillary"),
            PropertyByte::Private(_) => String::from_str("private"),
            PropertyByte::Reserved(_) => String::from_str("reserved"),
            PropertyByte::SafeToCopy(_) => String::from_str("safe to copy"),
        }
    }

    /// The offending byte.
    pub open spec fn spec_value(&self) -> u8 {
        match *self {
            PropertyByte::Ancillary(b) => b,
            PropertyByte::Private(b) => b,
            PropertyByte::Reserved(b) => b,
            PropertyByte::SafeToCopy(b) => b,
        }
    }

    /// The offending byte.
    pub fn value(&self) -> (r: u8)
        ensures
            r == self.spec_value(),
    {
        match *self {
            PropertyByte::Ancillary(b) => b,
            PropertyByte::Private(b) => b,
            PropertyByte::Reserved(b) => b,
            PropertyByte::SafeToCopy(b) => b,
        }
    }
}

/// 4-byte chunk type code, restricted to uppercase and lowercase ASCII
/// letters. The case of each letter carries one property bit.
#[derive(Debug, Clone, Copy, PartialEq, Eq, Structural)]
pub struct ChunkType {
    /// First byte; lowercase marks an ancillary chunk, uppercase a critical one.
    ancillary: u8,
    /// Second byte; lowercase marks a private chunk, uppercase a public one.
    private: u8,
    /// Third byte; must be uppercase in the current version of the format.
    reserved: u8,
    /// Fourth byte; lowercase marks a chunk that is safe to copy.
    safe_to_copy: u8,
}

impl View for ChunkType {
    type V = Seq<u8>;

    closed spec fn view(&self) -> Seq<u8> {
        seq![self.ancillary, self.private, self.reserved, self.safe_to_copy]
    }
}

/// Two type codes with the same bytes are the same value.
pub proof fn lemma_view_injective(a: ChunkType, b: ChunkType)
    ensures
        a@ == b@ ==> a == b,
{
    if a@ == b@ {
        assert(a@[0] == b@[0] && a@[1] == b@[1] && a@[2] == b@[2] && a@[3] == b@[3]);
    }
}

impl ChunkType {
    #[verifier::type_invariant]
    spec fn letters_only(&self) -> bool {
        all_letters(self@)
    }

    /// Builds a type code from four bytes, rejecting the first byte that is
    /// not an ASCII letter.
    pub fn try_from(value: [u8; 4]) -> (r: Result<ChunkType, ChunkTypeError>)
        ensures
            match r {
                Ok(t) => parse_type_code(value@) == Ok::<Seq<u8>, PropertyByte>(t@),
                Err(e) => parse_type_code(value@) matches Err(b) && e
                    == ChunkTypeError::InvalidByte(b),
            },
            r is Ok <==> all_letters(value@),
    {
        let ancillary = value[0];
        let private = value[1];
        let reserved = value[2];
        let safe_to_copy = value[3];
        if !Self::is_valid_byte(ancillary) {
            return Err(ChunkTypeError::InvalidByte(PropertyByte::Ancillary(ancillary)));
        }
        if !Self::is_valid_byte(private) {
            return Err(ChunkTypeError::InvalidByte(PropertyByte::Private(private)));
        }
        if !Self::is_valid_byte(reserved) {
            return Err(ChunkTypeError::InvalidByte(PropertyByte::Reserved(reserved)));
        }
        if !Self::is_valid_byte(safe_to_copy) {
            return Err(ChunkTypeError::InvalidByte(PropertyByte::SafeToCopy(safe_to_copy)));
        }
        let t = ChunkType { ancillary, private, reserved, safe_to_copy };
        assert(t@ =~= value@);
        Ok(t)
    }

    /// Builds a type code from a four-byte string.
    pub fn from_str(s: &str) -> (r: Result<ChunkType, ChunkTypeError>)
        ensures
            match r {
                Ok(t) => s.spec_bytes().len() == 4 && parse_type_code(s.spec_bytes()) == Ok::<
                    Seq<u8>,
                    PropertyByte,
                >(t@),
                Err(ChunkTypeError::InvalidByte(b)) => s.spec_bytes().len() == 4 && parse_type_code(
                    s.spec_bytes(),
                ) == Err::<Seq<u8>, PropertyByte>(b),
                Err(ChunkTypeError::InvalidLength(_)) => s.spec_bytes().len() != 4,
            },
            r is Ok <==> all_letters(s.spec_bytes()),
    {
        let bytes = s.as_bytes();
        match four_bytes(bytes) {
            Ok(code) => ChunkType::try_from(code),
            Err(e) => Err(ChunkTypeError::InvalidLength(e)),
        }
    }

    /// Checks bit 5 of a byte, the position of every property bit.
    fn is_property_bit_set(byte: u8) -> (r: bool)
        ensures
            r == property_bit(byte),
    {
        assert(((byte >> 5u8) & 1u8 != 0u8) == ((byte >> 5u8) & 1u8 == 1u8)) by (bit_vector);
        ((byte >> 5u8) & 1u8) != 0
    }

    /// Valid bytes are the characters `A`-`Z` and `a`-`z`.
    pub fn is_valid_byte(byte: u8) -> (r: bool)
        ensures
            r == is_letter(byte),
    {
        (97 <= byte && byte <= 122) || (65 <= byte && byte <= 90)
    }

    /// The four bytes of the code, in order.
    pub fn bytes(&self) -> (r: [u8; 4])
        ensures
            r@ == self@,
            all_letters(r@),
    {
        proof {
            use_type_invariant(self);
        }
        let r = [self.ancillary, self.private, self.reserved, self.safe_to_copy];
        assert(r@ =~= self@);
        r
    }

    /// True when the reserved bit is valid and all four bytes are letters;
    /// the letters are checked again although construction already did.
    pub fn is_valid(&self) -> (r: bool)
        ensures
            r == (!property_bit(self@[2]) && all_letters(self@)),
            r == is_upper(self@[2]),
    {
        proof {
            use_type_invariant(self);
            lemma_property_bit_is_case(self.reserved);
        }
        let r = self.is_reserved_bit_valid() && Self::is_valid_byte(self.ancillary)
            && Self::is_valid_byte(self.private) && Self::is_valid_byte(self.reserved)
            && Self::is_valid_byte(self.safe_to_copy);
        assert(r == all_letters(self@) && !property_bit(self@[2]) ==> r);
        r
    }

    /// Ancillary bit, bit 5 of the first byte: clear (uppercase) marks a
    /// critical chunk.
    pub fn is_critical(&self) -> (r: bool)
        ensures
            r == !property_bit(self@[0]),
            r == is_upper(self@[0]),
    {
        proof {
            use_type_invariant(self);
            lemma_property_bit_is_case(self.ancillary);
        }
        !Self::is_property_bit_set(self.ancillary)
    }

    /// Private bit, bit 5 of the second byte: clear (uppercase) marks a
    /// public chunk.
    pub fn is_public(&self) -> (r: bool)
        ensures
            r == !property_bit(self@[1]),
            r == is_upper(self@[1]),
    {
        proof {
            use_type_invariant(self);
            lemma_property_bit_is_case(self.private);
        }
        !Self::is_property_bit_set(self.private)
    }

    /// Reserved bit, bit 5 of the third byte: must be clear (uppercase) in
    /// the current version of the format.
    pub fn is_reserved_bit_valid(&self) -> (r: bool)
        ensures
            r == !property_bit(self@[2]),
            r == is_upper(self@[2]),
    {
        proof {
            use_type_invariant(self);
            lemma_property_bit_is_case(self.reserved);
        }
        !Self::is_property_bit_set(self.reserved)
    }

    /// Safe-to-copy bit, bit 5 of the fourth byte: set (lowercase) marks a
    /// chunk that editors may copy without understanding it.
    pub fn is_safe_to_copy(&self) -> (r: bool)
        ensures
            r == property_bit(self@[3]),
            r == !is_upper(self@[3]),
    {
        proof {
            use_type_invariant(self);
            lemma_property_bit_is_case(self.safe_to_copy);
        }
        Self::is_property_bit_set(self.safe_to_copy)
    }

    /// The code as text: its four letters.
    pub fn to_string(&self) -> (r: String)
        ensures
            r@ == ascii_chars(self@),
    {
        proof {
            use_type_invariant(self);
        }
        let code = self.bytes();
        proof {
            assert forall|i: int| 0 <= i < code@.len() implies #[trigger] code@[i] < 128 by {
                assert(is_letter(code@[i]));
            }
            lemma_ascii_utf8(code@);
        }
        match str_from_utf8(code.as_slice()) {
            Ok(s) => s.to_string(),
            Err(_) => String::new(),
        }
    }
}

/// Reasons a type code cannot be built.
#[derive(Debug)]
pub enum ChunkTypeError {
    /// A byte is not an ASCII letter.
    InvalidByte(PropertyByte),
    /// A type code is exactly four bytes long.
    InvalidLength(core::array::TryFromSliceError),
}

impl ChunkTypeError {
    /// A message describing the error.
    pub fn to_string(&self) -> (r: String)
        ensures
            r@ == chunk_type_error_text(*self),
    {
        match self {
            ChunkTypeError::InvalidByte(p) => {
                let b = p.value();
                let mut out = String::from_str("invalid '");
                out.append(p.to_string().as_str());
                out.append("' byte: ['");
                out.append(byte_char(b).as_str());
                out.append("'/'0x");
                out.append(upper_hex(b).as_str());
                out.append("'].\n");
                out.append("Chunk type codes are restricted to consist of uppercase or lowercase ");
                out.append("ASCII letters (A-Z or a-z).");
                out
            },
            ChunkTypeError::InvalidLength(_) => String::from_str(
                "invalid length: chunk type codes are 4 bytes",
            ),
        }
    }
}

} // verus!
