//! Chunks: a length field, a type code, a payload and a checksum.
use crate::chunk_type::{
    all_letters, chunk_type_error_text, first_invalid_byte, is_letter, ChunkType, ChunkTypeError,
};
use crate::text::{ascii_chars, decimal, decimal_digits, str_from_utf8};
use crate::util::{get_bit, lemma_most_sig, MOST_SIG};
use vstd::prelude::*;
use vstd::string::StringExecFns;
use vstd::utf8::{decode_utf8, valid_utf8};

verus! {

/// The CRC-32 (ISO-HDLC) checksum of a byte string.
pub uninterp spec fn crc32_iso_hdlc(bytes: Seq<u8>) -> u32;

/// Relies on `crc::Crc::<u32>::checksum` with `crc::CRC_32_ISO_HDLC`: the
/// checksum depends on the bytes alone.
#[verifier::external_body]
fn checksum(bytes: &[u8]) -> (r: u32)
    ensures
        r == crc32_iso_hdlc(bytes@),
{
    crc::Crc::<u32>::new(&crc::CRC_32_ISO_HDLC).checksum(bytes)
}

/// The largest payload a chunk can hold: the length field's top bit is clear.
pub const MAX_DATA_LENGTH: u32 = 0x7fff_ffff;

/// The four big-endian bytes of `n`.
pub open spec fn be_bytes(n: u32) -> Seq<u8> {
    seq![(n >> 24u32) as u8, (n >> 16u32) as u8, (n >> 8u32) as u8, n as u8]
}

/// The number whose big-endian bytes are the first four of `b`.
pub open spec fn be_u32(b: Seq<u8>) -> u32
    recommends
        b.len() >= 4,
{
    ((b[0] as u32) << 24u32) | ((b[1] as u32) << 16u32) | ((b[2] as u32) << 8u32) | (b[3] as u32)
}

proof fn lemma_be_round_trip(n: u32)
    ensures
        be_bytes(n).len() == 4,
        be_u32(be_bytes(n)) == n,
        (be_bytes(n)[0] < 128) == (n <= MAX_DATA_LENGTH),
{
    let b0 = (n >> 24u32) as u8;
    let b1 = (n >> 16u32) as u8;
    let b2 = (n >> 8u32) as u8;
    let b3 = n as u8;
    assert(((b0 as u32) << 24u32) | ((b1 as u32) << 16u32) | ((b2 as u32) << 8u32) | (b3 as u32)
        == n) by (bit_vector)
        requires
            b0 == (n >> 24u32) as u8,
            b1 == (n >> 16u32) as u8,
            b2 == (n >> 8u32) as u8,
            b3 == n as u8,
    ;
    assert((b0 < 128u8) == (n <= 0x7fff_ffffu32)) by (bit_vector)
        requires
            b0 == (n >> 24u32) as u8,
    ;
}

proof fn lemma_be_top_bit(b: Seq<u8>)
    requires
        b.len() >= 4,
    ensures
        (b[0] < 128) == (be_u32(b) <= MAX_DATA_LENGTH),
{
    let (b0, b1, b2, b3) = (b[0], b[1], b[2], b[3]);
    assert((b0 < 128u8) == ((((b0 as u32) << 24u32) | ((b1 as u32) << 16u32) | ((b2 as u32)
        << 8u32) | (b3 as u32)) <= 0x7fff_ffffu32)) by (bit_vector);
}

/// The model of a chunk: its type code and its payload.
pub type ChunkModel = (Seq<u8>, Seq<u8>);

/// A chunk model that a `Chunk` can hold.
pub open spec fn valid_chunk(c: ChunkModel) -> bool {
    all_letters(c.0) && c.1.len() <= MAX_DATA_LENGTH
}

/// The checksum of a chunk, taken over its type code and payload.
pub open spec fn chunk_crc(c: ChunkModel) -> u32 {
    crc32_iso_hdlc(c.0 + c.1)
}

/// The bytes of a chunk: length, type code, payload, checksum.
pub open spec fn encode_chunk(c: ChunkModel) -> Seq<u8> {
    be_bytes(c.1.len() as u32) + c.0 + c.1 + be_bytes(chunk_crc(c))
}

/// The number of bytes a chunk with `n` payload bytes takes.
pub open spec fn chunk_size(n: int) -> int {
    n + 12
}

/// The human-readable summary of a chunk: sizes, type and checksum.
pub open spec fn chunk_text(c: ChunkModel) -> Seq<char> {
    "Chunk [total size: "@ + decimal_digits(chunk_size(c.1.len() as int) as nat) + " bytes] {\n"@
        + "  Length: "@ + decimal_digits(c.1.len()) + "\n"@ + "  Type: "@ + ascii_chars(c.0)
        + "\n"@ + "  Data: "@ + decimal_digits(c.1.len()) + " bytes\n"@ + "  Crc: "@
        + decimal_digits(chunk_crc(c) as nat) + "\n"@ + "}\n"@
}

/// Decoding a chunk from the front of `b`; bytes after the chunk are ignored.
#[verifier::opaque]
pub open spec fn decode_chunk(b: Seq<u8>) -> Result<ChunkModel, ChunkError> {
    if b.len() < 4 {
        Err(ChunkError::TruncatedInput)
    } else if b[0] >= 128 {
        Err(ChunkError::InvalidLength(be_u32(b)))
    } else if b.len() < 8 {
        Err(ChunkError::TruncatedInput)
    } else {
        match first_invalid_byte(b.subrange(4, 8)) {
            Some(p) => Err(ChunkError::ChunkType(ChunkTypeError::InvalidByte(p))),
            None => {
                let end = 8 + be_u32(b) as int;
                if b.len() < end + 4 {
                    Err(ChunkError::TruncatedInput)
                } else {
                    let c = (b.subrange(4, 8), b.subrange(8, end));
                    let stored = be_u32(b.subrange(end, end + 4));
                    if chunk_crc(c) != stored {
                        Err(ChunkError::Crc { expected: chunk_crc(c), actual: stored })
                    } else {
                        Ok(c)
                    }
                }
            },
        }
    }
}

/// Decoding reads an encoded chunk back off the front of any buffer that
/// starts with it, whatever follows.
pub proof fn lemma_decode_encoded_prefix(c: ChunkModel, rest: Seq<u8>)
    requires
        valid_chunk(c),
    ensures
        decode_chunk(encode_chunk(c) + rest) == Ok::<ChunkModel, ChunkError>(c),
{
    reveal(decode_chunk);
    let b = encode_chunk(c) + rest;
    let n = c.1.len() as u32;
    let end = 8 + n as int;
    lemma_be_round_trip(n);
    lemma_be_round_trip(chunk_crc(c));
    assert(b.subrange(0, 4) =~= be_bytes(n));
    assert(be_u32(b) == be_u32(be_bytes(n))) by {
        assert(b[0] == be_bytes(n)[0] && b[1] == be_bytes(n)[1] && b[2] == be_bytes(n)[2] && b[3]
            == be_bytes(n)[3]);
    }
    assert(b.subrange(4, 8) =~= c.0);
    lemma_letters_pass(c.0);
    assert(b.subrange(8, end) =~= c.1);
    assert(b.subrange(end, end + 4) =~= be_bytes(chunk_crc(c)));
}

/// All four bytes of a valid code pass validation.
pub proof fn lemma_letters_pass(code: Seq<u8>)
    requires
        all_letters(code),
    ensures
        first_invalid_byte(code) is None,
{
    assert(is_letter(code[0]) && is_letter(code[1]) && is_letter(code[2]) && is_letter(code[3]));
}

/// A decoded chunk never takes more bytes than the buffer holds.
pub proof fn lemma_decoded_size(b: Seq<u8>)
    ensures
        decode_chunk(b) matches Ok(c) ==> chunk_size(c.1.len() as int) <= b.len(),
{
    reveal(decode_chunk);
}

/// Round trip: decoding the bytes of a chunk gives back its type code and
/// payload, and so its checksum.
pub proof fn lemma_chunk_round_trip(c: ChunkModel)
    requires
        valid_chunk(c),
    ensures
        decode_chunk(encode_chunk(c)) == Ok::<ChunkModel, ChunkError>(c),
        decode_chunk(encode_chunk(c)) matches Ok(d) && chunk_crc(d) == chunk_crc(c),
{
    lemma_decode_encoded_prefix(c, seq![]);
    assert(encode_chunk(c) + seq![] =~= encode_chunk(c));
}

/// `b` with bit `k` of byte `i` flipped.
pub open spec fn flip_bit(b: Seq<u8>, i: int, k: u8) -> Seq<u8> {
    b.update(i, b[i] ^ (1u8 << k))
}

/// Flipping one bit of the type code or payload of an encoded chunk, while
/// the stored checksum stays as it was, changes the chunk that the bytes
/// describe; decoding then fails with a checksum mismatch, reporting the
/// recomputed and the stored checksum, exactly when the recomputed one
/// differs. A flip in the type code is considered where the code still
/// consists of letters; otherwise the code itself is rejected.
pub proof fn lemma_bit_flip_rejected(c: ChunkModel, i: int, k: u8)
    requires
        valid_chunk(c),
        4 <= i < 8 + c.1.len(),
        k < 8,
        all_letters(flip_bit(encode_chunk(c), i, k).subrange(4, 8)),
    ensures
        ({
            let f = flip_bit(encode_chunk(c), i, k);
            let altered = (f.subrange(4, 8), f.subrange(8, 8 + c.1.len() as int));
            &&& altered != c
            &&& decode_chunk(f) == if chunk_crc(altered) != chunk_crc(c) {
                Err::<ChunkModel, ChunkError>(
                    ChunkError::Crc { expected: chunk_crc(altered), actual: chunk_crc(c) },
                )
            } else {
                Ok::<ChunkModel, ChunkError>(altered)
            }
        }),
{
    reveal(decode_chunk);
    let e = encode_chunk(c);
    let f = flip_bit(e, i, k);
    let n = c.1.len() as u32;
    let end = 8 + n as int;
    let altered = (f.subrange(4, 8), f.subrange(8, end));
    lemma_be_round_trip(n);
    lemma_be_round_trip(chunk_crc(c));
    let x = e[i];
    assert(x ^ (1u8 << k) != x) by (bit_vector)
        requires
            k < 8,
    ;
    assert(be_u32(f) == be_u32(be_bytes(n))) by {
        assert(f[0] == be_bytes(n)[0] && f[1] == be_bytes(n)[1] && f[2] == be_bytes(n)[2] && f[3]
            == be_bytes(n)[3]);
    }
    lemma_letters_pass(f.subrange(4, 8));
    assert(f.subrange(end, end + 4) =~= be_bytes(chunk_crc(c)));
    if i < 8 {
        assert(altered.0[i - 4] != c.0[i - 4]);
    } else {
        assert(altered.1[i - 8] != c.1[i - 8]);
    }
}

/// Reasons a chunk cannot be decoded.
#[derive(Debug)]
pub enum ChunkError {
    /// The buffer ends before the chunk does.
    TruncatedInput,
    /// The type code holds a byte that is not a letter.
    ChunkType(ChunkTypeError),
    /// The length field has its top bit set.
    InvalidLength(u32),
    /// Fewer payload bytes were read than the length field declares.
    Length { expected: u32, actual: u32 },
    /// The checksum computed over the chunk differs from the stored one.
    Crc { expected: u32, actual: u32 },
}

/// The message describing a chunk error.
pub open spec fn chunk_error_text(e: ChunkError) -> Seq<char> {
    match e {
        ChunkError::TruncatedInput => "unexpected end of input while reading a chunk"@,
        ChunkError::ChunkType(t) => chunk_type_error_text(t),
        ChunkError::InvalidLength(n) => "invalid chunk data length '"@ + decimal_digits(n as nat)
            + "': length must not exceed 2^31 - 1 bytes."@,
        ChunkError::Length { expected, actual } => "length mismatch: given '"@ + decimal_digits(
            expected as nat,
        ) + "' != '"@ + decimal_digits(actual as nat) + "' actual"@,
        ChunkError::Crc { expected, actual } => "crc mismatch: given '"@ + decimal_digits(
            expected as nat,
        ) + "' != '"@ + decimal_digits(actual as nat) + "' actual"@,
    }
}

/// The message for a mismatch between an expected and an actual value.
fn mismatch_text(what: &str, expected: u32, actual: u32) -> (r: String)
    ensures
        r@ == what@ + " mismatch: given '"@ + decimal_digits(expected as nat) + "' != '"@
            + decimal_digits(actual as nat) + "' actual"@,
{
    let mut out = String::from_str(what);
    out.append(" mismatch: given '");
    out.append(decimal(expected as u64).as_str());
    out.append("' != '");
    out.append(decimal(actual as u64).as_str());
    out.append("' actual");
    out
}

impl ChunkError {
    /// A message describing the error.
    pub fn to_string(&self) -> (r: String)
        ensures
            r@ == chunk_error_text(*self),
    {
        match self {
            ChunkError::TruncatedInput => String::from_str(
                "unexpected end of input while reading a chunk",
            ),
            ChunkError::ChunkType(e) => e.to_string(),
            ChunkError::InvalidLength(n) => {
                let mut out = String::from_str("invalid chunk data length '");
                out.append(decimal(*n as u64).as_str());
                out.append("': length must not exceed 2^31 - 1 bytes.");
                out
            },
            ChunkError::Length { expected, actual } => {
                proof {
                    reveal_strlit("length mismatch: given '");
                    reveal_strlit("length");
                    reveal_strlit(" mismatch: given '");
                }
                let r = mismatch_text("length", *expected, *actual);
                assert(r@ =~= chunk_error_text(*self));
                r
            },
            ChunkError::Crc { expected, actual } => {
                proof {
                    reveal_strlit("crc mismatch: given '");
                    reveal_strlit("crc");
                    reveal_strlit(" mismatch: given '");
                }
                let r = mismatch_text("crc", *expected, *actual);
                assert(r@ =~= chunk_error_text(*self));
                r
            },
        }
    }
}

impl From<ChunkTypeError> for ChunkError {
    fn from(v: ChunkTypeError) -> ChunkError {
        ChunkError::ChunkType(v)
    }
}

impl vstd::std_specs::convert::FromSpecImpl<ChunkTypeError> for ChunkError {
    open spec fn obeys_from_spec() -> bool {
        true
    }

    open spec fn from_spec(v: ChunkTypeError) -> ChunkError {
        ChunkError::ChunkType(v)
    }
}

/// A chunk: a type code and a payload of at most `MAX_DATA_LENGTH` bytes.
#[derive(Debug)]
pub struct Chunk {
    chunk_type: ChunkType,
    /// The data bytes appropriate to the chunk type, if any; may be empty.
    data: Vec<u8>,
}

impl View for Chunk {
    type V = ChunkModel;

    closed spec fn view(&self) -> ChunkModel {
        (self.chunk_type@, self.data@)
    }
}

/// Reads the length field at the front of `value`.
fn read_length(value: &[u8]) -> (r: Result<u32, ChunkError>)
    ensures
        match r {
            Ok(n) => value@.len() >= 4 && value@[0] < 128 && n == be_u32(value@) && n
                <= MAX_DATA_LENGTH,
            Err(e) => (value@.len() < 4 && e == ChunkError::TruncatedInput) || (value@.len() >= 4
                && value@[0] >= 128 && e == ChunkError::InvalidLength(be_u32(value@))),
        },
{
    if value.len() < 4 {
        return Err(ChunkError::TruncatedInput);
    }
    let length = ((value[0] as u32) << 24u32) | ((value[1] as u32) << 16u32) | ((value[2] as u32)
        << 8u32) | (value[3] as u32);
    proof {
        lemma_most_sig(value@[0]);
        lemma_be_top_bit(value@);
    }
    if get_bit(value[0], MOST_SIG) {
        return Err(ChunkError::InvalidLength(length));
    }
    Ok(length)
}

/// Reads the type code that follows the length field.
fn read_chunk_type(value: &[u8]) -> (r: Result<ChunkType, ChunkError>)
    ensures
        match r {
            Ok(t) => value@.len() >= 8 && first_invalid_byte(value@.subrange(4, 8)) is None
                && t@ == value@.subrange(4, 8),
            Err(e) => if value@.len() < 8 {
                e == ChunkError::TruncatedInput
            } else {
                first_invalid_byte(value@.subrange(4, 8)) matches Some(p) && e
                    == ChunkError::ChunkType(ChunkTypeError::InvalidByte(p))
            },
        },
{
    if value.len() < 8 {
        return Err(ChunkError::TruncatedInput);
    }
    let code = [value[4], value[5], value[6], value[7]];
    assert(code@ =~= value@.subrange(4, 8));
    match ChunkType::try_from(code) {
        Ok(t) => Ok(t),
        Err(e) => Err(ChunkError::from(e)),
    }
}

/// Reads the `length` payload bytes that follow the type code.
fn read_data(value: &[u8], length: u32) -> (r: Result<Vec<u8>, ChunkError>)
    requires
        value@.len() >= 8,
    ensures
        match r {
            Ok(d) => value@.len() >= 8 + length && d@ == value@.subrange(8, 8 + length),
            Err(e) => value@.len() < 8 + length && e == ChunkError::TruncatedInput,
        },
{
    if value.len() - 8 < length as usize {
        return Err(ChunkError::TruncatedInput);
    }
    let end = 8 + length as usize;
    Ok(vstd::slice::slice_to_vec(&value[8..end]))
}

/// Reads the checksum that follows `length` payload bytes.
fn read_crc(value: &[u8], length: u32) -> (r: Result<u32, ChunkError>)
    requires
        value@.len() >= 8 + length,
    ensures
        match r {
            Ok(n) => value@.len() >= 12 + length && n == be_u32(
                value@.subrange(8 + length, 12 + length),
            ),
            Err(e) => value@.len() < 12 + length && e == ChunkError::TruncatedInput,
        },
{
    let n = value.len();
    let start = 8 + length as usize;
    if n - start < 4 {
        return Err(ChunkError::TruncatedInput);
    }
    let stored = &value[start..start + 4];
    Ok(((stored[0] as u32) << 24u32) | ((stored[1] as u32) << 16u32) | ((stored[2] as u32) << 8u32)
        | (stored[3] as u32))
}

impl Chunk {
    #[verifier::type_invariant]
    spec fn bounded(&self) -> bool {
        self.data@.len() <= MAX_DATA_LENGTH
    }

    /// A chunk of the given type holding `data`.
    pub fn new(chunk_type: ChunkType, data: Vec<u8>) -> (r: Chunk)
        requires
            data@.len() <= MAX_DATA_LENGTH,
        ensures
            r@ == (chunk_type@, data@),
    {
        Chunk { chunk_type, data }
    }

    /// The number of payload bytes; the length field counts nothing else.
    pub fn data_length(&self) -> (r: u32)
        ensures
            r == self@.1.len(),
            r <= MAX_DATA_LENGTH,
    {
        proof {
            use_type_invariant(self);
        }
        self.data.len() as u32
    }

    /// The number of bytes the encoded chunk takes.
    pub fn size(&self) -> (r: u32)
        ensures
            r == chunk_size(self@.1.len() as int),
    {
        4 // length field
         + 4 // type code
         + self.data_length() + 4  // checksum

    }

    /// The chunk's type code.
    pub fn chunk_type(&self) -> (r: &ChunkType)
        ensures
            r@ == self@.0,
    {
        &self.chunk_type
    }

    /// The chunk's payload.
    pub fn data(&self) -> (r: &[u8])
        ensures
            r@ == self@.1,
    {
        self.data.as_slice()
    }

    /// The CRC-32 (ISO-HDLC) over the type code and the payload, but not the
    /// length field.
    pub fn crc(&self) -> (r: u32)
        ensures
            r == chunk_crc(self@),
    {
        proof {
            use_type_invariant(self);
        }
        let code = self.chunk_type.bytes();
        let mut bytes: Vec<u8> = Vec::with_capacity(4 + self.data.len());
        bytes.extend_from_slice(code.as_slice());
        bytes.extend_from_slice(self.data.as_slice());
        assert(bytes@ =~= self@.0 + self@.1);
        checksum(bytes.as_slice())
    }

    /// The payload read as UTF-8 text.
    pub fn data_as_string(&self) -> (r: Result<String, core::str::Utf8Error>)
        ensures
            r is Ok <==> valid_utf8(self@.1),
            r matches Ok(s) ==> s@ == decode_utf8(self@.1),
    {
        match str_from_utf8(self.data.as_slice()) {
            Ok(s) => Ok(s.to_string()),
            Err(e) => Err(e),
        }
    }

    /// The payload read as UTF-8 text; malformed text is an error here too.
    pub fn data_as_string_lossy(&self) -> (r: Result<String, core::str::Utf8Error>)
        ensures
            r is Ok <==> valid_utf8(self@.1),
            r matches Ok(s) ==> s@ == decode_utf8(self@.1),
    {
        self.data_as_string()
    }

    /// The encoded chunk: big-endian length, type code, payload and
    /// big-endian checksum.
    pub fn as_bytes(&self) -> (r: Vec<u8>)
        ensures
            r@ == encode_chunk(self@),
            valid_chunk(self@),
    {
        proof {
            use_type_invariant(self);
        }
        let length = self.data_length();
        let crc = self.crc();
        let mut out: Vec<u8> = Vec::with_capacity(12 + self.data.len());
        out.push((length >> 24u32) as u8);
        out.push((length >> 16u32) as u8);
        out.push((length >> 8u32) as u8);
        out.push(length as u8);
        let code = self.chunk_type.bytes();
        out.extend_from_slice(code.as_slice());
        out.extend_from_slice(self.data.as_slice());
        out.push((crc >> 24u32) as u8);
        out.push((crc >> 16u32) as u8);
        out.push((crc >> 8u32) as u8);
        out.push(crc as u8);
        assert(out@ =~= encode_chunk(self@));
        out
    }

    /// A human-readable summary of the chunk: sizes, type and checksum.
    pub fn to_string(&self) -> (r: String)
        ensures
            r@ == chunk_text(self@),
    {
        let length = decimal(self.data_length() as u64);
        let mut out = String::new();
        out.append("Chunk [total size: ");
        out.append(decimal(self.size() as u64).as_str());
        out.append(" bytes] {\n");
        out.append("  Length: ");
        out.append(length.as_str());
        out.append("\n");
        out.append("  Type: ");
        out.append(self.chunk_type.to_string().as_str());
        out.append("\n");
        out.append("  Data: ");
        out.append(length.as_str());
        out.append(" bytes\n");
        out.append("  Crc: ");
        out.append(decimal(self.crc() as u64).as_str());
        out.append("\n");
        out.append("}\n");
        out
    }

    /// Decodes the chunk at the front of `value`; bytes after it are ignored.
    pub fn try_from(value: &[u8]) -> (r: Result<Chunk, ChunkError>)
        ensures
            match r {
                Ok(c) => decode_chunk(value@) == Ok::<ChunkModel, ChunkError>(c@),
                Err(e) => decode_chunk(value@) == Err::<ChunkModel, ChunkError>(e),
            },
    {
        reveal(decode_chunk);
        let length = read_length(value)?;
        let chunk_type = read_chunk_type(value)?;
        let data = read_data(value, length)?;
        let stored = read_crc(value, length)?;
        if data.len() != length as usize {
            return Err(ChunkError::Length { expected: length, actual: data.len() as u32 });
        }
        let chunk = Chunk::new(chunk_type, data);
        let computed = chunk.crc();
        Self::check_crc(chunk, computed, stored)
    }

    /// Accepts `chunk` when the checksum computed over it equals the one
    /// stored after it.
    pub fn check_crc(chunk: Chunk, computed: u32, stored: u32) -> (r: Result<Chunk, ChunkError>)
        ensures
            computed == stored ==> (r matches Ok(c) && c@ == chunk@),
            computed != stored ==> (r matches Err(e) && e == (ChunkError::Crc {
                expected: computed,
                actual: stored,
            })),
    {
        if computed != stored {
            return Err(ChunkError::Crc { expected: computed, actual: stored });
        }
        Ok(chunk)
    }
}

} // verus!
