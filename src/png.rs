//! The container: a fixed signature followed by chunks back to back.
use crate::chunk::{
    chunk_error_text, chunk_size, chunk_text, decode_chunk, encode_chunk,
    lemma_decode_encoded_prefix, lemma_decoded_size, valid_chunk, Chunk, ChunkError, ChunkModel,
};
use crate::chunk_type::{
    all_letters, chunk_type_error_text, lemma_view_injective, ChunkType, ChunkTypeError,
};
use vstd::prelude::*;
use vstd::string::{StringExecFns, StringSliceAdditionalSpecFns};

verus! {

/// The eight bytes every container starts with.
pub open spec fn signature() -> Seq<u8> {
    seq![0x89u8, 0x50u8, 0x4eu8, 0x47u8, 0x0du8, 0x0au8, 0x1au8, 0x0au8]
}

/// The bytes of a sequence of chunks, back to back.
pub open spec fn encode_chunks(s: Seq<ChunkModel>) -> Seq<u8>
    decreases s.len(),
{
    if s.len() == 0 {
        seq![]
    } else {
        encode_chunks(s.drop_last()) + encode_chunk(s.last())
    }
}

/// The bytes of a container holding the chunks `s`.
pub open spec fn encode_png(s: Seq<ChunkModel>) -> Seq<u8> {
    signature() + encode_chunks(s)
}

/// `r` with `prefix` put in front of its chunks.
pub open spec fn prepend(prefix: Seq<ChunkModel>, r: Result<Seq<ChunkModel>, ChunkError>) -> Result<
    Seq<ChunkModel>,
    ChunkError,
> {
    match r {
        Ok(s) => Ok(prefix + s),
        Err(e) => Err(e),
    }
}

/// Decoding chunks back to back until no byte is left.
pub open spec fn decode_chunks(b: Seq<u8>) -> Result<Seq<ChunkModel>, ChunkError>
    decreases b.len(),
    via decode_chunks_decreases
{
    if b.len() == 0 {
        Ok(seq![])
    } else {
        match decode_chunk(b) {
            Err(e) => Err(e),
            Ok(c) => prepend(seq![c], decode_chunks(b.skip(chunk_size(c.1.len() as int)))),
        }
    }
}

#[via_fn]
proof fn decode_chunks_decreases(b: Seq<u8>) {
    if b.len() != 0 {
        match decode_chunk(b) {
            Err(e) => {},
            Ok(c) => {
                lemma_decoded_size(b);
                assert(b.skip(chunk_size(c.1.len() as int)).len() < b.len());
            },
        }
    }
}

/// Decoding a whole container: the signature, then chunks to the end.
pub open spec fn decode_png(b: Seq<u8>) -> Result<Seq<ChunkModel>, PngError> {
    if b.len() < 8 || b.take(8) != signature() {
        Err(PngError::Header)
    } else {
        match decode_chunks(b.skip(8)) {
            Ok(s) => Ok(s),
            Err(e) => Err(PngError::Chunk(e)),
        }
    }
}

/// True when `i` is the first position in `s` holding a chunk of type `code`.
pub open spec fn is_first_of_type(s: Seq<ChunkModel>, code: Seq<u8>, i: int) -> bool {
    &&& 0 <= i < s.len()
    &&& s[i].0 == code
    &&& forall|j: int| 0 <= j < i ==> s[j].0 != code
}

/// True when some chunk of `s` has type `code`.
pub open spec fn has_type(s: Seq<ChunkModel>, code: Seq<u8>) -> bool {
    exists|i: int| 0 <= i < s.len() && s[i].0 == code
}

/// `after` is `before` without its first chunk of type `code`, which is `c`.
pub open spec fn removed_first(
    before: Seq<ChunkModel>,
    after: Seq<ChunkModel>,
    code: Seq<u8>,
    c: ChunkModel,
) -> bool {
    exists|i: int| is_first_of_type(before, code, i) && c == before[i] && after == before.remove(i)
}

/// The bytes of a non-empty sequence of chunks start with its first chunk.
proof fn lemma_encode_chunks_front(s: Seq<ChunkModel>)
    requires
        s.len() > 0,
    ensures
        encode_chunks(s) == encode_chunk(s[0]) + encode_chunks(s.drop_first()),
    decreases s.len(),
{
    if s.len() > 1 {
        let init = s.drop_last();
        let tail = s.drop_first();
        lemma_encode_chunks_front(init);
        assert(init.drop_first() =~= tail.drop_last());
        assert(init[0] == s[0]);
        assert(tail.last() == s.last());
        assert(encode_chunks(tail) == encode_chunks(tail.drop_last()) + encode_chunk(tail.last()));
        assert(encode_chunks(s) == encode_chunks(init) + encode_chunk(s.last()));
        assert(encode_chunks(s) =~= encode_chunk(s[0]) + encode_chunks(tail));
    } else {
        assert(encode_chunks(s.drop_last()) == Seq::<u8>::empty());
        assert(encode_chunks(s.drop_first()) == Seq::<u8>::empty());
        assert(s.last() == s[0]);
        assert(encode_chunks(s) =~= encode_chunk(s[0]) + encode_chunks(s.drop_first()));
    }
}

/// One step of decoding chunks back to back.
proof fn lemma_decode_chunks_step(b: Seq<u8>)
    requires
        b.len() != 0,
    ensures
        decode_chunks(b) == match decode_chunk(b) {
            Err(e) => Err(e),
            Ok(c) => prepend(seq![c], decode_chunks(b.skip(chunk_size(c.1.len() as int)))),
        },
{
}

/// Decoding the bytes of valid chunks, back to back, gives them back.
proof fn lemma_decode_encoded_chunks(s: Seq<ChunkModel>)
    requires
        forall|i: int| 0 <= i < s.len() ==> valid_chunk(#[trigger] s[i]),
    ensures
        decode_chunks(encode_chunks(s)) == Ok::<Seq<ChunkModel>, ChunkError>(s),
    decreases s.len(),
{
    if s.len() == 0 {
        assert(encode_chunks(s) =~= Seq::<u8>::empty());
        assert(s =~= Seq::<ChunkModel>::empty());
    } else {
        let rest = s.drop_first();
        let b = encode_chunks(s);
        lemma_encode_chunks_front(s);
        assert(valid_chunk(s[0]));
        lemma_decode_encoded_prefix(s[0], encode_chunks(rest));
        assert(decode_chunk(b) == Ok::<ChunkModel, ChunkError>(s[0]));
        assert forall|i: int| 0 <= i < rest.len() implies valid_chunk(#[trigger] rest[i]) by {
            assert(rest[i] == s[i + 1]);
        }
        lemma_decode_encoded_chunks(rest);
        let size = chunk_size(s[0].1.len() as int);
        assert(encode_chunk(s[0]).len() == size);
        assert(b.skip(size) =~= encode_chunks(rest));
        lemma_decode_chunks_step(b);
        assert(seq![s[0]] + rest =~= s);
    }
}

/// Round trip: decoding the bytes of a container built from valid chunks
/// gives back the same chunks in the same order.
pub proof fn lemma_png_round_trip(s: Seq<ChunkModel>)
    requires
        forall|i: int| 0 <= i < s.len() ==> valid_chunk(#[trigger] s[i]),
    ensures
        decode_png(encode_png(s)) == Ok::<Seq<ChunkModel>, PngError>(s),
{
    let b = encode_png(s);
    assert(b.take(8) =~= signature());
    assert(b.skip(8) =~= encode_chunks(s));
    lemma_decode_encoded_chunks(s);
}

/// A buffer whose first eight bytes are not the signature, or that is
/// shorter than that, is rejected with `Header`, whatever follows.
pub proof fn lemma_bad_signature_rejected(b: Seq<u8>)
    requires
        b.len() < 8 || b.take(8) != signature(),
    ensures
        decode_png(b) == Err::<Seq<ChunkModel>, PngError>(PngError::Header),
{
}

/// The listing of a container's chunks, each summary followed by an empty
/// line.
pub open spec fn png_text(s: Seq<ChunkModel>) -> Seq<char>
    decreases s.len(),
{
    if s.len() == 0 {
        seq![]
    } else {
        png_text(s.drop_last()) + chunk_text(s.last()) + "\n"@
    }
}

/// The message describing a container error.
pub open spec fn png_error_text(e: PngError) -> Seq<char> {
    match e {
        PngError::Chunk(c) => chunk_error_text(c),
        PngError::ChunkType(t) => chunk_type_error_text(t),
        PngError::Header => "header is not png standard\n"@,
        PngError::ChunkTypeNotFound => "no chunk has the requested type\n"@,
    }
}

/// Reasons a container cannot be decoded or edited.
#[derive(Debug)]
pub enum PngError {
    /// A chunk cannot be decoded.
    Chunk(ChunkError),
    /// A type code given as text is not valid.
    ChunkType(ChunkTypeError),
    /// The buffer does not start with the signature.
    Header,
    /// No chunk has the requested type.
    ChunkTypeNotFound,
}

impl PngError {
    /// A message describing the error.
    pub fn to_string(&self) -> (r: String)
        ensures
            r@ == png_error_text(*self),
    {
        match self {
            PngError::Chunk(e) => e.to_string(),
            PngError::ChunkType(e) => e.to_string(),
            PngError::Header => String::from_str("header is not png standard\n"),
            PngError::ChunkTypeNotFound => String::from_str("no chunk has the requested type\n"),
        }
    }
}

impl From<ChunkError> for PngError {
    fn from(v: ChunkError) -> PngError {
        PngError::Chunk(v)
    }
}

impl vstd::std_specs::convert::FromSpecImpl<ChunkError> for PngError {
    open spec fn obeys_from_spec() -> bool {
        true
    }

    open spec fn from_spec(v: ChunkError) -> PngError {
        PngError::Chunk(v)
    }
}

impl From<ChunkTypeError> for PngError {
    fn from(v: ChunkTypeError) -> PngError {
        PngError::ChunkType(v)
    }
}

impl vstd::std_specs::convert::FromSpecImpl<ChunkTypeError> for PngError {
    open spec fn obeys_from_spec() -> bool {
        true
    }

    open spec fn from_spec(v: ChunkTypeError) -> PngError {
        PngError::ChunkType(v)
    }
}

/// A container: the fixed signature and an ordered sequence of chunks.
pub struct Png {
    chunks: Vec<Chunk>,
}

impl View for Png {
    type V = Seq<ChunkModel>;

    closed spec fn view(&self) -> Seq<ChunkModel> {
        self.chunks@.map_values(|c: Chunk| c@)
    }
}

impl Png {
    /// The signature every container starts with.
    pub const STANDARD_HEADER: [u8; 8] = [0x89, 0x50, 0x4e, 0x47, 0x0d, 0x0a, 0x1a, 0x0a];

    /// A container holding `chunks`, in order.
    pub fn from_chunks(chunks: Vec<Chunk>) -> (r: Png)
        ensures
            r@ == chunks@.map_values(|c: Chunk| c@),
    {
        Png { chunks }
    }

    /// Adds `chunk` after the last chunk.
    pub fn append_chunk(&mut self, chunk: Chunk)
        ensures
            final(self)@ == old(self)@.push(chunk@),
    {
        self.chunks.push(chunk);
        assert(self@ =~= old(self)@.push(chunk@));
    }

    /// The position of the first chunk of type `chunk_type`.
    fn position(&self, chunk_type: &ChunkType) -> (r: Option<usize>)
        ensures
            match r {
                Some(i) => is_first_of_type(self@, chunk_type@, i as int),
                None => !has_type(self@, chunk_type@),
            },
    {
        let mut i: usize = 0;
        while i < self.chunks.len()
            invariant
                i <= self.chunks@.len(),
                forall|j: int| 0 <= j < i ==> self@[j].0 != chunk_type@,
            decreases self.chunks@.len() - i,
        {
            let t = *self.chunks[i].chunk_type();
            proof {
                lemma_view_injective(t, *chunk_type);
            }
            if t == *chunk_type {
                return Some(i);
            }
            i += 1;
        }
        None
    }

    /// Removes the first chunk of type `chunk_type`, keeping the order of the
    /// others.
    fn remove(&mut self, chunk_type: &ChunkType) -> (r: Result<Chunk, PngError>)
        ensures
            match r {
                Ok(c) => removed_first(old(self)@, final(self)@, chunk_type@, c@),
                Err(e) => e is ChunkTypeNotFound && !has_type(old(self)@, chunk_type@)
                    && final(self)@ == old(self)@,
            },
    {
        match self.position(chunk_type) {
            Some(i) => {
                let c = self.chunks.remove(i);
                assert(self@ =~= old(self)@.remove(i as int));
                Ok(c)
            },
            None => Err(PngError::ChunkTypeNotFound),
        }
    }

    /// Removes the first chunk of type `chunk_type`, keeping the order of the
    /// others.
    pub fn remove_chunk(&mut self, chunk_type: &ChunkType) -> (r: Result<Chunk, PngError>)
        ensures
            match r {
                Ok(c) => removed_first(old(self)@, final(self)@, chunk_type@, c@),
                Err(e) => e is ChunkTypeNotFound && !has_type(old(self)@, chunk_type@)
                    && final(self)@ == old(self)@,
            },
    {
        self.remove(chunk_type)
    }

    /// Removes the first chunk whose type code is the text `chunk_type`.
    pub fn remove_str(&mut self, chunk_type: &str) -> (r: Result<Chunk, PngError>)
        ensures
            ({
                let code = chunk_type.spec_bytes();
                match r {
                    Ok(c) => all_letters(code) && removed_first(old(self)@, final(self)@, code, c@),
                    Err(PngError::ChunkType(_)) => !all_letters(code) && final(self)@ == old(self)@,
                    Err(PngError::ChunkTypeNotFound) => all_letters(code)
                        && !has_type(old(self)@, code) && final(self)@ == old(self)@,
                    Err(_) => false,
                }
            }),
    {
        let chunk_type = match ChunkType::from_str(chunk_type) {
            Ok(t) => t,
            Err(e) => {
                return Err(PngError::from(e));
            },
        };
        self.remove(&chunk_type)
    }

    /// The signature every container starts with.
    pub fn header(&self) -> (r: &[u8; 8])
        ensures
            r@ == signature(),
    {
        let r = &Self::STANDARD_HEADER;
        assert(r@ =~= signature());
        r
    }

    /// The chunks, in order.
    pub fn chunks(&self) -> (r: &[Chunk])
        ensures
            r@.map_values(|c: Chunk| c@) == self@,
    {
        self.chunks.as_slice()
    }

    /// The container's bytes: the signature, then every chunk's bytes in
    /// order.
    pub fn as_bytes(&self) -> (r: Vec<u8>)
        ensures
            r@ == encode_png(self@),
            forall|i: int| 0 <= i < self@.len() ==> valid_chunk(#[trigger] self@[i]),
    {
        let mut out: Vec<u8> = Vec::new();
        out.extend_from_slice(self.header().as_slice());
        let mut i: usize = 0;
        while i < self.chunks.len()
            invariant
                i <= self.chunks@.len(),
                out@ == signature() + encode_chunks(self@.take(i as int)),
                forall|j: int| 0 <= j < i ==> valid_chunk(#[trigger] self@[j]),
            decreases self.chunks@.len() - i,
        {
            let bytes = self.chunks[i].as_bytes();
            out.extend_from_slice(bytes.as_slice());
            proof {
                let t = self@.take(i + 1);
                assert(t.drop_last() =~= self@.take(i as int));
                assert(t.last() == self@[i as int]);
            }
            i += 1;
        }
        assert(self@.take(i as int) =~= self@);
        out
    }

    /// A listing of the chunks, each summary followed by an empty line.
    pub fn to_string(&self) -> (r: String)
        ensures
            r@ == png_text(self@),
    {
        let mut out = String::new();
        let mut i: usize = 0;
        while i < self.chunks.len()
            invariant
                i <= self.chunks@.len(),
                out@ == png_text(self@.take(i as int)),
            decreases self.chunks@.len() - i,
        {
            out.append(self.chunks[i].to_string().as_str());
            out.append("\n");
            proof {
                let t = self@.take(i + 1);
                assert(t.drop_last() =~= self@.take(i as int));
                assert(t.last() == self@[i as int]);
            }
            i += 1;
        }
        assert(self@.take(i as int) =~= self@);
        out
    }

    /// Decodes a container: the signature, then chunks back to back until
    /// the buffer ends.
    pub fn try_from(value: &[u8]) -> (r: Result<Png, PngError>)
        ensures
            match r {
                Ok(p) => decode_png(value@) == Ok::<Seq<ChunkModel>, PngError>(p@),
                Err(e) => decode_png(value@) == Err::<Seq<ChunkModel>, PngError>(e),
            },
    {
        let n = value.len();
        if n < 8 {
            return Err(PngError::Header);
        }
        let header = Self::STANDARD_HEADER;
        assert(header@ =~= signature());
        let mut k: usize = 0;
        while k < 8
            invariant
                k <= 8 <= n == value@.len(),
                header@ == signature(),
                forall|j: int| 0 <= j < k ==> value@[j] == signature()[j],
            decreases 8 - k,
        {
            if value[k] != header[k] {
                assert(value@.take(8)[k as int] != signature()[k as int]);
                return Err(PngError::Header);
            }
            k += 1;
        }
        assert(value@.take(8) =~= signature());
        let mut chunks: Vec<Chunk> = Vec::new();
        let mut pos: usize = 8;
        assert(chunks@.map_values(|c: Chunk| c@) =~= Seq::<ChunkModel>::empty());
        assert(value@.subrange(8, n as int) =~= value@.skip(8));
        while pos < n
            invariant
                8 <= pos <= n == value@.len(),
                value@.take(8) == signature(),
                decode_chunks(value@.skip(8)) == prepend(
                    chunks@.map_values(|c: Chunk| c@),
                    decode_chunks(value@.subrange(pos as int, n as int)),
                ),
            decreases n - pos,
        {
            let rest = &value[pos..n];
            proof {
                lemma_decode_chunks_step(rest@);
            }
            let c = match Chunk::try_from(rest) {
                Ok(c) => c,
                Err(e) => {
                    return Err(PngError::Chunk(e));
                },
            };
            let size = c.size() as usize;
            proof {
                lemma_decoded_size(rest@);
                let size_i = chunk_size(c@.1.len() as int);
                assert(rest@.skip(size_i) =~= value@.subrange(pos + size_i, n as int));
            }
            let ghost before = chunks@;
            chunks.push(c);
            proof {
                let bv = before.map_values(|c: Chunk| c@);
                assert(chunks@.map_values(|c: Chunk| c@) =~= bv.push(c@));
                let tail = decode_chunks(value@.subrange(pos + size, n as int));
                match tail {
                    Ok(s) => {
                        assert(bv + (seq![c@] + s) =~= bv.push(c@) + s);
                    },
                    Err(_) => {},
                }
            }
            pos = pos + size;
        }
        assert(value@.subrange(pos as int, n as int).len() == 0);
        let ghost decoded = chunks@.map_values(|c: Chunk| c@);
        assert(decoded + Seq::<ChunkModel>::empty() =~= decoded);
        Ok(Png::from_chunks(chunks))
    }

    /// The first chunk whose type code is the text `chunk_type`; none when
    /// the text is not a type code or no chunk has that type.
    pub fn chunk_by_type(&self, chunk_type: &str) -> (r: Option<&Chunk>)
        ensures
            r is Some <==> (all_letters(chunk_type.spec_bytes()) && has_type(
                self@,
                chunk_type.spec_bytes(),
            )),
            r matches Some(c) ==> exists|i: int|
                is_first_of_type(self@, chunk_type.spec_bytes(), i) && c@ == self@[i],
    {
        match ChunkType::from_str(chunk_type) {
            Ok(t) => match self.position(&t) {
                Some(i) => Some(&self.chunks[i]),
                None => None,
            },
            Err(_) => None,
        }
    }
}

} // verus!
