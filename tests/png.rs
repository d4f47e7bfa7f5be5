use pngme::chunk::{Chunk, ChunkError};
use pngme::chunk_type::{ChunkType, ChunkTypeError};
use pngme::png::{Png, PngError};

const SIGNATURE: [u8; 8] = [0x89, 0x50, 0x4e, 0x47, 0x0d, 0x0a, 0x1a, 0x0a];

fn chunk(code: &str, data: &str) -> Chunk {
    Chunk::new(ChunkType::from_str(code).unwrap(), data.as_bytes().to_vec())
}

fn types(png: &Png) -> Vec<String> {
    png.chunks().iter().map(|c| c.chunk_type().to_string()).collect()
}

fn sample() -> Png {
    Png::from_chunks(vec![
        chunk("FrSt", "I am the first chunk"),
        chunk("miDl", "I am another chunk"),
        chunk("LASt", "I am the last chunk"),
    ])
}

#[test]
fn header_is_signature() {
    assert_eq!(*sample().header(), SIGNATURE);
    assert_eq!(Png::STANDARD_HEADER, SIGNATURE);
}

#[test]
fn empty_container_bytes() {
    let png = Png::from_chunks(Vec::new());
    assert_eq!(png.as_bytes(), SIGNATURE.to_vec());
    let back = Png::try_from(&png.as_bytes()[..]).unwrap();
    assert!(back.chunks().is_empty());
}

#[test]
fn container_round_trip_keeps_order() {
    let png = sample();
    let bytes = png.as_bytes();
    let back = Png::try_from(&bytes[..]).unwrap();
    assert_eq!(types(&back), vec!["FrSt", "miDl", "LASt"]);
    for (a, b) in png.chunks().iter().zip(back.chunks()) {
        assert_eq!(a.data(), b.data());
        assert_eq!(a.crc(), b.crc());
    }
    assert_eq!(back.as_bytes(), bytes);
}

#[test]
fn container_bytes_layout() {
    let png = sample();
    let mut expected = SIGNATURE.to_vec();
    for c in png.chunks() {
        expected.extend(c.as_bytes());
    }
    assert_eq!(png.as_bytes(), expected);
}

#[test]
fn bad_signature_rejected() {
    let good = sample().as_bytes();
    for i in 0..8 {
        let mut bytes = good.clone();
        bytes[i] ^= 0x01;
        assert!(matches!(Png::try_from(&bytes[..]), Err(PngError::Header)));
    }
    assert!(matches!(Png::try_from(&[][..]), Err(PngError::Header)));
    assert!(matches!(Png::try_from(&SIGNATURE[..7]), Err(PngError::Header)));
    let mut junk = vec![0u8; 8];
    junk.extend_from_slice(&good[8..]);
    assert!(matches!(Png::try_from(&junk[..]), Err(PngError::Header)));
}

#[test]
fn trailing_partial_chunk_rejected() {
    let mut bytes = sample().as_bytes();
    bytes.extend_from_slice(&[0, 0, 0]);
    assert!(matches!(
        Png::try_from(&bytes[..]),
        Err(PngError::Chunk(ChunkError::TruncatedInput))
    ));
    let bytes = sample().as_bytes();
    assert!(matches!(
        Png::try_from(&bytes[..bytes.len() - 1]),
        Err(PngError::Chunk(ChunkError::TruncatedInput))
    ));
}

#[test]
fn corrupt_chunk_rejected() {
    let mut bytes = sample().as_bytes();
    let n = bytes.len();
    bytes[n - 5] ^= 0x40;
    assert!(matches!(
        Png::try_from(&bytes[..]),
        Err(PngError::Chunk(ChunkError::Crc { .. }))
    ));
}

#[test]
fn append_then_remove_gives_empty() {
    let mut png = Png::from_chunks(Vec::new());
    png.append_chunk(chunk("teSt", "hidden words"));
    assert_eq!(png.chunks().len(), 1);
    let removed = png.remove_chunk(&ChunkType::from_str("teSt").unwrap()).unwrap();
    assert!(png.chunks().is_empty());
    assert_eq!(removed.data(), b"hidden words");
    assert_eq!(removed.chunk_type().to_string(), "teSt");
}

#[test]
fn append_goes_last() {
    let mut png = sample();
    png.append_chunk(chunk("TeSt", "new"));
    assert_eq!(types(&png), vec!["FrSt", "miDl", "LASt", "TeSt"]);
}

#[test]
fn remove_is_stable_and_takes_first() {
    let mut png = Png::from_chunks(vec![
        chunk("aaAa", "1"),
        chunk("bbBb", "2"),
        chunk("ccCc", "3"),
        chunk("bbBb", "4"),
        chunk("ddDd", "5"),
    ]);
    let removed = png.remove_str("bbBb").unwrap();
    assert_eq!(removed.data(), b"2");
    assert_eq!(types(&png), vec!["aaAa", "ccCc", "bbBb", "ddDd"]);
    let removed = png.remove_chunk(&ChunkType::from_str("bbBb").unwrap()).unwrap();
    assert_eq!(removed.data(), b"4");
    assert_eq!(types(&png), vec!["aaAa", "ccCc", "ddDd"]);
}

#[test]
fn remove_missing_type() {
    let mut png = sample();
    assert!(matches!(
        png.remove_chunk(&ChunkType::from_str("nOne").unwrap()),
        Err(PngError::ChunkTypeNotFound)
    ));
    assert!(matches!(png.remove_str("nOne"), Err(PngError::ChunkTypeNotFound)));
    assert!(matches!(
        png.remove_str("n0ne"),
        Err(PngError::ChunkType(ChunkTypeError::InvalidByte(_)))
    ));
    assert!(matches!(
        png.remove_str("none!"),
        Err(PngError::ChunkType(ChunkTypeError::InvalidLength(_)))
    ));
    assert_eq!(types(&png), vec!["FrSt", "miDl", "LASt"]);
}

#[test]
fn lookup_by_type() {
    let mut png = sample();
    png.append_chunk(chunk("miDl", "second middle"));
    let c = png.chunk_by_type("miDl").unwrap();
    assert_eq!(c.data_as_string().unwrap(), "I am another chunk");
    assert!(png.chunk_by_type("nOne").is_none());
    assert!(png.chunk_by_type("m1Dl").is_none());
    assert!(png.chunk_by_type("toolong").is_none());
}

#[test]
fn listing_text() {
    let png = Png::from_chunks(vec![chunk("RuSt", "This is where your secret message will be!")]);
    assert_eq!(
        png.to_string(),
        "Chunk [total size: 54 bytes] {\n  Length: 42\n  Type: RuSt\n  Data: 42 bytes\n  \
         Crc: 2882656334\n}\n\n"
    );
    assert_eq!(Png::from_chunks(Vec::new()).to_string(), "");
}

#[test]
fn png_error_messages() {
    assert_eq!(PngError::Header.to_string(), "header is not png standard\n");
    assert_eq!(PngError::ChunkTypeNotFound.to_string(), "no chunk has the requested type\n");
    assert_eq!(
        PngError::Chunk(ChunkError::TruncatedInput).to_string(),
        "unexpected end of input while reading a chunk"
    );
}

#[test]
fn error_conversions() {
    let e: PngError = ChunkError::TruncatedInput.into();
    assert!(matches!(e, PngError::Chunk(ChunkError::TruncatedInput)));
    let t = ChunkType::from_str("abc").unwrap_err();
    let e: PngError = t.into();
    assert!(matches!(e, PngError::ChunkType(ChunkTypeError::InvalidLength(_))));
    let t = ChunkType::from_str("ab1c").unwrap_err();
    let e: ChunkError = t.into();
    assert!(matches!(e, ChunkError::ChunkType(ChunkTypeError::InvalidByte(_))));
}
