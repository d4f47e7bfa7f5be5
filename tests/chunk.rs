use pngme::chunk::{Chunk, ChunkError};
use pngme::chunk_type::{ChunkType, ChunkTypeError, PropertyByte};

const MESSAGE: &str = "This is where your secret message will be!";

fn rust_chunk() -> Chunk {
    Chunk::new(ChunkType::from_str("RuSt").unwrap(), MESSAGE.as_bytes().to_vec())
}

fn fixture_bytes() -> Vec<u8> {
    let length: u32 = MESSAGE.len() as u32;
    let crc: u32 = 2882656334;
    length
        .to_be_bytes()
        .iter()
        .chain(b"RuSt".iter())
        .chain(MESSAGE.as_bytes().iter())
        .chain(crc.to_be_bytes().iter())
        .copied()
        .collect()
}

#[test]
fn fixture_checksum_and_sizes() {
    let c = rust_chunk();
    assert_eq!(c.data_length(), 42);
    assert_eq!(c.size(), 54);
    assert_eq!(c.crc(), 2882656334);
    assert_eq!(c.chunk_type().bytes(), *b"RuSt");
    assert_eq!(c.data(), MESSAGE.as_bytes());
}

#[test]
fn fixture_decodes() {
    let bytes = fixture_bytes();
    assert_eq!(bytes.len(), 54);
    let c = Chunk::try_from(&bytes[..]).unwrap();
    assert_eq!(c.chunk_type().to_string(), "RuSt");
    assert_eq!(c.data_length(), 42);
    assert_eq!(c.crc(), 2882656334);
    assert_eq!(c.data_as_string().unwrap(), MESSAGE);
    assert_eq!(c.data_as_string_lossy().unwrap(), MESSAGE);
}

#[test]
fn fixture_encodes() {
    assert_eq!(rust_chunk().as_bytes(), fixture_bytes());
}

#[test]
fn empty_payload_round_trip() {
    let c = Chunk::new(ChunkType::from_str("IEND").unwrap(), Vec::new());
    let bytes = c.as_bytes();
    assert_eq!(bytes.len(), 12);
    assert_eq!(&bytes[..8], &[0, 0, 0, 0, b'I', b'E', b'N', b'D']);
    // CRC-32 of "IEND"
    assert_eq!(c.crc(), 0xAE426082);
    let d = Chunk::try_from(&bytes[..]).unwrap();
    assert_eq!(d.chunk_type().bytes(), *b"IEND");
    assert_eq!(d.data(), &[] as &[u8]);
    assert_eq!(d.crc(), c.crc());
}

#[test]
fn round_trip_various_payloads() {
    let payloads: Vec<Vec<u8>> = vec![
        vec![0],
        vec![255; 3],
        (0..=255u8).collect(),
        vec![0x89, 0x50, 0x4e, 0x47],
    ];
    for (i, p) in payloads.into_iter().enumerate() {
        let code = ["abCd", "ZZZZ", "teSt", "RuSt"][i];
        let c = Chunk::new(ChunkType::from_str(code).unwrap(), p.clone());
        let d = Chunk::try_from(&c.as_bytes()[..]).unwrap();
        assert_eq!(d.chunk_type().bytes(), c.chunk_type().bytes());
        assert_eq!(d.data(), &p[..]);
        assert_eq!(d.crc(), c.crc());
    }
}

#[test]
fn trailing_bytes_are_ignored() {
    let mut bytes = fixture_bytes();
    bytes.extend_from_slice(&[1, 2, 3]);
    let c = Chunk::try_from(&bytes[..]).unwrap();
    assert_eq!(c.size(), 54);
    assert_eq!(c.data(), MESSAGE.as_bytes());
}

#[test]
fn single_bit_flips_in_payload_are_detected() {
    let good = fixture_bytes();
    for i in 8..8 + MESSAGE.len() {
        for k in 0..8 {
            let mut bytes = good.clone();
            bytes[i] ^= 1 << k;
            match Chunk::try_from(&bytes[..]) {
                Err(ChunkError::Crc { actual, .. }) => assert_eq!(actual, 2882656334),
                other => panic!("flip at {i}/{k} gave {other:?}"),
            }
        }
    }
}

#[test]
fn case_bit_flips_in_type_are_detected() {
    let good = fixture_bytes();
    for i in 4..8 {
        let mut bytes = good.clone();
        bytes[i] ^= 1 << 5;
        assert!(matches!(
            Chunk::try_from(&bytes[..]),
            Err(ChunkError::Crc { actual: 2882656334, .. })
        ));
    }
}

#[test]
fn checksum_mismatch_reports_both() {
    let mut bytes = fixture_bytes();
    let n = bytes.len();
    bytes[n - 1] ^= 1;
    match Chunk::try_from(&bytes[..]) {
        Err(ChunkError::Crc { expected, actual }) => {
            assert_eq!(expected, 2882656334);
            assert_eq!(actual, 2882656334 ^ 1);
        }
        other => panic!("{other:?}"),
    }
}

#[test]
fn truncated_input() {
    let bytes = fixture_bytes();
    for cut in [0, 3, 4, 7, 8, 20, 49, 50, 53] {
        assert!(matches!(
            Chunk::try_from(&bytes[..cut]),
            Err(ChunkError::TruncatedInput)
        ));
    }
}

#[test]
fn top_bit_of_length_rejected() {
    let mut bytes = fixture_bytes();
    bytes[0] = 0x80;
    match Chunk::try_from(&bytes[..]) {
        Err(ChunkError::InvalidLength(n)) => assert_eq!(n, 0x8000_002a),
        other => panic!("{other:?}"),
    }
}

#[test]
fn invalid_type_byte_rejected() {
    let mut bytes = fixture_bytes();
    bytes[6] = b'3';
    assert!(matches!(
        Chunk::try_from(&bytes[..]),
        Err(ChunkError::ChunkType(ChunkTypeError::InvalidByte(PropertyByte::Reserved(b'3'))))
    ));
}

#[test]
fn invalid_utf8_payload() {
    let c = Chunk::new(ChunkType::from_str("RuSt").unwrap(), vec![0x66, 0xff, 0x66]);
    assert!(c.data_as_string().is_err());
    assert!(c.data_as_string_lossy().is_err());
    let c = Chunk::new(ChunkType::from_str("RuSt").unwrap(), "héllo".as_bytes().to_vec());
    assert_eq!(c.data_as_string().unwrap(), "héllo");
}

#[test]
fn chunk_summary_text() {
    assert_eq!(
        rust_chunk().to_string(),
        "Chunk [total size: 54 bytes] {\n  Length: 42\n  Type: RuSt\n  Data: 42 bytes\n  \
         Crc: 2882656334\n}\n"
    );
}

#[test]
fn chunk_error_messages() {
    assert_eq!(
        ChunkError::Crc { expected: 1, actual: 20 }.to_string(),
        "crc mismatch: given '1' != '20' actual"
    );
    assert_eq!(
        ChunkError::Length { expected: 7, actual: 0 }.to_string(),
        "length mismatch: given '7' != '0' actual"
    );
    assert_eq!(
        ChunkError::InvalidLength(2147483648).to_string(),
        "invalid chunk data length '2147483648': length must not exceed 2^31 - 1 bytes."
    );
    assert_eq!(
        ChunkError::TruncatedInput.to_string(),
        "unexpected end of input while reading a chunk"
    );
}

#[test]
fn check_crc_decides_on_given_values() {
    let c = Chunk::check_crc(rust_chunk(), 5, 5).unwrap();
    assert_eq!(c.data(), MESSAGE.as_bytes());
    match Chunk::check_crc(rust_chunk(), 5, 6) {
        Err(ChunkError::Crc { expected, actual }) => {
            assert_eq!(expected, 5);
            assert_eq!(actual, 6);
        }
        other => panic!("{other:?}"),
    }
}
