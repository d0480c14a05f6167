use pngchunk::chunk::Chunk;
use pngchunk::chunk_type::ChunkType;
use pngchunk::error::ChunkError;
use std::convert::TryFrom;
use std::str::FromStr;

const MESSAGE: &str = "This is where your secret message will be!";

fn frame(data_length: u32, kind: &[u8], message: &[u8], crc: u32) -> Vec<u8> {
    data_length
        .to_be_bytes()
        .iter()
        .chain(kind.iter())
        .chain(message.iter())
        .chain(crc.to_be_bytes().iter())
        .copied()
        .collect()
}

fn testing_chunk() -> Chunk {
    let chunk_data = frame(42, "RuSt".as_bytes(), MESSAGE.as_bytes(), 2882656334);
    Chunk::try_from(chunk_data.as_ref()).unwrap()
}

#[test]
fn test_new_chunk() {
    let chunk_type = ChunkType::from_str("RuSt").unwrap();
    let data = "This is where your secret message will be!".as_bytes().to_vec();
    let chunk = Chunk::new(chunk_type, data);
    assert_eq!(chunk.length(), 42);
    assert_eq!(chunk.crc(), 2882656334);
}

#[test]
fn test_chunk_length() {
    let chunk = testing_chunk();
    assert_eq!(chunk.length(), 42);
}

#[test]
fn test_chunk_type() {
    let chunk = testing_chunk();
    assert_eq!(chunk.chunk_type().to_text().unwrap(), String::from("RuSt"));
}

#[test]
fn test_chunk_string() {
    let chunk = testing_chunk();
    let chunk_string = chunk.data_as_string().unwrap();
    let expected_chunk_string = String::from("This is where your secret message will be!");
    assert_eq!(chunk_string, expected_chunk_string);
}

#[test]
fn test_chunk_crc() {
    let chunk = testing_chunk();
    assert_eq!(chunk.crc(), 2882656334);
}

#[test]
fn test_valid_chunk_from_bytes() {
    let data_length: u32 = 42;
    let chunk_type = "RuSt".as_bytes();
    let message_bytes = "This is where your secret message will be!".as_bytes();
    let crc: u32 = 2882656334;

    let chunk_data: Vec<u8> = frame(data_length, chunk_type, message_bytes, crc);

    let chunk = Chunk::try_from(chunk_data.as_ref()).unwrap();

    let chunk_string = chunk.data_as_string().unwrap();
    let expected_chunk_string = String::from("This is where your secret message will be!");

    assert_eq!(chunk.length(), 42);
    assert_eq!(chunk.chunk_type().to_text().unwrap(), String::from("RuSt"));
    assert_eq!(chunk_string, expected_chunk_string);
    assert_eq!(chunk.crc(), 2882656334);
}

#[test]
fn test_invalid_chunk_from_bytes() {
    let data_length: u32 = 42;
    let chunk_type = "RuSt".as_bytes();
    let message_bytes = "This is where your secret message will be!".as_bytes();
    let crc: u32 = 2882656333;

    let chunk_data: Vec<u8> = frame(data_length, chunk_type, message_bytes, crc);

    let chunk = Chunk::try_from(chunk_data.as_ref());

    assert!(chunk.is_err());
}

#[test]
pub fn test_chunk_trait_impls() {
    let data_length: u32 = 42;
    let chunk_type = "RuSt".as_bytes();
    let message_bytes = "This is where your secret message will be!".as_bytes();
    let crc: u32 = 2882656334;

    let chunk_data: Vec<u8> = frame(data_length, chunk_type, message_bytes, crc);

    let chunk: Chunk = TryFrom::try_from(chunk_data.as_ref()).unwrap();

    let _chunk_string = format!("{:?}", chunk);
}

#[test]
fn known_vector_parses_and_bad_checksum_is_reported() {
    let good = frame(42, b"RuSt", MESSAGE.as_bytes(), 2882656334);
    let chunk = Chunk::parse(&good).unwrap();
    assert_eq!(chunk.length(), 42);
    assert_eq!(chunk.chunk_type().to_text().unwrap(), "RuSt");
    assert_eq!(chunk.data(), MESSAGE.as_bytes());
    assert_eq!(chunk.crc(), 2882656334);

    let bad = frame(42, b"RuSt", MESSAGE.as_bytes(), 2882656333);
    assert_eq!(
        Chunk::parse(&bad).unwrap_err(),
        ChunkError::CrcMismatch { expected: 2882656334, found: 2882656333 }
    );
}

#[test]
fn empty_buffer_is_rejected() {
    assert_eq!(Chunk::parse(&[]).unwrap_err(), ChunkError::EmptyInput);
}

#[test]
fn eleven_bytes_are_truncated() {
    let buf = [0u8; 11];
    assert_eq!(Chunk::parse(&buf).unwrap_err(), ChunkError::TruncatedInput);
}

#[test]
fn declared_length_beyond_buffer_is_truncated() {
    let mut buf = frame(42, b"RuSt", MESSAGE.as_bytes(), 2882656334);
    buf.pop();
    assert_eq!(Chunk::parse(&buf).unwrap_err(), ChunkError::TruncatedInput);
    let huge = frame(u32::MAX, b"RuSt", b"", 0);
    assert_eq!(Chunk::parse(&huge).unwrap_err(), ChunkError::TruncatedInput);
}

#[test]
fn trailing_bytes_are_ignored() {
    let mut buf = frame(42, b"RuSt", MESSAGE.as_bytes(), 2882656334);
    buf.extend_from_slice(&[1, 2, 3]);
    let chunk = Chunk::parse(&buf).unwrap();
    assert_eq!(chunk.data(), MESSAGE.as_bytes());
}

#[test]
fn serialize_gives_the_wire_form() {
    let t = ChunkType::from_text("RuSt").unwrap();
    let chunk = Chunk::new(t, MESSAGE.as_bytes().to_vec());
    assert_eq!(chunk.as_bytes(), frame(42, b"RuSt", MESSAGE.as_bytes(), 2882656334));
}

#[test]
fn round_trip_with_payload_and_empty_payload() {
    for payload in [MESSAGE.as_bytes().to_vec(), Vec::new(), vec![0u8, 255, 128, 7]] {
        let t = ChunkType::from_text("abCD").unwrap();
        let built = Chunk::new(t, payload.clone());
        let parsed = Chunk::parse(&built.as_bytes()).unwrap();
        assert_eq!(parsed.length() as usize, payload.len());
        assert_eq!(*parsed.chunk_type(), t);
        assert_eq!(parsed.data(), &payload[..]);
        assert_eq!(parsed.crc(), built.crc());
    }
}

#[test]
fn empty_payload_checksum_is_that_of_the_type() {
    // CRC-32 of the four bytes "IEND", as every PNG file ends with it
    let t = ChunkType::from_text("IEND").unwrap();
    let chunk = Chunk::new(t, Vec::new());
    assert_eq!(chunk.crc(), 0xAE426082);
    assert_eq!(chunk.as_bytes().len(), 12);
}

#[test]
fn every_single_bit_flip_is_detected() {
    let t = ChunkType::from_text("RuSt").unwrap();
    let wire = Chunk::new(t, MESSAGE.as_bytes().to_vec()).as_bytes();
    for i in 4..wire.len() {
        for k in 0..8 {
            let mut bad = wire.clone();
            bad[i] ^= 1u8 << k;
            match Chunk::parse(&bad) {
                Err(ChunkError::CrcMismatch { .. }) => {}
                other => panic!("flip of bit {} in byte {} gave {:?}", k, i, other.map(|c| c.crc())),
            }
        }
    }
}

#[test]
fn payload_as_text_fails_on_invalid_utf8() {
    let t = ChunkType::from_text("RuSt").unwrap();
    let chunk = Chunk::new(t, vec![0x66, 0xc3, 0x28]);
    assert_eq!(chunk.data_as_string(), Err(ChunkError::InvalidUtf8));
    let chunk = Chunk::new(t, vec![0x63, 0x61, 0x66, 0xc3, 0xa9]);
    assert_eq!(chunk.data_as_string().unwrap(), "caf\u{e9}");
}

#[test]
fn parsed_record_reserialises_to_its_frame() {
    let good = frame(42, b"RuSt", MESSAGE.as_bytes(), 2882656334);
    let mut buf = good.clone();
    buf.extend_from_slice(&[9, 9]);
    let chunk = Chunk::try_from(buf.as_ref()).unwrap();
    assert_eq!(chunk.as_bytes(), good);
}
