use byteorder::{ByteOrder, LittleEndian};
use tiled_map::payload::{decode_payload, tiles_from_bytes};
use tiled_map::{decode_layer_payload, DecodeError};

fn encoded(tiles: &[u32]) -> String {
    let mut bytes = vec![0u8; tiles.len() * 4];
    LittleEndian::write_u32_into(tiles, &mut bytes);
    base64::encode(&bytes)
}

#[test]
fn words_are_read_least_significant_byte_first() {
    assert_eq!(tiles_from_bytes(&[0x01, 0x02, 0x03, 0x04], 1), Ok(vec![0x04030201]));
    assert_eq!(
        tiles_from_bytes(&[0xff, 0, 0, 0, 0, 0xff, 0, 0, 0, 0, 0xff, 0, 0, 0, 0, 0xff], 4),
        Ok(vec![0x0000_00ff, 0x0000_ff00, 0x00ff_0000, 0xff00_0000])
    );
    assert_eq!(tiles_from_bytes(&[0xff, 0xff, 0xff, 0xff], 1), Ok(vec![u32::MAX]));
}

#[test]
fn no_bytes_fill_a_grid_without_cells() {
    assert_eq!(tiles_from_bytes(&[], 0), Ok(vec![]));
    assert_eq!(
        tiles_from_bytes(&[], 1),
        Err(DecodeError::SizeMismatch { expected: 1, found: 0 })
    );
}

#[test]
fn ragged_bytes_are_checked_before_the_count() {
    assert_eq!(tiles_from_bytes(&[1, 2, 3], 0), Err(DecodeError::PayloadDecode));
    assert_eq!(tiles_from_bytes(&[1, 2, 3, 4, 5], 1), Err(DecodeError::PayloadDecode));
    assert_eq!(tiles_from_bytes(&[1, 2, 3, 4, 5, 6, 7], 2), Err(DecodeError::PayloadDecode));
    assert_eq!(
        tiles_from_bytes(&[1, 2, 3, 4, 5, 6, 7, 8], 1),
        Err(DecodeError::SizeMismatch { expected: 1, found: 2 })
    );
    assert_eq!(
        tiles_from_bytes(&[1, 2, 3, 4], u64::MAX),
        Err(DecodeError::SizeMismatch { expected: u64::MAX, found: 1 })
    );
}

#[test]
fn payload_decodes_base64_words() {
    assert_eq!(
        decode_layer_payload("AQAAAAIAAAADAAAABAAAAA==", "base64", 4),
        Ok(vec![1, 2, 3, 4])
    );
    assert_eq!(decode_layer_payload("", "base64", 0), Ok(vec![]));
    assert_eq!(decode_payload("BAMCAQ==", "base64", 1), Ok(vec![0x01020304]));
}

#[test]
fn payload_errors_come_in_order() {
    assert_eq!(
        decode_layer_payload("not base64 at all", "csv", 4),
        Err(DecodeError::UnsupportedEncoding)
    );
    assert_eq!(
        decode_layer_payload("AQAAAA==", "", 1),
        Err(DecodeError::UnsupportedEncoding)
    );
    assert_eq!(
        decode_layer_payload("AQAAAA==", "base64 ", 1),
        Err(DecodeError::UnsupportedEncoding)
    );
    assert_eq!(
        decode_layer_payload("AQAAAA= =", "base64", 1),
        Err(DecodeError::PayloadDecode)
    );
    assert_eq!(
        decode_layer_payload("AQAAAA", "base64", 1),
        Ok(vec![1])
    );
    assert_eq!(
        decode_layer_payload("AQAA", "base64", 1),
        Err(DecodeError::PayloadDecode)
    );
    assert_eq!(
        decode_layer_payload("AQAAAA==", "base64", 2),
        Err(DecodeError::SizeMismatch { expected: 2, found: 1 })
    );
}

#[test]
fn encoding_and_decoding_gives_the_tiles_back() {
    let lists: Vec<Vec<u32>> = vec![
        vec![],
        vec![0],
        vec![1, 2, 3, 4],
        vec![u32::MAX, 0, 0x8000_0000, 0x7fff_ffff, 255, 256, 65535, 65536, 16777215, 16777216],
        (0..1000).map(|i: u32| i.wrapping_mul(2654435761)).collect(),
    ];
    for tiles in lists {
        let text = encoded(&tiles);
        assert_eq!(decode_layer_payload(&text, "base64", tiles.len()), Ok(tiles.clone()));
        assert_eq!(decode_payload(&text, "base64", tiles.len() as u64), Ok(tiles));
    }
}
