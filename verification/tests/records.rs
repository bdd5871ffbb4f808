use stacking::digest::{content_hash, content_hash_text};
use stacking::record::{decode_record, encode_record, le_bytes};

#[test]
fn little_endian_bytes() {
    assert_eq!(le_bytes(0), vec![0, 0, 0, 0, 0, 0, 0, 0]);
    assert_eq!(le_bytes(0x0102), vec![2, 1, 0, 0, 0, 0, 0, 0]);
    assert_eq!(le_bytes(usize::MAX), usize::MAX.to_le_bytes().to_vec());
    assert_eq!(le_bytes(9999), 9999usize.to_le_bytes().to_vec());
}

#[test]
fn records_hold_the_index_then_the_variant() {
    let expected: Vec<u8> = vec![0x2c, 1, 0, 0, 0, 0, 0, 0, 9, 8, 7];
    assert_eq!(encode_record(300, &vec![9, 8, 7]), expected);
}

#[test]
fn records_are_read_back() {
    for index in [0usize, 1, 255, 256, 70000, usize::MAX] {
        for wasm in [vec![], vec![1u8], vec![0u8, 97, 115, 109]] {
            let bytes = encode_record(index, &wasm);
            assert_eq!(decode_record(&bytes), Some((wasm.clone(), index)));
        }
    }
}

#[test]
fn records_are_written_back() {
    let bytes: Vec<u8> = vec![1, 2, 3, 4, 5, 6, 7, 8, 9];
    let (wasm, index) = decode_record(&bytes).unwrap();
    assert_eq!(encode_record(index, &wasm), bytes);
}

#[test]
fn short_bytes_are_no_record() {
    assert_eq!(decode_record(&[]), None);
    assert_eq!(decode_record(&[1, 2, 3, 4, 5, 6, 7]), None);
    assert_eq!(decode_record(&[1, 0, 0, 0, 0, 0, 0, 0]), Some((vec![], 1)));
}

#[test]
fn known_hashes() {
    assert_eq!(
        content_hash_text(&vec![]),
        "af1349b9f5f9a1a6a0404dea36dcc9499bcb25c9adc112b7cc9a93cae41f3262"
    );
    assert_eq!(
        content_hash_text(&b"abc".to_vec()),
        "6437b3ac38465133ffb63b75273a8db548c558465d79db03fd359c6cd5bd9d85"
    );
    assert_eq!(content_hash(&b"abc".to_vec())[0..4], [0x64, 0x37, 0xb3, 0xac]);
}

#[test]
fn hashes_come_from_the_contents() {
    let a = content_hash(&vec![1, 2, 3]);
    let b = content_hash(&vec![1, 2, 4]);
    assert_eq!(a.len(), 32);
    assert_ne!(a, b);
    assert_eq!(a, blake3::hash(&[1, 2, 3]).as_bytes().to_vec());
    assert_ne!(content_hash_text(&vec![1, 2, 3]), content_hash_text(&vec![1, 2, 4]));
}
