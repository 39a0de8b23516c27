use cloudgamesaver::hash::{content_hash, ContentHasher, BLOCK_SIZE};
use sha2::{Digest, Sha256};

fn expected(data: &[u8]) -> String {
    let mut all = Vec::new();
    for block in data.chunks(4 * 1024 * 1024) {
        all.extend_from_slice(&Sha256::digest(block));
    }
    hex::encode(Sha256::digest(&all))
}

#[test]
fn empty_data_hashes_to_sha256_of_nothing() {
    assert_eq!(
        content_hash(b""),
        "e3b0c44298fc1c149afbf4c8996fb92427ae41e4649b934ca495991b7852b855"
    );
}

#[test]
fn small_data_is_one_block() {
    let inner = Sha256::digest(b"abc");
    assert_eq!(content_hash(b"abc"), hex::encode(Sha256::digest(inner)));
    assert_ne!(
        content_hash(b"abc"),
        "ba7816bf8f01cfea414140de5dae2223b00361a396177a9cb410ff61f20015ad"
    );
}

#[test]
fn block_size_is_four_mebibytes() {
    assert_eq!(BLOCK_SIZE, 4 * 1024 * 1024);
}

#[test]
fn exact_block_and_block_plus_one() {
    let data: Vec<u8> = (0..BLOCK_SIZE + 1).map(|i| (i % 251) as u8).collect();
    assert_eq!(content_hash(&data[..BLOCK_SIZE]), expected(&data[..BLOCK_SIZE]));
    assert_eq!(content_hash(&data), expected(&data));
    assert_ne!(content_hash(&data), content_hash(&data[..BLOCK_SIZE]));
}

#[test]
fn streaming_in_any_pieces_gives_the_same_hash() {
    let data: Vec<u8> = (0..BLOCK_SIZE + 12345).map(|i| (i * 7 % 256) as u8).collect();
    let whole = content_hash(&data);
    assert_eq!(whole, expected(&data));
    for piece in [65536usize, BLOCK_SIZE - 1, BLOCK_SIZE + 3] {
        let mut h = ContentHasher::new();
        for chunk in data.chunks(piece) {
            h.update(chunk);
        }
        assert_eq!(h.finalize(), whole, "piece size {}", piece);
    }
}

#[test]
fn hash_is_lowercase_hex() {
    let h = content_hash(b"save data");
    assert_eq!(h.len(), 64);
    assert!(h.chars().all(|c| c.is_ascii_digit() || ('a'..='f').contains(&c)));
}

#[test]
fn streaming_byte_by_byte() {
    let data: Vec<u8> = (0..5000).map(|i| (i % 256) as u8).collect();
    let mut h = ContentHasher::new();
    for b in &data {
        h.update(std::slice::from_ref(b));
    }
    h.update(&[]);
    assert_eq!(h.finalize(), content_hash(&data));
}

#[test]
fn hash_of_empty_and_large_data_is_64_hex_digits() {
    for h in [content_hash(b""), content_hash(&vec![7u8; BLOCK_SIZE + 1])] {
        assert_eq!(h.len(), 64);
        assert!(h.chars().all(|c| c.is_ascii_digit() || ('a'..='f').contains(&c)));
    }
}
