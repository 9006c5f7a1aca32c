use sha2::{Digest, Sha256};
use veria::guest::mini_sha256::MiniSha256;
use veria::guest::{median, sort};

fn reference(data: &[u8]) -> [u8; 32] {
    Sha256::digest(data).into()
}

#[test]
fn matches_sha2_on_block_boundaries() {
    for len in [0usize, 1, 3, 55, 56, 57, 63, 64, 65, 119, 120, 127, 128, 129, 1000] {
        let data: Vec<u8> = (0..len).map(|i| (i * 31 + 7) as u8).collect();
        let mut h = MiniSha256::new();
        h.update(&data);
        assert_eq!(h.finalize(), reference(&data), "length {len}");
    }
}

#[test]
fn known_digest_of_abc() {
    let mut h = MiniSha256::new();
    h.update(b"abc");
    assert_eq!(
        hex::encode(h.finalize()),
        "ba7816bf8f01cfea414140de5dae2223b00361a396177a9cb410ff61f20015ad"
    );
}

#[test]
fn streaming_in_pieces_matches_one_shot() {
    let data: Vec<u8> = (0..300u32).map(|i| (i % 251) as u8).collect();
    let mut h = MiniSha256::new();
    h.update(&data[..10]);
    h.update(&data[10..64]);
    h.update(&data[64..65]);
    h.update(&data[65..]);
    assert_eq!(h.finalize(), reference(&data));
}

#[test]
fn u64_digests_use_big_endian_bytes() {
    let words = [1u64, 2, 0xdead_beef];
    let mut bytes = Vec::new();
    for w in words {
        bytes.extend_from_slice(&w.to_be_bytes());
    }
    assert_eq!(median::sha256_be_u64(&words), reference(&bytes));
    let mut buf = [0u64; 256];
    buf[..3].copy_from_slice(&words);
    assert_eq!(median::sha256_u64_be(&buf, 3), reference(&bytes));
    assert_eq!(sort::sha256_be_u64(&buf, 3), reference(&bytes));
}

#[test]
fn empty_message_digest() {
    assert_eq!(
        hex::encode(MiniSha256::new().finalize()),
        "e3b0c44298fc1c149afbf4c8996fb92427ae41e4649b934ca495991b7852b855"
    );
}

#[test]
fn any_split_gives_the_same_digest() {
    let data: Vec<u8> = (0..200u32).map(|i| (i * 7 % 256) as u8).collect();
    let want = reference(&data);
    for cut in [0usize, 1, 63, 64, 65, 130, 200] {
        let mut h = MiniSha256::new();
        h.update(&data[..cut]);
        h.update(&[]);
        h.update(&data[cut..]);
        assert_eq!(h.finalize(), want, "cut {cut}");
    }
}

#[test]
fn large_word_prefix_hashes_without_a_cap() {
    let words: Vec<u64> = (0..5000u64).collect();
    let mut bytes = Vec::new();
    for w in &words {
        bytes.extend_from_slice(&w.to_be_bytes());
    }
    assert_eq!(median::sha256_be_u64(&words), reference(&bytes));
}
