//! Checksums.

use filecopier::hash::blake3_impl::Blake3Hasher;
use filecopier::hash::sha2_impl::Sha2Hasher;
use filecopier::hash::xxhash_impl::XxHasher;
use filecopier::hash::{new_hasher, Algorithm, ChecksumAlgorithm, HasherDispatch};

const DATA_A: &[u8] = b"FileCopier-Rust hash test data block A";
const DATA_B: &[u8] = b"FileCopier-Rust hash test data block B";
const EMPTY:  &[u8] = b"";


#[test]
fn blake3_is_deterministic() {
    let h1 = hash_once(Algorithm::Blake3, DATA_A);
    let h2 = hash_once(Algorithm::Blake3, DATA_A);
    assert_eq!(h1, h2, "blake3: mismo input debe producir mismo hash");
}

#[test]
fn xxhash_is_deterministic() {
    let h1 = hash_once(Algorithm::XxHash, DATA_A);
    let h2 = hash_once(Algorithm::XxHash, DATA_A);
    assert_eq!(h1, h2, "xxhash: mismo input debe producir mismo hash");
}

#[test]
fn sha2_is_deterministic() {
    let h1 = hash_once(Algorithm::Sha2, DATA_A);
    let h2 = hash_once(Algorithm::Sha2, DATA_A);
    assert_eq!(h1, h2, "sha2: mismo input debe producir mismo hash");
}


#[test]
fn different_data_different_hashes() {
    for algo in [Algorithm::Blake3, Algorithm::XxHash, Algorithm::Sha2] {
        let h_a = hash_once(algo, DATA_A);
        let h_b = hash_once(algo, DATA_B);
        assert_ne!(h_a, h_b, "{algo:?}: datos distintos deben producir hashes distintos");
    }
}

#[test]
fn empty_data_has_defined_hash() {
    for algo in [Algorithm::Blake3, Algorithm::XxHash, Algorithm::Sha2] {
        let h = hash_once(algo, EMPTY);
        assert!(!h.is_empty(), "{algo:?}: hash de datos vacíos no debe ser string vacío");
    }
}


#[test]
fn incremental_equals_oneshot_blake3() {
    let oneshot = hash_once(Algorithm::Blake3, &[DATA_A, DATA_B].concat());

    let mut h = new_hasher(Algorithm::Blake3);
    h.update(DATA_A);
    h.update(DATA_B);
    let incremental = h.finalize();

    assert_eq!(
        oneshot, incremental,
        "blake3: hash incremental debe coincidir con one-shot"
    );
}

#[test]
fn incremental_equals_oneshot_xxhash() {
    let oneshot = hash_once(Algorithm::XxHash, &[DATA_A, DATA_B].concat());

    let mut h = new_hasher(Algorithm::XxHash);
    h.update(DATA_A);
    h.update(DATA_B);
    let incremental = h.finalize();

    assert_eq!(oneshot, incremental, "xxhash: hash incremental debe coincidir con one-shot");
}

#[test]
fn incremental_equals_oneshot_sha2() {
    let oneshot = hash_once(Algorithm::Sha2, &[DATA_A, DATA_B].concat());

    let mut h = new_hasher(Algorithm::Sha2);
    h.update(DATA_A);
    h.update(DATA_B);
    let incremental = h.finalize();

    assert_eq!(oneshot, incremental, "sha2: hash incremental debe coincidir con one-shot");
}


#[test]
fn dispatch_matches_dyn_trait() {
    for algo in [Algorithm::Blake3, Algorithm::XxHash, Algorithm::Sha2] {
        let mut dyn_h = new_hasher(algo);
        dyn_h.update(DATA_A);
        let dyn_result = dyn_h.finalize();

        let mut static_h = HasherDispatch::new(algo);
        static_h.update(DATA_A);
        let static_result = static_h.finalize();

        assert_eq!(
            dyn_result, static_result,
            "{algo:?}: HasherDispatch debe producir el mismo resultado que dyn ChecksumAlgorithm"
        );
    }
}


#[test]
fn blake3_output_is_64_hex_chars() {
    let h = hash_once(Algorithm::Blake3, DATA_A);
    assert_eq!(h.len(), 64, "blake3 debe producir 64 chars hex (256 bits)");
    assert!(h.chars().all(|c| c.is_ascii_hexdigit()), "blake3 output debe ser hex válido");
}

#[test]
fn xxhash_output_is_16_hex_chars() {
    let h = hash_once(Algorithm::XxHash, DATA_A);
    assert_eq!(h.len(), 16, "xxhash3-64 debe producir 16 chars hex (64 bits)");
    assert!(h.chars().all(|c| c.is_ascii_hexdigit()), "xxhash output debe ser hex válido");
}

#[test]
fn sha2_output_is_64_hex_chars() {
    let h = hash_once(Algorithm::Sha2, DATA_A);
    assert_eq!(h.len(), 64, "sha2-256 debe producir 64 chars hex (256 bits)");
    assert!(h.chars().all(|c| c.is_ascii_hexdigit()), "sha2 output debe ser hex válido");
}


#[test]
fn algorithm_from_str_valid() {
    assert_eq!(Algorithm::from_str("blake3").unwrap(),  Algorithm::Blake3);
    assert_eq!(Algorithm::from_str("BLAKE3").unwrap(),  Algorithm::Blake3);
    assert_eq!(Algorithm::from_str("xxhash").unwrap(),  Algorithm::XxHash);
    assert_eq!(Algorithm::from_str("xx").unwrap(),      Algorithm::XxHash);
    assert_eq!(Algorithm::from_str("sha2").unwrap(),    Algorithm::Sha2);
    assert_eq!(Algorithm::from_str("sha256").unwrap(),  Algorithm::Sha2);
    assert_eq!(Algorithm::from_str("SHA256").unwrap(),  Algorithm::Sha2);
}

#[test]
fn algorithm_from_str_invalid() {
    assert!(Algorithm::from_str("md5").is_err());
    assert!(Algorithm::from_str("").is_err());
    assert!(Algorithm::from_str("crc32").is_err());
}


fn hash_once(algo: Algorithm, data: &[u8]) -> String {
    let mut h = new_hasher(algo);
    h.update(data);
    h.finalize()
}

#[test]
fn known_digests() {
    assert_eq!(
        hash_once(Algorithm::Sha2, b"abc"),
        "ba7816bf8f01cfea414140de5dae2223b00361a396177a9cb410ff61f20015ad"
    );
    assert_eq!(
        hash_once(Algorithm::Blake3, EMPTY),
        "af1349b9f5f9a1a6a0404dea36dcc9499bcb25c9adc112b7cc9a93cae41f3262"
    );
    assert_eq!(hash_once(Algorithm::XxHash, EMPTY), "ef46db3751d8e999");
}

#[test]
fn many_chunks_equal_oneshot() {
    let data: Vec<u8> = (0u8..=255).cycle().take(5000).collect();
    for algo in [Algorithm::Blake3, Algorithm::XxHash, Algorithm::Sha2] {
        let mut h = HasherDispatch::new(algo);
        for chunk in data.chunks(37) {
            h.update(chunk);
        }
        assert_eq!(h.finalize(), hash_once(algo, &data));
    }
}

#[test]
fn algorithm_names() {
    assert_eq!(Algorithm::Blake3.to_string(), "blake3");
    assert_eq!(Algorithm::XxHash.to_string(), "xxhash");
    assert_eq!(Algorithm::Sha2.to_string(), "sha2-256");
    assert_eq!("Sha256".parse::<Algorithm>(), Ok(Algorithm::Sha2));
    assert_eq!(
        Algorithm::from_str("MD5"),
        Err("Algoritmo desconocido: 'md5'. Usa: blake3, xxhash, sha2".to_string())
    );
}

#[test]
fn hasher_names() {
    assert_eq!(Blake3Hasher::new().name(), "blake3");
    assert_eq!(XxHasher::new().name(), "xxhash64");
    assert_eq!(Sha2Hasher::new().name(), "sha2-256");
}
