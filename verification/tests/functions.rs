use rust_blockchain_seman::backend::clock::timestamp_from;
use rust_blockchain_seman::backend::digest::{hex_encode, hex_string};
use rust_blockchain_seman::backend::{
    _i64_bytes, check_difficulty, difficulty_bytes_as_u128, get_genesis_hasher, get_hash, hash_array,
    u128_bytes, u32_bytes, u64_bytes,
};

#[test]
fn u32_bytes_are_little_endian() {
    assert_eq!(u32_bytes(&0x0102_0304), [4, 3, 2, 1]);
    assert_eq!(u32_bytes(&0), [0, 0, 0, 0]);
    assert_eq!(u32_bytes(&u32::MAX), [255, 255, 255, 255]);
}

#[test]
fn u64_bytes_are_little_endian() {
    assert_eq!(u64_bytes(&0x0102_0304_0506_0708), [8, 7, 6, 5, 4, 3, 2, 1]);
    assert_eq!(u64_bytes(&1), [1, 0, 0, 0, 0, 0, 0, 0]);
    assert_eq!(u64_bytes(&u64::MAX), [255; 8]);
}

#[test]
fn u128_bytes_are_little_endian() {
    let value: u128 = 0x0102_0304_0506_0708_090a_0b0c_0d0e_0f10;
    assert_eq!(
        u128_bytes(&value),
        [16, 15, 14, 13, 12, 11, 10, 9, 8, 7, 6, 5, 4, 3, 2, 1]
    );
    assert_eq!(u128_bytes(&u128::MAX), [255; 16]);
}

#[test]
fn encoders_agree_with_std() {
    let samples: [u64; 5] = [0, 1, 255, 256, 0xdead_beef_0bad_f00d];
    for sample in samples {
        assert_eq!(u64_bytes(&sample), sample.to_le_bytes());
        assert_eq!(u128_bytes(&(sample as u128)), (sample as u128).to_le_bytes());
        assert_eq!(u32_bytes(&(sample as u32)), (sample as u32).to_le_bytes());
    }
}

#[test]
fn i64_bytes_are_twos_complement() {
    assert_eq!(_i64_bytes(&1), [1, 0, 0, 0, 0, 0, 0, 0]);
    assert_eq!(_i64_bytes(&-1), [255; 8]);
    assert_eq!(_i64_bytes(&-2), [254, 255, 255, 255, 255, 255, 255, 255]);
    assert_eq!(_i64_bytes(&i64::MIN), [0, 0, 0, 0, 0, 0, 0, 128]);
    assert_eq!(_i64_bytes(&i64::MAX), [255, 255, 255, 255, 255, 255, 255, 127]);
    for sample in [0i64, -256, 77, i64::MIN + 1, -0x0102_0304_0506] {
        assert_eq!(_i64_bytes(&sample), sample.to_le_bytes());
    }
}

#[test]
fn hash_array_is_all_zero() {
    assert_eq!(hash_array(), [0u8; 32]);
}

#[test]
fn difficulty_value_reads_the_upper_half() {
    let mut digest = [0u8; 32];
    digest[0] = 0xff;
    digest[15] = 0xff;
    assert_eq!(difficulty_bytes_as_u128(&digest), 0);
    digest[16] = 1;
    assert_eq!(difficulty_bytes_as_u128(&digest), 1);
    digest[17] = 2;
    assert_eq!(difficulty_bytes_as_u128(&digest), 1 + 2 * 256);
    digest[31] = 0x80;
    assert_eq!(difficulty_bytes_as_u128(&digest), 1 + 2 * 256 + (1u128 << 127));
}

#[test]
fn difficulty_value_agrees_with_std() {
    let mut digest = [0u8; 32];
    for (i, byte) in digest.iter_mut().enumerate() {
        *byte = (i * 7 + 3) as u8;
    }
    let mut window = [0u8; 16];
    window.copy_from_slice(&digest[16..32]);
    assert_eq!(difficulty_bytes_as_u128(&digest), u128::from_le_bytes(window));
}

#[test]
fn difficulty_value_reads_back_what_u128_bytes_wrote() {
    for value in [0u128, 1, 255, 256, (1 << 112) - 1, 1 << 127, u128::MAX] {
        let mut digest = [0xabu8; 32];
        digest[16..32].copy_from_slice(&u128_bytes(&value));
        assert_eq!(difficulty_bytes_as_u128(&digest), value);
    }
}

#[test]
fn difficulty_value_of_a_longer_slice() {
    let mut bytes = vec![0u8; 40];
    bytes[16] = 9;
    bytes[32] = 0xff;
    assert_eq!(difficulty_bytes_as_u128(&bytes), 9);
}

#[test]
fn check_difficulty_is_strict() {
    let mut digest = [0u8; 32];
    digest[16] = 10;
    assert!(check_difficulty(&digest, &11));
    assert!(!check_difficulty(&digest, &10));
    assert!(!check_difficulty(&digest, &9));
    assert!(!check_difficulty(&[0u8; 32], &0));
    assert!(check_difficulty(&[0u8; 32], &1));
    assert!(!check_difficulty(&[255u8; 32], &u128::MAX));
}

#[test]
fn hex_encoding_is_lowercase_and_high_digit_first() {
    assert_eq!(hex_string(&[0x00, 0xff, 0x1a, 0xa1, 0x09]), "00ff1aa109");
    assert_eq!(hex_encode(&[0x00, 0xff, 0x1a]), b"00ff1a".to_vec());
    assert_eq!(hex_string(&[]), "");
    assert_eq!(hex_encode(&[]), Vec::<u8>::new());
}

#[test]
fn get_hash_is_hex_sha256_of_the_word() {
    assert_eq!(
        get_hash("abc".to_string()),
        "ba7816bf8f01cfea414140de5dae2223b00361a396177a9cb410ff61f20015ad"
    );
    assert_eq!(
        get_hash(String::new()),
        "e3b0c44298fc1c149afbf4c8996fb92427ae41e4649b934ca495991b7852b855"
    );
}

#[test]
fn genesis_address_is_the_hash_of_its_label() {
    let address = get_genesis_hasher();
    assert_eq!(
        address,
        "89eb0ac031a63d2421cd05a2fbe41f3ea35f5c3712ca839cbf6b85c4ee07b7a3"
    );
    assert_eq!(address, get_hash("Genesis Block".to_string()));
    assert_eq!(address.len(), 64);
}

#[test]
fn timestamp_from_clock_readings() {
    assert_eq!(timestamp_from(Some(0)), Some(0));
    assert_eq!(
        timestamp_from(Some(1_700_000_000_000_000_000)),
        Some(1_700_000_000_000_000_000)
    );
    assert_eq!(timestamp_from(Some(i64::MAX)), Some(i64::MAX as u64));
    assert_eq!(timestamp_from(Some(-1)), None);
    assert_eq!(timestamp_from(None), None);
}
