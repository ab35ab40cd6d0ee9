use stcp::frame::{
    modulus_bits, public_exponent, public_key_len, wrapped_key_len, MAX_KEY_BITS,
    MAX_PUBLIC_KEY_LEN, MIN_KEY_BITS,
};
use stcp::server::private_key_len;

fn key_bytes(words: u64, modulus: &[u8], exponent_words: u64, exponent: u32) -> Vec<u8> {
    let mut bytes = words.to_le_bytes().to_vec();
    bytes.extend_from_slice(modulus);
    bytes.extend_from_slice(&exponent_words.to_le_bytes());
    bytes.extend_from_slice(&exponent.to_le_bytes());
    bytes
}

#[test]
fn lengths_of_a_4096_bit_key() {
    assert_eq!(public_key_len(4096), 532);
    assert_eq!(wrapped_key_len(4096), 512);
    assert_eq!(private_key_len(4096), 1588);
}

#[test]
fn lengths_of_other_key_sizes() {
    assert_eq!(public_key_len(512), 84);
    assert_eq!(wrapped_key_len(512), 64);
    assert_eq!(private_key_len(512), 84 + 72 + 8 + 40 + 40);
    assert_eq!(public_key_len(2048), 276);
    assert_eq!(wrapped_key_len(2048), 256);
    assert_eq!(public_key_len(513), 88);
    assert_eq!(wrapped_key_len(513), 65);
    assert_eq!(public_key_len(0), 20);
    assert_eq!(wrapped_key_len(0), 0);
    assert_eq!(wrapped_key_len(1), 1);
    assert_eq!(public_key_len(1), 24);
}

#[test]
fn limits_of_the_key_size() {
    assert_eq!(MAX_KEY_BITS, 4096);
    assert_eq!(MAX_PUBLIC_KEY_LEN, public_key_len(MAX_KEY_BITS));
    assert_eq!(wrapped_key_len(MIN_KEY_BITS), 32 + 11);
    assert_eq!(wrapped_key_len(MIN_KEY_BITS - 1), 32 + 10);
}

#[test]
fn modulus_bits_counts_up_to_the_highest_set_bit() {
    let mut modulus = [0u8; 8];
    modulus[0] = 1;
    modulus[7] = 0x80;
    assert_eq!(modulus_bits(&key_bytes(2, &modulus, 1, 65537)), Some(64));
    modulus[7] = 0x40;
    assert_eq!(modulus_bits(&key_bytes(2, &modulus, 1, 65537)), Some(63));
    modulus[7] = 0x01;
    assert_eq!(modulus_bits(&key_bytes(2, &modulus, 1, 65537)), Some(57));
    modulus[7] = 0;
    modulus[6] = 0xff;
    assert_eq!(modulus_bits(&key_bytes(2, &modulus, 1, 65537)), Some(56));
    modulus[6] = 0;
    modulus[5] = 0x03;
    assert_eq!(modulus_bits(&key_bytes(2, &modulus, 1, 65537)), Some(42));
    modulus[5] = 0;
    modulus[4] = 0x01;
    assert_eq!(modulus_bits(&key_bytes(2, &modulus, 1, 65537)), Some(33));
}

#[test]
fn modulus_bits_rejects_a_zero_top_word() {
    let mut modulus = [0u8; 8];
    modulus[3] = 0xff;
    assert_eq!(modulus_bits(&key_bytes(2, &modulus, 1, 65537)), None);
    assert_eq!(modulus_bits(&key_bytes(2, &[0u8; 8], 1, 65537)), None);
}

#[test]
fn modulus_bits_rejects_a_wrong_word_count() {
    let mut modulus = [0u8; 8];
    modulus[7] = 0x80;
    assert_eq!(modulus_bits(&key_bytes(1, &modulus, 1, 65537)), None);
    assert_eq!(modulus_bits(&key_bytes(3, &modulus, 1, 65537)), None);
    assert_eq!(modulus_bits(&key_bytes(2 + (1 << 32), &modulus, 1, 65537)), None);
}

#[test]
fn modulus_bits_rejects_an_exponent_of_other_than_one_word() {
    let mut modulus = [0u8; 8];
    modulus[7] = 0x80;
    assert_eq!(modulus_bits(&key_bytes(2, &modulus, 0, 65537)), None);
    assert_eq!(modulus_bits(&key_bytes(2, &modulus, 2, 65537)), None);
}

#[test]
fn modulus_bits_rejects_bytes_of_the_wrong_length() {
    let mut modulus = [0u8; 8];
    modulus[7] = 0x80;
    let good = key_bytes(2, &modulus, 1, 65537);
    assert_eq!(modulus_bits(&good), Some(64));
    for len in 0..good.len() {
        assert_eq!(modulus_bits(&good[..len]), None);
    }
    let mut longer = good.clone();
    longer.push(0);
    assert_eq!(modulus_bits(&longer), None);
    assert_eq!(modulus_bits(&[]), None);
    assert_eq!(modulus_bits(&[0u8; 20]), None);
}

#[test]
fn modulus_bits_takes_the_longest_key_and_none_longer() {
    let mut modulus = vec![0u8; 512];
    modulus[511] = 0x80;
    let longest = key_bytes(128, &modulus, 1, 65537);
    assert_eq!(longest.len(), 532);
    assert_eq!(modulus_bits(&longest), Some(4096));
    let mut modulus = vec![0u8; 516];
    modulus[515] = 0x01;
    assert_eq!(modulus_bits(&key_bytes(129, &modulus, 1, 65537)), None);
}

#[test]
fn public_exponent_is_the_last_four_bytes() {
    let mut modulus = [0u8; 8];
    modulus[7] = 0x80;
    assert_eq!(public_exponent(&key_bytes(2, &modulus, 1, 65537)), Some(65537));
    assert_eq!(public_exponent(&key_bytes(2, &modulus, 1, 0)), Some(0));
    assert_eq!(public_exponent(&key_bytes(2, &modulus, 1, 0x0403_0201)), Some(0x0403_0201));
    assert_eq!(public_exponent(&[1, 2, 3, 4]), Some(0x0403_0201));
    assert_eq!(public_exponent(&[1, 2, 3]), None);
    assert_eq!(public_exponent(&[]), None);
}
