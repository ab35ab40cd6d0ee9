use stcp::cipher::{KEY_LEN, MAX_PLAINTEXT_LEN, NONCE_LEN, TAG_LEN};
use stcp::packet::HEADER_LEN;
use stcp::{AesPacket, CipherContext, StcpError};

fn hex(s: &str) -> Vec<u8> {
    let digits: Vec<u32> = s.chars().map(|c| c.to_digit(16).unwrap()).collect();
    digits.chunks(2).map(|p| (p[0] * 16 + p[1]) as u8).collect()
}

fn fixed_context() -> CipherContext {
    let mut key = [0u8; 32];
    for (i, b) in key.iter_mut().enumerate() {
        *b = (i as u8).wrapping_mul(7).wrapping_add(3);
    }
    CipherContext::new(key)
}

#[test]
fn constants_are_those_of_aes_256_gcm() {
    assert_eq!(KEY_LEN, 32);
    assert_eq!(NONCE_LEN, 12);
    assert_eq!(TAG_LEN, 16);
    assert_eq!(HEADER_LEN, 20);
    assert_eq!(MAX_PLAINTEXT_LEN, 1u64 << 36);
}

#[test]
fn seal_of_nothing_under_the_zero_key_is_the_known_tag() {
    let ctx = CipherContext::new([0u8; 32]);
    let packet = AesPacket::encrypt_with_nonce(&ctx, [0u8; 12], Vec::new()).unwrap();
    assert_eq!(packet.nonce(), &[0u8; 12]);
    assert_eq!(packet.ciphertext(), &hex("530f8afbc74536b9a963b4f1c4cb738b"));
}

#[test]
fn seal_of_a_zero_block_under_the_zero_key_is_the_known_ciphertext() {
    let ctx = CipherContext::new([0u8; 32]);
    let packet = AesPacket::encrypt_with_nonce(&ctx, [0u8; 12], vec![0u8; 16]).unwrap();
    let expected = hex("cea7403d4d606b6e074ec5d3baf39d18d0d1c8a799996bf0265b98b5d48ab919");
    assert_eq!(packet.ciphertext(), &expected);
    assert_eq!(packet.decrypt(&ctx), Ok(vec![0u8; 16]));
}

#[test]
fn known_ciphertext_opens_to_the_zero_block() {
    let ctx = CipherContext::new([0u8; 32]);
    let ciphertext = hex("cea7403d4d606b6e074ec5d3baf39d18d0d1c8a799996bf0265b98b5d48ab919");
    let packet = AesPacket::from_parts([0u8; 12], ciphertext);
    assert_eq!(packet.decrypt(&ctx), Ok(vec![0u8; 16]));
}

#[test]
fn round_trip_of_the_empty_plaintext() {
    let ctx = CipherContext::generate();
    let packet = AesPacket::encrypt(&ctx, Vec::new()).unwrap();
    assert_eq!(packet.ciphertext().len(), 16);
    assert_eq!(packet.decrypt(&ctx), Ok(Vec::new()));
}

#[test]
fn round_trip_of_hello() {
    let ctx = CipherContext::generate();
    let packet = AesPacket::encrypt(&ctx, b"hello".to_vec()).unwrap();
    assert_eq!(packet.ciphertext().len(), 5 + 16);
    assert_eq!(packet.decrypt(&ctx), Ok(b"hello".to_vec()));
}

#[test]
fn round_trip_of_every_short_length() {
    let ctx = CipherContext::generate();
    for len in 0..300usize {
        let plaintext: Vec<u8> = (0..len).map(|i| (i * 31 + len) as u8).collect();
        let packet = AesPacket::encrypt(&ctx, plaintext.clone()).unwrap();
        assert_eq!(packet.ciphertext().len(), len + 16);
        assert_eq!(packet.decrypt(&ctx), Ok(plaintext));
    }
}

#[test]
fn round_trip_of_65536_bytes() {
    let ctx = CipherContext::generate();
    let plaintext: Vec<u8> = (0..65536usize).map(|i| (i % 251) as u8).collect();
    let packet = AesPacket::encrypt(&ctx, plaintext.clone()).unwrap();
    assert_eq!(packet.ciphertext().len(), 65536 + 16);
    assert_eq!(packet.decrypt(&ctx), Ok(plaintext));
}

#[test]
fn round_trip_through_the_wire_form() {
    let ctx = CipherContext::generate();
    let bytes = AesPacket::encrypt_to_bytes(&ctx, b"over the wire".to_vec()).unwrap();
    assert_eq!(bytes.len(), 20 + 16 + 13);
    assert_eq!(AesPacket::decrypt_from_bytes(&ctx, &bytes), Ok(b"over the wire".to_vec()));
}

#[test]
fn nonces_differ_from_packet_to_packet() {
    let ctx = CipherContext::generate();
    let a = AesPacket::encrypt(&ctx, b"same".to_vec()).unwrap();
    let b = AesPacket::encrypt(&ctx, b"same".to_vec()).unwrap();
    assert_ne!(a.nonce(), b.nonce());
    assert_ne!(a.ciphertext(), b.ciphertext());
}

#[test]
fn flipping_any_bit_of_the_ciphertext_or_tag_fails_authentication() {
    let ctx = fixed_context();
    let packet = AesPacket::encrypt_with_nonce(&ctx, [9u8; 12], b"tamper with me".to_vec()).unwrap();
    let original = packet.ciphertext().clone();
    assert_eq!(original.len(), 14 + 16);
    for byte in 0..original.len() {
        for bit in 0..8 {
            let mut changed = original.clone();
            changed[byte] ^= 1 << bit;
            let forged = AesPacket::from_parts(*packet.nonce(), changed);
            assert_eq!(forged.decrypt(&ctx), Err(StcpError::Authentication));
        }
    }
}

#[test]
fn flipping_any_bit_of_the_nonce_fails_authentication() {
    let ctx = fixed_context();
    let packet = AesPacket::encrypt_with_nonce(&ctx, [9u8; 12], b"tamper with me".to_vec()).unwrap();
    for byte in 0..12 {
        for bit in 0..8 {
            let mut nonce = *packet.nonce();
            nonce[byte] ^= 1 << bit;
            let forged = AesPacket::from_parts(nonce, packet.ciphertext().clone());
            assert_eq!(forged.decrypt(&ctx), Err(StcpError::Authentication));
        }
    }
}

#[test]
fn flipping_a_bit_on_the_wire_never_gives_another_plaintext() {
    let ctx = fixed_context();
    let bytes = AesPacket::encrypt_to_bytes(&ctx, b"ack".to_vec()).unwrap();
    for byte in 0..bytes.len() {
        for bit in 0..8 {
            let mut changed = bytes.clone();
            changed[byte] ^= 1 << bit;
            let expected = if (12..20).contains(&byte) {
                StcpError::MalformedPacket
            } else {
                StcpError::Authentication
            };
            assert_eq!(AesPacket::decrypt_from_bytes(&ctx, &changed), Err(expected));
        }
    }
}

#[test]
fn another_key_fails_authentication() {
    let ctx = fixed_context();
    let other = CipherContext::new([1u8; 32]);
    let packet = AesPacket::encrypt(&ctx, b"secret".to_vec()).unwrap();
    assert_eq!(packet.decrypt(&other), Err(StcpError::Authentication));
    assert_eq!(packet.decrypt(&ctx), Ok(b"secret".to_vec()));
}

#[test]
fn a_ciphertext_shorter_than_a_tag_fails_authentication() {
    let ctx = fixed_context();
    for len in 0..16usize {
        let packet = AesPacket::from_parts([0u8; 12], vec![0u8; len]);
        assert_eq!(packet.decrypt(&ctx), Err(StcpError::Authentication));
    }
}

#[test]
fn wire_form_is_nonce_then_length_then_ciphertext() {
    let nonce = [1u8, 2, 3, 4, 5, 6, 7, 8, 9, 10, 11, 12];
    let packet = AesPacket::from_parts(nonce, vec![0xaa, 0xbb, 0xcc]);
    let expected = vec![
        1u8, 2, 3, 4, 5, 6, 7, 8, 9, 10, 11, 12, 3, 0, 0, 0, 0, 0, 0, 0, 0xaa, 0xbb, 0xcc,
    ];
    assert_eq!(packet.encode(), Ok(expected));
}

#[test]
fn wire_form_counts_the_length_least_significant_byte_first() {
    let packet = AesPacket::from_parts([0u8; 12], vec![7u8; 0x0102]);
    let bytes = packet.encode().unwrap();
    assert_eq!(bytes.len(), 20 + 0x0102);
    assert_eq!(&bytes[12..20], &[0x02, 0x01, 0, 0, 0, 0, 0, 0]);
}

#[test]
fn wire_form_of_an_empty_ciphertext_is_the_header() {
    let packet = AesPacket::from_parts([5u8; 12], Vec::new());
    let mut expected = vec![5u8; 12];
    expected.extend_from_slice(&[0u8; 8]);
    assert_eq!(packet.encode(), Ok(expected));
}

#[test]
fn decode_undoes_encode() {
    let nonce = [1u8, 2, 3, 4, 5, 6, 7, 8, 9, 10, 11, 12];
    let packet = AesPacket::from_parts(nonce, vec![0xaa, 0xbb, 0xcc]);
    let decoded = AesPacket::decode(&packet.encode().unwrap()).unwrap();
    assert_eq!(decoded.nonce(), &nonce);
    assert_eq!(decoded.ciphertext(), &vec![0xaa, 0xbb, 0xcc]);
}

#[test]
fn encode_undoes_decode() {
    let mut bytes = vec![9u8; 12];
    bytes.extend_from_slice(&[4, 0, 0, 0, 0, 0, 0, 0]);
    bytes.extend_from_slice(&[1, 2, 3, 4]);
    let packet = AesPacket::decode(&bytes).unwrap();
    assert_eq!(packet.encode(), Ok(bytes));
}

#[test]
fn decode_rejects_truncated_input() {
    let packet = AesPacket::from_parts([3u8; 12], vec![1, 2, 3, 4, 5]);
    let bytes = packet.encode().unwrap();
    for len in 0..bytes.len() {
        let result = AesPacket::decode(&bytes[..len]);
        assert!(matches!(result, Err(StcpError::MalformedPacket)));
    }
}

#[test]
fn decode_rejects_oversized_input() {
    let packet = AesPacket::from_parts([3u8; 12], vec![1, 2, 3, 4, 5]);
    let mut bytes = packet.encode().unwrap();
    bytes.push(0);
    assert!(matches!(AesPacket::decode(&bytes), Err(StcpError::MalformedPacket)));
}

#[test]
fn decode_rejects_a_length_beyond_the_input() {
    let mut bytes = vec![0u8; 12];
    bytes.extend_from_slice(&[0xff; 8]);
    bytes.extend_from_slice(&[1, 2, 3]);
    assert!(matches!(AesPacket::decode(&bytes), Err(StcpError::MalformedPacket)));
}

#[test]
fn decrypt_from_bytes_rejects_what_frames_no_packet() {
    let ctx = fixed_context();
    assert_eq!(AesPacket::decrypt_from_bytes(&ctx, &[]), Err(StcpError::MalformedPacket));
    assert_eq!(AesPacket::decrypt_from_bytes(&ctx, &[0u8; 19]), Err(StcpError::MalformedPacket));
    assert_eq!(AesPacket::decrypt_from_bytes(&ctx, &[0u8; 20]), Err(StcpError::Authentication));
}

#[test]
fn context_keeps_its_key() {
    let mut key = [0u8; 32];
    key[0] = 1;
    key[31] = 2;
    assert_eq!(CipherContext::new(key).key(), &key);
}

#[test]
fn generated_contexts_differ() {
    assert_ne!(CipherContext::generate().key(), CipherContext::generate().key());
}
