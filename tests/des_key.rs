use yubikey_piv::{des_decrypt, des_encrypt, DesKey};

const STRONG_KEY: [u8; 24] = [
    0x01, 0x23, 0x45, 0x67, 0x89, 0xAB, 0xCD, 0xEF, 0x23, 0x45, 0x67, 0x89, 0xAB, 0xCD, 0xEF, 0x01,
    0x45, 0x67, 0x89, 0xAB, 0xCD, 0xEF, 0x01, 0x23,
];

#[test]
fn from_bytes_keeps_the_bytes() {
    let key = DesKey::from_bytes(STRONG_KEY);
    assert_eq!(key.as_ref(), &STRONG_KEY);
}

#[test]
fn encrypt_known_answer() {
    // With three equal subkeys EDE reduces to single DES.
    let key = DesKey::from_bytes([0x01u8; 24]);
    let mut out = [0u8; 8];
    des_encrypt(&key, &[0u8; 8], &mut out);
    assert_eq!(out, [0x8C, 0xA6, 0x4D, 0xE9, 0xC1, 0xB1, 0x23, 0xA7]);
}

#[test]
fn encrypt_changes_the_block() {
    let key = DesKey::from_bytes(STRONG_KEY);
    let input = *b"The qufc";
    let mut out = [0u8; 8];
    des_encrypt(&key, &input, &mut out);
    assert_ne!(out, input);
}

#[test]
fn decrypt_uses_the_encrypt_direction() {
    let key = DesKey::from_bytes(STRONG_KEY);
    let input = *b"The qufc";
    let mut enc = [0u8; 8];
    let mut dec = [0u8; 8];
    des_encrypt(&key, &input, &mut enc);
    des_decrypt(&key, &input, &mut dec);
    assert_eq!(enc, dec);
}

#[test]
fn decrypt_after_encrypt_is_not_identity() {
    let key = DesKey::from_bytes(STRONG_KEY);
    let input = *b"The qufc";
    let mut enc = [0u8; 8];
    let mut dec = [0u8; 8];
    des_encrypt(&key, &input, &mut enc);
    des_decrypt(&key, &enc, &mut dec);
    assert_ne!(dec, input);
    let mut twice = [0u8; 8];
    des_encrypt(&key, &enc, &mut twice);
    assert_eq!(dec, twice);
}

#[test]
fn decrypt_after_encrypt_with_weak_key_gives_block_back() {
    // a weak DES key makes encryption its own inverse
    let key = DesKey::from_bytes([0x01u8; 24]);
    let input = [0x10, 0x32, 0x54, 0x76, 0x98, 0xBA, 0xDC, 0xFE];
    let mut enc = [0u8; 8];
    let mut dec = [0u8; 8];
    des_encrypt(&key, &input, &mut enc);
    des_decrypt(&key, &enc, &mut dec);
    assert_eq!(dec, input);
}

#[test]
fn encrypt_does_not_change_the_key() {
    let key = DesKey::from_bytes(STRONG_KEY);
    let mut out = [0u8; 8];
    des_encrypt(&key, &[7u8; 8], &mut out);
    des_decrypt(&key, &[7u8; 8], &mut out);
    assert_eq!(key.as_ref(), &STRONG_KEY);
}

#[test]
fn zeroize_erases_every_key_byte() {
    let mut key = DesKey::from_bytes(STRONG_KEY);
    key.zeroize();
    assert_eq!(key.as_ref(), &[0u8; 24]);
    for b in key.as_ref().iter() {
        assert!(!STRONG_KEY.contains(b));
    }
}
