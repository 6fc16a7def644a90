use yubikey_piv::{parity_normalize, yk_des_is_weak_key};

const WEAK_KEYS: [[u8; 8]; 16] = [
    [0x01, 0x01, 0x01, 0x01, 0x01, 0x01, 0x01, 0x01],
    [0xFE, 0xFE, 0xFE, 0xFE, 0xFE, 0xFE, 0xFE, 0xFE],
    [0x1F, 0x1F, 0x1F, 0x1F, 0x0E, 0x0E, 0x0E, 0x0E],
    [0xE0, 0xE0, 0xE0, 0xE0, 0xF1, 0xF1, 0xF1, 0xF1],
    [0x01, 0xFE, 0x01, 0xFE, 0x01, 0xFE, 0x01, 0xFE],
    [0xFE, 0x01, 0xFE, 0x01, 0xFE, 0x01, 0xFE, 0x01],
    [0x1F, 0xE0, 0x1F, 0xE0, 0x0E, 0xF1, 0x0E, 0xF1],
    [0xE0, 0x1F, 0xE0, 0x1F, 0xF1, 0x0E, 0xF1, 0x0E],
    [0x01, 0xE0, 0x01, 0xE0, 0x01, 0xF1, 0x01, 0xF1],
    [0xE0, 0x01, 0xE0, 0x01, 0xF1, 0x01, 0xF1, 0x01],
    [0x1F, 0xFE, 0x1F, 0xFE, 0x0E, 0xFE, 0x0E, 0xFE],
    [0xFE, 0x1F, 0xFE, 0x1F, 0xFE, 0x0E, 0xFE, 0x0E],
    [0x01, 0x1F, 0x01, 0x1F, 0x01, 0x0E, 0x01, 0x0E],
    [0x1F, 0x01, 0x1F, 0x01, 0x0E, 0x01, 0x0E, 0x01],
    [0xE0, 0xFE, 0xE0, 0xFE, 0xF1, 0xFE, 0xF1, 0xFE],
    [0xFE, 0xE0, 0xFE, 0xE0, 0xFE, 0xF1, 0xFE, 0xF1],
];

const STRONG_KEY: [u8; 24] = [
    0x01, 0x23, 0x45, 0x67, 0x89, 0xAB, 0xCD, 0xEF, 0x23, 0x45, 0x67, 0x89, 0xAB, 0xCD, 0xEF, 0x01,
    0x45, 0x67, 0x89, 0xAB, 0xCD, 0xEF, 0x01, 0x23,
];

#[test]
fn weak_pattern_with_low_bit_cleared_in_any_subkey_is_weak() {
    for pattern in WEAK_KEYS.iter() {
        for j in 0..3 {
            let mut key = STRONG_KEY;
            for t in 0..8 {
                key[j * 8 + t] = pattern[t] & 0xFE;
            }
            assert!(yk_des_is_weak_key(&key), "pattern {:02x?} at subkey {}", pattern, j);
        }
    }
}

#[test]
fn weak_pattern_as_is_in_any_subkey_is_weak() {
    for pattern in WEAK_KEYS.iter() {
        for j in 0..3 {
            let mut key = STRONG_KEY;
            key[j * 8..j * 8 + 8].copy_from_slice(pattern);
            assert!(yk_des_is_weak_key(&key));
        }
    }
}

#[test]
fn all_zero_key_is_weak() {
    assert!(yk_des_is_weak_key(&[0u8; 24]));
}

#[test]
fn all_ff_key_is_weak() {
    assert!(yk_des_is_weak_key(&[0xFFu8; 24]));
}

#[test]
fn strong_keys_are_not_weak() {
    assert!(!yk_des_is_weak_key(&STRONG_KEY));
    let counting: [u8; 24] = [
        0x10, 0x11, 0x12, 0x13, 0x14, 0x15, 0x16, 0x17, 0x18, 0x19, 0x1A, 0x1B, 0x1C, 0x1D, 0x1E,
        0x1F, 0x20, 0x21, 0x22, 0x23, 0x24, 0x25, 0x26, 0x27,
    ];
    assert!(!yk_des_is_weak_key(&counting));
    let mixed: [u8; 24] = [
        0x8A, 0x3C, 0x5D, 0xE2, 0x71, 0x09, 0xB4, 0x6F, 0xC8, 0x15, 0x9E, 0x47, 0x2A, 0xD3, 0x60,
        0xFB, 0x34, 0xA7, 0x0D, 0x92, 0x5E, 0xC1, 0x7B, 0xE8,
    ];
    assert!(!yk_des_is_weak_key(&mixed));
}

#[test]
fn half_matching_subkey_is_not_weak() {
    let mut key = STRONG_KEY;
    key[0..4].copy_from_slice(&[0x01, 0x01, 0x01, 0x01]);
    assert!(!yk_des_is_weak_key(&key));
}

#[test]
fn parity_normalize_exact_values() {
    assert_eq!(parity_normalize(0x00), 0x01);
    assert_eq!(parity_normalize(0x01), 0x01);
    assert_eq!(parity_normalize(0x02), 0x02);
    assert_eq!(parity_normalize(0x03), 0x02);
    assert_eq!(parity_normalize(0xFF), 0xFE);
    assert_eq!(parity_normalize(0x1E), 0x1F);
    assert_eq!(parity_normalize(0xE1), 0xE0);
}

#[test]
fn parity_normalize_keeps_odd_parity_bytes() {
    for b in 0..=255u8 {
        if b.count_ones() % 2 == 1 {
            assert_eq!(parity_normalize(b), b);
        }
    }
}

#[test]
fn parity_normalize_is_idempotent_and_gives_odd_parity() {
    for b in 0..=255u8 {
        let n = parity_normalize(b);
        assert_eq!(n.count_ones() % 2, 1);
        assert_eq!(n & 0xFE, b & 0xFE);
        assert_eq!(parity_normalize(n), n);
    }
}
