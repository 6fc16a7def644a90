//! Classification of weak and semi-weak DES keys.

use vstd::prelude::*;

use crate::des_key::{zeroize_bytes, DES_LEN_3DES, DES_LEN_DES};

verus! {

/// Number of set bits among bits 1 to 7 of a byte (the low-order bit is
/// left out).
pub open spec fn high_bits_count(b: u8) -> u8 {
    (((b >> 1u8) & 1u8) + ((b >> 2u8) & 1u8) + ((b >> 3u8) & 1u8) + ((b >> 4u8) & 1u8) + ((b
        >> 5u8) & 1u8) + ((b >> 6u8) & 1u8) + ((b >> 7u8) & 1u8)) as u8
}

/// A byte has odd parity when it has an odd number of set bits.
pub open spec fn has_odd_parity(b: u8) -> bool {
    (high_bits_count(b) + (b & 1u8)) % 2 == 1
}

/// The odd-parity form of a byte: bits 1 to 7 are kept and the low-order bit
/// is set exactly when bits 1 to 7 hold an even number of ones.
pub open spec fn parity_normalized(b: u8) -> u8 {
    (b & 0xFEu8) | (if high_bits_count(b) % 2 == 0 { 1u8 } else { 0u8 })
}

/// Each byte of a key put in odd-parity form.
pub open spec fn parity_normalized_key(key: Seq<u8>) -> Seq<u8> {
    key.map_values(|b: u8| parity_normalized(b))
}

/// The `j`-th 8-byte subkey of a key.
pub open spec fn subkey(key: Seq<u8>, j: int) -> Seq<u8> {
    key.subrange(j * 8, j * 8 + 8)
}

/// The weak (first four) and semi-weak (last twelve) DES keys, in odd-parity
/// form, after D. W. Davies and W. L. Price, "Security for Computer
/// Networks", 1984.
pub open spec fn weak_key_table() -> Seq<Seq<u8>> {
    seq![
        seq![0x01u8, 0x01, 0x01, 0x01, 0x01, 0x01, 0x01, 0x01],
        seq![0xFEu8, 0xFE, 0xFE, 0xFE, 0xFE, 0xFE, 0xFE, 0xFE],
        seq![0x1Fu8, 0x1F, 0x1F, 0x1F, 0x0E, 0x0E, 0x0E, 0x0E],
        seq![0xE0u8, 0xE0, 0xE0, 0xE0, 0xF1, 0xF1, 0xF1, 0xF1],
        seq![0x01u8, 0xFE, 0x01, 0xFE, 0x01, 0xFE, 0x01, 0xFE],
        seq![0xFEu8, 0x01, 0xFE, 0x01, 0xFE, 0x01, 0xFE, 0x01],
        seq![0x1Fu8, 0xE0, 0x1F, 0xE0, 0x0E, 0xF1, 0x0E, 0xF1],
        seq![0xE0u8, 0x1F, 0xE0, 0x1F, 0xF1, 0x0E, 0xF1, 0x0E],
        seq![0x01u8, 0xE0, 0x01, 0xE0, 0x01, 0xF1, 0x01, 0xF1],
        seq![0xE0u8, 0x01, 0xE0, 0x01, 0xF1, 0x01, 0xF1, 0x01],
        seq![0x1Fu8, 0xFE, 0x1F, 0xFE, 0x0E, 0xFE, 0x0E, 0xFE],
        seq![0xFEu8, 0x1F, 0xFE, 0x1F, 0xFE, 0x0E, 0xFE, 0x0E],
        seq![0x01u8, 0x1F, 0x01, 0x1F, 0x01, 0x0E, 0x01, 0x0E],
        seq![0x1Fu8, 0x01, 0x1F, 0x01, 0x0E, 0x01, 0x0E, 0x01],
        seq![0xE0u8, 0xFE, 0xE0, 0xFE, 0xF1, 0xFE, 0xF1, 0xFE],
        seq![0xFEu8, 0xE0, 0xFE, 0xE0, 0xFE, 0xF1, 0xFE, 0xF1],
    ]
}

/// An 8-byte sequence that is one of the weak or semi-weak keys.
pub open spec fn is_weak_subkey(s: Seq<u8>) -> bool {
    exists|i: int| 0 <= i < weak_key_table().len() && weak_key_table()[i] == s
}

/// A 24-byte key is weak when one of its three subkeys, in odd-parity form,
/// is a weak or semi-weak DES key.
pub open spec fn is_weak_key(key: Seq<u8>) -> bool {
    exists|j: int| 0 <= j < 3 && is_weak_subkey(subkey(parity_normalized_key(key), j))
}

/// Puts one key byte in odd-parity form.
pub fn parity_normalize(b: u8) -> (r: u8)
    ensures
        r == parity_normalized(b),
{
    // count the set bits of the byte, leaving out the low-order bit
    let c0: u8 = b & 0xFE;
    assert((c0 & 0x55u8) + ((c0 >> 1u8) & 0x55u8) < 256) by (bit_vector);
    let c1: u8 = (c0 & 0x55) + ((c0 >> 1) & 0x55);
    assert((c1 & 0x33u8) + ((c1 >> 2u8) & 0x33u8) < 256) by (bit_vector);
    let c2: u8 = (c1 & 0x33) + ((c1 >> 2) & 0x33);
    assert((c2 & 0x0Fu8) + ((c2 >> 4u8) & 0x0Fu8) < 256) by (bit_vector);
    let c3: u8 = (c2 & 0x0F) + ((c2 >> 4) & 0x0F);
    assert(c3 == (((b >> 1u8) & 1u8) + ((b >> 2u8) & 1u8) + ((b >> 3u8) & 1u8) + ((b >> 4u8)
        & 1u8) + ((b >> 5u8) & 1u8) + ((b >> 6u8) & 1u8) + ((b >> 7u8) & 1u8))) by (bit_vector)
        requires
            c0 == b & 0xFEu8,
            c1 == (c0 & 0x55u8) + ((c0 >> 1u8) & 0x55u8),
            c2 == (c1 & 0x33u8) + ((c1 >> 2u8) & 0x33u8),
            c3 == (c2 & 0x0Fu8) + ((c2 >> 4u8) & 0x0Fu8),
    ;
    assert((c3 & 1u8 == 1u8) == (c3 % 2 == 1)) by (bit_vector);
    // an even count asks for the low-order bit to be set
    (b & 0xFE) | (if c3 & 0x01 == 0x01 {
        0x00
    } else {
        0x01
    })
}


/// The `i`-th entry of the weak-key table.
fn weak_key_pattern(i: usize) -> (r: [u8; DES_LEN_DES])
    requires
        i < 16,
    ensures
        r@ == weak_key_table()[i as int],
{
    let r: [u8; DES_LEN_DES] = match i {
        // weak keys
        0 => [0x01, 0x01, 0x01, 0x01, 0x01, 0x01, 0x01, 0x01],
        1 => [0xFE, 0xFE, 0xFE, 0xFE, 0xFE, 0xFE, 0xFE, 0xFE],
        2 => [0x1F, 0x1F, 0x1F, 0x1F, 0x0E, 0x0E, 0x0E, 0x0E],
        3 => [0xE0, 0xE0, 0xE0, 0xE0, 0xF1, 0xF1, 0xF1, 0xF1],
        // semi-weak keys
        4 => [0x01, 0xFE, 0x01, 0xFE, 0x01, 0xFE, 0x01, 0xFE],
        5 => [0xFE, 0x01, 0xFE, 0x01, 0xFE, 0x01, 0xFE, 0x01],
        6 => [0x1F, 0xE0, 0x1F, 0xE0, 0x0E, 0xF1, 0x0E, 0xF1],
        7 => [0xE0, 0x1F, 0xE0, 0x1F, 0xF1, 0x0E, 0xF1, 0x0E],
        8 => [0x01, 0xE0, 0x01, 0xE0, 0x01, 0xF1, 0x01, 0xF1],
        9 => [0xE0, 0x01, 0xE0, 0x01, 0xF1, 0x01, 0xF1, 0x01],
        10 => [0x1F, 0xFE, 0x1F, 0xFE, 0x0E, 0xFE, 0x0E, 0xFE],
        11 => [0xFE, 0x1F, 0xFE, 0x1F, 0xFE, 0x0E, 0xFE, 0x0E],
        12 => [0x01, 0x1F, 0x01, 0x1F, 0x01, 0x0E, 0x01, 0x0E],
        13 => [0x1F, 0x01, 0x1F, 0x01, 0x0E, 0x01, 0x0E, 0x01],
        14 => [0xE0, 0xFE, 0xE0, 0xFE, 0xF1, 0xFE, 0xF1, 0xFE],
        _ => [0xFE, 0xE0, 0xFE, 0xE0, 0xFE, 0xF1, 0xFE, 0xF1],
    };
    assert(r@ =~= weak_key_table()[i as int]);
    r
}

/// Whether the 8 bytes of `key` from `start` on equal `pattern`.
fn window_equals(key: &[u8; DES_LEN_3DES], start: usize, pattern: &[u8; DES_LEN_DES]) -> (r: bool)
    requires
        start + DES_LEN_DES <= DES_LEN_3DES,
    ensures
        r == (key@.subrange(start as int, start + DES_LEN_DES) == pattern@),
{
    let mut k: usize = 0;
    while k < DES_LEN_DES
        invariant
            k <= DES_LEN_DES,
            start + DES_LEN_DES <= DES_LEN_3DES,
            forall|t: int| 0 <= t < k ==> key@[start + t] == pattern@[t],
        decreases DES_LEN_DES - k,
    {
        if key[start + k] != pattern[k] {
            assert(key@.subrange(start as int, start + DES_LEN_DES)[k as int] != pattern@[k as int]);
            return false;
        }
        k = k + 1;
    }
    assert(key@.subrange(start as int, start + DES_LEN_DES) =~= pattern@);
    true
}

/// Is the given DES key weak?
///
/// The key is weak when one of its three subkeys, once each byte is put in
/// odd-parity form, is a weak or semi-weak DES key. The odd-parity copy of
/// the key is erased before returning.
pub fn yk_des_is_weak_key(key: &[u8; DES_LEN_3DES]) -> (r: bool)
    ensures
        r == is_weak_key(key@),
{
    // set odd parity of key
    let mut tmp: [u8; DES_LEN_3DES] = [0u8; DES_LEN_3DES];
    let mut i: usize = 0;
    while i < DES_LEN_3DES
        invariant
            i <= DES_LEN_3DES,
            tmp@.len() == DES_LEN_3DES,
            forall|t: int| 0 <= t < i ==> tmp@[t] == parity_normalized(key@[t]),
        decreases DES_LEN_3DES - i,
    {
        tmp[i] = parity_normalize(key[i]);
        i = i + 1;
    }
    let ghost norm = parity_normalized_key(key@);
    assert(tmp@ =~= norm);

    // check odd parity key against table by DES key block
    let mut rv = false;
    let mut w: usize = 0;
    while w < 16
        invariant_except_break
            !rv,
        invariant
            w <= 16,
            norm == parity_normalized_key(key@),
            tmp@ == norm,
            forall|v: int, j: int|
                0 <= v < w && 0 <= j < 3 ==> #[trigger] weak_key_table()[v] != #[trigger] subkey(
                    norm,
                    j,
                ),
        ensures
            rv ==> is_weak_key(key@),
            !rv ==> w == 16,
        decreases 16 - w,
    {
        let pattern = weak_key_pattern(w);
        if window_equals(&tmp, 0, &pattern) || window_equals(&tmp, DES_LEN_DES, &pattern)
            || window_equals(&tmp, 2 * DES_LEN_DES, &pattern)
        {
            assert(subkey(norm, 0) == norm.subrange(0, 8));
            assert(subkey(norm, 1) == norm.subrange(8, 16));
            assert(subkey(norm, 2) == norm.subrange(16, 24));
            assert(weak_key_table()[w as int] == subkey(norm, 0) || weak_key_table()[w as int]
                == subkey(norm, 1) || weak_key_table()[w as int] == subkey(norm, 2));
            let ghost j: int = if weak_key_table()[w as int] == subkey(norm, 0) {
                0
            } else if weak_key_table()[w as int] == subkey(norm, 1) {
                1
            } else {
                2
            };
            assert(is_weak_subkey(subkey(norm, j)));
            rv = true;
            break;
        }
        assert(subkey(norm, 0) == norm.subrange(0, 8));
        assert(subkey(norm, 1) == norm.subrange(8, 16));
        assert(subkey(norm, 2) == norm.subrange(16, 24));
        w = w + 1;
    }
    assert(rv == is_weak_key(key@));

    zeroize_bytes(&mut tmp);
    rv
}

/// Odd-parity normalization is idempotent: its result has odd parity, and a
/// byte that already has odd parity is left unchanged.
pub proof fn lemma_parity_normalization_idempotent(b: u8)
    ensures
        has_odd_parity(parity_normalized(b)),
        has_odd_parity(b) ==> parity_normalized(b) == b,
        parity_normalized(parity_normalized(b)) == parity_normalized(b),
{
    assert(has_odd_parity(parity_normalized(b))) by (bit_vector);
    assert(has_odd_parity(b) ==> parity_normalized(b) == b) by (bit_vector);
    assert(parity_normalized(parity_normalized(b)) == parity_normalized(b)) by (bit_vector);
}

/// Every byte of the weak-key table has odd parity.
proof fn lemma_weak_key_table_has_odd_parity(i: int, t: int)
    requires
        0 <= i < 16,
        0 <= t < 8,
    ensures
        has_odd_parity(weak_key_table()[i][t]),
{
    assert(has_odd_parity(0x01u8)) by (bit_vector);
    assert(has_odd_parity(0xFEu8)) by (bit_vector);
    assert(has_odd_parity(0x1Fu8)) by (bit_vector);
    assert(has_odd_parity(0x0Eu8)) by (bit_vector);
    assert(has_odd_parity(0xE0u8)) by (bit_vector);
    assert(has_odd_parity(0xF1u8)) by (bit_vector);
    let x = weak_key_table()[i][t];
    assert(x == 0x01u8 || x == 0xFEu8 || x == 0x1Fu8 || x == 0x0Eu8 || x == 0xE0u8 || x == 0xF1u8);
}

/// A key one of whose subkeys agrees with a weak or semi-weak DES key in
/// every bit but the low-order (parity) bit of each byte is weak.
pub proof fn lemma_weak_pattern_subkey_is_weak(key: Seq<u8>, i: int, j: int)
    requires
        key.len() == DES_LEN_3DES,
        0 <= i < 16,
        0 <= j < 3,
        forall|t: int|
            0 <= t < 8 ==> #[trigger] key[j * 8 + t] & 0xFEu8 == weak_key_table()[i][t] & 0xFEu8,
    ensures
        is_weak_key(key),
{
    let norm = parity_normalized_key(key);
    assert forall|t: int| 0 <= t < 8 implies #[trigger] subkey(norm, j)[t] == weak_key_table()[i][t] by {
        let b = key[j * 8 + t];
        let p = weak_key_table()[i][t];
        lemma_weak_key_table_has_odd_parity(i, t);
        assert(b & 0xFEu8 == p & 0xFEu8);
        assert((b & 0xFEu8 == p & 0xFEu8 && has_odd_parity(p)) ==> parity_normalized(b) == p)
            by (bit_vector);
    }
    assert(subkey(norm, j) =~= weak_key_table()[i]);
    assert(is_weak_subkey(subkey(norm, j)));
}

} // verus!
