//! The bootloader's CRC32 of a firmware image: polynomial `0x04C11DB7`
//! applied to little-endian 32-bit words, most significant bit first,
//! without bit reflection, seeded with all ones and complemented at the end.

use vstd::prelude::*;

verus! {

/// The generator polynomial of the bootloader's CRC32.
pub const CRC_POLY: u32 = 0x04C1_1DB7;

/// One step of the CRC register: shift left by one and, when the bit shifted
/// out of position 31 was set, XOR with the polynomial.
pub open spec fn crc_shift(crc: u32) -> u32 {
    if crc & 0x8000_0000 != 0 {
        (crc << 1) ^ CRC_POLY
    } else {
        crc << 1
    }
}

/// `n` steps of the CRC register.
pub open spec fn crc_shift_n(crc: u32, n: nat) -> u32
    decreases n,
{
    if n == 0 {
        crc
    } else {
        crc_shift(crc_shift_n(crc, (n - 1) as nat))
    }
}

/// Byte `i` of `data`, or zero beyond its end.
pub open spec fn byte_or_zero(data: Seq<u8>, i: int) -> u8 {
    if 0 <= i < data.len() {
        data[i]
    } else {
        0
    }
}

/// Four bytes as a little-endian word.
pub open spec fn le_word(b0: u8, b1: u8, b2: u8, b3: u8) -> u32 {
    (b0 as u32) | ((b1 as u32) << 8) | ((b2 as u32) << 16) | ((b3 as u32) << 24)
}

/// Word `k` of `data`: bytes `4k` to `4k + 3`, little-endian, the last word
/// padded with zeros.
pub open spec fn word_at(data: Seq<u8>, k: int) -> u32 {
    le_word(
        byte_or_zero(data, 4 * k),
        byte_or_zero(data, 4 * k + 1),
        byte_or_zero(data, 4 * k + 2),
        byte_or_zero(data, 4 * k + 3),
    )
}

/// Number of 4-byte words that `len` bytes occupy.
pub open spec fn word_count(len: nat) -> nat {
    (len + 3) / 4
}

/// The CRC register after the first `n` words of `data`, starting from
/// all ones: each word is XORed in and followed by 32 steps.
pub open spec fn crc_fold(data: Seq<u8>, n: nat) -> u32
    decreases n,
{
    if n == 0 {
        0xFFFF_FFFF
    } else {
        crc_shift_n(crc_fold(data, (n - 1) as nat) ^ word_at(data, n - 1), 32)
    }
}

/// The bootloader's CRC32 of `data`: the complement of the register after
/// all words.
pub open spec fn crc32(data: Seq<u8>) -> u32 {
    !crc_fold(data, word_count(data.len()))
}

/// Reads byte `offset + j` of `data`, zero beyond its end.
fn padded_byte(data: &[u8], offset: usize, j: usize) -> (byte: u8)
    requires
        offset <= data@.len(),
    ensures
        byte == byte_or_zero(data@, offset + j),
{
    if j < data.len() - offset {
        data[offset + j]
    } else {
        0
    }
}

/// Computes the bootloader's CRC32 of `data`.
pub fn calc_crc32(data: &[u8]) -> (crc: u32)
    ensures
        crc == crc32(data@),
{
    let len: usize = data.len();
    let words: usize = len / 4 + (if len % 4 != 0 {
        1
    } else {
        0
    });
    let mut crc: u32 = 0xFFFF_FFFF;
    let mut i: usize = 0;
    while i < words
        invariant
            i <= words,
            len == data@.len(),
            words == word_count(len as nat),
            crc == crc_fold(data@, i as nat),
        decreases words - i,
    {
        let offset: usize = i * 4;
        let b0: u8 = padded_byte(data, offset, 0);
        let b1: u8 = padded_byte(data, offset, 1);
        let b2: u8 = padded_byte(data, offset, 2);
        let b3: u8 = padded_byte(data, offset, 3);
        let word: u32 = (b0 as u32) | ((b1 as u32) << 8) | ((b2 as u32) << 16) | ((b3 as u32) << 24);
        let ghost start = crc ^ word;
        crc = crc ^ word;
        let mut step: usize = 0;
        while step < 32
            invariant
                step <= 32,
                crc == crc_shift_n(start, step as nat),
            decreases 32 - step,
        {
            if crc & 0x8000_0000 != 0 {
                crc = (crc << 1) ^ CRC_POLY;
            } else {
                crc = crc << 1;
            }
            step += 1;
        }
        i += 1;
    }
    !crc
}

/// The register step loses no information.
proof fn crc_shift_injective(a: u32, b: u32)
    requires
        crc_shift(a) == crc_shift(b),
    ensures
        a == b,
{
    assert(crc_shift(a) == crc_shift(b) ==> a == b) by (bit_vector);
}

/// Any number of register steps loses no information.
proof fn crc_shift_n_injective(a: u32, b: u32, n: nat)
    requires
        crc_shift_n(a, n) == crc_shift_n(b, n),
    ensures
        a == b,
    decreases n,
{
    if n > 0 {
        crc_shift_injective(crc_shift_n(a, (n - 1) as nat), crc_shift_n(b, (n - 1) as nat));
        crc_shift_n_injective(a, b, (n - 1) as nat);
    }
}

/// Absorbing a word is a bijection of the register, and distinct words send
/// one register to distinct registers.
proof fn crc_absorb_injective(r1: u32, w1: u32, r2: u32, w2: u32)
    requires
        crc_shift_n(r1 ^ w1, 32) == crc_shift_n(r2 ^ w2, 32),
    ensures
        w1 == w2 ==> r1 == r2,
        r1 == r2 ==> w1 == w2,
{
    crc_shift_n_injective(r1 ^ w1, r2 ^ w2, 32);
    assert((r1 ^ w1) == (r2 ^ w2) ==> (w1 == w2 <==> r1 == r2)) by (bit_vector);
}

/// Inputs that agree on their first `n` words leave the same register.
proof fn crc_fold_agrees(a: Seq<u8>, b: Seq<u8>, n: nat)
    requires
        forall|j: int| 0 <= j < n ==> word_at(a, j) == word_at(b, j),
    ensures
        crc_fold(a, n) == crc_fold(b, n),
    decreases n,
{
    if n > 0 {
        crc_fold_agrees(a, b, (n - 1) as nat);
    }
}

/// Inputs that differ in word `k` and agree on every later word below `n`
/// leave different registers.
proof fn crc_fold_differs(a: Seq<u8>, b: Seq<u8>, k: int, n: nat)
    requires
        0 <= k < n,
        word_at(a, k) != word_at(b, k),
        forall|j: int| 0 <= j < n && j != k ==> word_at(a, j) == word_at(b, j),
    ensures
        crc_fold(a, n) != crc_fold(b, n),
    decreases n,
{
    let ra = crc_fold(a, (n - 1) as nat);
    let rb = crc_fold(b, (n - 1) as nat);
    if crc_fold(a, n) == crc_fold(b, n) {
        crc_absorb_injective(ra, word_at(a, n - 1), rb, word_at(b, n - 1));
        if k == n - 1 {
            crc_fold_agrees(a, b, (n - 1) as nat);
        } else {
            crc_fold_differs(a, b, k, (n - 1) as nat);
        }
    }
}

/// Little-endian words differ as soon as one of their bytes differs.
proof fn le_word_injective(a0: u8, a1: u8, a2: u8, a3: u8, b0: u8, b1: u8, b2: u8, b3: u8)
    requires
        le_word(a0, a1, a2, a3) == le_word(b0, b1, b2, b3),
    ensures
        a0 == b0 && a1 == b1 && a2 == b2 && a3 == b3,
{
    assert(le_word(a0, a1, a2, a3) == le_word(b0, b1, b2, b3) ==> a0 == b0 && a1 == b1 && a2
        == b2 && a3 == b3) by (bit_vector);
}

/// The CRC32 is a function of the bytes alone: inputs that hold the same
/// bytes have the same CRC32.
pub proof fn crc32_same_bytes_same_crc(a: Seq<u8>, b: Seq<u8>)
    requires
        a.len() == b.len(),
        forall|i: int| 0 <= i < a.len() ==> a[i] == b[i],
    ensures
        crc32(a) == crc32(b),
{
    assert(a =~= b);
}

/// Two inputs of one length that differ in exactly one 4-byte word have
/// different CRC32s.
pub proof fn crc32_detects_word_change(a: Seq<u8>, b: Seq<u8>, k: int)
    requires
        a.len() == b.len(),
        0 <= k < word_count(a.len()),
        word_at(a, k) != word_at(b, k),
        forall|j: int| 0 <= j < word_count(a.len()) && j != k ==> word_at(a, j) == word_at(b, j),
    ensures
        crc32(a) != crc32(b),
{
    let n = word_count(a.len());
    crc_fold_differs(a, b, k, n);
    let ra = crc_fold(a, n);
    let rb = crc_fold(b, n);
    assert(ra != rb ==> !ra != !rb) by (bit_vector);
}

/// Changing one byte of the input changes the CRC32.
pub proof fn crc32_detects_byte_change(data: Seq<u8>, i: int, value: u8)
    requires
        0 <= i < data.len(),
        value != data[i],
    ensures
        crc32(data.update(i, value)) != crc32(data),
{
    let changed = data.update(i, value);
    let k = i / 4;
    assert forall|j: int| 0 <= j < word_count(data.len()) && j != k implies word_at(changed, j)
        == word_at(data, j) by {}
    if word_at(changed, k) == word_at(data, k) {
        le_word_injective(
            byte_or_zero(changed, 4 * k),
            byte_or_zero(changed, 4 * k + 1),
            byte_or_zero(changed, 4 * k + 2),
            byte_or_zero(changed, 4 * k + 3),
            byte_or_zero(data, 4 * k),
            byte_or_zero(data, 4 * k + 1),
            byte_or_zero(data, 4 * k + 2),
            byte_or_zero(data, 4 * k + 3),
        );
        assert(byte_or_zero(changed, i) == value);
        assert(byte_or_zero(data, i) == data[i]);
        assert(i == 4 * k || i == 4 * k + 1 || i == 4 * k + 2 || i == 4 * k + 3);
    }
    crc32_detects_word_change(changed, data, k);
}

/// Flipping any single bit of the input changes the CRC32.
pub proof fn crc32_detects_bit_flip(data: Seq<u8>, i: int, bit: u8)
    requires
        0 <= i < data.len(),
        bit < 8,
    ensures
        crc32(data.update(i, data[i] ^ (1u8 << bit))) != crc32(data),
{
    let byte = data[i];
    assert(bit < 8 ==> byte ^ (1u8 << bit) != byte) by (bit_vector);
    crc32_detects_byte_change(data, i, byte ^ (1u8 << bit));
}

} // verus!
