//! IEEE 802.3 CRC32 (table driven) and 32-bit FNV-1a hashing.

use vstd::prelude::*;
use vstd::string::StringSliceAdditionalSpecFns;

verus! {

/// Reversed IEEE 802.3 polynomial.
pub const CRC32_POLY: u32 = 0xEDB8_8320;

/// One bit of the reflected CRC32 shift register.
pub open spec fn crc_bit_step(c: u32) -> u32 {
    if c & 1u32 != 0u32 {
        (c >> 1u32) ^ 0xEDB8_8320u32
    } else {
        c >> 1u32
    }
}

/// Eight bits of the reflected CRC32 shift register.
pub open spec fn crc_byte_step(c: u32) -> u32 {
    crc_bit_step(
        crc_bit_step(
            crc_bit_step(
                crc_bit_step(crc_bit_step(crc_bit_step(crc_bit_step(crc_bit_step(c))))),
            ),
        ),
    )
}

/// The register after feeding one byte.
pub open spec fn crc_feed(c: u32, b: u8) -> u32 {
    crc_byte_step(c ^ (b as u32))
}

/// The CRC32 register (initialised to all ones) after feeding `data`.
pub open spec fn crc_register(data: Seq<u8>) -> u32
    decreases data.len(),
{
    if data.len() == 0 {
        0xFFFF_FFFFu32
    } else {
        crc_feed(crc_register(data.drop_last()), data.last())
    }
}

/// IEEE 802.3 CRC32 of a byte sequence.
pub open spec fn spec_crc32(data: Seq<u8>) -> u32 {
    !crc_register(data)
}

/// Entry `i` of the byte-at-a-time lookup table.
pub open spec fn crc_table_entry(i: int) -> u32 {
    crc_byte_step(i as u32)
}

/// The shift register is linear: eight steps on `x` equal eight steps on its low
/// byte, combined with `x` shifted right by eight.
proof fn lemma_byte_step_split(x: u32)
    ensures
        crc_byte_step(x) == (x >> 8u32) ^ crc_byte_step(x & 0xffu32),
{
    assert(crc_byte_step(x) == (x >> 8u32) ^ crc_byte_step(x & 0xffu32)) by (bit_vector);
}


/// Eight steps of the shift register never map two different registers to the same one.
proof fn lemma_byte_step_injective(x: u32, y: u32)
    requires
        x != y,
    ensures
        crc_byte_step(x) != crc_byte_step(y),
{
    assert(x != y ==> crc_byte_step(x) != crc_byte_step(y)) by (bit_vector);
}

/// The register after the first `m` bytes of two inputs that differ in byte `k` alone,
/// once `k` has been fed, differs.
proof fn lemma_registers_differ(s1: Seq<u8>, s2: Seq<u8>, k: int, m: int)
    requires
        s1.len() == s2.len(),
        0 <= k < m <= s1.len(),
        s1[k] != s2[k],
        forall|j: int| 0 <= j < s1.len() && j != k ==> s1[j] == s2[j],
    ensures
        crc_register(s1.take(m)) != crc_register(s2.take(m)),
    decreases m,
{
    let a = s1.take(m);
    let b = s2.take(m);
    assert(a.drop_last() =~= s1.take(m - 1));
    assert(b.drop_last() =~= s2.take(m - 1));
    let r1 = crc_register(s1.take(m - 1));
    let r2 = crc_register(s2.take(m - 1));
    let c1 = s1[m - 1];
    let c2 = s2[m - 1];
    if m - 1 == k {
        assert(s1.take(m - 1) =~= s2.take(m - 1));
        assert((c1 as u32) != (c2 as u32));
        assert(r1 ^ (c1 as u32) != r2 ^ (c2 as u32)) by (bit_vector)
            requires
                r1 == r2,
                (c1 as u32) != (c2 as u32),
        ;
        lemma_byte_step_injective(r1 ^ (c1 as u32), r2 ^ (c2 as u32));
    } else {
        lemma_registers_differ(s1, s2, k, m - 1);
        assert(c1 == c2);
        assert(r1 ^ (c1 as u32) != r2 ^ (c1 as u32)) by (bit_vector)
            requires
                r1 != r2,
        ;
        lemma_byte_step_injective(r1 ^ (c1 as u32), r2 ^ (c1 as u32));
    }
}

/// CRC32 detects every change of a single byte: two inputs of the same length that
/// differ in exactly one byte have different checksums.
pub proof fn lemma_crc32_detects_byte_change(s1: Seq<u8>, s2: Seq<u8>, k: int)
    requires
        s1.len() == s2.len(),
        0 <= k < s1.len(),
        s1[k] != s2[k],
        forall|j: int| 0 <= j < s1.len() && j != k ==> s1[j] == s2[j],
    ensures
        spec_crc32(s1) != spec_crc32(s2),
{
    lemma_registers_differ(s1, s2, k, s1.len() as int);
    assert(s1.take(s1.len() as int) =~= s1);
    assert(s2.take(s2.len() as int) =~= s2);
    let r1 = crc_register(s1);
    let r2 = crc_register(s2);
    assert(!r1 != !r2) by (bit_vector)
        requires
            r1 != r2,
    ;
}

/// One bit of the shift register, as executed.
fn bit_step(c: u32) -> (r: u32)
    ensures
        r == crc_bit_step(c),
{
    if c & 1 != 0 {
        (c >> 1) ^ CRC32_POLY
    } else {
        c >> 1
    }
}

/// Builds the 256-entry byte-at-a-time lookup table.
pub fn make_table() -> (table: [u32; 256])
    ensures
        forall|i: int| 0 <= i < 256 ==> #[trigger] table[i] == crc_table_entry(i),
{
    let mut table = [0u32; 256];
    let mut i: usize = 0;
    while i < 256
        invariant
            0 <= i <= 256,
            forall|k: int| 0 <= k < i ==> #[trigger] table[k] == crc_table_entry(k),
        decreases 256 - i,
    {
        let mut crc: u32 = i as u32;
        let ghost start: u32 = crc;
        let mut j: usize = 0;
        while j < 8
            invariant
                0 <= j <= 8,
                start == i as u32,
                j == 0 ==> crc == start,
                j == 1 ==> crc == crc_bit_step(start),
                j == 2 ==> crc == crc_bit_step(crc_bit_step(start)),
                j == 3 ==> crc == crc_bit_step(crc_bit_step(crc_bit_step(start))),
                j == 4 ==> crc == crc_bit_step(crc_bit_step(crc_bit_step(crc_bit_step(start)))),
                j == 5 ==> crc == crc_bit_step(
                    crc_bit_step(crc_bit_step(crc_bit_step(crc_bit_step(start)))),
                ),
                j == 6 ==> crc == crc_bit_step(
                    crc_bit_step(crc_bit_step(crc_bit_step(crc_bit_step(crc_bit_step(start))))),
                ),
                j == 7 ==> crc == crc_bit_step(
                    crc_bit_step(
                        crc_bit_step(crc_bit_step(crc_bit_step(crc_bit_step(crc_bit_step(start))))),
                    ),
                ),
                j == 8 ==> crc == crc_byte_step(start),
            decreases 8 - j,
        {
            crc = bit_step(crc);
            j += 1;
        }
        table[i] = crc;
        i += 1;
    }
    table
}

/// Computes the IEEE 802.3 CRC32 checksum of a byte slice.
pub fn crc32(data: &[u8]) -> (r: u32)
    ensures
        r == spec_crc32(data@),
{
    let r = crc32_of_range(data, 0, data.len());
    assert(data@.subrange(0, data@.len() as int) =~= data@);
    r
}

/// CRC32 of `data[start..end]`, without building a sub-slice.
pub fn crc32_of_range(data: &[u8], start: usize, end: usize) -> (r: u32)
    requires
        start <= end <= data@.len(),
    ensures
        r == spec_crc32(data@.subrange(start as int, end as int)),
{
    let table = make_table();
    let mut crc: u32 = 0xFFFF_FFFF;
    let mut i: usize = start;
    while i < end
        invariant
            start <= i <= end <= data@.len(),
            forall|k: int| 0 <= k < 256 ==> #[trigger] table[k] == crc_table_entry(k),
            crc == crc_register(data@.subrange(start as int, i as int)),
        decreases end - i,
    {
        let b = data[i];
        let x = crc ^ (b as u32);
        assert(x & 0xFFu32 < 256u32) by (bit_vector);
        let index = (x & 0xFF) as usize;
        proof {
            lemma_byte_step_split(crc ^ (b as u32));
            assert((crc ^ (b as u32)) >> 8u32 == crc >> 8u32) by (bit_vector)
                requires b < 256;
            let s = data@.subrange(start as int, i + 1);
            assert(s.drop_last() =~= data@.subrange(start as int, i as int));
            assert(s.last() == b);
        }
        crc = (crc >> 8) ^ table[index];
        i += 1;
    }
    !crc
}


/// FNV-1a 32-bit offset basis.
pub const FNV_OFFSET_BASIS: u32 = 0x811c_9dc5;

/// FNV-1a 32-bit prime.
pub const FNV_PRIME: u32 = 0x0100_0193;

/// One FNV-1a round: xor in the byte, then multiply by the prime modulo 2^32.
pub open spec fn fnv1a_mix(h: u32, b: u8) -> u32 {
    (((h ^ (b as u32)) as nat * 0x0100_0193nat) % 0x1_0000_0000nat) as u32
}

/// FNV-1a hash of a byte sequence.
pub open spec fn spec_fnv1a(bytes: Seq<u8>) -> u32
    decreases bytes.len(),
{
    if bytes.len() == 0 {
        0x811c_9dc5u32
    } else {
        fnv1a_mix(spec_fnv1a(bytes.drop_last()), bytes.last())
    }
}

/// Computes a 32-bit FNV-1a hash of the UTF-8 bytes of a string.
///
/// Used for automatic module ID generation from function names.
pub fn fnv1a_hash(s: &str) -> (r: u32)
    ensures
        r == spec_fnv1a(s.spec_bytes()),
{
    let bytes = s.as_bytes();
    let mut hash: u32 = FNV_OFFSET_BASIS;
    let mut i: usize = 0;
    while i < bytes.len()
        invariant
            0 <= i <= bytes@.len(),
            bytes@ == s.spec_bytes(),
            hash == spec_fnv1a(bytes@.subrange(0, i as int)),
        decreases bytes@.len() - i,
    {
        proof {
            let t = bytes@.subrange(0, i + 1);
            assert(t.drop_last() =~= bytes@.subrange(0, i as int));
        }
        hash ^= bytes[i] as u32;
        hash = hash.wrapping_mul(FNV_PRIME);
        i += 1;
    }
    assert(bytes@.subrange(0, bytes@.len() as int) =~= bytes@);
    hash
}

} // verus!
