//! Dual-flash firmware bundle header.

use vstd::prelude::*;
use vstd::string::StringSliceAdditionalSpecFns;
use crate::crc::{crc32_of_range, spec_crc32};
use crate::error::OverlayError;
use crate::header::{magic_matches, zeros};
use crate::wire::{
    le16, le32, lemma_le16_decode, lemma_le16_encode, lemma_le32_decode, lemma_le32_encode,
    put_u16, put_u32, read_u16, read_u32, u16_at, u32_at,
};

verus! {

broadcast use vstd::array::group_array_axioms;

/// Magic bytes for dual-flash firmware bundles: "DFW1".
pub const BUNDLE_MAGIC: [u8; 4] = [0x44, 0x46, 0x57, 0x31];

/// Format version for dual-flash firmware bundles.
pub const BUNDLE_VERSION: u16 = 1;

/// 64-byte header describing a unified dual-flash firmware package.
#[derive(Debug, Clone, Copy, PartialEq, Eq)]
pub struct BundleHeader {
    /// Magic signature: "DFW1".
    pub magic: [u8; 4],
    /// Format version (1).
    pub version: u16,
    /// Header flags.
    pub flags: u16,
    /// Target chip identifier string (UTF-8, null-padded).
    pub target_chip: [u8; 16],
    /// Target address in on-chip internal flash.
    pub internal_target_addr: u32,
    /// Length of on-chip internal flash binary in bytes.
    pub internal_size: u32,
    /// IEEE 802.3 CRC32 of internal flash binary.
    pub internal_crc32: u32,
    /// Target address in external SPI flash.
    pub external_target_addr: u32,
    /// Length of external SPI flash payload.
    pub external_size: u32,
    /// IEEE 802.3 CRC32 of external SPI flash payload.
    pub external_crc32: u32,
    /// CRC32 of the first 60 serialized bytes of this header.
    pub header_crc32: u32,
}

/// The 16-byte chip field for a chip name: its first 16 bytes, zero padded.
pub open spec fn chip_field(name: Seq<u8>) -> Seq<u8> {
    Seq::new(16, |i: int| if i < name.len() { name[i] } else { 0u8 })
}

/// Why `s` is not a valid bundle header, in the order the parser checks.
pub open spec fn bundle_header_error(s: Seq<u8>) -> Option<OverlayError> {
    if s.len() < 64 {
        Some(OverlayError::Storage)
    } else if s.subrange(0, 4) != BUNDLE_MAGIC@ {
        Some(OverlayError::InvalidMagic)
    } else if u16_at(s, 4) != BUNDLE_VERSION {
        Some(OverlayError::UnsupportedVersion)
    } else if spec_crc32(s.subrange(0, 60)) != u32_at(s, 60) {
        Some(OverlayError::HeaderChecksumMismatch)
    } else {
        None
    }
}

impl BundleHeader {
    /// Serialized size in bytes.
    pub const SIZE: usize = 64;

    /// The 64-byte serialization: 48 bytes of fields, 12 reserved zero bytes, then the
    /// header CRC in bytes 60..64, just after the 60 bytes it covers.
    pub open spec fn spec_bytes(self) -> Seq<u8> {
        self.magic@ + le16(self.version) + le16(self.flags) + self.target_chip@ + le32(
            self.internal_target_addr,
        ) + le32(self.internal_size) + le32(self.internal_crc32) + le32(self.external_target_addr)
            + le32(self.external_size) + le32(self.external_crc32) + zeros(12) + le32(
            self.header_crc32,
        )
    }

    /// The fields of `self` are those stored in `s[0..48]` and `s[60..64]`.
    pub open spec fn read_from(self, s: Seq<u8>) -> bool {
        &&& s.len() >= 64
        &&& self.magic@ == s.subrange(0, 4)
        &&& self.version == u16_at(s, 4)
        &&& self.flags == u16_at(s, 6)
        &&& self.target_chip@ == s.subrange(8, 24)
        &&& self.internal_target_addr == u32_at(s, 24)
        &&& self.internal_size == u32_at(s, 28)
        &&& self.internal_crc32 == u32_at(s, 32)
        &&& self.external_target_addr == u32_at(s, 36)
        &&& self.external_size == u32_at(s, 40)
        &&& self.external_crc32 == u32_at(s, 44)
        &&& self.header_crc32 == u32_at(s, 60)
    }

    /// Right magic and version, and a header CRC equal to the CRC of the first 60
    /// serialized bytes.
    pub open spec fn is_sealed(self) -> bool {
        &&& self.magic@ == BUNDLE_MAGIC@
        &&& self.version == BUNDLE_VERSION
        &&& self.header_crc32 == spec_crc32(self.spec_bytes().subrange(0, 60))
    }

    /// The fields that `new` sets from its arguments, with the given CRC field.
    pub open spec fn spec_with_crc(
        chip: Seq<u8>,
        internal_target_addr: u32,
        internal_size: u32,
        internal_crc32: u32,
        external_target_addr: u32,
        external_size: u32,
        external_crc32: u32,
        header_crc32: u32,
        h: Self,
    ) -> bool {
        &&& h.magic@ == BUNDLE_MAGIC@
        &&& h.version == BUNDLE_VERSION
        &&& h.flags == 0
        &&& h.target_chip@ == chip_field(chip)
        &&& h.internal_target_addr == internal_target_addr
        &&& h.internal_size == internal_size
        &&& h.internal_crc32 == internal_crc32
        &&& h.external_target_addr == external_target_addr
        &&& h.external_size == external_size
        &&& h.external_crc32 == external_crc32
        &&& h.header_crc32 == header_crc32
    }

    /// Creates a bundle header. The chip name is truncated to 16 bytes and zero padded;
    /// the header CRC is that of the first 60 serialized bytes.
    pub fn new(
        target_chip: &str,
        internal_target_addr: u32,
        internal_size: u32,
        internal_crc32: u32,
        external_target_addr: u32,
        external_size: u32,
        external_crc32: u32,
    ) -> (r: Self)
        ensures
            ({
                &&& Self::spec_with_crc(
                    target_chip.spec_bytes(),
                    internal_target_addr,
                    internal_size,
                    internal_crc32,
                    external_target_addr,
                    external_size,
                    external_crc32,
                    r.header_crc32,
                    r,
                )
                &&& r.header_crc32 == spec_crc32(r.spec_bytes().subrange(0, 60))
                &&& r.is_sealed()
                &&& bundle_header_error(r.spec_bytes()) is None
                &&& forall|g: BundleHeader| #[trigger] g.read_from(r.spec_bytes()) ==> g == r
            }),
    {
        let name = target_chip.as_bytes();
        let mut chip_bytes = [0u8; 16];
        let copy_len = if name.len() < 16 {
            name.len()
        } else {
            16
        };
        let mut i: usize = 0;
        while i < copy_len
            invariant
                0 <= i <= copy_len <= 16,
                copy_len <= name@.len(),
                copy_len == name@.len() || copy_len == 16,
                forall|k: int| 0 <= k < i ==> chip_bytes@[k] == name@[k],
                forall|k: int| i <= k < 16 ==> chip_bytes@[k] == 0u8,
            decreases copy_len - i,
        {
            chip_bytes[i] = name[i];
            i += 1;
        }
        assert(chip_bytes@ =~= chip_field(name@));
        let mut header = BundleHeader {
            magic: BUNDLE_MAGIC,
            version: BUNDLE_VERSION,
            flags: 0,
            target_chip: chip_bytes,
            internal_target_addr,
            internal_size,
            internal_crc32,
            external_target_addr,
            external_size,
            external_crc32,
            header_crc32: 0,
        };
        let bytes = header.to_bytes();
        let crc = crc32_of_range(&bytes, 0, 60);
        let ghost unsealed = header;
        header.header_crc32 = crc;
        assert(header.spec_bytes().subrange(0, 60) =~= unsealed.spec_bytes().subrange(0, 60));
        proof {
            lemma_bundle_header_roundtrip(header);
        }
        header
    }

    /// Serializes the header into a 64-byte array.
    pub fn to_bytes(&self) -> (r: [u8; 64])
        ensures
            r@ == self.spec_bytes(),
    {
        let mut buf = [0u8; 64];
        let mut i: usize = 0;
        while i < 16
            invariant
                0 <= i <= 16,
                forall|k: int| 0 <= k < 8 ==> buf@[k] == 0u8,
                forall|k: int| 0 <= k < i ==> buf@[8 + k] == self.target_chip@[k],
                forall|k: int| 8 + i <= k < 64 ==> buf@[k] == 0u8,
            decreases 16 - i,
        {
            buf[8 + i] = self.target_chip[i];
            i += 1;
        }
        buf[0] = self.magic[0];
        buf[1] = self.magic[1];
        buf[2] = self.magic[2];
        buf[3] = self.magic[3];
        put_u16(&mut buf, 4, self.version);
        put_u16(&mut buf, 6, self.flags);
        put_u32(&mut buf, 24, self.internal_target_addr);
        put_u32(&mut buf, 28, self.internal_size);
        put_u32(&mut buf, 32, self.internal_crc32);
        put_u32(&mut buf, 36, self.external_target_addr);
        put_u32(&mut buf, 40, self.external_size);
        put_u32(&mut buf, 44, self.external_crc32);
        put_u32(&mut buf, 60, self.header_crc32);
        assert(buf@ =~= self.spec_bytes());
        buf
    }

    /// Deserializes and validates the header from a byte slice: the CRC stored in bytes
    /// 60..64 must be that of the first 60 bytes.
    pub fn from_bytes(bytes: &[u8]) -> (r: Result<Self, OverlayError>)
        ensures
            match r {
                Ok(h) => bundle_header_error(bytes@) is None && h.read_from(bytes@),
                Err(e) => bundle_header_error(bytes@) == Some(e),
            },
    {
        if bytes.len() < 64 {
            return Err(OverlayError::Storage);
        }
        if !magic_matches(bytes, &BUNDLE_MAGIC) {
            return Err(OverlayError::InvalidMagic);
        }
        let magic = [bytes[0], bytes[1], bytes[2], bytes[3]];
        assert(magic@ =~= bytes@.subrange(0, 4));
        let version = read_u16(bytes, 4);
        if version != BUNDLE_VERSION {
            return Err(OverlayError::UnsupportedVersion);
        }
        let flags = read_u16(bytes, 6);
        let mut target_chip = [0u8; 16];
        let mut i: usize = 0;
        while i < 16
            invariant
                0 <= i <= 16,
                bytes@.len() >= 64,
                forall|k: int| 0 <= k < i ==> target_chip@[k] == bytes@[8 + k],
            decreases 16 - i,
        {
            target_chip[i] = bytes[8 + i];
            i += 1;
        }
        assert(target_chip@ =~= bytes@.subrange(8, 24));
        let internal_target_addr = read_u32(bytes, 24);
        let internal_size = read_u32(bytes, 28);
        let internal_crc32 = read_u32(bytes, 32);
        let external_target_addr = read_u32(bytes, 36);
        let external_size = read_u32(bytes, 40);
        let external_crc32 = read_u32(bytes, 44);
        let header_crc32 = read_u32(bytes, 60);
        let calculated_crc = crc32_of_range(bytes, 0, 60);
        if calculated_crc != header_crc32 {
            return Err(OverlayError::HeaderChecksumMismatch);
        }
        Ok(
            BundleHeader {
                magic,
                version,
                flags,
                target_chip,
                internal_target_addr,
                internal_size,
                internal_crc32,
                external_target_addr,
                external_size,
                external_crc32,
                header_crc32,
            },
        )
    }
}

/// Serializing a sealed bundle header and parsing the bytes succeeds and gives back
/// that header, and no other.
pub proof fn lemma_bundle_header_roundtrip(h: BundleHeader)
    requires
        h.is_sealed(),
    ensures
        bundle_header_error(h.spec_bytes()) is None,
        h.read_from(h.spec_bytes()),
        forall|g: BundleHeader| #[trigger] g.read_from(h.spec_bytes()) ==> g == h,
{
    let b = h.spec_bytes();
    assert(b.subrange(0, 4) =~= h.magic@);
    assert(b.subrange(4, 6) =~= le16(h.version));
    assert(b.subrange(6, 8) =~= le16(h.flags));
    assert(b.subrange(8, 24) =~= h.target_chip@);
    assert(b.subrange(24, 28) =~= le32(h.internal_target_addr));
    assert(b.subrange(28, 32) =~= le32(h.internal_size));
    assert(b.subrange(32, 36) =~= le32(h.internal_crc32));
    assert(b.subrange(36, 40) =~= le32(h.external_target_addr));
    assert(b.subrange(40, 44) =~= le32(h.external_size));
    assert(b.subrange(44, 48) =~= le32(h.external_crc32));
    assert(b.subrange(60, 64) =~= le32(h.header_crc32));
    lemma_le16_decode(h.version, b, 4);
    lemma_le16_decode(h.flags, b, 6);
    lemma_le32_decode(h.internal_target_addr, b, 24);
    lemma_le32_decode(h.internal_size, b, 28);
    lemma_le32_decode(h.internal_crc32, b, 32);
    lemma_le32_decode(h.external_target_addr, b, 36);
    lemma_le32_decode(h.external_size, b, 40);
    lemma_le32_decode(h.external_crc32, b, 44);
    lemma_le32_decode(h.header_crc32, b, 60);
    assert forall|g: BundleHeader| #[trigger] g.read_from(h.spec_bytes()) implies g == h by {
        assert(g.magic == h.magic);
        assert(g.target_chip == h.target_chip);
    }
}

/// A bundle header read from `s` serializes back to the 48 field bytes it was read
/// from, 12 zero bytes, and the 4 CRC bytes it was read from.
pub proof fn lemma_bundle_header_reencode(h: BundleHeader, s: Seq<u8>)
    requires
        h.read_from(s),
    ensures
        h.spec_bytes() == s.subrange(0, 48) + zeros(12) + s.subrange(60, 64),
{
    lemma_le16_encode(s, 4);
    lemma_le16_encode(s, 6);
    lemma_le32_encode(s, 24);
    lemma_le32_encode(s, 28);
    lemma_le32_encode(s, 32);
    lemma_le32_encode(s, 36);
    lemma_le32_encode(s, 40);
    lemma_le32_encode(s, 44);
    lemma_le32_encode(s, 60);
    assert(h.spec_bytes() =~= s.subrange(0, 48) + zeros(12) + s.subrange(60, 64));
}

} // verus!
