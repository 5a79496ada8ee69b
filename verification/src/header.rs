//! Binary headers and index records for code overlays and the streamable VFS.

use vstd::prelude::*;
use crate::crc::{crc32_of_range, lemma_crc32_detects_byte_change, spec_crc32};
use crate::error::{OverlayError, VfsError};
use crate::wire::{le16, le32, lemma_le16_decode, lemma_le16_encode, lemma_le32_decode, lemma_le32_encode, put_u16, put_u32, read_u16, read_u32, u16_at, u32_at};

verus! {

broadcast use vstd::array::group_array_axioms;

/// True when `s` is long enough and starts with the four bytes of `magic`.
pub open spec fn starts_with_magic(s: Seq<u8>, magic: Seq<u8>) -> bool {
    &&& s.len() >= 4
    &&& s.subrange(0, 4) == magic
}

/// Compares the first four bytes of `bytes` with `magic`.
pub fn magic_matches(bytes: &[u8], magic: &[u8; 4]) -> (r: bool)
    requires
        bytes@.len() >= 4,
    ensures
        r == (bytes@.subrange(0, 4) == magic@),
{
    let r = bytes[0] == magic[0] && bytes[1] == magic[1] && bytes[2] == magic[2] && bytes[3]
        == magic[3];
    if r {
        assert(bytes@.subrange(0, 4) =~= magic@);
    } else {
        assert(bytes@.subrange(0, 4) != magic@ ) by {
            if bytes@.subrange(0, 4) == magic@ {
                assert(bytes@.subrange(0, 4)[0] == magic@[0]);
                assert(bytes@.subrange(0, 4)[1] == magic@[1]);
                assert(bytes@.subrange(0, 4)[2] == magic@[2]);
                assert(bytes@.subrange(0, 4)[3] == magic@[3]);
            }
        }
    }
    r
}

/// Reads the four bytes at `bytes[0..4]` into an array.
fn read_magic(bytes: &[u8]) -> (r: [u8; 4])
    requires
        bytes@.len() >= 4,
    ensures
        r@ == bytes@.subrange(0, 4),
{
    let r = [bytes[0], bytes[1], bytes[2], bytes[3]];
    assert(r@ =~= bytes@.subrange(0, 4));
    r
}

/// Magic bytes for code overlays: "OVL1".
pub const OVERLAY_MAGIC: [u8; 4] = [0x4F, 0x56, 0x4C, 0x31];

/// Format version for code overlays.
pub const OVERLAY_VERSION: u16 = 1;

/// 32-byte header placed before every overlay code payload in flash.
#[derive(Debug, Clone, Copy, PartialEq, Eq)]
pub struct OverlayHeader {
    /// Magic signature: "OVL1".
    pub magic: [u8; 4],
    /// Format version (1).
    pub version: u16,
    /// Overlay flags (bit 0: PIC, bit 1: compressed).
    pub flags: u16,
    /// Unique module identifier.
    pub module_id: u32,
    /// Length of code payload in bytes.
    pub code_size: u32,
    /// Byte offset from start of payload to entry point function.
    pub entry_offset: u32,
    /// Target RAM address (0 if position-independent).
    pub ram_target_addr: u32,
    /// IEEE 802.3 CRC32 of the machine code payload.
    pub payload_crc32: u32,
    /// IEEE 802.3 CRC32 of the first 28 bytes of this header.
    pub header_crc32: u32,
}

/// Why `s` is not a valid overlay header, checked in the order the parser checks.
pub open spec fn overlay_header_error(s: Seq<u8>) -> Option<OverlayError> {
    if s.len() < 32 {
        Some(OverlayError::Storage)
    } else if s.subrange(0, 4) != OVERLAY_MAGIC@ {
        Some(OverlayError::InvalidMagic)
    } else if u16_at(s, 4) != OVERLAY_VERSION {
        Some(OverlayError::UnsupportedVersion)
    } else if spec_crc32(s.subrange(0, 28)) != u32_at(s, 28) {
        Some(OverlayError::HeaderChecksumMismatch)
    } else {
        None
    }
}

impl OverlayHeader {
    /// Serialized size in bytes.
    pub const SIZE: usize = 32;

    /// The 32-byte little-endian serialization of this header.
    pub open spec fn spec_bytes(self) -> Seq<u8> {
        self.magic@ + le16(self.version) + le16(self.flags) + le32(self.module_id) + le32(
            self.code_size,
        ) + le32(self.entry_offset) + le32(self.ram_target_addr) + le32(self.payload_crc32)
            + le32(self.header_crc32)
    }

    /// The fields of `self` are those stored in `s[0..32]`.
    pub open spec fn read_from(self, s: Seq<u8>) -> bool {
        &&& s.len() >= 32
        &&& self.magic@ == s.subrange(0, 4)
        &&& self.version == u16_at(s, 4)
        &&& self.flags == u16_at(s, 6)
        &&& self.module_id == u32_at(s, 8)
        &&& self.code_size == u32_at(s, 12)
        &&& self.entry_offset == u32_at(s, 16)
        &&& self.ram_target_addr == u32_at(s, 20)
        &&& self.payload_crc32 == u32_at(s, 24)
        &&& self.header_crc32 == u32_at(s, 28)
    }

    /// A well-formed header: right magic and version, and a header CRC that covers
    /// its first 28 serialized bytes.
    pub open spec fn is_sealed(self) -> bool {
        &&& self.magic@ == OVERLAY_MAGIC@
        &&& self.version == OVERLAY_VERSION
        &&& self.header_crc32 == spec_crc32(self.spec_bytes().subrange(0, 28))
    }

    /// The header that `new` builds.
    pub open spec fn spec_new(
        module_id: u32,
        code_size: u32,
        entry_offset: u32,
        ram_target_addr: u32,
        payload_crc32: u32,
    ) -> Self {
        let unsealed = OverlayHeader {
            magic: OVERLAY_MAGIC,
            version: OVERLAY_VERSION,
            flags: 0,
            module_id,
            code_size,
            entry_offset,
            ram_target_addr,
            payload_crc32,
            header_crc32: 0,
        };
        OverlayHeader {
            header_crc32: spec_crc32(unsealed.spec_bytes().subrange(0, 28)),
            ..unsealed
        }
    }

    /// Creates a new overlay header with computed header CRC.
    pub fn new(
        module_id: u32,
        code_size: u32,
        entry_offset: u32,
        ram_target_addr: u32,
        payload_crc32: u32,
    ) -> (r: Self)
        ensures
            r == Self::spec_new(module_id, code_size, entry_offset, ram_target_addr, payload_crc32),
            r.magic@ == seq![0x4Fu8, 0x56u8, 0x4Cu8, 0x31u8],
            r.version == 1,
            r.flags == 0,
            r.module_id == module_id,
            r.code_size == code_size,
            r.entry_offset == entry_offset,
            r.ram_target_addr == ram_target_addr,
            r.payload_crc32 == payload_crc32,
            r.is_sealed(),
    {
        proof {
            lemma_overlay_header_new_sealed(module_id, code_size, entry_offset, ram_target_addr, payload_crc32);
        }
        let mut header = OverlayHeader {
            magic: OVERLAY_MAGIC,
            version: OVERLAY_VERSION,
            flags: 0,
            module_id,
            code_size,
            entry_offset,
            ram_target_addr,
            payload_crc32,
            header_crc32: 0,
        };
        let bytes = header.to_bytes();
        header.header_crc32 = crc32_of_range(&bytes, 0, 28);
        header
    }

    /// Serializes the header into a 32-byte array.
    pub fn to_bytes(&self) -> (r: [u8; 32])
        ensures
            r@ == self.spec_bytes(),
    {
        let mut buf = [0u8; 32];
        buf[0] = self.magic[0];
        buf[1] = self.magic[1];
        buf[2] = self.magic[2];
        buf[3] = self.magic[3];
        put_u16(&mut buf, 4, self.version);
        put_u16(&mut buf, 6, self.flags);
        put_u32(&mut buf, 8, self.module_id);
        put_u32(&mut buf, 12, self.code_size);
        put_u32(&mut buf, 16, self.entry_offset);
        put_u32(&mut buf, 20, self.ram_target_addr);
        put_u32(&mut buf, 24, self.payload_crc32);
        put_u32(&mut buf, 28, self.header_crc32);
        assert(buf@ =~= self.spec_bytes());
        buf
    }

    /// Deserializes and validates the header from a byte slice.
    pub fn from_bytes(bytes: &[u8]) -> (r: Result<Self, OverlayError>)
        ensures
            match r {
                Ok(h) => overlay_header_error(bytes@) is None && h.read_from(bytes@),
                Err(e) => overlay_header_error(bytes@) == Some(e),
            },
    {
        if bytes.len() < 32 {
            return Err(OverlayError::Storage);
        }
        if !magic_matches(bytes, &OVERLAY_MAGIC) {
            return Err(OverlayError::InvalidMagic);
        }
        let magic = read_magic(bytes);
        let version = read_u16(bytes, 4);
        if version != OVERLAY_VERSION {
            return Err(OverlayError::UnsupportedVersion);
        }
        let flags = read_u16(bytes, 6);
        let module_id = read_u32(bytes, 8);
        let code_size = read_u32(bytes, 12);
        let entry_offset = read_u32(bytes, 16);
        let ram_target_addr = read_u32(bytes, 20);
        let payload_crc32 = read_u32(bytes, 24);
        let header_crc32 = read_u32(bytes, 28);
        let calculated_crc = crc32_of_range(bytes, 0, 28);
        if calculated_crc != header_crc32 {
            return Err(OverlayError::HeaderChecksumMismatch);
        }
        Ok(
            OverlayHeader {
                magic,
                version,
                flags,
                module_id,
                code_size,
                entry_offset,
                ram_target_addr,
                payload_crc32,
                header_crc32,
            },
        )
    }
}


/// Reading a serialized header recovers every field.
proof fn lemma_overlay_header_fields(h: OverlayHeader)
    ensures
        h.spec_bytes().len() == 32,
        h.read_from(h.spec_bytes()),
{
    let s = h.spec_bytes();
    assert(s.subrange(0, 4) =~= h.magic@);
    assert(s.subrange(4, 6) =~= le16(h.version));
    assert(s.subrange(6, 8) =~= le16(h.flags));
    assert(s.subrange(8, 12) =~= le32(h.module_id));
    assert(s.subrange(12, 16) =~= le32(h.code_size));
    assert(s.subrange(16, 20) =~= le32(h.entry_offset));
    assert(s.subrange(20, 24) =~= le32(h.ram_target_addr));
    assert(s.subrange(24, 28) =~= le32(h.payload_crc32));
    assert(s.subrange(28, 32) =~= le32(h.header_crc32));
    lemma_le16_decode(h.version, s, 4);
    lemma_le16_decode(h.flags, s, 6);
    lemma_le32_decode(h.module_id, s, 8);
    lemma_le32_decode(h.code_size, s, 12);
    lemma_le32_decode(h.entry_offset, s, 16);
    lemma_le32_decode(h.ram_target_addr, s, 20);
    lemma_le32_decode(h.payload_crc32, s, 24);
    lemma_le32_decode(h.header_crc32, s, 28);
}

/// A header read from `s` serializes back to exactly the 32 bytes it was read from.
pub proof fn lemma_overlay_header_reencode(h: OverlayHeader, s: Seq<u8>)
    requires
        h.read_from(s),
    ensures
        h.spec_bytes() == s.subrange(0, 32),
{
    lemma_le16_encode(s, 4);
    lemma_le16_encode(s, 6);
    lemma_le32_encode(s, 8);
    lemma_le32_encode(s, 12);
    lemma_le32_encode(s, 16);
    lemma_le32_encode(s, 20);
    lemma_le32_encode(s, 24);
    lemma_le32_encode(s, 28);
    assert(h.spec_bytes() =~= s.subrange(0, 32));
}

/// Serializing a sealed header and parsing the bytes succeeds and gives back that
/// header, and no other.
pub proof fn lemma_overlay_header_roundtrip(h: OverlayHeader)
    requires
        h.is_sealed(),
    ensures
        overlay_header_error(h.spec_bytes()) is None,
        h.read_from(h.spec_bytes()),
        forall|g: OverlayHeader| #[trigger] g.read_from(h.spec_bytes()) ==> g == h,
{
    lemma_overlay_header_fields(h);
    assert(h.spec_bytes().subrange(0, 28) =~= h.spec_bytes().subrange(0, 28));
    assert forall|g: OverlayHeader| #[trigger] g.read_from(h.spec_bytes()) implies g == h by {
        assert(g.magic@ == h.magic@);
        assert(g.magic == h.magic);
    }
}

/// Every header built by `new` is sealed.
pub proof fn lemma_overlay_header_new_sealed(
    module_id: u32,
    code_size: u32,
    entry_offset: u32,
    ram_target_addr: u32,
    payload_crc32: u32,
)
    ensures
        OverlayHeader::spec_new(
            module_id,
            code_size,
            entry_offset,
            ram_target_addr,
            payload_crc32,
        ).is_sealed(),
{
    let h = OverlayHeader::spec_new(module_id, code_size, entry_offset, ram_target_addr, payload_crc32);
    let u = OverlayHeader { header_crc32: 0, ..h };
    assert(h.spec_bytes().subrange(0, 28) =~= u.spec_bytes().subrange(0, 28));
}


/// Changing any one byte of a serialized, sealed header makes it invalid: a change in
/// the magic is reported as a wrong magic, one in the version as an unsupported version,
/// and one anywhere else (fields or stored CRC) as a checksum mismatch.
pub proof fn lemma_overlay_header_detects_byte_change(h: OverlayHeader, b: Seq<u8>, k: int)
    requires
        h.is_sealed(),
        b.len() == 32,
        0 <= k < 32,
        b[k] != h.spec_bytes()[k],
        forall|j: int| 0 <= j < 32 && j != k ==> b[j] == h.spec_bytes()[j],
    ensures
        overlay_header_error(b) is Some,
        k < 4 ==> overlay_header_error(b) == Some(OverlayError::InvalidMagic),
        4 <= k < 6 ==> overlay_header_error(b) == Some(OverlayError::UnsupportedVersion),
        6 <= k ==> overlay_header_error(b) == Some(OverlayError::HeaderChecksumMismatch),
{
    let hb = h.spec_bytes();
    lemma_overlay_header_roundtrip(h);
    lemma_overlay_header_fields(h);
    if k < 4 {
        assert(b.subrange(0, 4)[k] != hb.subrange(0, 4)[k]);
    } else {
        assert(b.subrange(0, 4) =~= hb.subrange(0, 4));
        if k < 6 {
            assert(u16_at(b, 4) != u16_at(hb, 4));
        } else {
            assert(b[4] == hb[4] && b[5] == hb[5]);
            assert(u16_at(b, 4) == u16_at(hb, 4));
            if k < 28 {
                let p = b.subrange(0, 28);
                let q = hb.subrange(0, 28);
                assert forall|j: int| 0 <= j < 28 && j != k implies p[j] == q[j] by {}
                lemma_crc32_detects_byte_change(p, q, k);
                assert(b[28] == hb[28] && b[29] == hb[29] && b[30] == hb[30] && b[31] == hb[31]);
                assert(u32_at(b, 28) == u32_at(hb, 28));
            } else {
                assert(b.subrange(0, 28) =~= hb.subrange(0, 28));
                assert(u32_at(b, 28) != u32_at(hb, 28));
            }
        }
    }
}

/// A header built from arguments carries each argument in the field of the same name,
/// and parsing its serialization gives back exactly those arguments.
pub proof fn lemma_overlay_header_new_fields(m: u32, c: u32, e: u32, a: u32, p: u32)
    ensures
        ({
            let h = OverlayHeader::spec_new(m, c, e, a, p);
            &&& h.module_id == m
            &&& h.code_size == c
            &&& h.entry_offset == e
            &&& h.ram_target_addr == a
            &&& h.payload_crc32 == p
            &&& h.flags == 0
            &&& overlay_header_error(h.spec_bytes()) is None
            &&& u32_at(h.spec_bytes(), 8) == m
            &&& u32_at(h.spec_bytes(), 12) == c
            &&& u32_at(h.spec_bytes(), 16) == e
            &&& u32_at(h.spec_bytes(), 20) == a
            &&& u32_at(h.spec_bytes(), 24) == p
        }),
{
    let h = OverlayHeader::spec_new(m, c, e, a, p);
    lemma_overlay_header_new_sealed(m, c, e, a, p);
    lemma_overlay_header_roundtrip(h);
}

/// Magic bytes for VFS: "VFS1".
pub const VFS_MAGIC: [u8; 4] = [0x56, 0x46, 0x53, 0x31];

/// Format version for VFS.
pub const VFS_VERSION: u16 = 1;

/// 32-byte superblock for the streamable VFS.
#[derive(Debug, Clone, Copy, PartialEq, Eq)]
pub struct VfsSuperblock {
    pub magic: [u8; 4],
    pub version: u16,
    pub asset_count: u16,
    pub index_offset: u32,
    pub data_offset: u32,
    pub total_bytes: u32,
    pub crc32: u32,
    pub reserved: [u32; 2],
}

/// Why `s` is not a valid VFS superblock, checked in the order the parser checks.
pub open spec fn vfs_superblock_error(s: Seq<u8>) -> Option<VfsError> {
    if s.len() < 32 {
        Some(VfsError::Storage)
    } else if s.subrange(0, 4) != VFS_MAGIC@ {
        Some(VfsError::InvalidMagic)
    } else if u16_at(s, 4) != VFS_VERSION {
        Some(VfsError::UnsupportedVersion)
    } else if spec_crc32(s.subrange(0, 20)) != u32_at(s, 20) {
        Some(VfsError::SuperblockCrcMismatch)
    } else {
        None
    }
}

/// `n` zero bytes.
pub open spec fn zeros(n: nat) -> Seq<u8> {
    Seq::new(n, |i: int| 0u8)
}

impl VfsSuperblock {
    /// Serialized size in bytes.
    pub const SIZE: usize = 32;

    /// The 32-byte serialization: 24 bytes of fields, then 8 zero bytes (the reserved
    /// words are not stored).
    pub open spec fn spec_bytes(self) -> Seq<u8> {
        self.magic@ + le16(self.version) + le16(self.asset_count) + le32(self.index_offset) + le32(
            self.data_offset,
        ) + le32(self.total_bytes) + le32(self.crc32) + zeros(8)
    }

    /// The fields of `self` are those stored in `s[0..24]`, with zero reserved words.
    pub open spec fn read_from(self, s: Seq<u8>) -> bool {
        &&& s.len() >= 32
        &&& self.magic@ == s.subrange(0, 4)
        &&& self.version == u16_at(s, 4)
        &&& self.asset_count == u16_at(s, 6)
        &&& self.index_offset == u32_at(s, 8)
        &&& self.data_offset == u32_at(s, 12)
        &&& self.total_bytes == u32_at(s, 16)
        &&& self.crc32 == u32_at(s, 20)
        &&& self.reserved@ == seq![0u32, 0u32]
    }

    /// Right magic and version, zero reserved words, and a CRC over the first 20
    /// serialized bytes.
    pub open spec fn is_sealed(self) -> bool {
        &&& self.magic@ == VFS_MAGIC@
        &&& self.version == VFS_VERSION
        &&& self.reserved@ == seq![0u32, 0u32]
        &&& self.crc32 == spec_crc32(self.spec_bytes().subrange(0, 20))
    }

    /// The superblock that `new` builds.
    pub open spec fn spec_new(asset_count: u16, index_offset: u32, data_offset: u32, total_bytes: u32) -> Self {
        let unsealed = VfsSuperblock {
            magic: VFS_MAGIC,
            version: VFS_VERSION,
            asset_count,
            index_offset,
            data_offset,
            total_bytes,
            crc32: 0,
            reserved: [0u32, 0u32],
        };
        VfsSuperblock { crc32: spec_crc32(unsealed.spec_bytes().subrange(0, 20)), ..unsealed }
    }

    /// Creates a superblock with computed CRC.
    pub fn new(asset_count: u16, index_offset: u32, data_offset: u32, total_bytes: u32) -> (r: Self)
        ensures
            r == Self::spec_new(asset_count, index_offset, data_offset, total_bytes),
            r.magic@ == seq![0x56u8, 0x46u8, 0x53u8, 0x31u8],
            r.version == 1,
            r.asset_count == asset_count,
            r.index_offset == index_offset,
            r.data_offset == data_offset,
            r.total_bytes == total_bytes,
            r.is_sealed(),
    {
        proof {
            lemma_vfs_superblock_new_sealed(asset_count, index_offset, data_offset, total_bytes);
        }
        let mut sb = VfsSuperblock {
            magic: VFS_MAGIC,
            version: VFS_VERSION,
            asset_count,
            index_offset,
            data_offset,
            total_bytes,
            crc32: 0,
            reserved: [0u32, 0u32],
        };
        let bytes = sb.to_bytes();
        sb.crc32 = crc32_of_range(&bytes, 0, 20);
        sb
    }

    /// Serializes the superblock into a 32-byte array.
    pub fn to_bytes(&self) -> (r: [u8; 32])
        ensures
            r@ == self.spec_bytes(),
    {
        let mut buf = [0u8; 32];
        buf[0] = self.magic[0];
        buf[1] = self.magic[1];
        buf[2] = self.magic[2];
        buf[3] = self.magic[3];
        put_u16(&mut buf, 4, self.version);
        put_u16(&mut buf, 6, self.asset_count);
        put_u32(&mut buf, 8, self.index_offset);
        put_u32(&mut buf, 12, self.data_offset);
        put_u32(&mut buf, 16, self.total_bytes);
        put_u32(&mut buf, 20, self.crc32);
        assert(buf@ =~= self.spec_bytes());
        buf
    }

    /// Deserializes and validates the superblock from a byte slice.
    pub fn from_bytes(bytes: &[u8]) -> (r: Result<Self, VfsError>)
        ensures
            match r {
                Ok(sb) => vfs_superblock_error(bytes@) is None && sb.read_from(bytes@),
                Err(e) => vfs_superblock_error(bytes@) == Some(e),
            },
    {
        if bytes.len() < 32 {
            return Err(VfsError::Storage);
        }
        if !magic_matches(bytes, &VFS_MAGIC) {
            return Err(VfsError::InvalidMagic);
        }
        let magic = read_magic(bytes);
        let version = read_u16(bytes, 4);
        if version != VFS_VERSION {
            return Err(VfsError::UnsupportedVersion);
        }
        let asset_count = read_u16(bytes, 6);
        let index_offset = read_u32(bytes, 8);
        let data_offset = read_u32(bytes, 12);
        let total_bytes = read_u32(bytes, 16);
        let stored_crc = read_u32(bytes, 20);
        let calculated_crc = crc32_of_range(bytes, 0, 20);
        if calculated_crc != stored_crc {
            return Err(VfsError::SuperblockCrcMismatch);
        }
        let reserved = [0u32, 0u32];
        assert(reserved@ =~= seq![0u32, 0u32]);
        Ok(
            VfsSuperblock {
                magic,
                version,
                asset_count,
                index_offset,
                data_offset,
                total_bytes,
                crc32: stored_crc,
                reserved,
            },
        )
    }
}

/// Reading a serialized superblock recovers every stored field.
proof fn lemma_vfs_superblock_fields(h: VfsSuperblock)
    ensures
        h.spec_bytes().len() == 32,
        h.magic@ == h.spec_bytes().subrange(0, 4),
        h.version == u16_at(h.spec_bytes(), 4),
        h.asset_count == u16_at(h.spec_bytes(), 6),
        h.index_offset == u32_at(h.spec_bytes(), 8),
        h.data_offset == u32_at(h.spec_bytes(), 12),
        h.total_bytes == u32_at(h.spec_bytes(), 16),
        h.crc32 == u32_at(h.spec_bytes(), 20),
{
    let s = h.spec_bytes();
    assert(s.subrange(0, 4) =~= h.magic@);
    assert(s.subrange(4, 6) =~= le16(h.version));
    assert(s.subrange(6, 8) =~= le16(h.asset_count));
    assert(s.subrange(8, 12) =~= le32(h.index_offset));
    assert(s.subrange(12, 16) =~= le32(h.data_offset));
    assert(s.subrange(16, 20) =~= le32(h.total_bytes));
    assert(s.subrange(20, 24) =~= le32(h.crc32));
    lemma_le16_decode(h.version, s, 4);
    lemma_le16_decode(h.asset_count, s, 6);
    lemma_le32_decode(h.index_offset, s, 8);
    lemma_le32_decode(h.data_offset, s, 12);
    lemma_le32_decode(h.total_bytes, s, 16);
    lemma_le32_decode(h.crc32, s, 20);
}

/// Serializing a sealed superblock and parsing the bytes succeeds and gives back that
/// superblock, and no other.
pub proof fn lemma_vfs_superblock_roundtrip(h: VfsSuperblock)
    requires
        h.is_sealed(),
    ensures
        vfs_superblock_error(h.spec_bytes()) is None,
        h.read_from(h.spec_bytes()),
        forall|g: VfsSuperblock| #[trigger] g.read_from(h.spec_bytes()) ==> g == h,
{
    lemma_vfs_superblock_fields(h);
    assert forall|g: VfsSuperblock| #[trigger] g.read_from(h.spec_bytes()) implies g == h by {
        assert(g.magic == h.magic);
        assert(g.reserved@ == h.reserved@);
        assert(g.reserved == h.reserved);
    }
}

/// A superblock read from `s` serializes back to the 24 field bytes it was read from,
/// followed by 8 zero bytes.
pub proof fn lemma_vfs_superblock_reencode(h: VfsSuperblock, s: Seq<u8>)
    requires
        h.read_from(s),
    ensures
        h.spec_bytes() == s.subrange(0, 24) + zeros(8),
{
    lemma_le16_encode(s, 4);
    lemma_le16_encode(s, 6);
    lemma_le32_encode(s, 8);
    lemma_le32_encode(s, 12);
    lemma_le32_encode(s, 16);
    lemma_le32_encode(s, 20);
    assert(h.spec_bytes() =~= s.subrange(0, 24) + zeros(8));
}

/// Every superblock built by `new` is sealed.
pub proof fn lemma_vfs_superblock_new_sealed(
    asset_count: u16,
    index_offset: u32,
    data_offset: u32,
    total_bytes: u32,
)
    ensures
        VfsSuperblock::spec_new(asset_count, index_offset, data_offset, total_bytes).is_sealed(),
{
    let h = VfsSuperblock::spec_new(asset_count, index_offset, data_offset, total_bytes);
    let u = VfsSuperblock { crc32: 0, ..h };
    assert(h.spec_bytes().subrange(0, 20) =~= u.spec_bytes().subrange(0, 20));
    assert(h.reserved@ =~= seq![0u32, 0u32]);
}

/// 16-byte asset index record within the VFS.
#[derive(Debug, Clone, Copy, PartialEq, Eq)]
pub struct VfsAssetEntry {
    pub asset_id: u32,
    pub flash_offset: u32,
    pub length: u32,
    pub flags: u16,
    pub crc16: u16,
}

impl VfsAssetEntry {
    /// Serialized size in bytes.
    pub const SIZE: usize = 16;

    /// The 16-byte little-endian serialization.
    pub open spec fn spec_bytes(self) -> Seq<u8> {
        le32(self.asset_id) + le32(self.flash_offset) + le32(self.length) + le16(self.flags) + le16(
            self.crc16,
        )
    }

    /// The fields of `self` are those stored in `s[0..16]`.
    pub open spec fn read_from(self, s: Seq<u8>) -> bool {
        &&& s.len() >= 16
        &&& self.asset_id == u32_at(s, 0)
        &&& self.flash_offset == u32_at(s, 4)
        &&& self.length == u32_at(s, 8)
        &&& self.flags == u16_at(s, 12)
        &&& self.crc16 == u16_at(s, 14)
    }

    /// Serializes the entry into a 16-byte array.
    pub fn to_bytes(&self) -> (r: [u8; 16])
        ensures
            r@ == self.spec_bytes(),
    {
        let mut buf = [0u8; 16];
        put_u32(&mut buf, 0, self.asset_id);
        put_u32(&mut buf, 4, self.flash_offset);
        put_u32(&mut buf, 8, self.length);
        put_u16(&mut buf, 12, self.flags);
        put_u16(&mut buf, 14, self.crc16);
        assert(buf@ =~= self.spec_bytes());
        buf
    }

    /// Decodes an entry from the first 16 bytes of `bytes`.
    pub fn from_bytes(bytes: &[u8]) -> (r: Self)
        requires
            bytes@.len() >= 16,
        ensures
            r.read_from(bytes@),
    {
        VfsAssetEntry {
            asset_id: read_u32(bytes, 0),
            flash_offset: read_u32(bytes, 4),
            length: read_u32(bytes, 8),
            flags: read_u16(bytes, 12),
            crc16: read_u16(bytes, 14),
        }
    }
}

/// Decoding a serialized asset entry gives it back, and re-encoding a decoded entry
/// gives back the bytes it was read from.
pub proof fn lemma_vfs_asset_entry_roundtrip(e: VfsAssetEntry, s: Seq<u8>)
    ensures
        e.spec_bytes().len() == 16,
        e.read_from(e.spec_bytes()),
        forall|g: VfsAssetEntry| #[trigger] g.read_from(e.spec_bytes()) ==> g == e,
        e.read_from(s) ==> e.spec_bytes() == s.subrange(0, 16),
{
    let b = e.spec_bytes();
    assert(b.subrange(0, 4) =~= le32(e.asset_id));
    assert(b.subrange(4, 8) =~= le32(e.flash_offset));
    assert(b.subrange(8, 12) =~= le32(e.length));
    assert(b.subrange(12, 14) =~= le16(e.flags));
    assert(b.subrange(14, 16) =~= le16(e.crc16));
    lemma_le32_decode(e.asset_id, b, 0);
    lemma_le32_decode(e.flash_offset, b, 4);
    lemma_le32_decode(e.length, b, 8);
    lemma_le16_decode(e.flags, b, 12);
    lemma_le16_decode(e.crc16, b, 14);
    if e.read_from(s) {
        lemma_le32_encode(s, 0);
        lemma_le32_encode(s, 4);
        lemma_le32_encode(s, 8);
        lemma_le16_encode(s, 12);
        lemma_le16_encode(s, 14);
        assert(b =~= s.subrange(0, 16));
    }
}

/// A superblock built from arguments carries each argument in the field of the same
/// name, and parsing its serialization gives back exactly those arguments.
pub proof fn lemma_vfs_superblock_new_fields(n: u16, i: u32, d: u32, t: u32)
    ensures
        ({
            let h = VfsSuperblock::spec_new(n, i, d, t);
            &&& h.asset_count == n
            &&& h.index_offset == i
            &&& h.data_offset == d
            &&& h.total_bytes == t
            &&& vfs_superblock_error(h.spec_bytes()) is None
            &&& u16_at(h.spec_bytes(), 6) == n
            &&& u32_at(h.spec_bytes(), 8) == i
            &&& u32_at(h.spec_bytes(), 12) == d
            &&& u32_at(h.spec_bytes(), 16) == t
        }),
{
    let h = VfsSuperblock::spec_new(n, i, d, t);
    lemma_vfs_superblock_new_sealed(n, i, d, t);
    lemma_vfs_superblock_roundtrip(h);
}

/// Magic bytes for the overlay directory: "OVLD".
pub const OVERLAY_DIR_MAGIC: [u8; 4] = [0x4F, 0x56, 0x4C, 0x44];

/// Format version for the overlay directory.
pub const OVERLAY_DIR_VERSION: u16 = 1;

/// 32-byte directory header placed at the beginning of an overlay partition.
#[derive(Debug, Clone, Copy, PartialEq, Eq)]
pub struct OverlayDirectory {
    pub magic: [u8; 4],
    pub version: u16,
    pub entry_count: u16,
    pub index_offset: u32,
    pub total_bytes: u32,
    pub crc32: u32,
    pub reserved: [u32; 3],
}

/// Why `s` is not a valid overlay directory header, in the order the parser checks.
pub open spec fn overlay_directory_error(s: Seq<u8>) -> Option<OverlayError> {
    if s.len() < 32 {
        Some(OverlayError::Storage)
    } else if s.subrange(0, 4) != OVERLAY_DIR_MAGIC@ {
        Some(OverlayError::InvalidMagic)
    } else if u16_at(s, 4) != OVERLAY_DIR_VERSION {
        Some(OverlayError::UnsupportedVersion)
    } else if spec_crc32(s.subrange(0, 16)) != u32_at(s, 16) {
        Some(OverlayError::HeaderChecksumMismatch)
    } else {
        None
    }
}

impl OverlayDirectory {
    /// Serialized size in bytes.
    pub const SIZE: usize = 32;

    /// The 32-byte serialization: 20 bytes of fields, then 12 zero bytes (the reserved
    /// words are not stored).
    pub open spec fn spec_bytes(self) -> Seq<u8> {
        self.magic@ + le16(self.version) + le16(self.entry_count) + le32(self.index_offset) + le32(
            self.total_bytes,
        ) + le32(self.crc32) + zeros(12)
    }

    /// The fields of `self` are those stored in `s[0..20]`, with zero reserved words.
    pub open spec fn read_from(self, s: Seq<u8>) -> bool {
        &&& s.len() >= 32
        &&& self.magic@ == s.subrange(0, 4)
        &&& self.version == u16_at(s, 4)
        &&& self.entry_count == u16_at(s, 6)
        &&& self.index_offset == u32_at(s, 8)
        &&& self.total_bytes == u32_at(s, 12)
        &&& self.crc32 == u32_at(s, 16)
        &&& self.reserved@ == seq![0u32, 0u32, 0u32]
    }

    /// Right magic and version, zero reserved words, and a CRC over the first 16
    /// serialized bytes.
    pub open spec fn is_sealed(self) -> bool {
        &&& self.magic@ == OVERLAY_DIR_MAGIC@
        &&& self.version == OVERLAY_DIR_VERSION
        &&& self.reserved@ == seq![0u32, 0u32, 0u32]
        &&& self.crc32 == spec_crc32(self.spec_bytes().subrange(0, 16))
    }

    /// The directory header that `new` builds.
    pub open spec fn spec_new(entry_count: u16, index_offset: u32, total_bytes: u32) -> Self {
        let unsealed = OverlayDirectory {
            magic: OVERLAY_DIR_MAGIC,
            version: OVERLAY_DIR_VERSION,
            entry_count,
            index_offset,
            total_bytes,
            crc32: 0,
            reserved: [0u32, 0u32, 0u32],
        };
        OverlayDirectory { crc32: spec_crc32(unsealed.spec_bytes().subrange(0, 16)), ..unsealed }
    }

    /// Creates a directory header with computed CRC.
    pub fn new(entry_count: u16, index_offset: u32, total_bytes: u32) -> (r: Self)
        ensures
            r == Self::spec_new(entry_count, index_offset, total_bytes),
            r.magic@ == seq![0x4Fu8, 0x56u8, 0x4Cu8, 0x44u8],
            r.version == 1,
            r.entry_count == entry_count,
            r.index_offset == index_offset,
            r.total_bytes == total_bytes,
            r.is_sealed(),
    {
        proof {
            lemma_overlay_directory_new_sealed(entry_count, index_offset, total_bytes);
        }
        let mut dir = OverlayDirectory {
            magic: OVERLAY_DIR_MAGIC,
            version: OVERLAY_DIR_VERSION,
            entry_count,
            index_offset,
            total_bytes,
            crc32: 0,
            reserved: [0u32, 0u32, 0u32],
        };
        let bytes = dir.to_bytes();
        dir.crc32 = crc32_of_range(&bytes, 0, 16);
        dir
    }

    /// Serializes the directory header into a 32-byte array.
    pub fn to_bytes(&self) -> (r: [u8; 32])
        ensures
            r@ == self.spec_bytes(),
    {
        let mut buf = [0u8; 32];
        buf[0] = self.magic[0];
        buf[1] = self.magic[1];
        buf[2] = self.magic[2];
        buf[3] = self.magic[3];
        put_u16(&mut buf, 4, self.version);
        put_u16(&mut buf, 6, self.entry_count);
        put_u32(&mut buf, 8, self.index_offset);
        put_u32(&mut buf, 12, self.total_bytes);
        put_u32(&mut buf, 16, self.crc32);
        assert(buf@ =~= self.spec_bytes());
        buf
    }

    /// Deserializes and validates the directory header from a byte slice.
    pub fn from_bytes(bytes: &[u8]) -> (r: Result<Self, OverlayError>)
        ensures
            match r {
                Ok(d) => overlay_directory_error(bytes@) is None && d.read_from(bytes@),
                Err(e) => overlay_directory_error(bytes@) == Some(e),
            },
    {
        if bytes.len() < 32 {
            return Err(OverlayError::Storage);
        }
        if !magic_matches(bytes, &OVERLAY_DIR_MAGIC) {
            return Err(OverlayError::InvalidMagic);
        }
        let magic = read_magic(bytes);
        let version = read_u16(bytes, 4);
        if version != OVERLAY_DIR_VERSION {
            return Err(OverlayError::UnsupportedVersion);
        }
        let entry_count = read_u16(bytes, 6);
        let index_offset = read_u32(bytes, 8);
        let total_bytes = read_u32(bytes, 12);
        let stored_crc = read_u32(bytes, 16);
        let calculated_crc = crc32_of_range(bytes, 0, 16);
        if calculated_crc != stored_crc {
            return Err(OverlayError::HeaderChecksumMismatch);
        }
        let reserved = [0u32, 0u32, 0u32];
        assert(reserved@ =~= seq![0u32, 0u32, 0u32]);
        Ok(
            OverlayDirectory {
                magic,
                version,
                entry_count,
                index_offset,
                total_bytes,
                crc32: stored_crc,
                reserved,
            },
        )
    }
}

/// Serializing a sealed directory header and parsing the bytes succeeds and gives back
/// that header, and no other.
pub proof fn lemma_overlay_directory_roundtrip(d: OverlayDirectory)
    requires
        d.is_sealed(),
    ensures
        overlay_directory_error(d.spec_bytes()) is None,
        d.read_from(d.spec_bytes()),
        forall|g: OverlayDirectory| #[trigger] g.read_from(d.spec_bytes()) ==> g == d,
{
    let b = d.spec_bytes();
    assert(b.subrange(0, 4) =~= d.magic@);
    assert(b.subrange(4, 6) =~= le16(d.version));
    assert(b.subrange(6, 8) =~= le16(d.entry_count));
    assert(b.subrange(8, 12) =~= le32(d.index_offset));
    assert(b.subrange(12, 16) =~= le32(d.total_bytes));
    assert(b.subrange(16, 20) =~= le32(d.crc32));
    lemma_le16_decode(d.version, b, 4);
    lemma_le16_decode(d.entry_count, b, 6);
    lemma_le32_decode(d.index_offset, b, 8);
    lemma_le32_decode(d.total_bytes, b, 12);
    lemma_le32_decode(d.crc32, b, 16);
    assert forall|g: OverlayDirectory| #[trigger] g.read_from(d.spec_bytes()) implies g == d by {
        assert(g.magic == d.magic);
        assert(g.reserved@ == d.reserved@);
        assert(g.reserved == d.reserved);
    }
}

/// A directory header read from `s` serializes back to the 20 field bytes it was read
/// from, followed by 12 zero bytes.
pub proof fn lemma_overlay_directory_reencode(d: OverlayDirectory, s: Seq<u8>)
    requires
        d.read_from(s),
    ensures
        d.spec_bytes() == s.subrange(0, 20) + zeros(12),
{
    lemma_le16_encode(s, 4);
    lemma_le16_encode(s, 6);
    lemma_le32_encode(s, 8);
    lemma_le32_encode(s, 12);
    lemma_le32_encode(s, 16);
    assert(d.spec_bytes() =~= s.subrange(0, 20) + zeros(12));
}

/// Every directory header built by `new` is sealed.
pub proof fn lemma_overlay_directory_new_sealed(entry_count: u16, index_offset: u32, total_bytes: u32)
    ensures
        OverlayDirectory::spec_new(entry_count, index_offset, total_bytes).is_sealed(),
{
    let d = OverlayDirectory::spec_new(entry_count, index_offset, total_bytes);
    let u = OverlayDirectory { crc32: 0, ..d };
    assert(d.spec_bytes().subrange(0, 16) =~= u.spec_bytes().subrange(0, 16));
    assert(d.reserved@ =~= seq![0u32, 0u32, 0u32]);
}

/// 16-byte overlay directory entry record.
#[derive(Debug, Clone, Copy, PartialEq, Eq)]
pub struct OverlayDirectoryEntry {
    pub module_id: u32,
    pub flash_offset: u32,
    pub code_size: u32,
    pub crc32: u32,
}

impl OverlayDirectoryEntry {
    /// Serialized size in bytes.
    pub const SIZE: usize = 16;

    /// The 16-byte little-endian serialization.
    pub open spec fn spec_bytes(self) -> Seq<u8> {
        le32(self.module_id) + le32(self.flash_offset) + le32(self.code_size) + le32(self.crc32)
    }

    /// The fields of `self` are those stored in `s[0..16]`.
    pub open spec fn read_from(self, s: Seq<u8>) -> bool {
        &&& s.len() >= 16
        &&& self.module_id == u32_at(s, 0)
        &&& self.flash_offset == u32_at(s, 4)
        &&& self.code_size == u32_at(s, 8)
        &&& self.crc32 == u32_at(s, 12)
    }

    /// Serializes the entry into a 16-byte array.
    pub fn to_bytes(&self) -> (r: [u8; 16])
        ensures
            r@ == self.spec_bytes(),
    {
        let mut buf = [0u8; 16];
        put_u32(&mut buf, 0, self.module_id);
        put_u32(&mut buf, 4, self.flash_offset);
        put_u32(&mut buf, 8, self.code_size);
        put_u32(&mut buf, 12, self.crc32);
        assert(buf@ =~= self.spec_bytes());
        buf
    }

    /// Decodes an entry from the first 16 bytes of `bytes`.
    pub fn from_bytes(bytes: &[u8]) -> (r: Self)
        requires
            bytes@.len() >= 16,
        ensures
            r.read_from(bytes@),
    {
        OverlayDirectoryEntry {
            module_id: read_u32(bytes, 0),
            flash_offset: read_u32(bytes, 4),
            code_size: read_u32(bytes, 8),
            crc32: read_u32(bytes, 12),
        }
    }
}

/// Decoding a serialized directory entry gives it back, and re-encoding a decoded entry
/// gives back the bytes it was read from.
pub proof fn lemma_overlay_directory_entry_roundtrip(e: OverlayDirectoryEntry, s: Seq<u8>)
    ensures
        e.spec_bytes().len() == 16,
        e.read_from(e.spec_bytes()),
        forall|g: OverlayDirectoryEntry| #[trigger] g.read_from(e.spec_bytes()) ==> g == e,
        e.read_from(s) ==> e.spec_bytes() == s.subrange(0, 16),
{
    let b = e.spec_bytes();
    assert(b.subrange(0, 4) =~= le32(e.module_id));
    assert(b.subrange(4, 8) =~= le32(e.flash_offset));
    assert(b.subrange(8, 12) =~= le32(e.code_size));
    assert(b.subrange(12, 16) =~= le32(e.crc32));
    lemma_le32_decode(e.module_id, b, 0);
    lemma_le32_decode(e.flash_offset, b, 4);
    lemma_le32_decode(e.code_size, b, 8);
    lemma_le32_decode(e.crc32, b, 12);
    if e.read_from(s) {
        lemma_le32_encode(s, 0);
        lemma_le32_encode(s, 4);
        lemma_le32_encode(s, 8);
        lemma_le32_encode(s, 12);
        assert(b =~= s.subrange(0, 16));
    }
}

/// A directory header built from arguments carries each argument in the field of the
/// same name, and parsing its serialization gives back exactly those arguments.
pub proof fn lemma_overlay_directory_new_fields(n: u16, i: u32, t: u32)
    ensures
        ({
            let d = OverlayDirectory::spec_new(n, i, t);
            &&& d.entry_count == n
            &&& d.index_offset == i
            &&& d.total_bytes == t
            &&& overlay_directory_error(d.spec_bytes()) is None
            &&& u16_at(d.spec_bytes(), 6) == n
            &&& u32_at(d.spec_bytes(), 8) == i
            &&& u32_at(d.spec_bytes(), 12) == t
        }),
{
    let d = OverlayDirectory::spec_new(n, i, t);
    lemma_overlay_directory_new_sealed(n, i, t);
    lemma_overlay_directory_roundtrip(d);
}

} // verus!
