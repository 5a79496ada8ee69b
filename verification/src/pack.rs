//! Host-side image packing: overlay containers, VFS images and dual-flash bundles, and
//! parsing of the numbers given on the packer's command line.

use vstd::prelude::*;
use vstd::string::StringSliceAdditionalSpecFns;
use crate::bundle::{bundle_header_error, BundleHeader};
use crate::crc::{crc32, spec_crc32};
use crate::header::{
    lemma_overlay_header_new_sealed, lemma_overlay_header_roundtrip, lemma_vfs_superblock_new_sealed,
    overlay_header_error,
    zeros, OverlayHeader, VfsAssetEntry, VfsSuperblock,
};
use crate::wire::{u32_at, u16_at};

verus! {

/// Value of an ASCII digit in base `radix` (10 or 16), if it is one.
pub open spec fn digit_value(b: u8, radix: u32) -> Option<u32> {
    if 0x30 <= b <= 0x39 && (b - 0x30) < radix {
        Some((b - 0x30) as u32)
    } else if radix == 16 && 0x61 <= b <= 0x66 {
        Some((b - 0x61 + 10) as u32)
    } else if radix == 16 && 0x41 <= b <= 0x46 {
        Some((b - 0x41 + 10) as u32)
    } else {
        None
    }
}

/// Digits have their usual values: `0`..`9` are 0..9 in bases 10 and 16, `a`..`f` and
/// `A`..`F` are 10..15 in base 16, and no other byte is a digit.
pub proof fn lemma_digit_values(b: u8)
    ensures
        b >= 48 && b <= 57 ==> digit_value(b, 10) == Some((b - 48) as u32) && digit_value(b, 16)
            == Some((b - 48) as u32),
        b >= 97 && b <= 102 ==> digit_value(b, 16) == Some((b - 87) as u32),
        b >= 65 && b <= 70 ==> digit_value(b, 16) == Some((b - 55) as u32),
        !(b >= 48 && b <= 57) ==> digit_value(b, 10) is None,
        !(b >= 48 && b <= 57) && !(b >= 97 && b <= 102) && !(b >= 65 && b <= 70) ==> digit_value(
            b,
            16,
        ) is None,
{
}

/// All bytes of `d` are digits in base `radix`.
pub open spec fn all_digits(d: Seq<u8>, radix: u32) -> bool {
    forall|i: int| 0 <= i < d.len() ==> (#[trigger] digit_value(d[i], radix)) is Some
}

/// The number the digits `d` spell in base `radix`.
pub open spec fn digits_value(d: Seq<u8>, radix: u32) -> nat
    decreases d.len(),
{
    if d.len() == 0 {
        0
    } else {
        digits_value(d.drop_last(), radix) * (radix as nat) + (digit_value(d.last(), radix)->0 as nat)
    }
}

/// An unsigned 32-bit number in base `radix`: an optional `+`, then at least one digit,
/// with a value that fits.
pub open spec fn spec_parse_u32(s: Seq<u8>, radix: u32) -> Option<u32> {
    let d = if s.len() > 0 && s[0] == 0x2B {
        s.drop_first()
    } else {
        s
    };
    if d.len() == 0 || !all_digits(d, radix) || digits_value(d, radix) > u32::MAX {
        None
    } else {
        Some(digits_value(d, radix) as u32)
    }
}

/// `s` starts with "0x" or "0X".
pub open spec fn has_hex_prefix(s: Seq<u8>) -> bool {
    s.len() >= 2 && s[0] == 0x30 && (s[1] == 0x78 || s[1] == 0x58)
}

/// A number written in hexadecimal after "0x" / "0X", or else in decimal.
pub open spec fn spec_parse_hex_or_dec(s: Seq<u8>) -> Option<u32> {
    if has_hex_prefix(s) {
        spec_parse_u32(s.subrange(2, s.len() as int), 16)
    } else {
        spec_parse_u32(s, 10)
    }
}

/// Extending a run of digits never makes its value smaller.
proof fn lemma_digits_value_grows(d: Seq<u8>, radix: u32, k: int)
    requires
        0 <= k <= d.len(),
        radix >= 1,
        all_digits(d, radix),
    ensures
        digits_value(d.subrange(0, k), radix) <= digits_value(d, radix),
    decreases d.len() - k,
{
    if k < d.len() {
        let e = d.drop_last();
        assert(all_digits(e, radix)) by {
            assert forall|i: int| 0 <= i < e.len() implies (#[trigger] digit_value(e[i], radix)) is Some by {
                assert(digit_value(d[i], radix) is Some);
            }
        }
        lemma_digits_value_grows(e, radix, k);
        assert(e.subrange(0, k) =~= d.subrange(0, k));
        let v = digits_value(e, radix);
        assert(v <= v * (radix as nat)) by (nonlinear_arith)
            requires
                radix >= 1,
        ;
    } else {
        assert(d.subrange(0, k) =~= d);
    }
}

/// Value of one digit byte.
fn digit(b: u8, radix: u32) -> (r: Option<u32>)
    requires
        radix == 10 || radix == 16,
    ensures
        r == digit_value(b, radix),
{
    if 0x30 <= b && b <= 0x39 && ((b - 0x30) as u32) < radix {
        Some((b - 0x30) as u32)
    } else if radix == 16 && 0x61 <= b && b <= 0x66 {
        Some((b - 0x61 + 10) as u32)
    } else if radix == 16 && 0x41 <= b && b <= 0x46 {
        Some((b - 0x41 + 10) as u32)
    } else {
        None
    }
}

/// Parses an unsigned 32-bit number in base `radix` from `s[start..]`.
fn parse_u32_from(s: &[u8], start: usize, radix: u32) -> (r: Option<u32>)
    requires
        radix == 10 || radix == 16,
        start <= s@.len(),
    ensures
        r == spec_parse_u32(s@.subrange(start as int, s@.len() as int), radix),
{
    let ghost t = s@.subrange(start as int, s@.len() as int);
    let mut i = start;
    if i < s.len() && s[i] == 0x2B {
        i = i + 1;
    }
    let ghost d = s@.subrange(i as int, s@.len() as int);
    proof {
        assert(t.len() > 0 ==> t[0] == s@[start as int]);
        if t.len() > 0 && t[0] == 0x2B {
            assert(t.drop_first() =~= d);
        } else {
            assert(t =~= d);
        }
    }
    if i == s.len() {
        return None;
    }
    let first = i;
    let mut acc: u32 = 0;
    while i < s.len()
        invariant
            first <= i <= s@.len(),
            first < s@.len(),
            d == s@.subrange(first as int, s@.len() as int),
            t == s@.subrange(start as int, s@.len() as int),
            spec_parse_u32(t, radix) == (if d.len() == 0 || !all_digits(d, radix)
                || digits_value(d, radix) > u32::MAX {
                None
            } else {
                Some(digits_value(d, radix) as u32)
            }),
            radix == 10 || radix == 16,
            all_digits(s@.subrange(first as int, i as int), radix),
            acc == digits_value(s@.subrange(first as int, i as int), radix),
        decreases s@.len() - i,
    {
        proof {
            let p = s@.subrange(first as int, i + 1);
            assert(p.drop_last() =~= s@.subrange(first as int, i as int));
        }
        let v = match digit(s[i], radix) {
            Some(v) => v,
            None => {
                proof {
                    assert(d[i - first] == s@[i as int]);
                    assert(digit_value(d[i - first], radix) is None);
                    assert(!all_digits(d, radix));
                }
                return None;
            },
        };
        let next = match acc.checked_mul(radix) {
            Some(m) => m.checked_add(v),
            None => None,
        };
        match next {
            Some(n) => {
                acc = n;
            },
            None => {
                proof {
                    let p = s@.subrange(first as int, i + 1);
                    assert(digits_value(p, radix) > u32::MAX);
                    if all_digits(d, radix) {
                        assert(p =~= d.subrange(0, i + 1 - first));
                        lemma_digits_value_grows(d, radix, i + 1 - first);
                    }
                }
                return None;
            },
        }
        proof {
            let p = s@.subrange(first as int, i + 1);
            assert forall|k: int| 0 <= k < p.len() implies (#[trigger] digit_value(p[k], radix)) is Some by {
                if k < p.len() - 1 {
                    assert(p[k] == s@.subrange(first as int, i as int)[k]);
                }
            }
        }
        i = i + 1;
    }
    assert(s@.subrange(first as int, i as int) =~= d);
    Some(acc)
}

/// Parses a number written in hexadecimal after "0x" / "0X", or else in decimal.
pub fn parse_hex_or_dec(s: &str) -> (r: Option<u32>)
    ensures
        r == spec_parse_hex_or_dec(s.spec_bytes()),
{
    let b = s.as_bytes();
    if b.len() >= 2 && b[0] == 0x30 && (b[1] == 0x78 || b[1] == 0x58) {
        parse_u32_from(b, 2, 16)
    } else {
        let r = parse_u32_from(b, 0, 10);
        assert(b@.subrange(0, b@.len() as int) =~= b@);
        r
    }
}


/// Appends all of `bytes` to `out`.
fn append_bytes(out: &mut Vec<u8>, bytes: &[u8])
    ensures
        final(out)@ == old(out)@ + bytes@,
{
    let mut i: usize = 0;
    while i < bytes.len()
        invariant
            0 <= i <= bytes@.len(),
            out@ == old(out)@ + bytes@.subrange(0, i as int),
        decreases bytes@.len() - i,
    {
        out.push(bytes[i]);
        i += 1;
        assert(out@ =~= old(out)@ + bytes@.subrange(0, i as int));
    }
    assert(bytes@.subrange(0, bytes@.len() as int) =~= bytes@);
}

/// The overlay container for `payload`: a header (entry point at offset 0,
/// position-independent) followed by the payload.
pub open spec fn spec_overlay_image(module_id: u32, payload: Seq<u8>) -> Seq<u8> {
    OverlayHeader::spec_new(module_id, payload.len() as u32, 0, 0, spec_crc32(payload)).spec_bytes()
        + payload
}

/// Builds the overlay container for `payload`.
pub fn overlay_image(module_id: u32, payload: &[u8]) -> (r: Vec<u8>)
    ensures
        r@ == spec_overlay_image(module_id, payload@),
{
    let payload_crc = crc32(payload);
    let header = OverlayHeader::new(module_id, payload.len() as u32, 0, 0, payload_crc);
    let mut out: Vec<u8> = Vec::new();
    let hb = header.to_bytes();
    append_bytes(&mut out, &hb);
    append_bytes(&mut out, payload);
    out
}

/// A packed overlay container carries a valid header naming the module, its size and
/// the CRC of its payload, and the payload right after the header.
pub proof fn lemma_overlay_image_valid(module_id: u32, payload: Seq<u8>)
    requires
        payload.len() <= u32::MAX,
    ensures
        ({
            let img = spec_overlay_image(module_id, payload);
            &&& overlay_header_error(img) is None
            &&& u32_at(img, 8) == module_id
            &&& u32_at(img, 12) == payload.len()
            &&& u32_at(img, 16) == 0
            &&& u32_at(img, 24) == spec_crc32(payload)
            &&& img.subrange(32, 32 + payload.len() as int) == payload
        }),
{
    let h = OverlayHeader::spec_new(module_id, payload.len() as u32, 0, 0, spec_crc32(payload));
    lemma_overlay_header_new_sealed(module_id, payload.len() as u32, 0, 0, spec_crc32(payload));
    lemma_overlay_header_roundtrip(h);
    let hb = h.spec_bytes();
    let img = hb + payload;
    assert(img.subrange(0, 4) =~= hb.subrange(0, 4));
    assert(img.subrange(0, 28) =~= hb.subrange(0, 28));
    assert(img.subrange(32, 32 + payload.len() as int) =~= payload);
    assert(u16_at(img, 4) == u16_at(hb, 4));
    assert(u32_at(img, 8) == u32_at(hb, 8));
    assert(u32_at(img, 12) == u32_at(hb, 12));
    assert(u32_at(img, 16) == u32_at(hb, 16));
    assert(u32_at(img, 24) == u32_at(hb, 24));
    assert(u32_at(img, 28) == u32_at(hb, 28));
}

/// Zero bytes that pad `n` bytes to a multiple of 4.
pub open spec fn pad4(n: int) -> nat {
    ((4 - n % 4) % 4) as nat
}

/// The data area of a VFS image: each asset in turn, each padded to 4 bytes.
pub open spec fn vfs_payload(assets: Seq<Seq<u8>>) -> Seq<u8>
    decreases assets.len(),
{
    if assets.len() == 0 {
        Seq::empty()
    } else {
        let before = vfs_payload(assets.drop_last());
        before + assets.last() + zeros(pad4(before.len() + assets.last().len() as int))
    }
}

/// Index record of asset `i`: ID `i + 1`, at the data-area offset where it is stored.
pub open spec fn vfs_entry(assets: Seq<Seq<u8>>, i: int) -> VfsAssetEntry {
    VfsAssetEntry {
        asset_id: (i + 1) as u32,
        flash_offset: vfs_payload(assets.take(i)).len() as u32,
        length: assets[i].len() as u32,
        flags: 0,
        crc16: 0,
    }
}

/// The serialized index records of `es`, in order.
pub open spec fn entries_bytes(es: Seq<VfsAssetEntry>) -> Seq<u8>
    decreases es.len(),
{
    if es.len() == 0 {
        Seq::empty()
    } else {
        entries_bytes(es.drop_last()) + es.last().spec_bytes()
    }
}

/// The index records of a VFS image of `assets`.
pub open spec fn vfs_entries(assets: Seq<Seq<u8>>) -> Seq<VfsAssetEntry> {
    Seq::new(assets.len(), |i: int| vfs_entry(assets, i))
}

/// Size in bytes of a VFS image of `assets`.
pub open spec fn vfs_image_len(assets: Seq<Seq<u8>>) -> int {
    32 + 16 * assets.len() as int + vfs_payload(assets).len() as int
}

/// The superblock of a VFS image of `assets`.
pub open spec fn vfs_superblock(assets: Seq<Seq<u8>>) -> VfsSuperblock {
    VfsSuperblock::spec_new(
        assets.len() as u16,
        32,
        (32 + 16 * assets.len()) as u32,
        vfs_image_len(assets) as u32,
    )
}

/// A VFS image of `assets`: superblock, index records, data area.
pub open spec fn spec_vfs_image(assets: Seq<Seq<u8>>) -> Seq<u8> {
    vfs_superblock(assets).spec_bytes() + entries_bytes(vfs_entries(assets)) + vfs_payload(assets)
}

/// A packed VFS image and its index records.
pub struct VfsImage {
    pub bytes: Vec<u8>,
    pub entries: Vec<VfsAssetEntry>,
}

/// The data area of a prefix of the assets is a prefix of the whole data area.
proof fn lemma_payload_prefix(assets: Seq<Seq<u8>>, i: int)
    requires
        0 <= i <= assets.len(),
    ensures
        vfs_payload(assets.take(i)).len() <= vfs_payload(assets).len(),
        vfs_payload(assets).subrange(0, vfs_payload(assets.take(i)).len() as int) == vfs_payload(
            assets.take(i),
        ),
    decreases assets.len() - i,
{
    if i < assets.len() {
        let a = assets.drop_last();
        lemma_payload_prefix(a, i);
        assert(a.take(i) =~= assets.take(i));
        let pa = vfs_payload(a);
        assert(vfs_payload(assets).subrange(0, pa.len() as int) =~= pa);
        assert(vfs_payload(assets).subrange(0, vfs_payload(assets.take(i)).len() as int)
            =~= pa.subrange(0, vfs_payload(assets.take(i)).len() as int));
    } else {
        assert(assets.take(i) =~= assets);
    }
}

/// Appends `n` zero bytes to `out`.
fn append_zeros(out: &mut Vec<u8>, n: usize)
    ensures
        final(out)@ == old(out)@ + zeros(n as nat),
{
    let mut k: usize = 0;
    while k < n
        invariant
            0 <= k <= n,
            out@ == old(out)@ + zeros(k as nat),
        decreases n - k,
    {
        out.push(0u8);
        k += 1;
        assert(out@ =~= old(out)@ + zeros(k as nat));
    }
}

/// The records of the first `i + 1` assets extend those of the first `i`.
proof fn lemma_entries_step(av: Seq<Seq<u8>>, i: int)
    requires
        0 <= i < av.len(),
    ensures
        vfs_entries(av.take(i + 1)) == vfs_entries(av.take(i)).push(vfs_entry(av.take(i + 1), i)),
        vfs_payload(av.take(i + 1)) == vfs_payload(av.take(i)) + av[i] + zeros(
            pad4(vfs_payload(av.take(i)).len() + av[i].len() as int),
        ),
        vfs_entry(av.take(i + 1), i).flash_offset == vfs_payload(av.take(i)).len() as u32,
{
    let t = av.take(i + 1);
    assert(t.drop_last() =~= av.take(i));
    assert(t.take(i) =~= av.take(i));
    assert forall|j: int| 0 <= j < i implies #[trigger] vfs_entry(t, j) == vfs_entry(av.take(i), j) by {
        assert(t.take(j) =~= av.take(i).take(j));
    }
    assert(vfs_entries(t) =~= vfs_entries(av.take(i)).push(vfs_entry(t, i)));
}

/// Serializing the records one by one gives `entries_bytes`.
proof fn lemma_entries_bytes_step(es: Seq<VfsAssetEntry>, k: int)
    requires
        0 <= k < es.len(),
    ensures
        entries_bytes(es.take(k + 1)) == entries_bytes(es.take(k)) + es[k].spec_bytes(),
{
    assert(es.take(k + 1).drop_last() =~= es.take(k));
}

/// Builds a VFS image of `assets` (asset IDs 1, 2, ... in order), or `None` when the
/// image would not fit in 32-bit offsets.
pub fn vfs_image(assets: &[Vec<u8>]) -> (r: Option<VfsImage>)
    ensures
        match r {
            Some(img) => {
                &&& vfs_image_len(assets@.map_values(|a: Vec<u8>| a@)) <= u32::MAX
                &&& img.bytes@ == spec_vfs_image(assets@.map_values(|a: Vec<u8>| a@))
                &&& img.entries@ == vfs_entries(assets@.map_values(|a: Vec<u8>| a@))
            },
            None => vfs_image_len(assets@.map_values(|a: Vec<u8>| a@)) > u32::MAX,
        },
{
    let ghost av = assets@.map_values(|a: Vec<u8>| a@);
    let mut entries: Vec<VfsAssetEntry> = Vec::new();
    let mut data: Vec<u8> = Vec::new();
    let mut i: usize = 0;
    while i < assets.len()
        invariant
            0 <= i <= assets@.len(),
            av == assets@.map_values(|a: Vec<u8>| a@),
            av.len() == assets@.len(),
            data@ == vfs_payload(av.take(i as int)),
            entries@ == vfs_entries(av.take(i as int)),
            32 + 16 * i + data@.len() <= u32::MAX,
        decreases assets@.len() - i,
    {
        let content = assets[i].as_slice();
        assert(content@ == av[i as int]);
        if content.len() > 0xFFFF_FFFF {
            proof {
                lemma_payload_prefix(av, i + 1);
            }
            return None;
        }
        let x = data.len() as u64 + content.len() as u64;
        let pad = ((4 - x % 4) % 4) as usize;
        let needed = 32 + 16 * (i as u64 + 1) + x + pad as u64;
        proof {
            lemma_entries_step(av, i as int);
        }
        if needed > 0xFFFF_FFFF {
            proof {
                lemma_payload_prefix(av, i + 1);
            }
            return None;
        }
        let offset = data.len() as u32;
        let len = content.len() as u32;
        append_bytes(&mut data, content);
        append_zeros(&mut data, pad);
        entries.push(
            VfsAssetEntry {
                asset_id: (i + 1) as u32,
                flash_offset: offset,
                length: len,
                flags: 0,
                crc16: 0,
            },
        );
        i += 1;
    }
    assert(av.take(i as int) =~= av);
    let count = entries.len();
    let data_offset = (32 + 16 * count) as u32;
    let total = data_offset + data.len() as u32;
    let sb = VfsSuperblock::new(#[verifier::truncate] (count as u16), 32, data_offset, total);
    let mut out: Vec<u8> = Vec::new();
    let sbb = sb.to_bytes();
    append_bytes(&mut out, &sbb);
    let mut k: usize = 0;
    while k < entries.len()
        invariant
            0 <= k <= entries@.len(),
            out@ == sb.spec_bytes() + entries_bytes(entries@.take(k as int)),
        decreases entries@.len() - k,
    {
        proof {
            lemma_entries_bytes_step(entries@, k as int);
        }
        let eb = entries[k].to_bytes();
        append_bytes(&mut out, &eb);
        k += 1;
    }
    assert(entries@.take(k as int) =~= entries@);
    append_bytes(&mut out, data.as_slice());
    Some(VfsImage { bytes: out, entries })
}


/// The serialized records are 16 bytes each, record `k` at `16 * k`.
proof fn lemma_entries_bytes_layout(es: Seq<VfsAssetEntry>, k: int)
    requires
        0 <= k < es.len(),
    ensures
        entries_bytes(es).len() == 16 * es.len(),
        entries_bytes(es).subrange(16 * k, 16 * k + 16) == es[k].spec_bytes(),
    decreases es.len(),
{
    let d = es.drop_last();
    lemma_entries_bytes_len(d);
    if k < es.len() - 1 {
        lemma_entries_bytes_layout(d, k);
        assert(entries_bytes(es).subrange(16 * k, 16 * k + 16) =~= entries_bytes(d).subrange(
            16 * k,
            16 * k + 16,
        ));
    } else {
        assert(entries_bytes(es).subrange(16 * k, 16 * k + 16) =~= es[k].spec_bytes());
    }
}

/// The serialized records are 16 bytes each.
proof fn lemma_entries_bytes_len(es: Seq<VfsAssetEntry>)
    ensures
        entries_bytes(es).len() == 16 * es.len(),
    decreases es.len(),
{
    if es.len() > 0 {
        lemma_entries_bytes_len(es.drop_last());
    }
}

/// In a VFS image of `assets`, the superblock is sealed and describes the image, record
/// `i` sits at `32 + 16 * i` and describes asset `i` (ID `i + 1`), and the bytes it
/// points at are exactly that asset's.
pub proof fn lemma_vfs_image_layout(av: Seq<Seq<u8>>, i: int)
    requires
        vfs_image_len(av) <= u32::MAX,
        0 <= i < av.len(),
    ensures
        ({
            let img = spec_vfs_image(av);
            let sb = vfs_superblock(av);
            let e = vfs_entry(av, i);
            &&& sb.is_sealed()
            &&& sb.index_offset == 32
            &&& sb.data_offset == 32 + 16 * av.len()
            &&& img.len() == vfs_image_len(av)
            &&& img.subrange(0, 32) == sb.spec_bytes()
            &&& img.subrange(32 + 16 * i, 32 + 16 * i + 16) == e.spec_bytes()
            &&& e.asset_id == i + 1
            &&& e.length == av[i].len()
            &&& sb.data_offset + e.flash_offset + e.length <= img.len()
            &&& img.subrange(
                sb.data_offset + e.flash_offset,
                sb.data_offset + e.flash_offset + e.length,
            ) == av[i]
        }),
{
    let img = spec_vfs_image(av);
    let sb = vfs_superblock(av);
    let es = vfs_entries(av);
    let e = vfs_entry(av, i);
    let pay = vfs_payload(av);
    lemma_vfs_superblock_new_sealed(
        av.len() as u16,
        32,
        (32 + 16 * av.len()) as u32,
        vfs_image_len(av) as u32,
    );
    lemma_entries_bytes_layout(es, i);
    let sbb = sb.spec_bytes();
    let eb = entries_bytes(es);
    assert(img.subrange(0, 32) =~= sbb);
    assert(img.subrange(32 + 16 * i, 32 + 16 * i + 16) =~= eb.subrange(16 * i, 16 * i + 16));
    lemma_payload_prefix(av, i + 1);
    lemma_payload_prefix(av, i);
    lemma_entries_step(av, i);
    let before = vfs_payload(av.take(i));
    let upto = vfs_payload(av.take(i + 1));
    assert(av.take(i + 1)[i] == av[i]);
    assert(vfs_entry(av, i).flash_offset == before.len()) by {
        assert(before.len() <= pay.len());
    }
    assert(vfs_entry(av, i).length == av[i].len());
    let b0: int = before.len() as int;
    let b1: int = before.len() as int + av[i].len() as int;
    let start: int = 32 + 16 * av.len() as int + before.len() as int;
    assert(upto.subrange(b0, b1) =~= av[i]);
    assert(img.subrange(start, start + av[i].len()) =~= pay.subrange(b0, b1));
    assert(pay.subrange(b0, b1) =~= upto.subrange(b0, b1));
}


/// Builds a dual-flash firmware bundle: the bundle header (CRCs of both images, sizes
/// truncated to 32 bits), then the internal image, then the external image.
pub fn bundle_image(
    target_chip: &str,
    internal_addr: u32,
    internal: &[u8],
    external_addr: u32,
    external: &[u8],
) -> (r: Vec<u8>)
    ensures
        ({
            let hb = r@.subrange(0, 64);
            &&& r@.len() == 64 + internal@.len() + external@.len()
            &&& r@.subrange(64, 64 + internal@.len() as int) == internal@
            &&& r@.subrange(64 + internal@.len() as int, r@.len() as int) == external@
            &&& exists|h: BundleHeader|
                {
                    &&& #[trigger] h.spec_bytes() == hb
                    &&& BundleHeader::spec_with_crc(
                        target_chip.spec_bytes(),
                        internal_addr,
                        internal@.len() as u32,
                        spec_crc32(internal@),
                        external_addr,
                        external@.len() as u32,
                        spec_crc32(external@),
                        h.header_crc32,
                        h,
                    )
                    &&& h.header_crc32 == spec_crc32(hb.subrange(0, 60))
                    &&& bundle_header_error(hb) is None
                }
        }),
{
    let internal_crc = crc32(internal);
    let external_crc = crc32(external);
    let header = BundleHeader::new(
        target_chip,
        internal_addr,
        internal.len() as u32,
        internal_crc,
        external_addr,
        external.len() as u32,
        external_crc,
    );
    let mut out: Vec<u8> = Vec::new();
    let hb = header.to_bytes();
    append_bytes(&mut out, &hb);
    append_bytes(&mut out, internal);
    append_bytes(&mut out, external);
    assert(out@.subrange(0, 64) =~= header.spec_bytes());
    assert(out@.subrange(64, 64 + internal@.len() as int) =~= internal@);
    assert(out@.subrange(64 + internal@.len() as int, out@.len() as int) =~= external@);
    out
}

} // verus!
