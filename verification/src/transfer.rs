//! Whole transfers through the block adapter.
//!
//! A driver moves bytes step by step as [`BlockDeviceAdapter::next_step`] says: whole blocks
//! straight to or from the device, partial blocks through the bounce cache (fetched when
//! it does not hold the block, patched and written back for writes). The spec functions
//! here run those steps to the end, and the laws say what a whole transfer does: a write
//! puts exactly the given bytes at the given offset, a read returns exactly the device's
//! bytes, and either leaves the cache coherent with the device.
//!
//! [`BlockDeviceAdapter::next_step`]: crate::block::BlockDeviceAdapter::next_step

use vstd::prelude::*;
use vstd::arithmetic::div_mod::{lemma_div_pos_is_pos, lemma_fundamental_div_mod, lemma_mod_pos_bound};
use crate::block::{
    block_bytes, cache_coherent, device_written, lemma_cached_read_matches_device,
    lemma_patched_block_write_coherent, lemma_whole_block_write_coherent, spec_next_step,
    transfer_ok, BlockTransfer, TransferStep,
};

verus! {

/// The transfer after a step of `n` bytes.
pub open spec fn advanced(t: BlockTransfer, n: int) -> BlockTransfer {
    BlockTransfer { offset: (t.offset + n) as u32, pos: (t.pos + n) as usize, len: t.len }
}

/// The cached block and cache once `block` is available for a partial step: kept if the
/// cache holds it, else read from the device.
pub open spec fn fetched(dev: Seq<u8>, bs: int, cached: Option<u32>, cache: Seq<u8>, block: u32) -> (
    Option<u32>,
    Seq<u8>,
) {
    if cached == Some(block) {
        (cached, cache)
    } else {
        (Some(block), block_bytes(dev, bs, block as int))
    }
}

/// The cached block after a direct write of `count` blocks at `block`.
pub open spec fn invalidated(cached: Option<u32>, block: u32, count: int) -> Option<u32> {
    match cached {
        Some(c) => if block <= c < block + count {
            None
        } else {
            Some(c)
        },
        None => None,
    }
}

/// `cache` with `piece` written over it at `at`.
pub open spec fn patched(cache: Seq<u8>, at: int, piece: Seq<u8>) -> Seq<u8> {
    cache.subrange(0, at) + piece + cache.subrange(at + piece.len(), cache.len() as int)
}

/// What the next step of a transfer is, in numbers: where it starts and how much it moves.
pub proof fn lemma_step_facts(bs: int, t: BlockTransfer)
    requires
        bs > 0,
        transfer_ok(t),
        spec_next_step(bs, t) is Some,
    ensures
        t.pos < t.len,
        match spec_next_step(bs, t)->0 {
            TransferStep::Whole { block, count, len } => {
                &&& block * bs == t.offset
                &&& len == count * bs
                &&& 0 < len <= t.len - t.pos
            },
            TransferStep::Partial { block, block_offset, len } => {
                &&& block * bs + block_offset == t.offset
                &&& 0 < len
                &&& block_offset + len <= bs
                &&& len <= t.len - t.pos
            },
        },
{
    let rem: int = t.len - t.pos;
    let off: int = t.offset as int;
    lemma_fundamental_div_mod(off, bs);
    lemma_mod_pos_bound(off, bs);
    let q = off / bs;
    let r = off % bs;
    lemma_div_pos_is_pos(off, bs);
    assert(q <= off) by (nonlinear_arith)
        requires
            off == bs * q + r,
            0 <= r,
            bs > 0,
            0 <= q,
    ;
    assert(q * bs == bs * q) by (nonlinear_arith);
    if r == 0 && rem >= bs {
        lemma_fundamental_div_mod(rem, bs);
        lemma_mod_pos_bound(rem, bs);
        let c = rem / bs;
        assert(c * bs == bs * c) by (nonlinear_arith);
        assert(0 < c * bs <= rem) by (nonlinear_arith)
            requires
                rem == bs * c + rem % bs,
                0 <= rem % bs < bs,
                rem >= bs,
                bs > 0,
                c * bs == bs * c,
        ;
        assert(0 <= c <= rem) by (nonlinear_arith)
            requires
                c * bs <= rem,
                0 < c * bs,
                bs > 0,
        ;
    }
}

/// The next transfer is still within 32-bit addresses.
proof fn lemma_advanced_ok(t: BlockTransfer, n: int)
    requires
        transfer_ok(t),
        0 <= n <= t.len - t.pos,
    ensures
        transfer_ok(advanced(t, n)),
        advanced(t, n).offset == t.offset + n,
        advanced(t, n).pos == t.pos + n,
        advanced(t, n).len == t.len,
{
}

/// Device, cached block and cache after the remaining steps of a write of `src`.
pub open spec fn spec_write_steps(
    bs: int,
    dev: Seq<u8>,
    cached: Option<u32>,
    cache: Seq<u8>,
    t: BlockTransfer,
    src: Seq<u8>,
) -> (Seq<u8>, Option<u32>, Seq<u8>)
    decreases t.len - t.pos,
    when bs > 0 && transfer_ok(t)
{
    match spec_next_step(bs, t) {
        None => (dev, cached, cache),
        Some(step) => {
            proof {
                lemma_step_facts(bs, t);
            }
            let n = step.spec_len() as int;
            let piece = src.subrange(t.pos as int, t.pos + n);
            match step {
                TransferStep::Whole { block, count, len } => spec_write_steps(
                    bs,
                    device_written(dev, block * bs, piece),
                    invalidated(cached, block, count as int),
                    cache,
                    advanced(t, n),
                    src,
                ),
                TransferStep::Partial { block, block_offset, len } => {
                    let f = fetched(dev, bs, cached, cache, block);
                    let p = patched(f.1, block_offset as int, piece);
                    spec_write_steps(bs, device_written(dev, block * bs, p), f.0, p, advanced(t, n), src)
                },
            }
        },
    }
}

/// Bytes read, cached block and cache after the remaining steps of a read.
pub open spec fn spec_read_steps(
    bs: int,
    dev: Seq<u8>,
    cached: Option<u32>,
    cache: Seq<u8>,
    t: BlockTransfer,
) -> (Seq<u8>, Option<u32>, Seq<u8>)
    decreases t.len - t.pos,
    when bs > 0 && transfer_ok(t)
{
    match spec_next_step(bs, t) {
        None => (Seq::empty(), cached, cache),
        Some(step) => {
            proof {
                lemma_step_facts(bs, t);
            }
            let n = step.spec_len() as int;
            match step {
                TransferStep::Whole { block, count, len } => {
                    let rest = spec_read_steps(bs, dev, cached, cache, advanced(t, n));
                    (dev.subrange(block * bs, block * bs + n) + rest.0, rest.1, rest.2)
                },
                TransferStep::Partial { block, block_offset, len } => {
                    let f = fetched(dev, bs, cached, cache, block);
                    let rest = spec_read_steps(bs, dev, f.0, f.1, advanced(t, n));
                    (f.1.subrange(block_offset as int, block_offset + n) + rest.0, rest.1, rest.2)
                },
            }
        },
    }
}

/// A device of whole blocks holds every block that contains one of its bytes.
proof fn lemma_block_in_device(bs: int, dev_len: int, block: int, offset: int)
    requires
        bs > 0,
        dev_len % bs == 0,
        0 <= block,
        block * bs <= offset < dev_len,
    ensures
        (block + 1) * bs <= dev_len,
{
    lemma_fundamental_div_mod(dev_len, bs);
    let k = dev_len / bs;
    assert((block + 1) * bs <= dev_len) by (nonlinear_arith)
        requires
            dev_len == bs * k,
            block * bs < dev_len,
            bs > 0,
    ;
}

/// Two adjacent writes are one write of both pieces.
proof fn lemma_written_compose(dev: Seq<u8>, at: int, a: Seq<u8>, b: Seq<u8>)
    requires
        0 <= at,
        at + a.len() + b.len() <= dev.len(),
    ensures
        device_written(device_written(dev, at, a), at + a.len(), b) == device_written(dev, at, a + b),
        device_written(dev, at, a).len() == dev.len(),
{
    let d1 = device_written(dev, at, a);
    assert(d1.len() == dev.len());
    assert(device_written(d1, at + a.len(), b) =~= device_written(dev, at, a + b));
}

/// Writing back a patched copy of a block writes just the patch.
proof fn lemma_patch_is_piece_write(dev: Seq<u8>, bs: int, b: int, cache: Seq<u8>, bo: int, piece: Seq<u8>)
    requires
        bs > 0,
        0 <= b,
        (b + 1) * bs <= dev.len(),
        cache == block_bytes(dev, bs, b),
        0 <= bo,
        bo + piece.len() <= bs,
    ensures
        device_written(dev, b * bs, patched(cache, bo, piece)) == device_written(dev, b * bs + bo, piece),
{
    assert((b + 1) * bs == b * bs + bs) by (nonlinear_arith);
    assert(0 <= b * bs) by (nonlinear_arith)
        requires
            0 <= b,
            bs > 0,
    ;
    assert(device_written(dev, b * bs, patched(cache, bo, piece)) =~= device_written(
        dev,
        b * bs + bo,
        piece,
    ));
}

/// A write through the adapter puts exactly `src[pos..len]` at `offset`, and leaves the
/// cache coherent with the device.
pub proof fn lemma_write_transfer(
    bs: int,
    dev: Seq<u8>,
    cached: Option<u32>,
    cache: Seq<u8>,
    t: BlockTransfer,
    src: Seq<u8>,
)
    requires
        bs > 0,
        (dev.len() as int) % bs == 0,
        transfer_ok(t),
        src.len() == t.len,
        t.offset + (t.len - t.pos) <= dev.len(),
        cache_coherent(cached, cache, dev, bs),
    ensures
        ({
            let r = spec_write_steps(bs, dev, cached, cache, t, src);
            &&& r.0 == device_written(dev, t.offset as int, src.subrange(t.pos as int, t.len as int))
            &&& cache_coherent(r.1, r.2, r.0, bs)
        }),
    decreases t.len - t.pos,
{
    let r = spec_write_steps(bs, dev, cached, cache, t, src);
    match spec_next_step(bs, t) {
        None => {
            assert(src.subrange(t.pos as int, t.len as int) =~= Seq::<u8>::empty());
            assert(device_written(dev, t.offset as int, Seq::<u8>::empty()) =~= dev);
        },
        Some(step) => {
            lemma_step_facts(bs, t);
            let n = step.spec_len() as int;
            let piece = src.subrange(t.pos as int, t.pos + n);
            let rest = src.subrange(t.pos + n, t.len as int);
            let t2 = advanced(t, n);
            lemma_advanced_ok(t, n);
            assert(piece + rest =~= src.subrange(t.pos as int, t.len as int));
            lemma_written_compose(dev, t.offset as int, piece, rest);
            match step {
                TransferStep::Whole { block, count, len } => {
                    let dev1 = device_written(dev, block * bs, piece);
                    lemma_whole_block_write_coherent(cached, cache, dev, bs, block, count as int, piece);
                    lemma_write_transfer(bs, dev1, invalidated(cached, block, count as int), cache, t2, src);
                },
                TransferStep::Partial { block, block_offset, len } => {
                    lemma_block_in_device(bs, dev.len() as int, block as int, t.offset as int);
                    let f = fetched(dev, bs, cached, cache, block);
                    assert(cache_coherent(f.0, f.1, dev, bs));
                    let p = patched(f.1, block_offset as int, piece);
                    lemma_patched_block_write_coherent(block, f.1, dev, bs, block_offset as int, piece);
                    lemma_patch_is_piece_write(dev, bs, block as int, f.1, block_offset as int, piece);
                    let dev1 = device_written(dev, block * bs, p);
                    lemma_write_transfer(bs, dev1, f.0, p, t2, src);
                },
            }
        },
    }
}

/// A read through the adapter returns exactly the device bytes `offset..offset + (len - pos)`,
/// and leaves the cache coherent with the device.
pub proof fn lemma_read_transfer(bs: int, dev: Seq<u8>, cached: Option<u32>, cache: Seq<u8>, t: BlockTransfer)
    requires
        bs > 0,
        (dev.len() as int) % bs == 0,
        transfer_ok(t),
        t.offset + (t.len - t.pos) <= dev.len(),
        cache_coherent(cached, cache, dev, bs),
    ensures
        ({
            let r = spec_read_steps(bs, dev, cached, cache, t);
            &&& r.0 == dev.subrange(t.offset as int, t.offset + (t.len - t.pos))
            &&& cache_coherent(r.1, r.2, dev, bs)
        }),
    decreases t.len - t.pos,
{
    match spec_next_step(bs, t) {
        None => {
            assert(dev.subrange(t.offset as int, t.offset + (t.len - t.pos)) =~= Seq::<u8>::empty());
        },
        Some(step) => {
            lemma_step_facts(bs, t);
            let n = step.spec_len() as int;
            let t2 = advanced(t, n);
            lemma_advanced_ok(t, n);
            let whole = dev.subrange(t.offset as int, t.offset + (t.len - t.pos));
            match step {
                TransferStep::Whole { block, count, len } => {
                    lemma_read_transfer(bs, dev, cached, cache, t2);
                    let rest = spec_read_steps(bs, dev, cached, cache, t2);
                    assert(dev.subrange(block * bs, block * bs + n) + rest.0 =~= whole);
                },
                TransferStep::Partial { block, block_offset, len } => {
                    lemma_block_in_device(bs, dev.len() as int, block as int, t.offset as int);
                    let f = fetched(dev, bs, cached, cache, block);
                    assert(cache_coherent(f.0, f.1, dev, bs));
                    lemma_cached_read_matches_device(block, f.1, dev, bs, block_offset as int, n);
                    lemma_read_transfer(bs, dev, f.0, f.1, t2);
                    let rest = spec_read_steps(bs, dev, f.0, f.1, t2);
                    assert(f.1.subrange(block_offset as int, block_offset + n) + rest.0 =~= whole);
                },
            }
        },
    }
}

/// Reading back what was just written through the adapter, at the same offset, returns
/// exactly the bytes written.
pub proof fn lemma_read_after_write(
    bs: int,
    dev: Seq<u8>,
    cached: Option<u32>,
    cache: Seq<u8>,
    offset: u32,
    src: Seq<u8>,
)
    requires
        bs > 0,
        (dev.len() as int) % bs == 0,
        offset + src.len() <= dev.len(),
        offset + src.len() <= u32::MAX,
        cache_coherent(cached, cache, dev, bs),
    ensures
        ({
            let t = BlockTransfer { offset, pos: 0, len: src.len() as usize };
            let w = spec_write_steps(bs, dev, cached, cache, t, src);
            spec_read_steps(bs, w.0, w.1, w.2, t).0 == src
        }),
{
    let t = BlockTransfer { offset, pos: 0, len: src.len() as usize };
    lemma_write_transfer(bs, dev, cached, cache, t, src);
    let w = spec_write_steps(bs, dev, cached, cache, t, src);
    assert(src.subrange(0, src.len() as int) =~= src);
    assert(w.0.len() == dev.len());
    lemma_read_transfer(bs, w.0, w.1, w.2, t);
    assert(w.0.subrange(offset as int, offset + src.len()) =~= src);
}

} // verus!
