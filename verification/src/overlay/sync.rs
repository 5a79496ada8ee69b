//! Instruction-memory synchronization after dynamic code is written, and Thumb-2
//! address rules.

use vstd::prelude::*;

verus! {

/// Orders the stores that wrote machine code before any later instruction fetch, as far
/// as the compiler is concerned (a sequentially consistent compiler fence).
#[verifier::external_body]
pub fn sync_instruction_memory() {
    core::sync::atomic::compiler_fence(core::sync::atomic::Ordering::SeqCst);
}

/// Hardware hook that makes freshly written machine code visible to instruction fetch.
///
/// The overlay manager invokes `code_loaded` exactly once per module load, after the
/// payload CRC has been verified and before the slot is marked resident, and never on a
/// failed load or on a request for a module that is already resident.
pub trait InstructionCacheSync: Sized {
    /// The hook's state after one more synchronization.
    spec fn synced(&self) -> Self;

    /// Called after a slot has been populated with new machine code.
    fn code_loaded(&mut self)
        ensures
            *final(self) == old(self).synced(),
    ;
}

/// The hook of a manager built with `OverlayManager::new`: it holds no state, and orders
/// the code stores with a compiler fence only. Cores that need `DSB`/`ISB` or cache
/// maintenance supply their own hook through `OverlayManager::with_sync`.
impl InstructionCacheSync for () {
    open spec fn synced(&self) -> Self {
        ()
    }

    fn code_loaded(&mut self) {
        sync_instruction_memory();
    }
}

/// Thumb-2 placement rule: the slot address is word aligned and the entry offset is
/// halfword aligned.
pub open spec fn thumb_aligned(addr: usize, entry_offset: usize) -> bool {
    addr % 4 == 0 && entry_offset % 2 == 0
}

/// Validates that a RAM address and entry point meet Thumb-2 alignment rules.
pub fn validate_thumb_alignment(addr: usize, entry_offset: usize) -> (r: bool)
    ensures
        r == thumb_aligned(addr, entry_offset),
{
    if addr % 4 != 0 {
        return false;
    }
    if entry_offset % 2 != 0 {
        return false;
    }
    true
}

/// Converts an entry address into a Thumb-mode branch target by setting its least
/// significant bit.
pub fn make_thumb_entry(addr: usize) -> (r: usize)
    ensures
        r == (if addr % 2 == 0 { addr + 1 } else { addr as int }),
{
    if addr % 2 == 0 {
        addr + 1
    } else {
        addr
    }
}

} // verus!
