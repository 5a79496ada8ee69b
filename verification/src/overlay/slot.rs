//! RAM overlay slot representation and state management.

use vstd::prelude::*;

verus! {

/// A designated execution slot in microcontroller SRAM.
#[derive(Debug)]
pub struct OverlaySlot {
    /// Physical base address in SRAM. Machine code is written here.
    pub ram_addr: usize,
    /// Address the CPU branches to when executing code in this slot (defaults to
    /// `ram_addr`; may be an instruction-cache alias of the same memory).
    pub exec_addr: usize,
    /// Maximum capacity of this slot in bytes.
    pub capacity: usize,
    /// Currently loaded module ID, if any.
    pub resident_module: Option<u32>,
    /// Entry offset of currently resident module.
    pub entry_offset: u32,
    /// LRU access counter.
    pub generation: u64,
    /// If true, this slot is protected from automatic eviction.
    pub is_pinned: bool,
}

/// Address of the first byte of a slice. Nothing is promised of its value.
#[verifier::external_body]
fn slice_start_address(slice: &'static mut [u8]) -> usize {
    slice.as_mut_ptr() as usize
}

impl OverlaySlot {
    /// An empty, unpinned slot over `capacity` bytes at `ram_addr`, executed in place.
    pub open spec fn is_fresh(self, ram_addr: usize, capacity: usize) -> bool {
        &&& self.ram_addr == ram_addr
        &&& self.exec_addr == ram_addr
        &&& self.capacity == capacity
        &&& self.resident_module is None
        &&& self.entry_offset == 0
        &&& self.generation == 0
        &&& !self.is_pinned
    }

    /// A slot over `capacity` bytes of RAM at `ram_addr`, executed in place. Nothing here
    /// checks the address: the memory is the caller's to provide, writable and executable,
    /// for as long as the slot is used.
    pub fn new_raw(ram_addr: usize, capacity: usize) -> (r: Self)
        ensures
            r.is_fresh(ram_addr, capacity),
    {
        OverlaySlot {
            ram_addr,
            exec_addr: ram_addr,
            capacity,
            resident_module: None,
            entry_offset: 0,
            generation: 0,
            is_pinned: false,
        }
    }

    /// Creates an overlay slot from a static mutable byte slice.
    pub fn from_static_slice(slice: &'static mut [u8]) -> (r: Self)
        ensures
            r.is_fresh(r.ram_addr, old(slice)@.len() as usize),
    {
        let capacity = slice.len();
        let ram_addr = slice_start_address(slice);
        OverlaySlot {
            ram_addr,
            exec_addr: ram_addr,
            capacity,
            resident_module: None,
            entry_offset: 0,
            generation: 0,
            is_pinned: false,
        }
    }

    /// Sets a distinct execution address for this slot.
    pub fn with_exec_addr(self, exec_addr: usize) -> (r: Self)
        ensures
            r == (OverlaySlot { exec_addr, ..self }),
    {
        let mut s = self;
        s.exec_addr = exec_addr;
        s
    }

    /// Sets the execution address in place.
    pub fn set_exec_addr(&mut self, exec_addr: usize)
        ensures
            *final(self) == (OverlaySlot { exec_addr, ..*old(self) }),
    {
        self.exec_addr = exec_addr;
    }

    /// Checks if a given module ID is currently resident in this slot.
    pub fn is_resident(&self, module_id: u32) -> (r: bool)
        ensures
            r == (self.resident_module == Some(module_id)),
    {
        match self.resident_module {
            Some(m) => m == module_id,
            None => false,
        }
    }

    /// Evicts the current resident module, marking the slot empty.
    pub fn evict(&mut self)
        ensures
            *final(self) == (OverlaySlot { resident_module: None, entry_offset: 0, ..*old(self) }),
    {
        self.resident_module = None;
        self.entry_offset = 0;
    }

    /// Pins the slot to prevent LRU eviction.
    pub fn pin(&mut self)
        ensures
            *final(self) == (OverlaySlot { is_pinned: true, ..*old(self) }),
    {
        self.is_pinned = true;
    }

    /// Unpins the slot, allowing LRU eviction.
    pub fn unpin(&mut self)
        ensures
            *final(self) == (OverlaySlot { is_pinned: false, ..*old(self) }),
    {
        self.is_pinned = false;
    }
}

} // verus!
