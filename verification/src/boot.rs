//! Bootloader rule for deciding whether an application image may be started: its vector
//! table must hold an initial stack pointer inside SRAM and a Thumb reset handler inside the
//! application flash window.

use vstd::prelude::*;

verus! {

/// Flash address where the application image (and its vector table) begins.
pub const APP_START_ADDR: usize = 0x0801_0000;

/// First SRAM address.
pub const RAM_START: u32 = 0x2000_0000;

/// End of SRAM (an initial stack pointer may equal it: the stack grows down).
pub const RAM_END: u32 = 0x2008_0000;

/// Lowest address an application reset handler may have.
pub const APP_FLASH_MIN: u32 = 0x0801_0000;

/// Highest address an application reset handler may have.
pub const APP_FLASH_MAX: u32 = 0x0820_0000;

/// The first two vector-table words describe a startable application.
pub open spec fn spec_vector_table_valid(initial_sp: u32, reset_handler: u32) -> bool {
    &&& RAM_START <= initial_sp <= RAM_END
    &&& APP_FLASH_MIN <= reset_handler <= APP_FLASH_MAX
    &&& reset_handler % 2 == 1
}

/// Checks the initial stack pointer and reset handler read from an application's vector
/// table: the stack pointer lies in SRAM, the reset handler in application flash with the
/// Thumb bit set.
pub fn vector_table_valid(initial_sp: u32, reset_handler: u32) -> (r: bool)
    ensures
        r == spec_vector_table_valid(initial_sp, reset_handler),
{
    if initial_sp < RAM_START || initial_sp > RAM_END {
        return false;
    }
    if reset_handler < APP_FLASH_MIN || reset_handler > APP_FLASH_MAX {
        return false;
    }
    if reset_handler % 2 == 0 {
        return false;
    }
    true
}

} // verus!
