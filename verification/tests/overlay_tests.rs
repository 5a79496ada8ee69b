use embedded_overlay::crc::crc32;
use embedded_overlay::header::OverlayHeader;
use embedded_overlay::mock::MockFlash;
use embedded_overlay::overlay::{InstructionCacheSync, OverlayManager, OverlaySlot};
use embedded_overlay::error::OverlayError;

type Flash = MockFlash<65536, 4096>;

const ADD_MODULE_ID: u32 = 0x1001;
const MUL_MODULE_ID: u32 = 0x1002;
const HEAVY_MODULE_ID: u32 = 0x1003;

#[derive(Clone, Copy)]
struct BinaryArgs {
    a: i32,
    b: i32,
}

fn add_numbers(args: BinaryArgs) -> i32 {
    args.a + args.b
}

fn multiply_numbers(args: BinaryArgs) -> i32 {
    args.a * args.b
}

/// A fresh 64-byte RAM slot.
fn ram_slot() -> OverlaySlot {
    OverlaySlot::from_static_slice(Box::leak(vec![0u8; 64].into_boxed_slice()))
}

/// Writes an overlay container (header + the function pointer's bytes as payload).
fn write_overlay_to_flash(
    flash: &mut Flash,
    offset: u32,
    module_id: u32,
    code_fn: fn(BinaryArgs) -> i32,
) {
    let fn_ptr = code_fn as usize;
    let code_bytes = fn_ptr.to_le_bytes();
    let payload_crc = crc32(&code_bytes);
    let header = OverlayHeader::new(module_id, code_bytes.len() as u32, 0, 0, payload_crc);
    let header_bytes = header.to_bytes();
    let offset = offset as usize;
    flash.data_mut()[offset..offset + OverlayHeader::SIZE].copy_from_slice(&header_bytes);
    flash.data_mut()[offset + OverlayHeader::SIZE..offset + OverlayHeader::SIZE + code_bytes.len()]
        .copy_from_slice(&code_bytes);
}

/// Ensures `module_id` is resident: renews it if it is, else reads its header, streams
/// its payload and completes the load.
fn ensure_resident<const SLOTS: usize, B: InstructionCacheSync>(
    manager: &mut OverlayManager<Flash, SLOTS, B>,
    module_id: u32,
    flash_offset: u32,
) -> Result<usize, OverlayError> {
    if let Some(slot) = manager.refresh_resident(module_id) {
        return Ok(slot);
    }
    let mut header = [0u8; 32];
    manager.storage().read(flash_offset, &mut header).map_err(|_| OverlayError::Storage)?;
    let plan = manager.prepare_load(module_id, flash_offset, &header)?;
    let mut code = vec![0u8; plan.code_len];
    manager.storage().read(plan.code_offset, &mut code).map_err(|_| OverlayError::Storage)?;
    manager.complete_load(&plan, &code)
}

#[test]
fn test_overlay_loading_and_lru() {
    let mut flash = Flash::new();
    write_overlay_to_flash(&mut flash, 0, ADD_MODULE_ID, add_numbers);
    write_overlay_to_flash(&mut flash, 256, MUL_MODULE_ID, multiply_numbers);
    write_overlay_to_flash(&mut flash, 512, HEAVY_MODULE_ID, add_numbers);

    let slots = [ram_slot(), ram_slot()];
    let mut manager = OverlayManager::<_, 2>::new(flash, slots);

    // Initial state: nothing resident
    assert!(!manager.is_resident(ADD_MODULE_ID));
    assert!(!manager.is_resident(MUL_MODULE_ID));

    // Load Module 1 -> should go to Slot 0
    let slot1 = ensure_resident(&mut manager, ADD_MODULE_ID, 0).expect("Load module 1");
    assert_eq!(slot1, 0);
    assert!(manager.is_resident(ADD_MODULE_ID));

    // Load Module 2 -> should go to Slot 1 (Slot 0 is occupied)
    let slot2 = ensure_resident(&mut manager, MUL_MODULE_ID, 256).expect("Load module 2");
    assert_eq!(slot2, 1);
    assert!(manager.is_resident(MUL_MODULE_ID));

    // Querying resident modules does not reload
    let slot1_again =
        ensure_resident(&mut manager, ADD_MODULE_ID, 0).expect("Module 1 already resident");
    assert_eq!(slot1_again, 0);

    // Slot 0 was used more recently than Slot 1, so loading Module 3 evicts Slot 1.
    let slot3 = ensure_resident(&mut manager, HEAVY_MODULE_ID, 512)
        .expect("Load module 3 with LRU eviction");
    assert_eq!(slot3, 1);
    assert!(manager.is_resident(HEAVY_MODULE_ID));
    assert!(!manager.is_resident(MUL_MODULE_ID));
    assert!(manager.is_resident(ADD_MODULE_ID));
}

#[test]
fn test_overlay_crc_corruption_detection() {
    let mut flash = Flash::new();
    write_overlay_to_flash(&mut flash, 0, ADD_MODULE_ID, add_numbers);

    // Corrupt 1 byte in the payload area
    flash.data_mut()[OverlayHeader::SIZE] ^= 0xAA;

    let slots = [ram_slot()];
    let mut manager = OverlayManager::<_, 1>::new(flash, slots);

    let result = ensure_resident(&mut manager, ADD_MODULE_ID, 0);
    match result {
        Err(OverlayError::PayloadCrcMismatch { .. }) => {}
        other => panic!("Expected PayloadCrcMismatch, got {:?}", other),
    }

    // Corrupted module must NOT be marked resident
    assert!(!manager.is_resident(ADD_MODULE_ID));
}

#[test]
fn test_overlay_slot_pinning() {
    let mut flash = Flash::new();
    write_overlay_to_flash(&mut flash, 0, ADD_MODULE_ID, add_numbers);
    write_overlay_to_flash(&mut flash, 256, MUL_MODULE_ID, multiply_numbers);
    write_overlay_to_flash(&mut flash, 512, HEAVY_MODULE_ID, add_numbers);

    let slots = [ram_slot(), ram_slot()];
    let mut manager = OverlayManager::<_, 2>::new(flash, slots);

    // Load Module 1 in Slot 0 and PIN it
    ensure_resident(&mut manager, ADD_MODULE_ID, 0).unwrap();
    manager.pin_slot(0).unwrap();

    // Load Module 2 in Slot 1
    ensure_resident(&mut manager, MUL_MODULE_ID, 256).unwrap();

    // Slot 0 is older but PINNED, so Slot 1 must be evicted.
    let slot3 = ensure_resident(&mut manager, HEAVY_MODULE_ID, 512).unwrap();
    assert_eq!(slot3, 1);
    assert!(manager.is_resident(ADD_MODULE_ID)); // Slot 0 protected!
    assert!(manager.is_resident(HEAVY_MODULE_ID));
    assert!(!manager.is_resident(MUL_MODULE_ID));
}

/// Instruction-synchronization hook that counts how often the manager invokes it.
struct CountingSync {
    calls: u32,
}

impl InstructionCacheSync for CountingSync {
    fn synced(&self) -> Self {
        CountingSync { calls: self.calls + 1 }
    }

    fn code_loaded(&mut self) {
        self.calls += 1;
    }
}

#[test]
fn test_instruction_sync_hook_invoked_once_per_load() {
    let mut flash = Flash::new();
    write_overlay_to_flash(&mut flash, 0, ADD_MODULE_ID, add_numbers);
    write_overlay_to_flash(&mut flash, 256, MUL_MODULE_ID, multiply_numbers);

    let slots = [ram_slot(), ram_slot()];
    let mut manager = OverlayManager::<_, 2, _>::with_sync(flash, slots, CountingSync { calls: 0 });
    assert_eq!(manager.sync().calls, 0);

    // First load must synchronize exactly once.
    ensure_resident(&mut manager, ADD_MODULE_ID, 0).unwrap();
    assert_eq!(manager.sync().calls, 1);

    // A resident module is not reloaded, so no further synchronization must happen.
    ensure_resident(&mut manager, ADD_MODULE_ID, 0).unwrap();
    assert_eq!(manager.sync().calls, 1);

    // Loading a different module synchronizes again.
    ensure_resident(&mut manager, MUL_MODULE_ID, 256).unwrap();
    assert_eq!(manager.sync().calls, 2);
}

#[test]
fn test_exec_addr_is_validated_not_ram_addr() {
    let mut flash = Flash::new();
    write_overlay_to_flash(&mut flash, 0, ADD_MODULE_ID, add_numbers);

    // Execution through a misaligned alias must be rejected even though the physical SRAM
    // address itself is aligned.
    let slot = ram_slot().with_exec_addr(0x1000_0002);

    let mut manager = OverlayManager::<_, 1>::new(flash, [slot]);
    let result = ensure_resident(&mut manager, ADD_MODULE_ID, 0);
    assert!(
        matches!(result, Err(OverlayError::InvalidAlignment)),
        "expected InvalidAlignment, got {:?}",
        result
    );
}

#[test]
fn test_wrong_module_id_and_bad_header_rejected() {
    let mut flash = Flash::new();
    write_overlay_to_flash(&mut flash, 0, ADD_MODULE_ID, add_numbers);
    let mut manager = OverlayManager::<_, 1>::new(flash, [ram_slot()]);

    // The container at 0 holds another module.
    assert_eq!(
        ensure_resident(&mut manager, MUL_MODULE_ID, 0),
        Err(OverlayError::ModuleNotFound(MUL_MODULE_ID))
    );
    // Erased flash has no header magic.
    assert_eq!(ensure_resident(&mut manager, ADD_MODULE_ID, 4096), Err(OverlayError::InvalidMagic));
    // A flipped header byte breaks the header CRC.
    manager.storage_mut().data_mut()[10] ^= 0x01;
    assert_eq!(
        ensure_resident(&mut manager, ADD_MODULE_ID, 0),
        Err(OverlayError::HeaderChecksumMismatch)
    );
}

#[test]
fn test_slot_too_small_and_all_slots_pinned() {
    let mut flash = Flash::new();
    let payload = [0x11u8; 100];
    let header = OverlayHeader::new(0x42, 100, 0, 0, crc32(&payload));
    flash.data_mut()[0..32].copy_from_slice(&header.to_bytes());
    flash.data_mut()[32..132].copy_from_slice(&payload);
    let mut manager = OverlayManager::<_, 1>::new(flash, [ram_slot()]);
    assert_eq!(
        ensure_resident(&mut manager, 0x42, 0),
        Err(OverlayError::SlotTooSmall { required: 100, available: 64 })
    );

    manager.pin_slot(0).unwrap();
    assert_eq!(ensure_resident(&mut manager, 0x42, 0), Err(OverlayError::InvalidSlotIndex));
    assert_eq!(manager.pin_slot(1), Err(OverlayError::InvalidSlotIndex));
    assert_eq!(manager.unpin_slot(3), Err(OverlayError::InvalidSlotIndex));
}

#[test]
fn test_evict_and_callable_slot() {
    let mut flash = Flash::new();
    write_overlay_to_flash(&mut flash, 0, ADD_MODULE_ID, add_numbers);
    let mut manager = OverlayManager::<_, 1>::new(flash, [ram_slot()]);
    let slot = ensure_resident(&mut manager, ADD_MODULE_ID, 0).unwrap();
    assert_eq!(manager.find_resident_slot(ADD_MODULE_ID), Some(0));
    assert!(manager.callable_slot(slot, ADD_MODULE_ID).is_ok());
    assert_eq!(
        manager.callable_slot(slot, MUL_MODULE_ID).err(),
        Some(OverlayError::ModuleNotFound(MUL_MODULE_ID))
    );
    assert_eq!(manager.callable_slot(5, ADD_MODULE_ID).err(), Some(OverlayError::InvalidSlotIndex));
    assert!(manager.evict(ADD_MODULE_ID));
    assert!(!manager.evict(ADD_MODULE_ID));
    assert!(!manager.is_resident(ADD_MODULE_ID));
    assert_eq!(manager.slots()[0].entry_offset, 0);
}

#[test]
fn load_check_agrees_with_prepare_load() {
    let mut flash = Flash::new();
    write_overlay_to_flash(&mut flash, 0, ADD_MODULE_ID, add_numbers);
    let slots = [ram_slot()];
    let manager = OverlayManager::<_, 1>::new(flash, slots);
    let mut header = [0u8; 32];
    manager.storage().read(0, &mut header).unwrap();
    assert_eq!(manager.load_check(ADD_MODULE_ID, &header), Ok(()));
    assert!(manager.prepare_load(ADD_MODULE_ID, 0, &header).is_ok());
    assert_eq!(
        manager.load_check(MUL_MODULE_ID, &header),
        Err(OverlayError::ModuleNotFound(MUL_MODULE_ID))
    );
    assert_eq!(
        manager.prepare_load(MUL_MODULE_ID, 0, &header).map(|p| p.slot_idx),
        Err(OverlayError::ModuleNotFound(MUL_MODULE_ID))
    );
    header[0] = 0;
    assert_eq!(manager.load_check(ADD_MODULE_ID, &header), Err(OverlayError::InvalidMagic));
}
