use embedded_overlay::crc::crc32;
use embedded_overlay::error::OverlayError;
use embedded_overlay::header::{OverlayDirectory, OverlayDirectoryEntry, OverlayHeader};
use embedded_overlay::mock::MockFlash;
use embedded_overlay::overlay::{OverlayManager, OverlaySlot};
use embedded_overlay::registry::{ModuleRegistration, ModuleRegistry, MountAction, MountScan};

type Flash = MockFlash<65536, 4096>;

#[derive(Clone, Copy)]
struct VectorArgs {
    x: i32,
    y: i32,
}

fn vector_add(args: VectorArgs) -> i32 {
    args.x + args.y
}

fn vector_mult(args: VectorArgs) -> i32 {
    args.x * args.y
}

/// Writes an overlay container whose payload is the bytes of a function pointer.
fn write_overlay_module(flash: &mut Flash, offset: usize, module_id: u32, code: usize) {
    let code_bytes = code.to_le_bytes();
    let header = OverlayHeader::new(module_id, code_bytes.len() as u32, 0, 0, crc32(&code_bytes));
    flash.data_mut()[offset..offset + 32].copy_from_slice(&header.to_bytes());
    flash.data_mut()[offset + 32..offset + 32 + code_bytes.len()].copy_from_slice(&code_bytes);
}

/// Runs a discovery scan over `flash` from `base` and registers what it finds.
fn mount<const MAX: usize>(
    flash: &Flash,
    registry: &mut ModuleRegistry<MAX>,
    base: u32,
) -> Result<usize, OverlayError> {
    let mut first = [0u8; 32];
    flash.read(base, &mut first).map_err(|_| OverlayError::Storage)?;
    let (mut scan, mut action) = MountScan::start(base, MAX, &first);
    let count = loop {
        match action {
            MountAction::Read { offset, len } => {
                let mut buf = vec![0u8; len];
                let outcome = flash.read(offset, &mut buf).ok().map(|_| &buf[..]);
                action = scan.on_read(outcome);
            }
            MountAction::Finished(result) => break result?,
            MountAction::AddressOverflow => return Err(OverlayError::Storage),
        }
    };
    registry.register_modules(scan.found())?;
    Ok(count)
}

/// Loads `module_id` from the offset the registry gives for it.
fn load<const SLOTS: usize, const MAX: usize>(
    manager: &mut OverlayManager<Flash, SLOTS>,
    registry: &ModuleRegistry<MAX>,
    module_id: u32,
) -> Result<usize, OverlayError> {
    let offset = registry.find_offset(module_id).ok_or(OverlayError::ModuleNotFound(module_id))?;
    if let Some(slot) = manager.refresh_resident(module_id) {
        return Ok(slot);
    }
    let mut header = [0u8; 32];
    manager.storage().read(offset, &mut header).map_err(|_| OverlayError::Storage)?;
    let plan = manager.prepare_load(module_id, offset, &header)?;
    let mut code = vec![0u8; plan.code_len];
    manager.storage().read(plan.code_offset, &mut code).map_err(|_| OverlayError::Storage)?;
    manager.complete_load(&plan, &code)
}

/// The function whose address a slot's code bytes hold, applied to `args`.
fn run_loaded(slot: &[u8], args: VectorArgs) -> i32 {
    const N: usize = std::mem::size_of::<usize>();
    let mut word = [0u8; N];
    word.copy_from_slice(&slot[..N]);
    let addr = usize::from_le_bytes(word);
    let known: [fn(VectorArgs) -> i32; 2] = [vector_add, vector_mult];
    let f = known.iter().find(|f| **f as usize == addr).expect("loaded code is a known kernel");
    f(args)
}

fn ram_slot() -> OverlaySlot {
    OverlaySlot::from_static_slice(Box::leak(vec![0u8; 1024].into_boxed_slice()))
}

#[test]
fn test_engine_auto_mount_directory_and_sequential() {
    // Mode A: OverlayDirectory table
    let mut flash = Flash::new();

    let dir = OverlayDirectory::new(2, 32, 32 + 32 + 1024);
    flash.data_mut()[0..32].copy_from_slice(&dir.to_bytes());

    let entry1 = OverlayDirectoryEntry { module_id: 0x8001, flash_offset: 128, code_size: 8, crc32: 0 };
    let entry2 = OverlayDirectoryEntry { module_id: 0x8002, flash_offset: 256, code_size: 8, crc32: 0 };
    flash.data_mut()[32..48].copy_from_slice(&entry1.to_bytes());
    flash.data_mut()[48..64].copy_from_slice(&entry2.to_bytes());

    write_overlay_module(&mut flash, 128, 0x8001, (vector_add as fn(VectorArgs) -> i32) as usize);
    write_overlay_module(&mut flash, 256, 0x8002, (vector_mult as fn(VectorArgs) -> i32) as usize);

    let mut registry = ModuleRegistry::<16>::new();
    let count = mount(&flash, &mut registry, 0).expect("Auto-mount directory");
    assert_eq!(count, 2);
    assert_eq!(registry.find_offset(0x8001), Some(128));
    assert_eq!(registry.find_offset(0x8002), Some(256));

    let slot = ram_slot();
    let mut manager = OverlayManager::<_, 1>::new(flash, [slot]);
    let idx = load(&mut manager, &registry, 0x8001).unwrap();
    assert_eq!(idx, 0);
    assert!(manager.is_resident(0x8001));
    let loaded = manager.storage().data()[128 + 32..128 + 40].to_vec();
    let res = run_loaded(&loaded, VectorArgs { x: 7, y: 8 });
    assert_eq!(res, 15);

    // Mode B: Sequential OVL1 containers
    let mut flash_seq = Flash::new();
    write_overlay_module(&mut flash_seq, 0, 0x8001, (vector_add as fn(VectorArgs) -> i32) as usize);
    // OverlayHeader (32) + usize (8) = 40 bytes
    write_overlay_module(&mut flash_seq, 40, 0x8002, (vector_mult as fn(VectorArgs) -> i32) as usize);

    let mut registry_seq = ModuleRegistry::<16>::new();
    let count_seq = mount(&flash_seq, &mut registry_seq, 0).expect("Auto-mount sequential");
    assert_eq!(count_seq, 2);
    assert_eq!(registry_seq.find_offset(0x8001), Some(0));
    assert_eq!(registry_seq.find_offset(0x8002), Some(40));

    let slot_b = ram_slot();
    let mut manager_seq = OverlayManager::<_, 1>::new(flash_seq, [slot_b]);
    load(&mut manager_seq, &registry_seq, 0x8002).unwrap();
    assert!(manager_seq.is_resident(0x8002));
    let loaded = manager_seq.storage().data()[40 + 32..40 + 40].to_vec();
    let res_mult = run_loaded(&loaded, VectorArgs { x: 6, y: 7 });
    assert_eq!(res_mult, 42);
}

#[test]
fn mount_rejects_unknown_magic() {
    let flash = Flash::new();
    let mut registry = ModuleRegistry::<4>::new();
    assert_eq!(mount(&flash, &mut registry, 0), Err(OverlayError::InvalidMagic));
    assert_eq!(registry.find_offset(0), None);
}

#[test]
fn mount_directory_stops_at_capacity() {
    let mut flash = Flash::new();
    let dir = OverlayDirectory::new(3, 32, 96);
    flash.data_mut()[0..32].copy_from_slice(&dir.to_bytes());
    for i in 0..3u32 {
        let e = OverlayDirectoryEntry { module_id: 0x10 + i, flash_offset: 0x100 * (i + 1), code_size: 4, crc32: 0 };
        let at = 32 + 16 * i as usize;
        flash.data_mut()[at..at + 16].copy_from_slice(&e.to_bytes());
    }
    let mut registry = ModuleRegistry::<2>::new();
    assert_eq!(mount(&flash, &mut registry, 0), Ok(2));
    assert_eq!(registry.find_offset(0x10), Some(0x100));
    assert_eq!(registry.find_offset(0x11), Some(0x200));
    assert_eq!(registry.find_offset(0x12), None);
}

#[test]
fn mount_empty_directory_finds_nothing() {
    let mut flash = Flash::new();
    flash.data_mut()[0..32].copy_from_slice(&OverlayDirectory::new(0, 32, 32).to_bytes());
    let mut registry = ModuleRegistry::<4>::new();
    assert_eq!(mount(&flash, &mut registry, 0), Ok(0));
}

#[test]
fn mount_directory_with_bad_crc_fails() {
    let mut flash = Flash::new();
    let mut bytes = OverlayDirectory::new(1, 32, 48).to_bytes();
    bytes[6] ^= 1;
    flash.data_mut()[0..32].copy_from_slice(&bytes);
    let mut registry = ModuleRegistry::<4>::new();
    assert_eq!(mount(&flash, &mut registry, 0), Err(OverlayError::HeaderChecksumMismatch));
}

#[test]
fn mount_sequential_pads_to_four_bytes() {
    let mut flash = Flash::new();
    // 5-byte payload: the next container starts at 32 + 8 = 40.
    let payload = [1u8, 2, 3, 4, 5];
    let h = OverlayHeader::new(0x31, 5, 0, 0, crc32(&payload));
    flash.data_mut()[0..32].copy_from_slice(&h.to_bytes());
    flash.data_mut()[32..37].copy_from_slice(&payload);
    write_overlay_module(&mut flash, 40, 0x32, 0x1234);
    let mut registry = ModuleRegistry::<4>::new();
    assert_eq!(mount(&flash, &mut registry, 0), Ok(2));
    assert_eq!(registry.find_offset(0x31), Some(0));
    assert_eq!(registry.find_offset(0x32), Some(40));
}

#[test]
fn mount_scan_start_and_steps() {
    let mut first = [0u8; 32];
    first.copy_from_slice(&OverlayDirectory::new(2, 32, 64).to_bytes());
    let (mut scan, action) = MountScan::start(100, 8, &first);
    assert_eq!(action, MountAction::Read { offset: 132, len: 16 });
    let e = OverlayDirectoryEntry { module_id: 7, flash_offset: 700, code_size: 0, crc32: 0 };
    assert_eq!(scan.on_read(Some(&e.to_bytes())), MountAction::Read { offset: 148, len: 16 });
    // A failed entry read ends the scan with a storage error.
    assert_eq!(scan.on_read(None), MountAction::Finished(Err(OverlayError::Storage)));
    assert_eq!(scan.found(), &[ModuleRegistration { module_id: 7, flash_offset: 700 }]);
}

#[test]
fn registry_register_find_and_full() {
    let mut registry = ModuleRegistry::<2>::new();
    assert_eq!(registry.find_offset(1), None);
    registry.register_module(1, 0x100).unwrap();
    registry.register_module(2, 0x200).unwrap();
    assert_eq!(registry.find_offset(1), Some(0x100));
    assert_eq!(registry.find_offset(2), Some(0x200));
    // Re-registering an ID updates its offset in place.
    registry.register_module(1, 0x180).unwrap();
    assert_eq!(registry.find_offset(1), Some(0x180));
    // No room for a third ID.
    assert_eq!(registry.register_module(3, 0x300), Err(OverlayError::Storage));
    assert_eq!(registry.find_offset(3), None);
}

#[test]
fn registry_register_modules_stops_at_first_failure() {
    let mut registry = ModuleRegistry::<1>::new();
    let ms = [
        ModuleRegistration { module_id: 5, flash_offset: 50 },
        ModuleRegistration { module_id: 6, flash_offset: 60 },
        ModuleRegistration { module_id: 5, flash_offset: 55 },
    ];
    assert_eq!(registry.register_modules(&ms), Err(OverlayError::Storage));
    assert_eq!(registry.find_offset(5), Some(50));
    assert_eq!(registry.find_offset(6), None);
}
