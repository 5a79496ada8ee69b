# embedded_overlay

Code overlays and asset streaming for microcontrollers whose code and data outgrow on-chip
flash: machine code and assets live on external NOR flash or SD cards and are brought into
RAM on demand.

## Layout

- `src/` — the verified library (Verus). Binary formats (overlay containers, overlay
  directories, VFS superblocks and index records, dual-flash bundles), CRC32 and FNV-1a,
  overlay slot management with LRU eviction and pinning, the module registry and partition
  discovery scan, the VFS index search and chunk planning, the LRU sector cache, partition
  and block-device address translation, an in-memory NOR flash, image packing and the
  bootloader's vector-table check. Storage access is left to the caller: the library decides
  what to read or write next and checks what came back.
- `tests/` — tests of the library on concrete values, including SD-card and
  `sequential-storage` scenarios.
- `app/` — the runtime around the library: async NOR-flash drivers, overlay loading into
  RAM and calling into it, the Embassy engine and shared storage bus, slot allocation and
  overlay macros, the packing tool, linker script generation and the bootloader hand-over.
