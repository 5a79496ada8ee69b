//! Verified core of an overlay and asset-streaming runtime for microcontrollers: binary
//! container formats, integrity checks, overlay slot management, sector caching, partition
//! and block-device address translation, and host-side image packing.

pub mod crc;
pub mod wire;
pub mod error;
pub mod header;
pub mod bundle;
pub mod overlay;
pub mod vfs;
pub mod partition;
pub mod mock;
pub mod block;
pub mod transfer;
pub mod registry;
pub mod mount;
pub mod pack;
pub mod boot;
