//! Multiprocessor-bringup core of a small kernel: parsing of the firmware
//! tables that describe the machine's processors, the boot-time physical
//! frame allocator, and the pure decision logic behind starting additional
//! processor cores.
//!
//! Everything here works on plain values (byte buffers, addresses, ids).
//! The thin shell that touches real hardware lives outside the library.

use vstd::prelude::*;

pub mod ap_init;
pub mod bytes;
pub mod local_apic;
pub mod madt;
pub mod memory;
pub mod pio;
pub mod rsdp;

verus! {

/// Virtual address at which the whole of physical memory is mapped.
pub const PHYS_OFFSET: u64 = 0x0000_4000_0000_0000;

} // verus!
