//! Reboot into the Adafruit UF2 bootloader.
//!
//! On a panic or a HardFault the firmware writes [`DFU_MAGIC_UF2_RESET`] to the
//! nRF `POWER.GPREGRET` register at [`GPREGRET_ADDR`] and resets the system; the
//! bootloader reads the magic and re-enumerates the NICENANO drive.
use vstd::prelude::*;

verus! {

/// Address of `NRF_POWER->GPREGRET`.
pub const GPREGRET_ADDR: usize = 0x4000_051C;

/// `DFU_MAGIC_UF2_RESET` of the Adafruit nRF52 bootloader.
pub const DFU_MAGIC_UF2_RESET: u32 = 0x57;

} // verus!
