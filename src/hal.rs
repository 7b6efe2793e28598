//! Interfaces the subsystem's users implement.
use vstd::prelude::*;

verus! {

/// Raw frame transport a user of the stack supplies.
pub trait NetWorkStackOp {
    /// Sends the frame `data`.
    fn write(data: &[u8]);

    /// Fills `data` with a received frame.
    fn read(data: &mut [u8]);
}

/// A device of fixed-size sectors.
pub trait BlockDevice {
    /// Reads the sector at `sector_offset` into `buf`.
    fn read_block(&mut self, sector_offset: usize, buf: &mut [u8]);

    /// Writes `buf` to the sector at `sector_offset`.
    fn write_block(&mut self, sector_offset: usize, buf: &[u8]);

    /// Handles the device's interrupt.
    fn handle_irq(&mut self);
}

} // verus!
