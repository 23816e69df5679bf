//! Values that are handed to the machine or come back from it, apart from
//! the instructions that move them.

use vstd::prelude::*;

verus! {

/// The port of the emulator's exit device.
pub const QEMU_EXIT_PORT: u16 = 0xf4;

/// What the emulator is told when the kernel asks it to exit.
#[derive(Debug, Clone, Copy, PartialEq, Eq, Structural)]
pub enum QemuExitCode {
    Success,
    Failed,
}

impl QemuExitCode {
    /// The byte that stands for this exit code.
    pub open spec fn code(self) -> u8 {
        match self {
            QemuExitCode::Success => 0x10,
            QemuExitCode::Failed => 0x11,
        }
    }

    /// The byte to write to the exit device.
    pub fn as_u8(self) -> (byte: u8)
        ensures
            byte == self.code(),
    {
        match self {
            QemuExitCode::Success => 0x10,
            QemuExitCode::Failed => 0x11,
        }
    }
}

/// The time-stamp counter, put together from the two halves in which the
/// processor delivers it.
pub fn tsc_value(low: u32, high: u32) -> (tsc: u64)
    ensures
        tsc == low + high * 0x1_0000_0000,
{
    assert((low as u64) | ((high as u64) << 32) == low + high * 0x1_0000_0000) by (bit_vector);
    (low as u64) | ((high as u64) << 32)
}

} // verus!
