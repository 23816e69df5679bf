//! The interrupt vectors that the two chained interrupt controllers raise.

use vstd::prelude::*;

verus! {

/// The first vector of the primary controller. The vectors below it belong
/// to the processor's own exceptions.
pub const PIC_1_OFFSET: u8 = 32;

/// The first vector of the secondary controller.
pub const PIC_2_OFFSET: u8 = PIC_1_OFFSET + 8;

/// A hardware interrupt, known by the line it arrives on.
#[derive(Debug, Clone, Copy, PartialEq, Eq, Structural)]
pub enum InterruptIndex {
    /// Line 0 of the primary controller.
    Timer,
    /// Line 1 of the primary controller.
    Keyboard,
}

impl InterruptIndex {
    /// The vector of this interrupt: the primary controller's first vector
    /// plus the number of the line.
    pub open spec fn vector(self) -> u8 {
        match self {
            InterruptIndex::Timer => PIC_1_OFFSET,
            InterruptIndex::Keyboard => (PIC_1_OFFSET + 1) as u8,
        }
    }

    /// The vector of this interrupt.
    pub fn as_u8(self) -> (vector: u8)
        ensures
            vector == self.vector(),
            PIC_1_OFFSET <= vector < PIC_2_OFFSET,
    {
        match self {
            InterruptIndex::Timer => PIC_1_OFFSET,
            InterruptIndex::Keyboard => PIC_1_OFFSET + 1,
        }
    }

    /// The vector of this interrupt, as an index into the descriptor table.
    pub fn as_usize(self) -> (vector: usize)
        ensures
            vector == self.vector(),
    {
        self.as_u8() as usize
    }
}

} // verus!
