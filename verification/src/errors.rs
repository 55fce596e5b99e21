//! The fatal error kinds of the emulator. A correct kernel never raises one;
//! the emulator makes no attempt at recovery and reports the first fault.
use vstd::prelude::*;

verus! {

/// Why the emulator stopped. Every kind is a programmer error of the kernel
/// under test, not a runtime condition to recover from.
#[derive(Debug, Clone, Copy, PartialEq, Eq, Structural)]
pub enum EmuError {
    /// An instruction word or field the decoder cannot classify: an unknown
    /// load-immediate sub-code, a branch condition outside the taxonomy, or a
    /// small immediate past the 6-bit field.
    Decode,
    /// A 32-bit memory or VPM access whose address has a low bit set.
    Alignment,
    /// An operand outside its table: a memory-mapped register address that is
    /// not enumerated, an operation code naming no operation, or a condition
    /// code naming no condition.
    AddressRange,
    /// A flat-memory or VPM access beyond the end of its buffer.
    MemBounds,
    /// An operation or peripheral mode this emulator leaves unimplemented
    /// (packed 8-bit saturating ops, vertical DMA, sub-32-bit VPM widths,
    /// block-mode stores, 2D/cube textures, reserved small immediates,
    /// broadcast writes on the A bank).
    Unimplemented,
    /// A texture request enqueued onto a full TMU0 FIFO.
    TmuOverflow,
    /// The same parameter tag written twice within one TMU0 request group.
    TmuDuplicate,
    /// A TMU0 FIFO drain that never dequeued an `s` parameter.
    TmuMissingS,
    /// A TMU0 parameter write with a masked-out lane.
    TmuMasked,
    /// Address arithmetic that left the 32-bit address space.
    PointerOverflow,
    /// The driver's step allowance ran out before the thread retired.
    StepLimit,
}

} // verus!
