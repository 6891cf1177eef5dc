use vstd::prelude::*;

verus! {

/// Every failure the virtual machine core can report. Construction errors
/// (`OverlappingPeripheralAddresses`, `UnmatchedLoopParentheses`) prevent the
/// system from reaching a runnable state; the others abort the current step
/// and are surfaced to the caller verbatim.
#[derive(Clone, Copy, Debug, PartialEq, Eq, Structural)]
pub enum VMErrKind {
    /// An ordinary-page access whose page register is at or past the
    /// configured page limit: carries the page and the limit.
    InvalidPage(u16, u32),
    /// A device or hook signaled failure while servicing I/O: carries the
    /// value and the address involved.
    PeripheralIOErr(u16, u16),
    /// Construction-time overlap between the device index range and the
    /// native-hook address set: carries the device count and the smallest
    /// native-hook address.
    OverlappingPeripheralAddresses(usize, u32),
    /// No device or hook owns the addressed peripheral slot.
    InvalidPeripheralTapeAccess(u16),
    /// A loop bracket without a partner: carries its position.
    UnmatchedLoopParentheses(usize),
}

} // verus!
