//! A bytecode virtual machine for an extended, stack-free esoteric language:
//! a paginated 16-bit data tape with private workspace pages, a peripheral
//! address-space multiplexer, and a program loader that precomputes loop and
//! filler-skip jump targets.

/// The paginated data tape and its workspace ring.
pub mod data_tape;
/// The peripheral trait and the peripheral tape multiplexer.
pub mod peripheral_tape;
/// The virtual machine: program compilation, jump maps, and execution.
pub mod virtual_machine;
/// The errors shared by every component.
pub mod virtual_machine_errors;
