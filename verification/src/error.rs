//! Errors of the driver.
use vstd::prelude::*;

verus! {

/// Why bringing up the chip failed, on a bus that fails with an `E`.
#[derive(Debug, Clone, PartialEq)]
pub enum Error<E> {
    /// The bus failed.
    Transport(E),
    /// The chip is not a BMI270; this is the chip ID that it gave.
    ChipId(u8),
    /// The firmware did not start.
    BadInit,
    /// The chip did not get ready for a command.
    CmdTimeout,
}

impl<E> From<E> for Error<E> {
    /// A failure of the bus as an error of the driver.
    fn from(value: E) -> (error: Self) {
        Error::Transport(value)
    }
}

impl<E> vstd::std_specs::convert::FromSpecImpl<E> for Error<E> {
    open spec fn obeys_from_spec() -> bool {
        true
    }

    open spec fn from_spec(value: E) -> Self {
        Error::Transport(value)
    }
}

} // verus!
