//! Reasons a command line is refused.
use vstd::prelude::*;

verus! {

/// Why a line could not be decoded into a command.
#[derive(Clone, Copy, Debug, PartialEq, Eq, Structural)]
pub enum DecodeError {
    /// The line holds no verb.
    EmptyInput,
    /// A verb that needs an argument came without one.
    MissingArgument,
    /// A text argument is not valid UTF-8.
    InvalidEncoding,
    /// A `PORT` argument has the wrong number of fields, or a field that is
    /// not a decimal number in `0..=255`.
    InvalidAddress,
    /// A `PORT` argument names a port that the port policy refuses.
    InvalidPort,
    /// A `TYPE` argument is absent or names no supported transfer type.
    InvalidTransferType,
}

} // verus!
