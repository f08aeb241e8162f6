pub mod config;
pub mod definition;
pub mod execution;
pub mod forth;
pub mod kernels;
pub mod state;

use vstd::prelude::*;

pub use forth::Forth;
pub use state::{ForthState, InternalStateMemory, StateRegister};

verus! {

/// The result of an operation that produces nothing but may fail.
pub type ForthResult = Result<(), Error>;

/// Everything that can go wrong while running Forth code.
#[derive(Debug, PartialEq, Eq)]
pub enum Error {
    DivisionByZero,
    StackUnderflow,
    UnknownWord(String),
    InvalidWord,
    InvalidAddress,
    InvalidNumber,
    InvalidExecutionToken,
    AddressOutOfRange,
    InsufficientPermissions,
    NoMoreTokens,
    Exception(u64),
    InvalidSize,
    InsufficientMemory,
    /// Not a failure: the input stream has been read to its end.
    TokenStreamEmpty,
    /// Not a failure: some command asked execution to stop.
    Halt,
}

/// Whether words read from the input are executed or compiled.
#[derive(Clone, Copy, Debug, PartialEq, Eq, Structural)]
pub enum ExecutionMode {
    Compile,
    Interpret,
}

} // verus!
