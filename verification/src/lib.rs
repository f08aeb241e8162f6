//! A Forth interpreter whose memory model, number handling, tokenizer,
//! dictionary and execution engine are specified and verified.

pub mod compiled_instructions;
pub mod debugging;
pub mod environment;
pub mod evaluate;
pub mod io;
pub mod operations;
pub mod properties;

pub use environment::generic_numbers::Number;
pub use environment::value::Value;
pub use environment::{memory, stack, units};
pub use evaluate::definition::ExecutionToken;
pub use evaluate::{config, kernels, Error, Forth, ForthResult, ForthState};
pub use io::output_stream;
pub use debugging::{debugger, profiler};
