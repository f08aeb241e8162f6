pub mod debug_operations;
pub mod debugger;
pub mod profiler;
