pub mod format;
pub mod output_stream;
pub mod tokens;
