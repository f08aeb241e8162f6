pub mod generic_numbers;
pub mod heap;
pub mod memory;
pub mod stack;
pub mod units;
pub mod value;
