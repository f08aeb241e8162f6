use vstd::prelude::*;

verus! {

/// Where a Forth machine maps its memory segments, and how it compiles.
#[derive(Clone, Copy, Debug, PartialEq, Eq, Structural)]
pub struct ForthConfig {
    pub return_stack_addr: u64,
    pub stack_addr: u64,
    pub data_space_addr: u64,
    pub pad_addr: u64,
    pub heap_addr: u64,
    pub internal_state_memory_addr: u64,
    pub anonymous_mappings_addr: u64,
    /// The number of bytes a definition can have and still be copied by `COMPILE,`.
    pub definition_copy_threshold: u64,
}

/// The default layout of a Forth machine's memory.
pub open spec fn default_config() -> ForthConfig {
    ForthConfig {
        return_stack_addr: 0x56cadeace000,
        stack_addr: 0x7aceddead000,
        data_space_addr: 0x7feaddead000,
        pad_addr: 0x76beaded5000,
        heap_addr: 0x44ea5c69c000,
        internal_state_memory_addr: 0x5deadbeef000,
        anonymous_mappings_addr: 0x55bedead1000,
        definition_copy_threshold: 0x20,
    }
}

impl Default for ForthConfig {
    fn default() -> (r: Self)
        ensures r == default_config(),
    {
        ForthConfig {
            return_stack_addr: 0x56cadeace000,
            stack_addr: 0x7aceddead000,
            data_space_addr: 0x7feaddead000,
            pad_addr: 0x76beaded5000,
            heap_addr: 0x44ea5c69c000,
            internal_state_memory_addr: 0x5deadbeef000,
            anonymous_mappings_addr: 0x55bedead1000,
            definition_copy_threshold: 0x20,
        }
    }
}

} // verus!
