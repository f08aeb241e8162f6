use vstd::prelude::*;
use crate::compiled_instructions::CompiledInstructions;
use crate::environment::heap::Heap;
use crate::environment::memory::{
    self, is_covered, covering_index, next_cell_address, Address, Memory, MemoryMap, MemoryMapping,
    MemoryPermissions, MappingType, MemorySegment, SpecialSegment,
};
use crate::environment::stack::Stack;
use crate::environment::units::{Bytes, Cells, Pages, CELL_SIZE};
use crate::environment::value::{Value, ValueVariant};
use crate::evaluate::config::ForthConfig;
use crate::evaluate::definition::{instruction_of, DefinitionTable, ExecutionToken};
use crate::evaluate::{Error, ExecutionMode, ForthResult};
use crate::io::output_stream::OutputSink;
use crate::io::tokens::TokenStream;

verus! {

/// A cell of the machine's own state that programs can read through memory.
#[derive(Clone, Copy, Debug)]
pub struct StateRegister {
    pub address: Address,
    pub value: Value,
}

impl StateRegister {
    pub open spec fn spec_value(&self) -> Value {
        self.value
    }
}

/// The machine's own state as seen through memory: one cell, holding 1 while compiling
/// and 0 while interpreting.
pub struct InternalStateMemory {
    pub base: Address,
    pub execution_mode: StateRegister,
}

/// The execution mode a register cell stands for: 0 is interpreting, anything else compiling.
pub open spec fn mode_of(v: Value) -> ExecutionMode {
    if v.spec_to_number() == 0 {
        ExecutionMode::Interpret
    } else {
        ExecutionMode::Compile
    }
}

impl InternalStateMemory {
    fn new(base: u64) -> (r: Self)
        requires base + CELL_SIZE <= u64::MAX,
        ensures
            r.base.raw() == base,
            r.execution_mode.address == r.base,
            r.execution_mode.spec_value() == Value::Number(0),
    {
        let base = Address::from_raw(Bytes::bytes(base));
        InternalStateMemory { base, execution_mode: StateRegister { address: base, value: Value::Number(0) } }
    }

    /// The number of cells of the machine's state mapped into memory.
    fn len(&self) -> (r: Cells)
        ensures r.0 == 1,
    {
        Cells::one()
    }
}

impl MemorySegment for InternalStateMemory {
    open spec fn wf(&self) -> bool {
        self.base.raw() + CELL_SIZE <= u64::MAX
    }

    open spec fn spec_base(&self) -> Address {
        self.base
    }

    open spec fn spec_extent(&self) -> nat {
        1
    }

    open spec fn spec_same_shape(&self, other: &Self) -> bool {
        self.base == other.base && self.execution_mode.address == other.execution_mode.address
    }

    open spec fn spec_end(&self) -> Address {
        Address::spec_from_raw(self.base.raw() + CELL_SIZE)
    }

    open spec fn spec_contains(&self, address: Address) -> bool {
        self.base.raw() <= address.raw() < self.base.raw() + CELL_SIZE
    }

    open spec fn spec_cell_index(&self, address: Address) -> int {
        (address.raw() - self.base.raw()) / CELL_SIZE as int
    }

    open spec fn spec_read(&self, address: Address) -> Value {
        self.execution_mode.spec_value()
    }

    proof fn lemma_same_shape_refl(&self) {
    }

    proof fn lemma_same_shape_trans(&self, b: &Self, c: &Self) {
    }

    proof fn lemma_next_cell(&self, a: Address) {
        let o = a.raw() - self.base.raw();
        assert((o + 8) / 8 == o / 8 + 1) by (nonlinear_arith);
    }

    fn get_base(&self) -> (r: Address) {
        self.base
    }

    fn get_end(&self) -> (r: Address) {
        self.base.plus_cell(self.len())
    }

    fn check_address(&self, address: Address) -> (r: ForthResult) {
        if address.0.0 >= self.base.0.0 && address.0.0 - self.base.0.0 < CELL_SIZE {
            Ok(())
        } else {
            Err(Error::InvalidAddress)
        }
    }

    fn write_value(&mut self, address: Address, value: Value) -> (r: ForthResult) {
        if self.check_address(address).is_err() {
            return Err(Error::InvalidAddress);
        }
        self.execution_mode.value = value;
        proof {
            assert forall|a: Address| old(self).spec_contains(a) implies #[trigger] self.spec_cell_index(a)
                == old(self).spec_cell_index(address) by {
                let x = a.raw() - self.base.raw();
                let y = address.raw() - self.base.raw();
                assert(x / 8 == 0 && y / 8 == 0) by (nonlinear_arith)
                    requires 0 <= x < 8, 0 <= y < 8;
            }
        }
        Ok(())
    }

    fn read_value(&self, address: Address) -> (r: Result<Value, Error>) {
        if self.check_address(address).is_err() {
            return Err(Error::InvalidAddress);
        }
        Ok(self.execution_mode.value)
    }
}

/// The kinds of access that memory permissions grant.
#[derive(Clone, Copy, PartialEq, Eq, Structural, Debug)]
pub enum Access {
    Read,
    Write,
    Execute,
}

/// Whether `permissions` grant `access`.
pub open spec fn grants(permissions: MemoryPermissions, access: Access) -> bool {
    match access {
        Access::Read => permissions.read,
        Access::Write => permissions.write,
        Access::Execute => permissions.execute,
    }
}

/// The state of a Forth machine: its memory segments, where they are mapped, its
/// dictionary, compiled code, input and output, and where execution stands.
pub struct ForthState {
    pub output_stream: OutputSink,
    pub input_stream: TokenStream,
    pub memory_map: MemoryMap,
    pub internal_state_memory: InternalStateMemory,
    pub anonymous_pages: Vec<Memory>,
    pub next_anonymous_mapping: Address,
    pub return_stack: Stack,
    pub stack: Stack,
    pub data_space: Memory,
    pub pad: Memory,
    pub heap: Heap,
    pub instruction_pointer: Option<Address>,
    pub current_instruction: Option<ExecutionToken>,
    pub definitions: DefinitionTable,
    pub compiled_instructions: CompiledInstructions,
    pub config: ForthConfig,
}

impl ForthState {
    pub open spec fn spec_memory_map(&self) -> Seq<MemoryMapping> {
        self.memory_map.view()
    }

    pub open spec fn spec_execution_mode(&self) -> ExecutionMode {
        mode_of(self.internal_state_memory.execution_mode.spec_value())
    }

    pub open spec fn spec_internal(&self) -> InternalStateMemory {
        self.internal_state_memory
    }

    pub open spec fn spec_instruction_pointer(&self) -> Option<Address> {
        self.instruction_pointer
    }

    pub open spec fn spec_current_instruction(&self) -> Option<ExecutionToken> {
        self.current_instruction
    }

    pub open spec fn spec_anonymous_pages(&self) -> Seq<Memory> {
        self.anonymous_pages@
    }

    pub open spec fn spec_next_anonymous_mapping(&self) -> Address {
        self.next_anonymous_mapping
    }

    pub open spec fn spec_config(&self) -> ForthConfig {
        self.config
    }

    /// The internal consistency of the state.
    pub open spec fn wf(&self) -> bool {
        &&& self.memory_map.wf()
        &&& self.internal_state_memory.wf()
        &&& self.internal_state_memory.execution_mode.address == self.internal_state_memory.base
        &&& self.data_space.inv()
        &&& self.pad.inv()
        &&& self.heap.wf()
        &&& forall|i: int| 0 <= i < self.anonymous_pages@.len() ==> (#[trigger] self.anonymous_pages@[i]).inv()
        &&& self.input_stream.wf()
        &&& self.definitions.wf()
    }

    /// Everything but the data stack is as in `old`.
    pub open spec fn same_except_stack(&self, old: &Self) -> bool {
        &&& self.spec_private_eq(old)
        &&& self.stack.spec_stack_base() == old.stack.spec_stack_base()
        &&& self.stack.spec_frame_offset() == old.stack.spec_frame_offset()
        &&& self.return_stack == old.return_stack
        &&& self.data_space == old.data_space
        &&& self.pad == old.pad
        &&& self.heap == old.heap
        &&& self.definitions == old.definitions
        &&& self.compiled_instructions == old.compiled_instructions
        &&& self.input_stream == old.input_stream
        &&& self.output_stream == old.output_stream
    }

    /// Everything but the two stacks is as in `old`.
    pub open spec fn same_except_stacks(&self, old: &Self) -> bool {
        &&& self.spec_private_eq(old)
        &&& self.data_space == old.data_space
        &&& self.pad == old.pad
        &&& self.heap == old.heap
        &&& self.definitions == old.definitions
        &&& self.compiled_instructions == old.compiled_instructions
        &&& self.input_stream == old.input_stream
        &&& self.output_stream == old.output_stream
        &&& self.stack.spec_stack_base() == old.stack.spec_stack_base()
        &&& self.stack.spec_frame_offset() == old.stack.spec_frame_offset()
        &&& self.return_stack.spec_stack_base() == old.return_stack.spec_stack_base()
    }

    /// Everything but the memory map and the anonymous pages is as in `old`.
    pub open spec fn same_except_mappings(&self, old: &Self) -> bool {
        &&& self.stack == old.stack
        &&& self.return_stack == old.return_stack
        &&& self.data_space == old.data_space
        &&& self.pad == old.pad
        &&& self.heap == old.heap
        &&& self.definitions == old.definitions
        &&& self.compiled_instructions == old.compiled_instructions
        &&& self.input_stream == old.input_stream
        &&& self.output_stream == old.output_stream
        &&& self.instruction_pointer == old.instruction_pointer
        &&& self.current_instruction == old.current_instruction
        &&& self.internal_state_memory == old.internal_state_memory
        &&& self.config == old.config
    }

    /// The fields that only this module changes are as in `old`.
    pub open spec fn spec_private_eq(&self, old: &Self) -> bool {
        &&& self.memory_map == old.memory_map
        &&& self.internal_state_memory == old.internal_state_memory
        &&& self.anonymous_pages == old.anonymous_pages
        &&& self.next_anonymous_mapping == old.next_anonymous_mapping
        &&& self.instruction_pointer == old.instruction_pointer
        &&& self.current_instruction == old.current_instruction
        &&& self.config == old.config
    }

    /// The mapping that covers `address`, if any.
    pub open spec fn spec_mapping_of(&self, address: Address) -> Option<MemoryMapping> {
        let m = self.spec_memory_map();
        if is_covered(m, address) {
            Some(m[covering_index(m, address)])
        } else {
            None
        }
    }

    /// Which segment an access of kind `access` to `address` reaches, or why it fails.
    pub open spec fn spec_access(&self, address: Address, access: Access) -> Result<MappingType, Error> {
        match self.spec_mapping_of(address) {
            None => Err(Error::InvalidAddress),
            Some(m) => if !grants(m.permissions, access) {
                Err(Error::InsufficientPermissions)
            } else {
                match m.mapping_type {
                    MappingType::Empty => Err(Error::InvalidAddress),
                    MappingType::Anonymous { index } => if index < self.spec_anonymous_pages().len() {
                        Ok(m.mapping_type)
                    } else {
                        Err(Error::InvalidAddress)
                    },
                    _ => Ok(m.mapping_type),
                }
            },
        }
    }

    /// Whether `address` is a cell of segment `mt`.
    pub open spec fn spec_segment_contains(&self, mt: MappingType, address: Address) -> bool {
        match mt {
            MappingType::Empty => false,
            MappingType::Special { segment } => match segment {
                SpecialSegment::DataSpace => self.data_space.spec_contains(address),
                SpecialSegment::Stack => self.stack.spec_contains(address),
                SpecialSegment::ReturnStack => self.return_stack.spec_contains(address),
                SpecialSegment::Pad => self.pad.spec_contains(address),
                SpecialSegment::Heap => self.heap.spec_contains(address),
                SpecialSegment::InternalState => self.spec_internal().spec_contains(address),
            },
            MappingType::Anonymous { index } => index < self.spec_anonymous_pages().len()
                && self.spec_anonymous_pages()[index as int].spec_contains(address),
        }
    }

    /// The cell of segment `mt` that `address` refers to.
    pub open spec fn spec_segment_index(&self, mt: MappingType, address: Address) -> int {
        match mt {
            MappingType::Empty => 0,
            MappingType::Special { segment } => match segment {
                SpecialSegment::DataSpace => self.data_space.spec_cell_index(address),
                SpecialSegment::Stack => self.stack.spec_cell_index(address),
                SpecialSegment::ReturnStack => self.return_stack.spec_cell_index(address),
                SpecialSegment::Pad => self.pad.spec_cell_index(address),
                SpecialSegment::Heap => self.heap.spec_cell_index(address),
                SpecialSegment::InternalState => self.spec_internal().spec_cell_index(address),
            },
            MappingType::Anonymous { index } => if index < self.spec_anonymous_pages().len() {
                self.spec_anonymous_pages()[index as int].spec_cell_index(address)
            } else {
                0
            },
        }
    }

    /// The value in the cell of segment `mt` that `address` refers to.
    pub open spec fn spec_segment_read(&self, mt: MappingType, address: Address) -> Value {
        match mt {
            MappingType::Empty => Value::Number(0),
            MappingType::Special { segment } => match segment {
                SpecialSegment::DataSpace => self.data_space.spec_read(address),
                SpecialSegment::Stack => self.stack.spec_read(address),
                SpecialSegment::ReturnStack => self.return_stack.spec_read(address),
                SpecialSegment::Pad => self.pad.spec_read(address),
                SpecialSegment::Heap => self.heap.spec_read(address),
                SpecialSegment::InternalState => self.spec_internal().spec_read(address),
            },
            MappingType::Anonymous { index } => if index < self.spec_anonymous_pages().len() {
                self.spec_anonymous_pages()[index as int].spec_read(address)
            } else {
                Value::Number(0)
            },
        }
    }

    /// Reading the cell at `address` of segment `mt`.
    pub open spec fn spec_cell_result(&self, mt: MappingType, address: Address) -> Result<Value, Error> {
        if self.spec_segment_contains(mt, address) {
            Ok(self.spec_segment_read(mt, address))
        } else {
            Err(Error::InvalidAddress)
        }
    }

    /// Reading the cell after the one at `address`, in segment `mt`.
    pub open spec fn spec_next_cell_result(&self, mt: MappingType, address: Address) -> Result<Value, Error> {
        match next_cell_address(address) {
            Some(b) => self.spec_cell_result(mt, b),
            None => Err(Error::InvalidAddress),
        }
    }

    /// What `read::<T>(address)` gives.
    pub open spec fn spec_read_as<T: ValueVariant>(&self, address: Address) -> Result<T, Error> {
        match self.spec_access(address, Access::Read) {
            Err(e) => Err(e),
            Ok(mt) => T::spec_from_memory(
                self.spec_cell_result(mt, address),
                self.spec_next_cell_result(mt, address),
                address,
            ),
        }
    }

    /// What reading one cell at `address` gives.
    pub open spec fn spec_read_cell(&self, address: Address) -> Result<Value, Error> {
        match self.spec_access(address, Access::Read) {
            Err(e) => Err(e),
            Ok(mt) => self.spec_cell_result(mt, address),
        }
    }

    /// Whether a value of `size` cells fits at `address` of segment `mt`.
    pub open spec fn spec_fits(&self, mt: MappingType, address: Address, size: nat) -> bool {
        &&& self.spec_segment_contains(mt, address)
        &&& size == 2 ==> (next_cell_address(address) matches Some(b) && self.spec_segment_contains(mt, b))
    }

    /// Segment `mt` of `self` is segment `mt` of `other`.
    pub open spec fn spec_segment_eq(&self, other: &Self, mt: MappingType) -> bool {
        match mt {
            MappingType::Empty => true,
            MappingType::Special { segment } => match segment {
                SpecialSegment::DataSpace => self.data_space == other.data_space,
                SpecialSegment::Stack => self.stack == other.stack,
                SpecialSegment::ReturnStack => self.return_stack == other.return_stack,
                SpecialSegment::Pad => self.pad == other.pad,
                SpecialSegment::Heap => self.heap == other.heap,
                SpecialSegment::InternalState => self.spec_internal() == other.spec_internal(),
            },
            MappingType::Anonymous { index } => index < self.spec_anonymous_pages().len() ==> self.spec_anonymous_pages()[index as int]
                == other.spec_anonymous_pages()[index as int],
        }
    }

    /// After a write into segment `mt`: everything outside that segment is unchanged.
    pub open spec fn spec_same_outside(&self, old: &Self, mt: MappingType) -> bool {
        &&& self.spec_memory_map() == old.spec_memory_map()
        &&& self.spec_instruction_pointer() == old.spec_instruction_pointer()
        &&& self.spec_current_instruction() == old.spec_current_instruction()
        &&& self.spec_next_anonymous_mapping() == old.spec_next_anonymous_mapping()
        &&& self.spec_config() == old.spec_config()
        &&& self.spec_anonymous_pages().len() == old.spec_anonymous_pages().len()
        &&& self.stack.spec_stack_base() == old.stack.spec_stack_base()
        &&& self.stack.spec_frame_offset() == old.stack.spec_frame_offset()
        &&& self.stack@.len() == old.stack@.len()
        &&& self.return_stack.spec_stack_base() == old.return_stack.spec_stack_base()
        &&& self.return_stack.spec_frame_offset() == old.return_stack.spec_frame_offset()
        &&& self.return_stack@.len() == old.return_stack@.len()
        &&& self.data_space.spec_base_address() == old.data_space.spec_base_address()
        &&& self.data_space.spec_length() == old.data_space.spec_length()
        &&& self.internal_state_memory.base == old.internal_state_memory.base
        &&& self.definitions == old.definitions
        &&& self.compiled_instructions == old.compiled_instructions
        &&& self.input_stream == old.input_stream
        &&& self.output_stream == old.output_stream
        &&& forall|other: MappingType| other != mt ==> #[trigger] self.spec_segment_eq(old, other)
        &&& forall|other: MappingType, a: Address| #[trigger] self.spec_segment_contains(other, a)
            == old.spec_segment_contains(other, a)
        &&& forall|other: MappingType, a: Address| #[trigger] self.spec_segment_index(other, a)
            == old.spec_segment_index(other, a)
    }

    /// The content of cell `a` of segment `mt` after a `size`-cell value whose cells are
    /// `first` and `second` was written at `address` (when `ok`).
    pub open spec fn spec_after_write(
        &self,
        mt: MappingType,
        address: Address,
        first: Value,
        second: Value,
        size: nat,
        ok: bool,
        a: Address,
    ) -> Value {
        if ok && self.spec_segment_index(mt, a) == self.spec_segment_index(mt, address) {
            first
        } else if ok && size == 2 && (next_cell_address(address) matches Some(b)
            && self.spec_segment_index(mt, a) == self.spec_segment_index(mt, b)) {
            second
        } else {
            self.spec_segment_read(mt, a)
        }
    }

    /// What `write` does: the access check, then the write into the segment reached.
    pub open spec fn spec_write_effect<T: ValueVariant>(old: &Self, new: &Self, address: Address, value: T, r: ForthResult) -> bool {
        match old.spec_access(address, Access::Write) {
            Err(e) => r == Err::<(), Error>(e) && *new == *old,
            Ok(mt) => {
                &&& (r is Ok) == old.spec_fits(mt, address, T::spec_size())
                &&& r is Err ==> r == Err::<(), Error>(Error::InvalidAddress) && *new == *old
                &&& new.spec_same_outside(old, mt)
                &&& forall|a: Address| old.spec_segment_contains(mt, a) ==> #[trigger] new.spec_segment_read(
                    mt,
                    a,
                ) == old.spec_after_write(
                    mt,
                    address,
                    value.spec_write_first(old.spec_segment_read(mt, address), address),
                    value.spec_write_second(),
                    T::spec_size(),
                    r is Ok,
                    a,
                )
            },
        }
    }

    /// The mappings of a new machine laid out as `config` says, in the order they are made:
    /// the data space (readable, writable and executable), the data stack, the return
    /// stack, the pad and the heap (readable and writable), and the machine's own state
    /// (read only).
    pub open spec fn initial_mappings(config: ForthConfig) -> Seq<MemoryMapping> {
        let rw = MemoryPermissions { read: true, write: true, execute: false };
        seq![
            MemoryMapping {
                base: Address::spec_from_raw(config.data_space_addr as int),
                permissions: MemoryPermissions { read: true, write: true, execute: true },
                mapping_type: MappingType::Special { segment: SpecialSegment::DataSpace },
                name: Some("data_space"),
            },
            MemoryMapping {
                base: Address::spec_from_raw(config.stack_addr as int),
                permissions: rw,
                mapping_type: MappingType::Special { segment: SpecialSegment::Stack },
                name: Some("stack"),
            },
            MemoryMapping {
                base: Address::spec_from_raw(config.return_stack_addr as int),
                permissions: rw,
                mapping_type: MappingType::Special { segment: SpecialSegment::ReturnStack },
                name: Some("return_stack"),
            },
            MemoryMapping {
                base: Address::spec_from_raw(config.pad_addr as int),
                permissions: rw,
                mapping_type: MappingType::Special { segment: SpecialSegment::Pad },
                name: Some("pad"),
            },
            MemoryMapping {
                base: Address::spec_from_raw(config.heap_addr as int),
                permissions: rw,
                mapping_type: MappingType::Special { segment: SpecialSegment::Heap },
                name: Some("heap"),
            },
            MemoryMapping {
                base: Address::spec_from_raw(config.internal_state_memory_addr as int),
                permissions: MemoryPermissions { read: true, write: false, execute: false },
                mapping_type: MappingType::Special { segment: SpecialSegment::InternalState },
                name: Some("[internal mappings]"),
            },
        ]
    }

    /// Creates a machine with empty segments mapped as `config` says, and an empty dictionary.
    pub fn new_empty(config: ForthConfig) -> (r: Self)
        requires
            config.internal_state_memory_addr + CELL_SIZE <= u64::MAX,
        ensures
            r.wf(),
            r.stack@ == Seq::<Value>::empty(),
            r.return_stack@ == Seq::<Value>::empty(),
            r.data_space.view() == Seq::<Value>::empty(),
            r.data_space.spec_base_address().raw() == config.data_space_addr,
            r.spec_execution_mode() == ExecutionMode::Interpret,
            r.spec_instruction_pointer() is None,
            r.spec_current_instruction() is None,
            r.spec_config() == config,
            r.definitions.spec_definitions().len() == 0,
            r.definitions.spec_names().len() == 0,
            r.definitions.spec_temp_names().len() == 0,
            r.definitions.spec_temp_definitions().len() == 0,
            r.compiled_instructions@.len() == 0,
            r.spec_anonymous_pages().len() == 0,
            r.input_stream.spec_rest() == Seq::<char>::empty(),
            r.spec_memory_map() == memory::sorted_by_base(ForthState::initial_mappings(config)),
            memory::mappings_sorted(r.spec_memory_map()),
            r.stack.spec_stack_base().raw() == config.stack_addr,
            r.return_stack.spec_stack_base().raw() == config.return_stack_addr,
            r.pad.spec_base_address().raw() == config.pad_addr,
            r.pad.view() == Seq::<Value>::empty(),
    {
        let return_stack = Stack::new(config.return_stack_addr);
        let stack = Stack::new(config.stack_addr);
        let data_space = Memory::new(config.data_space_addr);
        let pad = Memory::new(config.pad_addr);
        let heap = Heap::new(config.heap_addr);
        let internal_state_memory = InternalStateMemory::new(config.internal_state_memory_addr);
        let mut entries: Vec<MemoryMapping> = Vec::new();
        entries.push(
            MemoryMapping::special(data_space.get_base(), MemoryPermissions::all(), SpecialSegment::DataSpace).with_name(
                "data_space",
            ),
        );
        entries.push(
            MemoryMapping::special(stack.get_base(), MemoryPermissions::readwrite(), SpecialSegment::Stack).with_name(
                "stack",
            ),
        );
        entries.push(
            MemoryMapping::special(
                return_stack.get_base(),
                MemoryPermissions::readwrite(),
                SpecialSegment::ReturnStack,
            ).with_name("return_stack"),
        );
        entries.push(
            MemoryMapping::special(pad.get_base(), MemoryPermissions::readwrite(), SpecialSegment::Pad).with_name("pad"),
        );
        entries.push(
            MemoryMapping::special(heap.get_base(), MemoryPermissions::readwrite(), SpecialSegment::Heap).with_name(
                "heap",
            ),
        );
        entries.push(
            MemoryMapping::special(
                internal_state_memory.get_base(),
                MemoryPermissions::readonly(),
                SpecialSegment::InternalState,
            ).with_name("[internal mappings]"),
        );
        proof {
            assert(entries@ =~= ForthState::initial_mappings(config));
        }
        let memory_map = MemoryMap::new(entries);
        ForthState {
            output_stream: OutputSink::dropped(),
            input_stream: TokenStream::empty(),
            memory_map,
            internal_state_memory,
            anonymous_pages: Vec::new(),
            next_anonymous_mapping: Address::from_raw(Bytes::bytes(config.anonymous_mappings_addr)),
            return_stack,
            stack,
            data_space,
            pad,
            heap,
            instruction_pointer: None,
            current_instruction: None,
            definitions: DefinitionTable::new(),
            compiled_instructions: CompiledInstructions::new(),
            config,
        }
    }

    pub fn memory_map(&self) -> (r: &MemoryMap)
        ensures r.view() == self.spec_memory_map(),
    {
        &self.memory_map
    }

    pub fn internal_state_memory(&self) -> (r: &InternalStateMemory)
        ensures *r == self.spec_internal(),
    {
        &self.internal_state_memory
    }

    pub fn execution_mode(&self) -> (r: ExecutionMode)
        ensures r == self.spec_execution_mode(),
    {
        if self.internal_state_memory.execution_mode.value.to_number() == 0 {
            ExecutionMode::Interpret
        } else {
            ExecutionMode::Compile
        }
    }

    pub fn instruction_pointer(&self) -> (r: Option<Address>)
        ensures r == self.spec_instruction_pointer(),
    {
        self.instruction_pointer
    }

    pub fn current_instruction(&self) -> (r: Option<ExecutionToken>)
        ensures r == self.spec_current_instruction(),
    {
        self.current_instruction
    }

    pub fn config(&self) -> (r: &ForthConfig)
        ensures *r == self.spec_config(),
    {
        &self.config
    }

    /// Finds the segment an access of kind `access` to `address` reaches.
    fn access(&self, address: Address, access: Access) -> (r: Result<MappingType, Error>)
        requires self.wf(),
        ensures r == self.spec_access(address, access),
    {
        let entry = match self.memory_map.get(address) {
            Ok(e) => e,
            Err(e) => {
                return Err(e);
            },
        };
        let allowed = match access {
            Access::Read => entry.permissions.read,
            Access::Write => entry.permissions.write,
            Access::Execute => entry.permissions.execute,
        };
        if !allowed {
            return Err(Error::InsufficientPermissions);
        }
        match entry.mapping_type {
            MappingType::Empty => Err(Error::InvalidAddress),
            MappingType::Anonymous { index } => if index < self.anonymous_pages.len() {
                Ok(entry.mapping_type)
            } else {
                Err(Error::InvalidAddress)
            },
            _ => Ok(entry.mapping_type),
        }
    }

    /// Whether `address` can be read as a cell (it is mapped and in use).
    pub fn check_address(&self, address: Address) -> (r: ForthResult)
        requires self.wf(),
        ensures
            match self.spec_mapping_of(address) {
                None => r == Err::<(), Error>(Error::InvalidAddress),
                Some(m) => match m.mapping_type {
                    MappingType::Empty => r == Err::<(), Error>(Error::InvalidAddress),
                    mt => (r is Ok) == self.spec_segment_contains(mt, address) && (r is Err ==> r
                        == Err::<(), Error>(Error::InvalidAddress)),
                },
            },
    {
        let entry = match self.memory_map.get(address) {
            Ok(e) => e,
            Err(e) => {
                return Err(e);
            },
        };
        match entry.mapping_type {
            MappingType::Empty => Err(Error::InvalidAddress),
            MappingType::Special { segment } => match segment {
                SpecialSegment::DataSpace => self.data_space.check_address(address),
                SpecialSegment::Stack => self.stack.check_address(address),
                SpecialSegment::ReturnStack => self.return_stack.check_address(address),
                SpecialSegment::Pad => self.pad.check_address(address),
                SpecialSegment::Heap => self.heap.check_address(address),
                SpecialSegment::InternalState => self.internal_state_memory.check_address(address),
            },
            MappingType::Anonymous { index } => if index < self.anonymous_pages.len() {
                self.anonymous_pages[index].check_address(address)
            } else {
                Err(Error::InvalidAddress)
            },
        }
    }

    /// Reads a value of type `T` at `address`, which must be mapped readable.
    pub fn read<T: ValueVariant>(&self, address: Address) -> (r: Result<T, Error>)
        requires self.wf(),
        ensures r == self.spec_read_as::<T>(address),
    {
        let mt = match self.access(address, Access::Read) {
            Ok(mt) => mt,
            Err(e) => {
                return Err(e);
            },
        };
        self.read_segment::<T>(mt, address)
    }

    /// Reads the instruction at `address`, which must be mapped executable.
    pub fn read_executable(&self, address: Address) -> (r: Result<ExecutionToken, Error>)
        requires self.wf(),
        ensures
            match self.spec_access(address, Access::Execute) {
                Err(e) => r == Err::<ExecutionToken, Error>(e),
                Ok(mt) => r == match self.spec_cell_result(mt, address) {
                    Ok(v) => Ok::<ExecutionToken, Error>(instruction_of(v)),
                    Err(e) => Err(e),
                },
            },
    {
        let mt = match self.access(address, Access::Execute) {
            Ok(mt) => mt,
            Err(e) => {
                return Err(e);
            },
        };
        self.read_segment::<ExecutionToken>(mt, address)
    }

    fn read_segment<T: ValueVariant>(&self, mt: MappingType, address: Address) -> (r: Result<T, Error>)
        requires
            self.wf(),
            mt !is Empty,
            mt matches MappingType::Anonymous { index } ==> index < self.spec_anonymous_pages().len(),
        ensures
            r == T::spec_from_memory(
                self.spec_cell_result(mt, address),
                self.spec_next_cell_result(mt, address),
                address,
            ),
    {
        match mt {
            MappingType::Special { segment } => match segment {
                SpecialSegment::DataSpace => T::read_from_memory(&self.data_space, address),
                SpecialSegment::Stack => T::read_from_memory(&self.stack, address),
                SpecialSegment::ReturnStack => T::read_from_memory(&self.return_stack, address),
                SpecialSegment::Pad => T::read_from_memory(&self.pad, address),
                SpecialSegment::Heap => T::read_from_memory(&self.heap, address),
                SpecialSegment::InternalState => T::read_from_memory(&self.internal_state_memory, address),
            },
            MappingType::Anonymous { index } => T::read_from_memory(&self.anonymous_pages[index], address),
            MappingType::Empty => Err(Error::InvalidAddress),
        }
    }

    /// Writes `value` at `address`, which must be mapped writable.
    #[verifier::spinoff_prover]
    #[verifier::rlimit(100)]
    pub fn write<T: ValueVariant>(&mut self, address: Address, value: T) -> (r: ForthResult)
        requires old(self).wf(),
        ensures
            final(self).wf(),
            ForthState::spec_write_effect(old(self), final(self), address, value, r),
    {
        let mt = match self.access(address, Access::Write) {
            Ok(mt) => mt,
            Err(e) => {
                return Err(e);
            },
        };
        match mt {
            MappingType::Special { segment } => match segment {
                SpecialSegment::DataSpace => value.write_to_memory(&mut self.data_space, address),
                SpecialSegment::Stack => value.write_to_memory(&mut self.stack, address),
                SpecialSegment::ReturnStack => value.write_to_memory(&mut self.return_stack, address),
                SpecialSegment::Pad => value.write_to_memory(&mut self.pad, address),
                SpecialSegment::Heap => value.write_to_memory(&mut self.heap, address),
                SpecialSegment::InternalState => value.write_to_memory(&mut self.internal_state_memory, address),
            },
            MappingType::Anonymous { index } => self.write_anonymous(index, address, value),
            MappingType::Empty => Err(Error::InvalidAddress),
        }
    }

    /// Writes `value` at `address` of anonymous page `index`.
    #[verifier::spinoff_prover]
    #[verifier::rlimit(100)]
    fn write_anonymous<T: ValueVariant>(&mut self, index: usize, address: Address, value: T) -> (r: ForthResult)
        requires
            old(self).wf(),
            index < old(self).spec_anonymous_pages().len(),
        ensures
            final(self).wf(),
            ({
                let mt = MappingType::Anonymous { index };
                &&& (r is Ok) == old(self).spec_fits(mt, address, T::spec_size())
                &&& r is Err ==> r == Err::<(), Error>(Error::InvalidAddress) && *final(self) == *old(self)
                &&& final(self).spec_same_outside(old(self), mt)
                &&& forall|a: Address| old(self).spec_segment_contains(mt, a) ==> #[trigger] final(self).spec_segment_read(
                    mt,
                    a,
                ) == old(self).spec_after_write(
                    mt,
                    address,
                    value.spec_write_first(old(self).spec_segment_read(mt, address), address),
                    value.spec_write_second(),
                    T::spec_size(),
                    r is Ok,
                    a,
                )
            }),
    {
        let fits = if self.anonymous_pages[index].check_address(address).is_err() {
            false
        } else if T::size() == 2 {
            match address.checked_plus(Bytes(CELL_SIZE)) {
                Ok(next) => self.anonymous_pages[index].check_address(next).is_ok(),
                Err(_) => false,
            }
        } else {
            true
        };
        if !fits {
            return Err(Error::InvalidAddress);
        }
        let ghost old_pages = self.anonymous_pages@;
        let r = value.write_to_memory(&mut self.anonymous_pages[index], address);
        proof {
            assert forall|i: int| 0 <= i < self.anonymous_pages@.len() && i != index implies #[trigger] self.anonymous_pages@[i]
                == old_pages[i] by {}
            assert forall|other: MappingType, a: Address| #[trigger] self.spec_segment_index(other, a)
                == old(self).spec_segment_index(other, a) by {
                if let MappingType::Anonymous { index: j } = other {
                    if j != index && j < old_pages.len() {
                        assert(self.anonymous_pages@[j as int] == old_pages[j as int]);
                    }
                }
            }
            assert forall|other: MappingType, a: Address| #[trigger] self.spec_segment_contains(other, a)
                == old(self).spec_segment_contains(other, a) by {
                if let MappingType::Anonymous { index: j } = other {
                    if j != index && j < old_pages.len() {
                        assert(self.anonymous_pages@[j as int] == old_pages[j as int]);
                    }
                }
            }
        }
        r
    }

    /// Maps `num_pages` fresh pages at the next free anonymous address.
    pub fn create_anonymous_mapping(&mut self, num_pages: Pages) -> (r: Result<Address, Error>)
        requires old(self).wf(),
        ensures
            final(self).wf(),
            final(self).same_except_mappings(old(self)),
            r matches Ok(a) ==> a == old(self).spec_next_anonymous_mapping(),
    {
        let base = self.next_anonymous_mapping;
        let bytes = match num_pages.0.checked_mul(crate::environment::units::PAGE_SIZE) {
            Some(b) => b,
            None => {
                return Err(Error::InsufficientMemory);
            },
        };
        match base.checked_plus(Bytes(bytes)) {
            Ok(next) => {
                self.next_anonymous_mapping = next;
            },
            Err(_) => {
                return Err(Error::InsufficientMemory);
            },
        }
        self.create_anonymous_mapping_at(base, num_pages)
    }

    /// Maps `num_pages` fresh pages at `address`.
    pub fn create_anonymous_mapping_at(&mut self, address: Address, num_pages: Pages) -> (r: Result<Address, Error>)
        requires old(self).wf(),
        ensures
            final(self).wf(),
            final(self).same_except_mappings(old(self)),
            r matches Ok(a) ==> a == address,
    {
        let cells = match num_pages.0.checked_mul(crate::environment::memory::CELLS_PER_PAGE) {
            Some(c) => c,
            None => {
                return Err(Error::InsufficientMemory);
            },
        };
        if cells > (u64::MAX - address.0.0) / CELL_SIZE {
            return Err(Error::InsufficientMemory);
        }
        let index = self.anonymous_pages.len();
        let page = Memory::new(address.as_raw()).with_num_cells(Cells::cells(cells));
        self.anonymous_pages.push(page);
        match self.memory_map.add(MemoryMapping::anonymous(address, MemoryPermissions::readwrite(), index)) {
            Ok(()) => Ok(address),
            Err(e) => Err(e),
        }
    }
}

} // verus!
