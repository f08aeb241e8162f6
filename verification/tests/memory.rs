use forth::memory::{Address, MemoryMap, MemoryMapping, MemoryPermissions};
use forth::units::Bytes;

#[test]
fn memory_map_ordering_test() {
    let memory_map = MemoryMap::new(vec![
        MemoryMapping::empty(Address::from_raw(Bytes::bytes(128)), MemoryPermissions::readonly()),
        MemoryMapping::empty(Address::from_raw(Bytes::bytes(32)), MemoryPermissions::readonly().with_write()),
        MemoryMapping::empty(Address::from_raw(Bytes::bytes(1024)), MemoryPermissions::readonly().with_execute()),
    ]);

    assert!(memory_map.get(Address::from_raw(Bytes::bytes(50))).is_ok());
    assert_eq!(memory_map.get(Address::from_raw(Bytes::bytes(130))).unwrap().base, Address::from_raw(Bytes::bytes(128)));
}

#[test]
fn new_machine_layout() {
    let mut f = forth::Forth::<forth::kernels::DefaultKernel>::new();
    let names: Vec<&str> = f.state.memory_map().get_entries().iter().map(|m| m.name.unwrap()).collect();
    assert_eq!(vec!["heap", "return_stack", "[internal mappings]", "pad", "stack", "data_space"], names);
    assert_eq!(forth::evaluate::ExecutionMode::Interpret, f.state.execution_mode());
    assert_eq!(
        Err(forth::Error::InsufficientPermissions),
        f.state.write::<u64>(Address::from_raw(Bytes::bytes(0x5deadbeef000)), 1)
    );
    assert_eq!(Err(forth::Error::InvalidAddress), f.state.write::<u64>(Address::from_raw(Bytes::bytes(0x1000)), 1));
}

#[test]
fn equal_bases_keep_their_order() {
    let first = MemoryMapping::empty(Address::from_raw(Bytes::bytes(64)), MemoryPermissions::readonly());
    let second = MemoryMapping::empty(Address::from_raw(Bytes::bytes(64)), MemoryPermissions::readwrite());
    let map = MemoryMap::new(vec![
        MemoryMapping::empty(Address::from_raw(Bytes::bytes(128)), MemoryPermissions::readonly()),
        first,
        second,
    ]);
    let permissions: Vec<bool> = map.get_entries().iter().map(|m| m.permissions.write).collect();
    assert_eq!(vec![false, true, false], permissions);
}
