use forth::environment::heap::Heap;
use forth::units::{Bytes, Cells};
use forth::config::ForthConfig;
use forth::ForthState;

#[test]
fn basic_allocations_test() {
    let mut heap = Heap::new(0x7feadface000);
    let allocation_1 = heap.allocate(Bytes::bytes(50));
    assert!(allocation_1.is_ok());
    let allocation_2 = heap.allocate(Bytes::bytes(850));
    assert!(allocation_2.is_ok());
    println!("allocation 1 @ {}", allocation_1.unwrap().to_string());
    println!("allocation 2 @ {}", allocation_2.unwrap().to_string());
    println!("heap: {}", heap.to_string());
}

#[test]
fn basic_free_test() {
    let mut heap = Heap::new(0x7feadface000);
    let allocation_1 = heap.allocate(Bytes::bytes(50));
    let allocation_2 = heap.allocate(Bytes::bytes(50));
    let allocation_3 = heap.allocate(Bytes::bytes(50));
    let allocation_4 = heap.allocate(Bytes::bytes(50));
    assert!(allocation_1.is_ok());
    assert!(allocation_2.is_ok());
    assert!(allocation_3.is_ok());
    assert!(allocation_4.is_ok());
    assert!(heap.free(allocation_2.unwrap()).is_ok());
    assert!(heap.free(allocation_4.unwrap()).is_ok());
    assert!(heap.free(allocation_1.unwrap()).is_ok());
    println!("heap: {}", heap.to_string());
}

#[test]
fn read_write_test() {
    let mut state = ForthState::new(ForthConfig::default());
    // make and verify allocations
    let allocations = vec![Bytes::bytes(50), Bytes::bytes(50), Bytes::bytes(50), Bytes::bytes(50), Bytes::bytes(90), Bytes::bytes(90)]
        .into_iter().map(|bytes| state.heap.allocate(bytes).unwrap()).collect::<Vec<_>>();

    for (i, allocation) in allocations.iter().enumerate() {
        println!("{}: {}", i, allocation.to_string());
    }

    // use allocations
    assert!(state.write::<u64>(allocations[1], 5).is_ok());
    assert!(state.write::<u64>(allocations[1].plus_cell(Cells::cells(3)), 0xffffffff).is_ok());
    println!("error = {:?} address = {}", state.write::<u64>(allocations[5], 6), allocations[5].to_string());
    assert!(state.write::<u64>(allocations[5], 6).is_ok());
    assert!(state.write::<u64>(allocations[5].plus_cell(Cells::cells(10)), 0xabcd).is_ok());
    assert!(state.write::<u64>(allocations[1], 10).is_ok());

    assert_eq!(state.read::<u64>(allocations[1]), Ok(10));
    assert_eq!(state.read::<u64>(allocations[1].plus_cell(Cells::cells(3))), Ok(0xffffffff));
    assert_eq!(state.read::<u64>(allocations[5]), Ok(6));
    assert_eq!(state.read::<u64>(allocations[5].plus_cell(Cells::cells(10))), Ok(0xabcd));

    println!("heap: {}", state.heap.to_string());
}

#[test]
fn fresh_chunks_do_not_overlap_and_free_keeps_later_ones() {
    let mut heap = Heap::new(0x7feadface000);
    let a = heap.allocate(Bytes(50)).unwrap();
    let b = heap.allocate(Bytes(50)).unwrap();
    assert_eq!(a.as_raw() + 64, b.as_raw());
    assert_eq!(Ok(()), heap.free(a));
    assert_eq!(Ok(b), heap.resize(b, Bytes(60)));
    assert_eq!(Ok(()), heap.free(b));
}
