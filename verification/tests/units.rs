use forth::units::{Bytes, Cells, Pages};

#[test]
fn basic_test() {
    let some_cells = Cells::cells(5);
    let some_bytes = Bytes::bytes(40);

    assert_eq!(some_cells.to_bytes(), some_bytes);
    assert_eq!(some_cells, some_bytes.to_cells());
}

#[test]
fn round_up_test() {
    assert_eq!(Bytes::bytes(6).to_cells(), Cells::cells(1));
    assert_eq!(Bytes::bytes(16).to_cells(), Cells::cells(2));
    assert_eq!(Bytes::bytes(17).to_cells(), Cells::cells(3));
}

#[test]
fn subtraction_test() {
    let pages_1 = Pages::pages(10);
    let pages_2 = Pages::pages(5);

    assert_eq!(Pages::pages(5), pages_1 - pages_2);
}
