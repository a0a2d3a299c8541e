use wks::sheet::{Sheet, SheetValue};

#[test]
fn basic() {
    let mut s = Sheet::new("hello");
    s.add(1, 4, SheetValue::Number((2.0f64).to_bits()));
    s.add(5, 5, SheetValue::Number((1.0f64).to_bits()));
    s.add(2, 1, SheetValue::Label("test".to_string()));
    s.add(4, 3, SheetValue::Number((1.8f64).to_bits()));
    println!("{:?}", s);
}

#[test]
fn new_sheet_is_empty() {
    let s = Sheet::new("empty");
    assert_eq!(s.name(), "empty");
    assert_eq!(s.cells().len(), 0);
    assert_eq!(s.get(0, 0), None);
    assert_eq!(s.get(7, 9), None);
}

#[test]
fn get_returns_last_added() {
    let mut s = Sheet::new("s");
    s.add(3, 8, SheetValue::Label("abc".to_string()));
    assert_eq!(s.get(3, 8), Some(&SheetValue::Label("abc".to_string())));
    assert_eq!(s.get(8, 3), None);
}

#[test]
fn overwrite_keeps_one_cell() {
    let mut s = Sheet::new("s");
    s.add(1, 4, SheetValue::Number((2.0f64).to_bits()));
    s.add(1, 4, SheetValue::Number((3.0f64).to_bits()));
    let cells = s.cells();
    assert_eq!(cells.len(), 1);
    assert_eq!(cells[0].0, 1);
    assert_eq!(cells[0].1, 4);
    assert_eq!(cells[0].2, SheetValue::Number((3.0f64).to_bits()));
    assert_eq!(s.get(1, 4), Some(&SheetValue::Number((3.0f64).to_bits())));
}

#[test]
fn del_removes_cell() {
    let mut s = Sheet::new("s");
    s.add(2, 2, SheetValue::Number((5.0f64).to_bits()));
    s.del(2, 2);
    assert_eq!(s.get(2, 2), None);
    assert_eq!(s.cells().len(), 0);
}

#[test]
fn del_absent_is_noop() {
    let mut s = Sheet::new("s");
    s.add(1, 1, SheetValue::Number((4.0f64).to_bits()));
    s.del(9, 9);
    s.del(1, 2);
    s.del(2, 1);
    let cells = s.cells();
    assert_eq!(cells.len(), 1);
    assert_eq!(s.get(1, 1), Some(&SheetValue::Number((4.0f64).to_bits())));
    s.del(1, 1);
    s.del(1, 1);
    assert_eq!(s.get(1, 1), None);
    assert_eq!(s.cells().len(), 0);
}

#[test]
fn index_consistency_over_sequence() {
    // get(r, c) must reflect the most recent add at (r, c) that no later
    // del at (r, c) follows, and cells() must count the survivors.
    let mut s = Sheet::new("s");
    s.add(1, 1, SheetValue::Number((1.0f64).to_bits()));
    s.add(1, 2, SheetValue::Number((2.0f64).to_bits()));
    s.add(2, 1, SheetValue::Label("x".to_string()));
    s.del(1, 2);
    s.add(1, 1, SheetValue::Label("y".to_string()));
    s.add(1, 2, SheetValue::Number((9.0f64).to_bits()));
    s.del(2, 1);
    assert_eq!(s.get(1, 1), Some(&SheetValue::Label("y".to_string())));
    assert_eq!(s.get(1, 2), Some(&SheetValue::Number((9.0f64).to_bits())));
    assert_eq!(s.get(2, 1), None);
    assert_eq!(s.cells().len(), 2);
}

#[test]
fn cells_each_coordinate_once() {
    let mut s = Sheet::new("s");
    s.add(10, 20, SheetValue::Number((1.5f64).to_bits()));
    s.add(20, 10, SheetValue::Number((2.5f64).to_bits()));
    s.add(10, 10, SheetValue::Label("m".to_string()));
    let mut coords: Vec<(u64, u64)> = s.cells().iter().map(|t| (t.0, t.1)).collect();
    coords.sort();
    assert_eq!(coords, vec![(10, 10), (10, 20), (20, 10)]);
    for (r, c, v) in s.cells() {
        assert_eq!(s.get(r, c), Some(&v));
    }
}

#[test]
fn large_coordinates() {
    // No bound on row or col magnitude; the grid is never pre-sized.
    let mut s = Sheet::new("s");
    s.add(u64::MAX, 0, SheetValue::Number((1.0f64).to_bits()));
    s.add(0, u64::MAX, SheetValue::Number((2.0f64).to_bits()));
    assert_eq!(
        s.get(u64::MAX, 0),
        Some(&SheetValue::Number((1.0f64).to_bits()))
    );
    assert_eq!(
        s.get(0, u64::MAX),
        Some(&SheetValue::Number((2.0f64).to_bits()))
    );
    assert_eq!(s.cells().len(), 2);
}
