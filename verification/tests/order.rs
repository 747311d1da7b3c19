use obelisk_bevy::order::sorted_order;

#[test]
fn positions_sort_by_key_then_position() {
    let keys = vec![(7, 1), (4, 9), (7, 0), (4, 9), (1, 5)];
    assert_eq!(sorted_order(&keys), vec![4, 1, 3, 2, 0]);
}

#[test]
fn empty_and_single_orders() {
    assert!(sorted_order(&vec![]).is_empty());
    assert_eq!(sorted_order(&vec![(3, 3)]), vec![0]);
}
