use sheet_records::difference::select_unmatched;

#[test]
fn test_select_unmatched() {
    let vec1 = vec![1, 2, 5, 8];
    let vec2 = vec![5, 8, 5, 11];
    assert_eq!(select_unmatched(&vec1, &vec2), vec![1, 2]);
    let vec1 = vec!["ab", "cd", "cc"];
    let vec2 = vec!["cd", "tt"];
    assert_eq!(select_unmatched(&vec1, &vec2), vec!["ab", "cc"]);
}

#[test]
fn duplicates_and_order_are_kept() {
    let vec1 = vec![3, 1, 3, 2, 3];
    let vec2 = vec![2];
    assert_eq!(select_unmatched(&vec1, &vec2), vec![3, 1, 3, 3]);
}

#[test]
fn empty_second_collection_keeps_everything() {
    let vec1 = vec![7u64, 7, 9];
    let empty: Vec<u64> = vec![];
    assert_eq!(select_unmatched(&vec1, &empty), vec![7, 7, 9]);
}
