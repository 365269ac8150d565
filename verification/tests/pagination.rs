use rok_orm::pagination::page_meta;

#[test]
fn page_meta_clamps_and_counts_pages() {
    assert_eq!(page_meta(45, 10, 2), (10, 2, 5));
    assert_eq!(page_meta(40, 10, 0), (10, 1, 4));
    assert_eq!(page_meta(0, 500, 3), (100, 3, 1));
    assert_eq!(page_meta(7, 0, 1), (1, 1, 7));
    assert_eq!(page_meta(i64::MAX, 100, 1), (100, 1, i64::MAX / 100 + 1));
}
