use discogger::pagination::{Paginated, PaginatedData, PaginationInfo, PaginationParams};

fn pagination(page: u32, pages: u32) -> PaginationInfo {
    PaginationInfo {
        page,
        pages,
        per_page: 50,
        items: pages * 50,
    }
}

#[test]
fn has_next_when_not_last_page() {
    let p: Paginated<()> = Paginated::new(vec![], pagination(1, 3));
    assert!(p.has_next());
}

#[test]
fn no_next_on_last_page() {
    let p: Paginated<()> = Paginated::new(vec![], pagination(3, 3));
    assert!(!p.has_next());
}

#[test]
fn next_page_params_increments_page() {
    let p: Paginated<()> = Paginated::new(vec![], pagination(2, 5));
    let next = p.next_page_params().unwrap();
    assert_eq!(next.page, 3);
    assert_eq!(next.per_page, 50);
}

#[test]
fn next_page_params_none_on_last_page() {
    let p: Paginated<()> = Paginated::new(vec![], pagination(5, 5));
    assert!(p.next_page_params().is_none());
}

#[test]
fn total_items() {
    let p: Paginated<()> = Paginated::new(vec![], pagination(1, 3));
    assert_eq!(p.total_items(), 150);
}

#[test]
fn pagination_params_as_query_pairs() {
    let params = PaginationParams::new(3, 25);
    let pairs = params.as_query_pairs();
    assert_eq!(pairs, vec![("page", "3".to_string()), ("per_page", "25".to_string())]);
}

#[test]
fn pagination_params_default() {
    let params = PaginationParams::default();
    assert_eq!(params.page, 1);
    assert_eq!(params.per_page, 50);
}

#[test]
fn cursor_first_of_three_pages() {
    let p = Paginated::new(vec![1u64, 2, 3], pagination(1, 3));
    assert!(p.has_next());
    let next = p.next_page_params().unwrap();
    assert_eq!(next.page, 2);
    assert_eq!(p.items, vec![1, 2, 3]);
}

#[test]
fn cursor_last_of_three_pages() {
    let p: Paginated<()> = Paginated::new(vec![], pagination(3, 3));
    assert!(!p.has_next());
    assert_eq!(p.next_page_params(), None);
}

#[test]
fn cursor_past_last_page_and_largest_page() {
    let p: Paginated<()> = Paginated::new(vec![], pagination(4, 3));
    assert!(!p.has_next());
    let info = PaginationInfo { page: u32::MAX - 1, pages: u32::MAX, per_page: 7, items: 0 };
    let p: Paginated<()> = Paginated::new(vec![], info);
    assert_eq!(p.next_page_params(), Some(PaginationParams { page: u32::MAX, per_page: 7 }));
    let info = PaginationInfo { page: u32::MAX, pages: u32::MAX, per_page: 7, items: 0 };
    let p: Paginated<()> = Paginated::new(vec![], info);
    assert_eq!(p.next_page_params(), None);
}

#[test]
fn total_items_passes_through() {
    let info = PaginationInfo { page: 1, pages: 3, per_page: 50, items: 150 };
    let p: Paginated<()> = Paginated::new(vec![], info);
    assert_eq!(p.total_items(), 150);
}

#[test]
fn paginated_data_lists() {
    assert_eq!(PaginatedData::Releases { releases: vec![1, 2] }.into_vec(), vec![1, 2]);
    assert_eq!(PaginatedData::Versions { versions: vec![3] }.into_vec(), vec![3]);
    assert_eq!(PaginatedData::<u8>::Results { results: vec![] }.into_vec(), Vec::<u8>::new());
}
