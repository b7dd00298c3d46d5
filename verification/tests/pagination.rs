use starcitizen_api::response::{paginate, single, single_at, PaginationLinks, PaginationMeta};

#[test]
fn paginate_second_page() {
    let items: Vec<u32> = (0..45).collect();
    let r = paginate(&items, 2, 20, "/api/items");
    assert_eq!(r.data, (20..40).collect::<Vec<u32>>());
    assert_eq!(r.meta.current_page, 2);
    assert_eq!(r.meta.per_page, 20);
    assert_eq!(r.meta.total, 45);
    assert_eq!(r.meta.last_page, 3);
    assert_eq!(r.meta.from, 21);
    assert_eq!(r.meta.to, 40);
    assert_eq!(r.links.first, "/api/items?page[number]=1&page[size]=20");
    assert_eq!(r.links.last, "/api/items?page[number]=3&page[size]=20");
    assert_eq!(r.links.prev.as_deref(), Some("/api/items?page[number]=1&page[size]=20"));
    assert_eq!(r.links.next.as_deref(), Some("/api/items?page[number]=3&page[size]=20"));
}

#[test]
fn paginate_last_partial_page() {
    let items: Vec<u32> = (0..45).collect();
    let r = paginate(&items, 3, 20, "/x");
    assert_eq!(r.data, (40..45).collect::<Vec<u32>>());
    assert_eq!(r.meta.from, 41);
    assert_eq!(r.meta.to, 45);
    assert!(r.links.next.is_none());
}

#[test]
fn paginate_page_past_the_end_is_empty() {
    let items: Vec<u32> = (0..5).collect();
    let r = paginate(&items, 4, 2, "/x");
    assert!(r.data.is_empty());
    assert_eq!(r.meta.last_page, 3);
    assert_eq!(r.meta.from, 7);
    assert_eq!(r.meta.to, 5);
}

#[test]
fn paginate_clamps_page_and_size() {
    let items: Vec<u32> = (0..300).collect();
    let r = paginate(&items, 0, 1000, "/x");
    assert_eq!(r.meta.current_page, 1);
    assert_eq!(r.meta.per_page, 200);
    assert_eq!(r.data.len(), 200);
    let s = paginate(&items, 1, 0, "/x");
    assert_eq!(s.meta.per_page, 1);
    assert_eq!(s.data, vec![0]);
}

#[test]
fn paginate_empty_list() {
    let items: Vec<u32> = Vec::new();
    let r = paginate(&items, 1, 30, "/x");
    assert!(r.data.is_empty());
    assert_eq!(r.meta.last_page, 1);
    assert_eq!(r.meta.from, 0);
    assert_eq!(r.meta.to, 0);
    assert!(r.links.prev.is_none());
    assert!(r.links.next.is_none());
}

#[test]
fn meta_counts() {
    let m = PaginationMeta::new(2, 10, 25);
    assert_eq!(m.last_page, 3);
    assert_eq!(m.from, 11);
    assert_eq!(m.to, 20);
    assert!(!m.processed_at.is_empty());
    let e = PaginationMeta::new(1, 30, 0);
    assert_eq!(e.last_page, 1);
    assert_eq!(e.from, 0);
    assert_eq!(e.to, 0);
}

#[test]
fn links_between_pages() {
    let l = PaginationLinks::new("/api/items", 2, 10, 25);
    assert_eq!(l.first, "/api/items?page[number]=1&page[size]=10");
    assert_eq!(l.last, "/api/items?page[number]=3&page[size]=10");
    assert_eq!(l.prev.as_deref(), Some("/api/items?page[number]=1&page[size]=10"));
    assert_eq!(l.next.as_deref(), Some("/api/items?page[number]=3&page[size]=10"));
    let one = PaginationLinks::new("/a", 1, 10, 0);
    assert_eq!(one.last, "/a?page[number]=1&page[size]=10");
    assert!(one.prev.is_none());
    assert!(one.next.is_none());
}

#[test]
fn single_wraps_and_stamps() {
    let s = single(7u32);
    assert_eq!(s.data, 7);
    assert!(s.meta.processed_at.contains('T'));
}

#[test]
fn links_for_an_empty_list_with_page_size_zero() {
    let l = PaginationLinks::new("/a", 1, 0, 0);
    assert_eq!(l.first, "/a?page[number]=1&page[size]=0");
    assert_eq!(l.last, "/a?page[number]=1&page[size]=0");
    assert!(l.prev.is_none());
    assert!(l.next.is_none());
}

#[test]
fn pages_join_back_to_the_list() {
    let items: Vec<u32> = (0..45).collect();
    let first = paginate(&items, 1, 20, "/x");
    let mut all = Vec::new();
    for p in 1..=first.meta.last_page {
        all.extend(paginate(&items, p, 20, "/x").data);
    }
    assert_eq!(all, items);
    assert!(paginate(&items, first.meta.last_page + 1, 20, "/x").data.is_empty());
}

#[test]
fn meta_at_keeps_the_given_time() {
    let m = PaginationMeta::at(4, 30, 100, "2024-05-01T12:00:00+00:00".to_string());
    assert_eq!(m.current_page, 4);
    assert_eq!(m.from, 91);
    assert_eq!(m.to, 100);
    assert_eq!(m.last_page, 4);
    assert_eq!(m.per_page, 30);
    assert_eq!(m.total, 100);
    assert_eq!(m.processed_at, "2024-05-01T12:00:00+00:00");
}

#[test]
fn single_at_keeps_data_and_time() {
    let r = single_at(7u32, "2024-05-01T12:00:00+00:00".to_string());
    assert_eq!(r.data, 7);
    assert_eq!(r.meta.processed_at, "2024-05-01T12:00:00+00:00");
}
