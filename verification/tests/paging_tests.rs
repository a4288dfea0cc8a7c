use odoo_mcp::json::Json;
use odoo_mcp::paging::{add_page, next_page, PAGE_SIZE};

/// Runs a paginated search against a server holding `total` records.
fn simulate(total: u64, limit: Option<u64>, offset: u64) -> (Vec<Json>, Vec<(u64, u64)>) {
    let mut records = Vec::new();
    let mut requests = Vec::new();
    let mut fetched = 0;
    let mut last = None;
    while let Some((off, size)) = next_page(limit, offset, fetched, last) {
        requests.push((off, size));
        let end = total.min(off + size);
        let page: Vec<Json> = (off.min(total)..end).map(|i| Json::Int(i as i64)).collect();
        let got = add_page(&mut records, Json::Array(page)).unwrap();
        fetched += got;
        last = Some((size, got));
    }
    (records, requests)
}

fn ints(r: std::ops::Range<u64>) -> Vec<Json> {
    r.map(|i| Json::Int(i as i64)).collect()
}

#[test]
fn every_record_in_pages_of_at_most_300() {
    let (records, requests) = simulate(1000, None, 0);
    assert_eq!(records, ints(0..1000));
    assert_eq!(requests, vec![(0, 300), (300, 300), (600, 300), (900, 300)]);
    assert!(requests.iter().all(|&(_, n)| n <= PAGE_SIZE));
}

#[test]
fn limit_and_offset_are_kept() {
    let (records, requests) = simulate(1000, Some(450), 20);
    assert_eq!(records, ints(20..470));
    assert_eq!(requests, vec![(20, 300), (320, 150)]);
    let (records, _) = simulate(100, Some(0), 0);
    assert!(records.is_empty());
    let (records, requests) = simulate(600, None, 0);
    assert_eq!(records, ints(0..600));
    assert_eq!(requests, vec![(0, 300), (300, 300), (600, 300)]);
    let (records, _) = simulate(10, None, 50);
    assert!(records.is_empty());
}

#[test]
fn a_reply_that_is_not_a_list_is_handed_back() {
    let mut records = vec![Json::Int(1)];
    assert_eq!(add_page(&mut records, Json::Int(7)), Err(Json::Int(7)));
    assert_eq!(records, vec![Json::Int(1)]);
}
