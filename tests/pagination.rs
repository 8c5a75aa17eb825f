use hub_tool::{
    begin, classify_status, first_request, pages_remaining, ApiResult, FetchError, PageRequest,
    Pagination, Plan, Step, DEFAULT_PAGE_SIZE,
};

fn page(count: usize, more: bool, results: Vec<u32>) -> ApiResult<u32> {
    let next = if more { Some("https://hub.example/next".to_string()) } else { None };
    ApiResult::new(count, next, None, results)
}

fn items(from: u32, to: u32) -> Vec<u32> {
    (from..=to).collect()
}

fn fetch_of(plan: Result<Plan<u32>, FetchError>) -> Pagination<u32> {
    match plan {
        Ok(Plan::Fetch(p)) => p,
        Ok(Plan::Done(_)) => panic!("expected more pages to fetch"),
        Err(e) => panic!("unexpected error {e:?}"),
    }
}

fn done_of(plan: Result<Plan<u32>, FetchError>) -> Vec<u32> {
    match plan {
        Ok(Plan::Done(v)) => v,
        Ok(Plan::Fetch(_)) => panic!("expected the first page to be the whole listing"),
        Err(e) => panic!("unexpected error {e:?}"),
    }
}

/// Runs a whole fetch of a listing of `count` items, `size` to a page, with
/// the following pages completing in the order `order`.
fn run_fetch(count: u32, size: u32, order: &[usize]) -> Vec<u32> {
    let mut fetch = fetch_of(begin(Ok(page(count as usize, true, items(1, size))), 0));
    let mut requests = Vec::new();
    while let Some(r) = fetch.next_request() {
        requests.push(r);
    }
    assert_eq!(requests.len(), order.len());
    let mut last = Step::Pending;
    for &p in order {
        let from = (p as u32 - 1) * size + 1;
        let to = std::cmp::min(p as u32 * size, count);
        last = fetch.receive(p, Ok(page(count as usize, true, items(from, to))));
    }
    assert_eq!(last, Step::Complete);
    fetch.into_items()
}

#[test]
fn pages_remaining_rounds_up() {
    assert_eq!(pages_remaining(12, 5), 2);
    assert_eq!(pages_remaining(10, 5), 1);
    assert_eq!(pages_remaining(25, 10), 2);
    assert_eq!(pages_remaining(1, 10), 0);
    assert_eq!(pages_remaining(5, 5), 0);
    assert_eq!(pages_remaining(0, 5), 0);
    assert_eq!(pages_remaining(usize::MAX, 1), usize::MAX - 1);
}

#[test]
fn first_request_asks_for_page_one_of_ten() {
    assert_eq!(first_request(), PageRequest { page: 1, page_size: DEFAULT_PAGE_SIZE });
    assert_eq!(DEFAULT_PAGE_SIZE, 10);
}

#[test]
fn twelve_items_five_to_a_page() {
    let mut fetch = fetch_of(begin(Ok(page(12, true, items(1, 5))), 0));
    assert_eq!(fetch.page_size(), 5);
    assert_eq!(fetch.following_pages(), 2);
    assert_eq!(fetch.next_request(), Some(PageRequest { page: 2, page_size: 5 }));
    assert_eq!(fetch.next_request(), Some(PageRequest { page: 3, page_size: 5 }));
    assert_eq!(fetch.next_request(), None);
    assert_eq!(fetch.in_flight(), 2);
    assert_eq!(fetch.receive(2, Ok(page(12, true, items(6, 10)))), Step::Pending);
    assert_eq!(fetch.receive(3, Ok(page(12, false, items(11, 12)))), Step::Complete);
    let all = fetch.into_items();
    assert_eq!(all.len(), 12);
    assert_eq!(all, items(1, 12));
}

#[test]
fn pages_merge_in_page_order_whatever_the_arrival_order() {
    let in_order = run_fetch(23, 4, &[2, 3, 4, 5, 6]);
    let reversed = run_fetch(23, 4, &[6, 5, 4, 3, 2]);
    let shuffled = run_fetch(23, 4, &[4, 2, 6, 3, 5]);
    assert_eq!(in_order, items(1, 23));
    assert_eq!(reversed, items(1, 23));
    assert_eq!(shuffled, items(1, 23));
}

#[test]
fn full_pages_add_up_to_the_count() {
    for (count, size) in [(12u32, 5u32), (10, 5), (21, 4), (9, 2), (100, 10)] {
        let n = pages_remaining(count as usize, size as usize);
        assert_eq!(n, ((count + size - 1) / size - 1) as usize);
        let order: Vec<usize> = (2..n + 2).collect();
        assert_eq!(run_fetch(count, size, &order).len(), count as usize);
    }
}

#[test]
fn rate_limited_page_fails_the_whole_fetch() {
    let mut fetch = fetch_of(begin(Ok(page(12, true, items(1, 5))), 0));
    assert!(fetch.next_request().is_some());
    assert!(fetch.next_request().is_some());
    let limited = classify_status(429, Some(b"1700000000".as_slice())).unwrap();
    assert_eq!(limited, FetchError::RateLimited(Some(1700000000)));
    assert_eq!(
        fetch.receive(2, Err(limited)),
        Step::Failed(FetchError::RateLimited(Some(1700000000)))
    );
    assert!(fetch.is_failed());
    // Page 3 would have succeeded: its result is discarded.
    assert_eq!(fetch.receive(3, Ok(page(12, false, items(11, 12)))), Step::Ignored);
    assert!(!fetch.is_complete());
    assert_eq!(fetch.next_request(), None);
}

#[test]
fn third_of_five_pages_failing_fails_the_fetch() {
    let mut fetch = fetch_of(begin(Ok(page(25, true, items(1, 5))), 0));
    assert_eq!(fetch.following_pages(), 4);
    while fetch.next_request().is_some() {}
    assert_eq!(fetch.receive(2, Ok(page(25, true, items(6, 10)))), Step::Pending);
    assert_eq!(
        fetch.receive(3, Err(FetchError::RateLimited(None))),
        Step::Failed(FetchError::RateLimited(None))
    );
    assert_eq!(fetch.receive(4, Ok(page(25, true, items(16, 20)))), Step::Ignored);
    assert_eq!(fetch.receive(5, Ok(page(25, false, items(21, 25)))), Step::Ignored);
    assert!(!fetch.is_complete());
}

#[test]
fn empty_listing_is_done_at_once() {
    assert_eq!(done_of(begin(Ok(page(0, false, vec![])), 0)), Vec::<u32>::new());
    assert_eq!(done_of(begin(Ok(page(0, true, vec![])), 0)), Vec::<u32>::new());
}

#[test]
fn listing_without_next_page_is_the_first_page() {
    assert_eq!(done_of(begin(Ok(page(3, false, items(1, 3))), 0)), items(1, 3));
}

#[test]
fn single_page_listing_with_next_link_is_done() {
    assert_eq!(done_of(begin(Ok(page(5, true, items(1, 5))), 0)), items(1, 5));
}

#[test]
fn empty_first_page_with_more_to_follow_is_a_decode_error() {
    match begin(Ok(page(12, true, vec![])), 0) {
        Err(FetchError::Decode(_)) => {}
        _ => panic!("expected a decoding error"),
    }
}

#[test]
fn failed_first_page_fails_the_fetch() {
    match begin::<u32>(Err(FetchError::Unauthorized), 0) {
        Err(FetchError::Unauthorized) => {}
        _ => panic!("expected the first page's error"),
    }
    match begin::<u32>(Err(FetchError::NotFound), 4) {
        Err(FetchError::NotFound) => {}
        _ => panic!("expected the first page's error"),
    }
}

#[test]
fn requests_in_flight_stay_under_the_bound() {
    let mut fetch = fetch_of(begin(Ok(page(20, true, items(1, 5))), 2));
    assert_eq!(fetch.next_request(), Some(PageRequest { page: 2, page_size: 5 }));
    assert_eq!(fetch.next_request(), Some(PageRequest { page: 3, page_size: 5 }));
    assert_eq!(fetch.next_request(), None);
    assert_eq!(fetch.in_flight(), 2);
    assert_eq!(fetch.receive(3, Ok(page(20, true, items(11, 15)))), Step::Pending);
    assert_eq!(fetch.in_flight(), 1);
    assert_eq!(fetch.next_request(), Some(PageRequest { page: 4, page_size: 5 }));
    assert_eq!(fetch.next_request(), None);
    assert_eq!(fetch.receive(2, Ok(page(20, true, items(6, 10)))), Step::Pending);
    assert_eq!(fetch.receive(4, Ok(page(20, false, items(16, 20)))), Step::Complete);
    assert_eq!(fetch.into_items(), items(1, 20));
}

#[test]
fn unknown_and_repeated_pages_are_ignored() {
    let mut fetch = fetch_of(begin(Ok(page(15, true, items(1, 5))), 0));
    assert_eq!(fetch.next_request(), Some(PageRequest { page: 2, page_size: 5 }));
    assert_eq!(fetch.receive(1, Ok(page(15, true, items(1, 5)))), Step::Ignored);
    assert_eq!(fetch.receive(3, Ok(page(15, true, items(11, 15)))), Step::Ignored);
    assert_eq!(fetch.receive(9, Err(FetchError::NotFound)), Step::Ignored);
    assert_eq!(fetch.receive(2, Ok(page(15, true, items(6, 10)))), Step::Pending);
    assert_eq!(fetch.receive(2, Err(FetchError::NotFound)), Step::Ignored);
    assert!(!fetch.is_failed());
    assert_eq!(fetch.next_request(), Some(PageRequest { page: 3, page_size: 5 }));
    assert_eq!(fetch.receive(3, Ok(page(15, false, items(11, 15)))), Step::Complete);
    assert_eq!(fetch.into_items(), items(1, 15));
}

#[test]
fn fetching_twice_gives_the_same_listing() {
    let once = run_fetch(17, 3, &[2, 3, 4, 5, 6]);
    let twice = run_fetch(17, 3, &[6, 3, 5, 2, 4]);
    assert_eq!(once, twice);
    assert_eq!(once, items(1, 17));
}
