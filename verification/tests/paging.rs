use mender_rust::machine::Step;
use mender_rust::paging::{Cursor, Pager};
use mender_rust::wire::{Auth, Method, Param, Request, Shape};

fn param(name: &str, value: &str) -> Param {
    Param { name: String::from(name), value: String::from(value) }
}

fn listing() -> Cursor {
    Cursor::first(
        String::from("https://fleet.example/list"),
        String::from("secret"),
        vec![param("status", "accepted")],
        Shape::Members,
    )
}

fn page_request(page: &str) -> Request {
    Request {
        method: Method::Get,
        url: String::from("https://fleet.example/list"),
        auth: Auth::Bearer { token: String::from("secret") },
        query: vec![param("per_page", "500"), param("page", page), param("status", "accepted")],
        body: None,
        expect: Shape::Members,
    }
}

fn strings(items: &[&str]) -> Vec<String> {
    items.iter().map(|s| s.to_string()).collect()
}

/// Feeds the pages to a collecting walk; returns the requests it issued and
/// what it ended with.
fn collect(pages: Vec<Vec<String>>) -> (Vec<Request>, Option<Vec<String>>) {
    let mut requests = Vec::new();
    let mut step = Pager::start(listing());
    let mut pages = pages.into_iter();
    loop {
        match step {
            Step::Done(outcome) => return (requests, Some(outcome.unwrap())),
            Step::Call { state, request } => {
                requests.push(request);
                match pages.next() {
                    Some(page) => step = state.absorb(page),
                    None => return (requests, None),
                }
            }
        }
    }
}

#[test]
fn cursor_starts_on_page_one() {
    let cursor = listing();
    assert_eq!(cursor.page, 1);
    assert_eq!(cursor.request(), page_request("1"));
}

#[test]
fn cursor_turns_only_on_a_page_with_items() {
    assert_eq!(listing().turn(0), None);
    let next = listing().turn(1).unwrap();
    assert_eq!(next.page, 2);
    assert_eq!(next.request(), page_request("2"));
    let third = next.turn(500).unwrap();
    assert_eq!(third.page, 3);
    assert_eq!(third.endpoint, "https://fleet.example/list");
    assert_eq!(third.token, "secret");
}

#[test]
fn page_index_is_written_in_decimal() {
    let mut cursor = listing();
    for _ in 0..11 {
        cursor = cursor.turn(3).unwrap();
    }
    assert_eq!(cursor.request(), page_request("12"));
}

#[test]
fn pagination_concatenates_pages_in_order() {
    let (requests, outcome) =
        collect(vec![strings(&["a", "b"]), strings(&["c"]), strings(&["d", "e", "f"]), vec![]]);
    assert_eq!(outcome, Some(strings(&["a", "b", "c", "d", "e", "f"])));
    assert_eq!(
        requests,
        vec![page_request("1"), page_request("2"), page_request("3"), page_request("4")]
    );
}

#[test]
fn pagination_of_an_empty_listing_asks_once() {
    let (requests, outcome) = collect(vec![vec![]]);
    assert_eq!(outcome, Some(Vec::new()));
    assert_eq!(requests, vec![page_request("1")]);
}

#[test]
fn a_short_page_does_not_end_the_walk() {
    let (requests, outcome) = collect(vec![strings(&["a"]), strings(&["b"])]);
    assert_eq!(outcome, None);
    assert_eq!(requests.len(), 3);
    assert_eq!(requests[2], page_request("3"));
}

#[test]
fn pages_after_the_empty_one_are_never_asked_for() {
    let (requests, outcome) = collect(vec![strings(&["a"]), vec![], strings(&["late"])]);
    assert_eq!(outcome, Some(strings(&["a"])));
    assert_eq!(requests.len(), 2);
}

#[test]
fn duplicates_are_passed_through() {
    let (_, outcome) = collect(vec![strings(&["a", "a"]), strings(&["a"]), vec![]]);
    assert_eq!(outcome, Some(strings(&["a", "a", "a"])));
}
