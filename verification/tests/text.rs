use mender_rust::error::{Failure, MenderError};
use mender_rust::text::{decimal_string, same_text};

#[test]
fn decimal_of_small_numbers() {
    assert_eq!(decimal_string(0), "0");
    assert_eq!(decimal_string(7), "7");
    assert_eq!(decimal_string(9), "9");
    assert_eq!(decimal_string(10), "10");
    assert_eq!(decimal_string(404), "404");
    assert_eq!(decimal_string(1234567890), "1234567890");
}

#[test]
fn decimal_of_the_largest_number() {
    assert_eq!(decimal_string(u64::MAX), "18446744073709551615");
    assert_eq!(decimal_string(u64::MAX), u64::MAX.to_string());
}

#[test]
fn decimal_agrees_with_the_standard_library() {
    let mut n: u64 = 1;
    for _ in 0..19 {
        assert_eq!(decimal_string(n), n.to_string());
        assert_eq!(decimal_string(n - 1), (n - 1).to_string());
        n *= 10;
    }
}

#[test]
fn same_text_compares_characters() {
    assert!(same_text("help", "help"));
    assert!(!same_text("help", "Help"));
    assert!(!same_text("help", "hel"));
    assert!(same_text("", ""));
}

#[test]
fn fetch_error_carries_endpoint_status_and_body() {
    let error = MenderError::fetch("deployment", "https://fleet.example/x", 404, "nope");
    assert_eq!(
        error.failure,
        Failure::Fetch {
            endpoint: String::from("https://fleet.example/x"),
            status: 404,
            body: String::from("nope"),
        }
    );
    assert_eq!(error.message(), "deployment failed. Status code '404' response 'nope'");
}

#[test]
fn each_error_kind_has_its_text() {
    let usage = MenderError::usage("bad call");
    assert_eq!(usage.failure, Failure::Usage);
    assert_eq!(usage.message(), "bad call");

    let missing = MenderError::not_found();
    assert_eq!(missing.failure, Failure::NotFound);
    assert_eq!(missing.message(), "SerialNumber not found");

    let broken = MenderError::transport(String::from("connection refused"));
    assert_eq!(broken.failure, Failure::Transport);
    assert_eq!(broken.message(), "connection refused");

    let made = MenderError::new(Failure::Usage, String::from("x"));
    assert_eq!(made, MenderError { failure: Failure::Usage, err: String::from("x") });
}
