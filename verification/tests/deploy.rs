use mender_rust::deploy::{deploy, Deployment};
use mender_rust::error::{Failure, MenderError};
use mender_rust::machine::Step;
use mender_rust::parse::{Command, Config};
use mender_rust::wire::{Auth, DeployData, Method, Param, Payload, Reply, Request, Shape};

const SERVER: &str = "https://fleet.example";
const DEPLOYMENTS: &str = "https://fleet.example/api/management/v1/deployments/deployments";
const MEMBERS: &str = "https://fleet.example/api/management/v1/inventory/groups/prod/devices";

fn strings(items: &[&str]) -> Vec<String> {
    items.iter().map(|s| s.to_string()).collect()
}

fn conf(group: Option<&str>, device: Option<&str>, name: Option<&str>) -> Config {
    Config {
        command: Command::Deploy {
            group: group.map(String::from),
            device: device.map(String::from),
            artifact: String::from("release-7"),
            name: name.map(String::from),
        },
        token: Some(String::from("secret")),
        server_url: String::from(SERVER),
        cert_file: None,
    }
}

fn members(items: &[&str]) -> Reply {
    Reply::Http { status: 200, body: String::from("[..]"), payload: Payload::Members(strings(items)) }
}

fn accepted() -> Reply {
    Reply::Http { status: 201, body: String::new(), payload: Payload::Text }
}

fn refused(status: u16, body: &str) -> Reply {
    Reply::Http { status, body: String::from(body), payload: Payload::Undecodable }
}

fn listing_request(page: &str) -> Request {
    Request {
        method: Method::Get,
        url: String::from(MEMBERS),
        auth: Auth::Bearer { token: String::from("secret") },
        query: vec![
            Param { name: String::from("per_page"), value: String::from("500") },
            Param { name: String::from("page"), value: String::from(page) },
        ],
        body: None,
        expect: Shape::Members,
    }
}

fn submission(name: &str, devices: &[&str]) -> Request {
    Request {
        method: Method::Post,
        url: String::from(DEPLOYMENTS),
        auth: Auth::Bearer { token: String::from("secret") },
        query: vec![],
        body: Some(DeployData {
            artifact_name: String::from("release-7"),
            name: String::from(name),
            devices: strings(devices),
        }),
        expect: Shape::Text,
    }
}

/// Runs a deployment against the replies; returns the requests it issued and
/// how it ended.
fn drive(conf: &Config, replies: Vec<Reply>) -> (Vec<Request>, Option<Result<usize, MenderError>>) {
    let mut requests = Vec::new();
    let mut replies = replies.into_iter();
    let mut step: Step<Deployment, usize> = deploy(conf);
    loop {
        match step {
            Step::Done(outcome) => return (requests, Some(outcome)),
            Step::Call { state, request } => {
                requests.push(request);
                match replies.next() {
                    Some(reply) => {
                        assert!(state.can_advance());
                        step = state.advance(reply);
                    }
                    None => return (requests, None),
                }
            }
        }
    }
}

#[test]
fn device_target_submits_at_once() {
    let (requests, outcome) = drive(&conf(None, Some("d-42"), None), vec![accepted()]);
    assert_eq!(requests, vec![submission("d-42", &["d-42"])]);
    assert_eq!(outcome, Some(Ok(1)));
}

#[test]
fn device_target_never_lists_members() {
    let (requests, _) = drive(&conf(None, Some("d-42"), None), vec![accepted(), members(&["x"])]);
    assert_eq!(requests.len(), 1);
    assert!(requests.iter().all(|request| request.method == Method::Post));
}

#[test]
fn group_target_lists_then_submits() {
    let (requests, outcome) = drive(
        &conf(Some("prod"), None, None),
        vec![members(&["d1", "d2"]), members(&["d3"]), members(&[]), accepted()],
    );
    assert_eq!(outcome, Some(Ok(3)));
    assert_eq!(
        requests,
        vec![
            listing_request("1"),
            listing_request("2"),
            listing_request("3"),
            submission("prod", &["d1", "d2", "d3"]),
        ]
    );
}

#[test]
fn group_without_members_submits_an_empty_list() {
    let (requests, outcome) =
        drive(&conf(Some("prod"), None, None), vec![members(&[]), accepted()]);
    assert_eq!(outcome, Some(Ok(0)));
    assert_eq!(requests, vec![listing_request("1"), submission("prod", &[])]);
}

#[test]
fn duplicate_members_are_submitted_as_listed() {
    let (requests, outcome) = drive(
        &conf(Some("prod"), None, None),
        vec![members(&["d1", "d1"]), members(&["d1"]), members(&[]), accepted()],
    );
    assert_eq!(outcome, Some(Ok(3)));
    assert_eq!(requests[3], submission("prod", &["d1", "d1", "d1"]));
}

#[test]
fn explicit_name_wins_over_the_target() {
    let (requests, _) = drive(&conf(Some("prod"), None, Some("nightly")), vec![members(&[])]);
    assert_eq!(requests[1], submission("nightly", &[]));
    let (requests, _) = drive(&conf(None, Some("d-42"), Some("nightly")), vec![]);
    assert_eq!(requests, vec![submission("nightly", &["d-42"])]);
}

#[test]
fn deployment_needs_a_target() {
    let (requests, outcome) = drive(&conf(None, None, Some("nightly")), vec![accepted()]);
    assert!(requests.is_empty());
    let error = outcome.unwrap().unwrap_err();
    assert_eq!(error.failure, Failure::Usage);
    assert_eq!(error.message(), "A group or a device id must be provided for deployment");
}

#[test]
fn deployment_takes_one_target_only() {
    let (requests, outcome) = drive(&conf(Some("prod"), Some("d-42"), None), vec![accepted()]);
    assert!(requests.is_empty());
    let error = outcome.unwrap().unwrap_err();
    assert_eq!(error.failure, Failure::Usage);
    assert_eq!(
        error.message(),
        "Only one of a group and a device id can be provided for deployment"
    );
}

#[test]
fn deployment_needs_its_command_and_a_token() {
    let text = "Command must be Deploy and token must be provided for deploy";
    let mut without_token = conf(Some("prod"), None, None);
    without_token.token = None;
    let (requests, outcome) = drive(&without_token, vec![]);
    assert!(requests.is_empty());
    assert_eq!(outcome, Some(Err(MenderError::usage(text))));

    let mut other = conf(Some("prod"), None, None);
    other.command = Command::CountArtifacts;
    let (requests, outcome) = drive(&other, vec![]);
    assert!(requests.is_empty());
    assert_eq!(outcome, Some(Err(MenderError::usage(text))));
}

#[test]
fn failed_listing_submits_nothing() {
    let (requests, outcome) = drive(
        &conf(Some("prod"), None, None),
        vec![members(&["d1", "d2"]), refused(503, "try later"), members(&[]), accepted()],
    );
    assert_eq!(requests, vec![listing_request("1"), listing_request("2")]);
    let error = outcome.unwrap().unwrap_err();
    assert_eq!(
        error.failure,
        Failure::Fetch {
            endpoint: String::from(MEMBERS),
            status: 503,
            body: String::from("try later"),
        }
    );
    assert_eq!(error.message(), "deployment failed. Status code '503' response 'try later'");
}

#[test]
fn refused_submission_is_a_fetch_error() {
    let (requests, outcome) =
        drive(&conf(None, Some("d-42"), None), vec![refused(404, "no such artifact")]);
    assert_eq!(requests.len(), 1);
    assert_eq!(
        outcome,
        Some(Err(MenderError::fetch("deployment", DEPLOYMENTS, 404, "no such artifact")))
    );
}

#[test]
fn undecodable_listing_is_a_fetch_error() {
    let (requests, outcome) = drive(
        &conf(Some("prod"), None, None),
        vec![Reply::Http {
            status: 200,
            body: String::from("<html>"),
            payload: Payload::Undecodable,
        }],
    );
    assert_eq!(requests.len(), 1);
    assert_eq!(outcome, Some(Err(MenderError::fetch("deployment", MEMBERS, 200, "<html>"))));
}

#[test]
fn listing_of_another_shape_is_a_fetch_error() {
    let (_, outcome) = drive(
        &conf(Some("prod"), None, None),
        vec![Reply::Http { status: 200, body: String::from("[]"), payload: Payload::Ids(vec![]) }],
    );
    assert_eq!(outcome, Some(Err(MenderError::fetch("deployment", MEMBERS, 200, "[]"))));
}

#[test]
fn transport_failure_is_passed_on() {
    let failed = || Reply::Failed { reason: String::from("connection reset") };
    let (requests, outcome) = drive(&conf(Some("prod"), None, None), vec![failed()]);
    assert_eq!(requests.len(), 1);
    assert_eq!(outcome, Some(Err(MenderError::transport(String::from("connection reset")))));

    let (_, outcome) = drive(&conf(None, Some("d-42"), None), vec![failed()]);
    let error = outcome.unwrap().unwrap_err();
    assert_eq!(error.failure, Failure::Transport);
    assert_eq!(error.message(), "connection reset");
}

#[test]
fn status_codes_around_success() {
    for (status, ok) in [(199, false), (200, true), (204, true), (299, true), (300, false)] {
        let reply = Reply::Http { status, body: String::new(), payload: Payload::Text };
        assert_eq!(reply.is_success(), ok);
        let (_, outcome) = drive(&conf(None, Some("d-42"), None), vec![reply]);
        assert_eq!(outcome.unwrap().is_ok(), ok);
    }
}

#[test]
fn deployment_waits_for_each_reply() {
    let (requests, outcome) = drive(&conf(Some("prod"), None, None), vec![members(&["d1"])]);
    assert_eq!(outcome, None);
    assert_eq!(requests, vec![listing_request("1"), listing_request("2")]);
}
