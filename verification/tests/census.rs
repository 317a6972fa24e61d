use mender_rust::census::{count_artifacts, Census};
use mender_rust::tally::{display_ordered, ArtifactCount, Tally};
use mender_rust::error::{Failure, MenderError};
use mender_rust::machine::Step;
use mender_rust::parse::{Command, Config};
use mender_rust::wire::{
    Auth, MenderAttribute, MenderDevice, Method, Param, Payload, Reply, Request, Shape,
};

const INVENTORY: &str = "https://fleet.example/api/management/v1/inventory/devices";

fn conf() -> Config {
    Config {
        command: Command::CountArtifacts,
        token: Some(String::from("secret")),
        server_url: String::from("https://fleet.example"),
        cert_file: None,
    }
}

fn attribute(name: &str, value: &str) -> MenderAttribute {
    MenderAttribute { name: String::from(name), value: String::from(value) }
}

fn running(id: &str, artifact: &str) -> MenderDevice {
    MenderDevice {
        id: String::from(id),
        attributes: Some(vec![attribute("mac", "00:11"), attribute("artifact_name", artifact)]),
    }
}

fn bare(id: &str) -> MenderDevice {
    MenderDevice { id: String::from(id), attributes: None }
}

fn devices(list: Vec<MenderDevice>) -> Reply {
    Reply::Http { status: 200, body: String::from("[..]"), payload: Payload::Devices(list) }
}

fn inventory_page(page: &str) -> Request {
    Request {
        method: Method::Get,
        url: String::from(INVENTORY),
        auth: Auth::Bearer { token: String::from("secret") },
        query: vec![
            Param { name: String::from("per_page"), value: String::from("500") },
            Param { name: String::from("page"), value: String::from(page) },
        ],
        body: None,
        expect: Shape::Devices,
    }
}

/// Runs a census against the replies; returns the requests it issued and
/// how it ended.
fn drive(conf: &Config, replies: Vec<Reply>) -> (Vec<Request>, Option<Result<String, MenderError>>) {
    let mut requests = Vec::new();
    let mut replies = replies.into_iter();
    let mut step: Step<Census, String> = count_artifacts(conf);
    loop {
        match step {
            Step::Done(outcome) => return (requests, Some(outcome)),
            Step::Call { state, request } => {
                requests.push(request);
                match replies.next() {
                    Some(reply) => {
                        assert!(state.can_advance(&reply));
                        step = state.advance(reply);
                    }
                    None => return (requests, None),
                }
            }
        }
    }
}

fn tally_of(names: &[&str]) -> Tally {
    let mut tally = Tally::new();
    for name in names {
        tally.record(name.to_string());
    }
    tally
}

fn counts(tally: &Tally) -> Vec<(String, u64)> {
    tally.ranked().into_iter().map(|entry| (entry.name, entry.count)).collect()
}

#[test]
fn artifact_name_of_a_device() {
    assert_eq!(running("d1", "release-7").artifact_name(), "release-7");
    assert_eq!(bare("d2").artifact_name(), "");
    let without = MenderDevice { id: String::from("d3"), attributes: Some(vec![]) };
    assert_eq!(without.artifact_name(), "");
    let other = MenderDevice {
        id: String::from("d4"),
        attributes: Some(vec![attribute("Artifact_name", "x"), attribute("artifact_name ", "y")]),
    };
    assert_eq!(other.artifact_name(), "");
}

#[test]
fn artifact_name_takes_the_first_attribute_of_that_name() {
    let twice = MenderDevice {
        id: String::from("d1"),
        attributes: Some(vec![
            attribute("artifact_name", "first"),
            attribute("artifact_name", "second"),
        ]),
    };
    assert_eq!(twice.artifact_name(), "first");
}

#[test]
fn census_in_one_page() {
    let (requests, outcome) = drive(
        &conf(),
        vec![devices(vec![running("d1", "a"), bare("d2"), running("d3", "a")]), devices(vec![])],
    );
    assert_eq!(outcome, Some(Ok(String::from("a: 2\n: 1\n"))));
    assert_eq!(requests, vec![inventory_page("1"), inventory_page("2")]);
}

#[test]
fn census_does_not_depend_on_the_page_split() {
    let splits: Vec<Vec<Reply>> = vec![
        vec![
            devices(vec![running("d1", "a")]),
            devices(vec![bare("d2")]),
            devices(vec![running("d3", "a")]),
            devices(vec![]),
        ],
        vec![
            devices(vec![running("d1", "a"), bare("d2")]),
            devices(vec![running("d3", "a")]),
            devices(vec![]),
        ],
        vec![
            devices(vec![running("d1", "a")]),
            devices(vec![bare("d2"), running("d3", "a")]),
            devices(vec![]),
        ],
    ];
    for replies in splits {
        let asked = replies.len();
        let (requests, outcome) = drive(&conf(), replies);
        assert_eq!(outcome, Some(Ok(String::from("a: 2\n: 1\n"))));
        assert_eq!(requests.len(), asked);
    }
}

#[test]
fn census_of_an_empty_inventory() {
    let (requests, outcome) = drive(&conf(), vec![devices(vec![])]);
    assert_eq!(outcome, Some(Ok(String::new())));
    assert_eq!(requests, vec![inventory_page("1")]);
}

#[test]
fn census_ranks_by_count() {
    let (_, outcome) = drive(
        &conf(),
        vec![
            devices(vec![running("d1", "old"), running("d2", "new"), bare("d3")]),
            devices(vec![running("d4", "new"), running("d5", "new"), bare("d6")]),
            devices(vec![]),
        ],
    );
    assert_eq!(outcome, Some(Ok(String::from("new: 3\n: 2\nold: 1\n"))));
}

#[test]
fn census_waits_after_a_short_page() {
    let (requests, outcome) = drive(&conf(), vec![devices(vec![running("d1", "a")])]);
    assert_eq!(outcome, None);
    assert_eq!(requests, vec![inventory_page("1"), inventory_page("2")]);
}

#[test]
fn failed_page_drops_the_counts() {
    let reply =
        Reply::Http { status: 502, body: String::from("bad gateway"), payload: Payload::Undecodable };
    let (requests, outcome) =
        drive(&conf(), vec![devices(vec![running("d1", "a")]), reply, devices(vec![])]);
    assert_eq!(requests.len(), 2);
    let error = outcome.unwrap().unwrap_err();
    assert_eq!(
        error.failure,
        Failure::Fetch {
            endpoint: String::from(INVENTORY),
            status: 502,
            body: String::from("bad gateway"),
        }
    );
    assert_eq!(
        error.message(),
        "artifacts counting failed. Status code '502' response 'bad gateway'"
    );
}

#[test]
fn undecodable_page_and_transport_failure_end_the_census() {
    let garbled = Reply::Http { status: 200, body: String::from("?"), payload: Payload::Text };
    let (_, outcome) = drive(&conf(), vec![garbled]);
    assert_eq!(outcome, Some(Err(MenderError::fetch("artifacts counting", INVENTORY, 200, "?"))));
    let (_, outcome) = drive(&conf(), vec![Reply::Failed { reason: String::from("timed out") }]);
    assert_eq!(outcome, Some(Err(MenderError::transport(String::from("timed out")))));
}

#[test]
fn census_needs_its_command_and_a_token() {
    let text = "Command must be countartifacts and token must be provided in count_artifacts call";
    let mut without_token = conf();
    without_token.token = None;
    let (requests, outcome) = drive(&without_token, vec![]);
    assert!(requests.is_empty());
    assert_eq!(outcome, Some(Err(MenderError::usage(text))));
    let mut other = conf();
    other.command = Command::GetInfo { id: String::from("x") };
    let (_, outcome) = drive(&other, vec![]);
    assert_eq!(outcome, Some(Err(MenderError::usage(text))));
}

#[test]
fn tally_counts_occurrences() {
    let tally = tally_of(&["a", "b", "a", "", "a", "b"]);
    assert_eq!(tally.devices(), 6);
    assert_eq!(
        counts(&tally),
        vec![(String::from("a"), 3), (String::from("b"), 2), (String::new(), 1)]
    );
}

#[test]
fn ranking_is_stable() {
    let tally = tally_of(&["x", "y", "z", "w", "z", "y"]);
    assert_eq!(
        counts(&tally),
        vec![
            (String::from("y"), 2),
            (String::from("z"), 2),
            (String::from("x"), 1),
            (String::from("w"), 1),
        ]
    );
}

#[test]
fn ranking_moves_a_late_leader_to_the_front() {
    let tally = tally_of(&["a", "b", "c", "c", "c", "b"]);
    assert_eq!(
        tally.ranked(),
        vec![
            ArtifactCount { name: String::from("c"), count: 3 },
            ArtifactCount { name: String::from("b"), count: 2 },
            ArtifactCount { name: String::from("a"), count: 1 },
        ]
    );
}

#[test]
fn report_has_one_line_for_each_artifact() {
    assert_eq!(display_ordered(&Tally::new()), "");
    assert_eq!(display_ordered(&tally_of(&["solo"])), "solo: 1\n");
    let mut many = Tally::new();
    for _ in 0..12 {
        many.record(String::from("release-7"));
    }
    many.record(String::from("release-8"));
    assert_eq!(display_ordered(&many), "release-7: 12\nrelease-8: 1\n");
}
