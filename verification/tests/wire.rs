use mender_rust::census::Census;
use mender_rust::deploy::Deployment;
use mender_rust::paging::{Cursor, Pager};
use mender_rust::parse::Command;
use mender_rust::resolve::Search;
use mender_rust::tally::Tally;
use mender_rust::wire::{MenderDevice, MenderId, Payload, Reply, Shape};

fn cursor_on(page: u64) -> Cursor {
    Cursor {
        endpoint: String::from("https://fleet.example/list"),
        token: String::from("secret"),
        extra: vec![],
        expect: Shape::Members,
        page,
    }
}

fn answer(status: u16, payload: Payload) -> Reply {
    Reply::Http { status, body: String::from("body"), payload }
}

#[test]
fn a_reply_delivers_only_what_it_decoded_into() {
    let members = vec![String::from("d1")];
    assert_eq!(answer(200, Payload::Members(members.clone())).into_members(), Ok(members));
    assert_eq!(
        answer(200, Payload::Ids(vec![])).into_members(),
        Err(answer(200, Payload::Ids(vec![])))
    );
    assert_eq!(
        answer(200, Payload::Ids(vec![MenderId { id: String::from("x") }])).into_ids(),
        Ok(vec![MenderId { id: String::from("x") }])
    );
    assert_eq!(answer(200, Payload::Identities(vec![])).into_identities(), Ok(vec![]));
    assert_eq!(
        answer(200, Payload::Devices(vec![MenderDevice { id: String::from("d"), attributes: None }]))
            .into_devices(),
        Ok(vec![MenderDevice { id: String::from("d"), attributes: None }])
    );
    assert_eq!(answer(200, Payload::Undecodable).into_devices(), Err(answer(200, Payload::Undecodable)));
    assert_eq!(answer(200, Payload::Text).into_text(), Ok(String::from("body")));
}

#[test]
fn a_refused_reply_delivers_nothing() {
    let members = || Payload::Members(vec![String::from("d1")]);
    assert_eq!(answer(500, members()).into_members(), Err(answer(500, members())));
    assert_eq!(answer(404, Payload::Text).into_text(), Err(answer(404, Payload::Text)));
    assert_eq!(answer(301, Payload::Ids(vec![])).into_ids(), Err(answer(301, Payload::Ids(vec![]))));
    let failed = || Reply::Failed { reason: String::from("reset") };
    assert_eq!(failed().into_identities(), Err(failed()));
    assert_eq!(failed().document(), None);
    assert!(!failed().is_success());
}

#[test]
fn a_reply_lends_its_document() {
    let value: serde_json::Value = serde_json::from_str("{\"a\":[1,2]}").unwrap();
    let reply = answer(200, Payload::Document(value.clone()));
    assert_eq!(reply.document(), Some(&value));
    assert_eq!(answer(404, Payload::Document(value)).document(), None);
    assert_eq!(answer(200, Payload::Text).document(), None);
}

#[test]
fn only_login_and_help_run_without_a_token() {
    assert!(!Command::Help.needs_token());
    assert!(!Command::Login { email: String::from("e") }.needs_token());
    assert!(Command::CountArtifacts.needs_token());
    assert!(Command::GetId { serial_number: String::from("s") }.needs_token());
    assert!(Command::GetInfo { id: String::from("i") }.needs_token());
    assert!(Command::Deploy { group: None, device: None, artifact: String::from("a"), name: None }
        .needs_token());
}

#[test]
fn the_last_page_index_is_the_limit() {
    let listing = |page: u64| Deployment::Listing {
        pager: Pager { cursor: cursor_on(page), items: vec![] },
        server_url: String::from("https://fleet.example"),
        artifact: String::from("a"),
        name: String::from("n"),
    };
    assert!(listing(1).can_advance());
    assert!(listing(u64::MAX - 1).can_advance());
    assert!(!listing(u64::MAX).can_advance());
    assert!(Deployment::Submitting { endpoint: String::from("u"), devices_affected: 3 }
        .can_advance());

    let scan = |page: u64| Search::Scan { cursor: cursor_on(page), serial_number: String::from("s") };
    assert!(scan(7).can_advance());
    assert!(!scan(u64::MAX).can_advance());

    let census = |page: u64| Census { cursor: cursor_on(page), tally: Tally::new() };
    let page = || answer(200, Payload::Devices(vec![]));
    assert!(census(7).can_advance(&page()));
    assert!(!census(u64::MAX).can_advance(&page()));
}

#[test]
fn the_largest_page_index_that_is_asked_for() {
    let request = cursor_on(u64::MAX).request();
    assert_eq!(request.query[1].value, "18446744073709551615");
    let next = cursor_on(u64::MAX - 1).turn(1).unwrap();
    assert_eq!(next.page, u64::MAX);
}
