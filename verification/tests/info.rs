use mender_rust::error::{Failure, MenderError};
use mender_rust::info::{get_info, Inquiry};
use mender_rust::login::{get_token, Login};
use mender_rust::machine::Step;
use mender_rust::parse::{Command, Config};
use mender_rust::wire::{Auth, Method, Payload, Reply, Request, Shape};

const RECORD: &str = "https://fleet.example/api/management/v1/inventory/devices/d-42";
const LOGIN: &str = "https://fleet.example/api/management/v1/useradm/auth/login";

fn info_conf() -> Config {
    Config {
        command: Command::GetInfo { id: String::from("d-42") },
        token: Some(String::from("secret")),
        server_url: String::from("https://fleet.example"),
        cert_file: None,
    }
}

fn login_conf() -> Config {
    Config {
        command: Command::Login { email: String::from("toto@mail.com") },
        token: None,
        server_url: String::from("https://fleet.example"),
        cert_file: None,
    }
}

fn document(text: &str) -> Reply {
    Reply::Http {
        status: 200,
        body: String::from(text),
        payload: Payload::Document(serde_json::from_str(text).unwrap()),
    }
}

fn inquiry() -> Inquiry {
    match get_info(&info_conf()) {
        Step::Call { state, .. } => state,
        Step::Done(_) => panic!("the inquiry sends a request"),
    }
}

fn login() -> Login {
    match get_token(&login_conf(), "hunter2") {
        Step::Call { state, .. } => state,
        Step::Done(_) => panic!("the login sends a request"),
    }
}

#[test]
fn inquiry_asks_for_the_record() {
    let step = get_info(&info_conf());
    assert_eq!(
        step,
        Step::Call {
            state: Inquiry { endpoint: String::from(RECORD) },
            request: Request {
                method: Method::Get,
                url: String::from(RECORD),
                auth: Auth::Bearer { token: String::from("secret") },
                query: vec![],
                body: None,
                expect: Shape::Document,
            },
        }
    );
}

#[test]
fn inquiry_pretty_prints_the_document() {
    let step = inquiry().advance(document("{\"id\":\"d-42\",\"attributes\":[{\"name\":\"mac\",\"value\":1}]}"));
    let expected = "{\n  \"attributes\": [\n    {\n      \"name\": \"mac\",\n      \"value\": 1\n    }\n  ],\n  \"id\": \"d-42\"\n}";
    assert_eq!(step, Step::Done(Ok(String::from(expected))));
}

#[test]
fn inquiry_passes_any_document_through() {
    assert_eq!(inquiry().advance(document("[]")), Step::Done(Ok(String::from("[]"))));
    assert_eq!(inquiry().advance(document("null")), Step::Done(Ok(String::from("null"))));
    assert_eq!(
        inquiry().advance(document("[1,true]")),
        Step::Done(Ok(String::from("[\n  1,\n  true\n]")))
    );
}

#[test]
fn inquiry_settles_on_the_rendered_text() {
    let reply = Reply::Http { status: 200, body: String::from("{}"), payload: Payload::Text };
    assert_eq!(
        inquiry().settle(reply, Some(String::from("{}"))),
        Step::Done(Ok(String::from("{}")))
    );
    let reply = Reply::Http { status: 200, body: String::from("{}"), payload: Payload::Text };
    assert_eq!(
        inquiry().settle(reply, None),
        Step::Done(Err(MenderError::fetch("get info", RECORD, 200, "{}")))
    );
}

#[test]
fn refused_inquiry_is_a_fetch_error() {
    let reply = Reply::Http {
        status: 404,
        body: String::from("no such device"),
        payload: Payload::Document(serde_json::Value::Null),
    };
    match inquiry().advance(reply) {
        Step::Done(Err(error)) => {
            assert_eq!(
                error.failure,
                Failure::Fetch {
                    endpoint: String::from(RECORD),
                    status: 404,
                    body: String::from("no such device"),
                }
            );
            assert_eq!(
                error.message(),
                "get info failed. Status code '404' response 'no such device'"
            );
        }
        other => panic!("unexpected step {:?}", other),
    }
}

#[test]
fn inquiry_without_a_document_is_a_fetch_error() {
    let reply =
        Reply::Http { status: 200, body: String::from("<html>"), payload: Payload::Undecodable };
    assert_eq!(
        inquiry().advance(reply),
        Step::Done(Err(MenderError::fetch("get info", RECORD, 200, "<html>")))
    );
    assert_eq!(
        inquiry().advance(Reply::Failed { reason: String::from("tls handshake") }),
        Step::Done(Err(MenderError::transport(String::from("tls handshake"))))
    );
}

#[test]
fn inquiry_needs_its_command_and_a_token() {
    let text = "Command must be getinfo and token must be provided in get_info call";
    let mut without_token = info_conf();
    without_token.token = None;
    assert_eq!(get_info(&without_token), Step::Done(Err(MenderError::usage(text))));
    assert_eq!(get_info(&login_conf()), Step::Done(Err(MenderError::usage(text))));
}

#[test]
fn login_sends_the_credentials() {
    let step = get_token(&login_conf(), "hunter2");
    assert_eq!(
        step,
        Step::Call {
            state: Login { endpoint: String::from(LOGIN) },
            request: Request {
                method: Method::Post,
                url: String::from(LOGIN),
                auth: Auth::Basic {
                    user: String::from("toto@mail.com"),
                    password: String::from("hunter2"),
                },
                query: vec![],
                body: None,
                expect: Shape::Text,
            },
        }
    );
}

#[test]
fn login_returns_the_body_as_token() {
    let reply = Reply::Http { status: 200, body: String::from("eyJhbGci"), payload: Payload::Text };
    assert_eq!(login().advance(reply), Step::Done(Ok(String::from("eyJhbGci"))));
    let reply =
        Reply::Http { status: 200, body: String::from("raw"), payload: Payload::Undecodable };
    assert_eq!(login().advance(reply), Step::Done(Ok(String::from("raw"))));
}

#[test]
fn refused_login_is_a_fetch_error() {
    let reply =
        Reply::Http { status: 401, body: String::from("bad password"), payload: Payload::Text };
    assert_eq!(
        login().advance(reply),
        Step::Done(Err(MenderError::fetch("login", LOGIN, 401, "bad password")))
    );
    assert_eq!(
        login().advance(Reply::Failed { reason: String::from("no route") }),
        Step::Done(Err(MenderError::transport(String::from("no route"))))
    );
}

#[test]
fn login_needs_its_command() {
    assert_eq!(
        get_token(&info_conf(), "hunter2"),
        Step::Done(Err(MenderError::usage("Command must be Login for get_token")))
    );
}
