//! Logging in: one request with the user's email and password, answered
//! with the token that every other operation needs.

use crate::error::{fetch_error, usage_error, MenderError};
use crate::machine::{Step, StepView};
use crate::parse::{Command, CommandView, Config, ConfigView};
use crate::wire::{
    is_success, refusal, text_of, Auth, AuthView, Method, Param, PayloadView, Reply, ReplyView,
    Request, RequestView, Shape, LOGIN_API,
};
use vstd::prelude::*;

verus! {

pub const NOT_LOGIN: &'static str = "Command must be Login for get_token";

/// Name of the operation in the text of its errors.
pub const LOGIN: &'static str = "login";

/// A login under way: the URL that was asked.
#[derive(Debug, PartialEq, Eq)]
pub struct Login {
    pub endpoint: String,
}

/// Mathematical value of a [`Login`].
pub struct LoginView {
    pub endpoint: Seq<char>,
}

impl DeepView for Login {
    type V = LoginView;

    open spec fn deep_view(&self) -> LoginView {
        LoginView { endpoint: self.endpoint@ }
    }
}

impl View for Login {
    type V = LoginView;

    open spec fn view(&self) -> LoginView {
        self.deep_view()
    }
}

/// The request that logs in: a POST with the email and the password as
/// basic authentication.
pub open spec fn login_request(server_url: Seq<char>, email: Seq<char>, pass: Seq<char>) -> RequestView {
    RequestView {
        method: Method::Post,
        url: server_url + LOGIN_API@,
        auth: AuthView::Basic { user: email, password: pass },
        query: Seq::empty(),
        body: None,
        expect: Shape::Text,
    }
}

/// The first step of a login: a configuration whose command is no login is
/// refused; else the one request is sent.
pub open spec fn login_begin(conf: ConfigView, pass: Seq<char>) -> StepView<LoginView, Seq<char>> {
    match conf.command {
        CommandView::Login { email } => StepView::Call {
            state: LoginView { endpoint: conf.server_url + LOGIN_API@ },
            request: login_request(conf.server_url, email, pass),
        },
        _ => StepView::Done(Err(usage_error(NOT_LOGIN@))),
    }
}

/// The end of a login: the body of a successful reply is the token, any
/// other reply is the login's error.
pub open spec fn login_advance(state: LoginView, reply: ReplyView) -> StepView<
    LoginView,
    Seq<char>,
> {
    match text_of(reply) {
        Some(token) => StepView::Done(Ok(token)),
        None => StepView::Done(Err(refusal(reply, LOGIN@, state.endpoint))),
    }
}

/// A reply to the login whose status is no success ends it with a fetch
/// error that carries the URL asked, the status and the body.
pub proof fn lemma_login_aborts(state: LoginView, status: u16, body: Seq<char>, payload: PayloadView)
    requires
        !is_success(status),
    ensures
        login_advance(state, ReplyView::Http { status, body, payload }) == StepView::<
            LoginView,
            Seq<char>,
        >::Done(Err(fetch_error(LOGIN@, state.endpoint, status, body))),
{
}

/// Begins the login that `conf` describes, with the password `pass`.
pub fn get_token(conf: &Config, pass: &str) -> (step: Step<Login, String>)
    ensures
        step@ == login_begin(conf@, pass@),
{
    match &conf.command {
        Command::Login { email } => {
            let mut url = conf.server_url.clone();
            url.append(LOGIN_API);
            let endpoint = url.clone();
            let query: Vec<Param> = Vec::new();
            assert(query.deep_view() =~= Seq::empty());
            let request = Request {
                method: Method::Post,
                url,
                auth: Auth::Basic { user: email.clone(), password: String::from_str(pass) },
                query,
                body: None,
                expect: Shape::Text,
            };
            Step::Call { state: Login { endpoint }, request }
        },
        _ => Step::Done(Err(MenderError::usage(NOT_LOGIN))),
    }
}

impl Login {
    /// Takes the reply to the login request.
    pub fn advance(self, reply: Reply) -> (step: Step<Login, String>)
        ensures
            step@ == login_advance(self@, reply@),
    {
        match reply.into_text() {
            Ok(token) => Step::Done(Ok(token)),
            Err(reply) => Step::Done(Err(reply.refuse(LOGIN, self.endpoint.as_str()))),
        }
    }
}

} // verus!
