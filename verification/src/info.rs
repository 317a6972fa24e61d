//! The inventory record of one device, passed through as pretty-printed
//! JSON.

use crate::error::{fetch_error, usage_error, MenderError};
use crate::json::{pretty_text, render_pretty};
use crate::machine::{Step, StepView};
use crate::parse::{Command, CommandView, Config, ConfigView};
use crate::wire::{
    document_of, is_success, refusal, Auth, AuthView, Method, Param, PayloadView, Reply,
    ReplyView, Request, RequestView, Shape, GET_DEVICES_INVENTORY_API,
};
use vstd::prelude::*;

verus! {

pub const NOT_GET_INFO: &'static str =
    "Command must be getinfo and token must be provided in get_info call";

/// Name of the operation in the text of its errors.
pub const GET_INFO: &'static str = "get info";

/// An inquiry under way: the URL that was asked.
#[derive(Debug, PartialEq, Eq)]
pub struct Inquiry {
    pub endpoint: String,
}

/// Mathematical value of a [`Inquiry`].
pub struct InquiryView {
    pub endpoint: Seq<char>,
}

impl DeepView for Inquiry {
    type V = InquiryView;

    open spec fn deep_view(&self) -> InquiryView {
        InquiryView { endpoint: self.endpoint@ }
    }
}

impl View for Inquiry {
    type V = InquiryView;

    open spec fn view(&self) -> InquiryView {
        self.deep_view()
    }
}

/// URL of the inventory record of the device `id`.
pub open spec fn device_endpoint(server_url: Seq<char>, id: Seq<char>) -> Seq<char> {
    server_url + GET_DEVICES_INVENTORY_API@ + "/"@ + id
}

/// The request for the inventory record of the device `id`.
pub open spec fn info_request(server_url: Seq<char>, token: Seq<char>, id: Seq<char>) -> RequestView {
    RequestView {
        method: Method::Get,
        url: device_endpoint(server_url, id),
        auth: AuthView::Bearer { token },
        query: Seq::empty(),
        body: None,
        expect: Shape::Document,
    }
}

/// The first step of an inquiry: a configuration whose command is no
/// inquiry, or that has no token, is refused; else the one request is sent.
pub open spec fn info_begin(conf: ConfigView) -> StepView<InquiryView, Seq<char>> {
    match (conf.command, conf.token) {
        (CommandView::GetInfo { id }, Some(token)) => StepView::Call {
            state: InquiryView { endpoint: device_endpoint(conf.server_url, id) },
            request: info_request(conf.server_url, token, id),
        },
        _ => StepView::Done(Err(usage_error(NOT_GET_INFO@))),
    }
}

/// The end of an inquiry, given the pretty-printed text of the document
/// that the reply delivered (`None` where it delivered none, or none that
/// could be printed): that text, or else the reply's error.
pub open spec fn info_settle(
    state: InquiryView,
    reply: ReplyView,
    rendered: Option<Seq<char>>,
) -> StepView<InquiryView, Seq<char>> {
    match rendered {
        Some(text) => StepView::Done(Ok(text)),
        None => StepView::Done(Err(refusal(reply, GET_INFO@, state.endpoint))),
    }
}

/// The pretty-printed text of the document that a reply delivers.
pub open spec fn rendered_of(reply: ReplyView) -> Option<Seq<char>> {
    match document_of(reply) {
        Some(document) => pretty_text(document),
        None => None,
    }
}

/// The end of an inquiry on the reply to its request.
pub open spec fn info_advance(state: InquiryView, reply: ReplyView) -> StepView<
    InquiryView,
    Seq<char>,
> {
    info_settle(state, reply, rendered_of(reply))
}

/// A reply to the inquiry whose status is no success ends it with a fetch
/// error that carries the URL asked, the status and the body.
pub proof fn lemma_info_aborts(
    state: InquiryView,
    status: u16,
    body: Seq<char>,
    payload: PayloadView,
)
    requires
        !is_success(status),
    ensures
        info_advance(state, ReplyView::Http { status, body, payload }) == StepView::<
            InquiryView,
            Seq<char>,
        >::Done(Err(fetch_error(GET_INFO@, state.endpoint, status, body))),
{
}

/// Begins the inquiry that `conf` describes.
pub fn get_info(conf: &Config) -> (step: Step<Inquiry, String>)
    ensures
        step@ == info_begin(conf@),
{
    let token = match &conf.token {
        Some(token) => token,
        None => {
            return Step::Done(Err(MenderError::usage(NOT_GET_INFO)));
        },
    };
    match &conf.command {
        Command::GetInfo { id } => {
            let mut url = conf.server_url.clone();
            url.append(GET_DEVICES_INVENTORY_API);
            url.append("/");
            url.append(id.as_str());
            let endpoint = url.clone();
            let query: Vec<Param> = Vec::new();
            assert(query.deep_view() =~= Seq::empty());
            let request = Request {
                method: Method::Get,
                url,
                auth: Auth::Bearer { token: token.clone() },
                query,
                body: None,
                expect: Shape::Document,
            };
            Step::Call { state: Inquiry { endpoint }, request }
        },
        _ => Step::Done(Err(MenderError::usage(NOT_GET_INFO))),
    }
}

impl Inquiry {
    /// Ends the inquiry, given the reply and the pretty-printed text of
    /// its document.
    pub fn settle(self, reply: Reply, rendered: Option<String>) -> (step: Step<Inquiry, String>)
        ensures
            step@ == info_settle(self@, reply@, rendered.deep_view()),
    {
        match rendered {
            Some(text) => Step::Done(Ok(text)),
            None => Step::Done(Err(reply.refuse(GET_INFO, self.endpoint.as_str()))),
        }
    }

    /// Takes the reply to the inquiry's request.
    pub fn advance(self, reply: Reply) -> (step: Step<Inquiry, String>)
        ensures
            step@ == info_advance(self@, reply@),
    {
        let rendered = match reply.document() {
            Some(document) => match render_pretty(document) {
                Ok(text) => Some(text),
                Err(_) => None,
            },
            None => None,
        };
        self.settle(reply, rendered)
    }
}

} // verus!
