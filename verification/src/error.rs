//! The one error type that every operation reports.

use crate::text::{decimal, decimal_string};
use vstd::prelude::*;

verus! {

/// Why an operation failed.
#[derive(Debug, PartialEq, Eq)]
pub enum Failure {
    /// The operation was invoked with arguments that break its contract;
    /// nothing was sent.
    Usage,
    /// The server answered with a non-success status, or with a body that
    /// does not decode into the expected shape.
    Fetch { endpoint: String, status: u16, body: String },
    /// The search for a device ended without a match.
    NotFound,
    /// No HTTP response was obtained at all.
    Transport,
}

/// Mathematical value of a [`Failure`].
pub enum FailureView {
    Usage,
    Fetch { endpoint: Seq<char>, status: u16, body: Seq<char> },
    NotFound,
    Transport,
}

impl DeepView for Failure {
    type V = FailureView;

    open spec fn deep_view(&self) -> FailureView {
        match self {
            Failure::Usage => FailureView::Usage,
            Failure::Fetch { endpoint, status, body } => FailureView::Fetch {
                endpoint: endpoint@,
                status: *status,
                body: body@,
            },
            Failure::NotFound => FailureView::NotFound,
            Failure::Transport => FailureView::Transport,
        }
    }
}

impl View for Failure {
    type V = FailureView;

    open spec fn view(&self) -> FailureView {
        self.deep_view()
    }
}

/// An error of the fleet client: its kind and the text shown to the user.
#[derive(Debug, PartialEq, Eq)]
pub struct MenderError {
    pub failure: Failure,
    pub err: String,
}

/// Mathematical value of a [`MenderError`].
pub struct ErrorView {
    pub failure: FailureView,
    pub err: Seq<char>,
}

impl DeepView for MenderError {
    type V = ErrorView;

    open spec fn deep_view(&self) -> ErrorView {
        ErrorView { failure: self.failure@, err: self.err@ }
    }
}

impl View for MenderError {
    type V = ErrorView;

    open spec fn view(&self) -> ErrorView {
        self.deep_view()
    }
}

/// A contract violation by the caller, described by `text`.
pub open spec fn usage_error(text: Seq<char>) -> ErrorView {
    ErrorView { failure: FailureView::Usage, err: text }
}

/// The text of a fetch error: the operation, the status code and the raw body.
pub open spec fn fetch_text(operation: Seq<char>, status: u16, body: Seq<char>) -> Seq<char> {
    operation + " failed. Status code '"@ + decimal(status as nat) + "' response '"@ + body + "'"@
}

/// The error for an unusable answer from `endpoint` during `operation`.
pub open spec fn fetch_error(
    operation: Seq<char>,
    endpoint: Seq<char>,
    status: u16,
    body: Seq<char>,
) -> ErrorView {
    ErrorView {
        failure: FailureView::Fetch { endpoint, status, body },
        err: fetch_text(operation, status, body),
    }
}

/// The error for a search that found nothing.
pub open spec fn not_found_error() -> ErrorView {
    ErrorView { failure: FailureView::NotFound, err: "SerialNumber not found"@ }
}

/// The error for a request that got no HTTP response; `reason` is passed on unchanged.
pub open spec fn transport_error(reason: Seq<char>) -> ErrorView {
    ErrorView { failure: FailureView::Transport, err: reason }
}

impl MenderError {
    /// An error of the given kind with the given text.
    pub fn new(failure: Failure, err: String) -> (e: MenderError)
        ensures
            e.failure == failure,
            e.err == err,
    {
        MenderError { failure, err }
    }

    /// A contract violation by the caller.
    pub fn usage(text: &str) -> (e: MenderError)
        ensures
            e@ == usage_error(text@),
    {
        MenderError::new(Failure::Usage, String::from_str(text))
    }

    /// An unusable answer from `endpoint` during `operation`.
    pub fn fetch(operation: &str, endpoint: &str, status: u16, body: &str) -> (e: MenderError)
        ensures
            e@ == fetch_error(operation@, endpoint@, status, body@),
    {
        let mut err = String::from_str(operation);
        err.append(" failed. Status code '");
        err.append(decimal_string(status as u64).as_str());
        err.append("' response '");
        err.append(body);
        err.append("'");
        MenderError::new(
            Failure::Fetch { endpoint: String::from_str(endpoint), status, body: String::from_str(body) },
            err,
        )
    }

    /// A search that found nothing.
    pub fn not_found() -> (e: MenderError)
        ensures
            e@ == not_found_error(),
    {
        MenderError::new(Failure::NotFound, String::from_str("SerialNumber not found"))
    }

    /// A request that got no HTTP response.
    pub fn transport(reason: String) -> (e: MenderError)
        ensures
            e@ == transport_error(reason@),
    {
        MenderError::new(Failure::Transport, reason)
    }

    /// The text shown to the user.
    pub fn message(&self) -> (text: String)
        ensures
            text@ == self@.err,
    {
        self.err.clone()
    }
}

} // verus!
