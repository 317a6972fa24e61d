//! The narrow interface to the HTTP transport: the requests that the
//! operations hand out and the replies that they take back.

use crate::error::{fetch_error, transport_error, ErrorView, MenderError};
use vstd::prelude::*;

verus! {

pub const LOGIN_API: &'static str = "/api/management/v1/useradm/auth/login";

pub const DEPLOY_API: &'static str = "/api/management/v1/deployments/deployments";

pub const GET_DEVICES_INVENTORY_API: &'static str = "/api/management/v1/inventory/devices";

pub const GET_DEVICES_AUTH_API: &'static str = "/api/management/v2/devauth/devices";

pub const GROUPS_API: &'static str = "/api/management/v1/inventory/groups/";

/// Number of items asked for in each page of a listing, as the query writes it.
pub const PER_PAGE: &'static str = "500";

/// HTTP method of a request.
#[derive(Debug, Clone, Copy, PartialEq, Eq, Structural)]
pub enum Method {
    Get,
    Post,
}

/// How a request authenticates.
#[derive(Debug, PartialEq, Eq)]
pub enum Auth {
    Basic { user: String, password: String },
    Bearer { token: String },
}

/// Mathematical value of a [`Auth`].
pub enum AuthView {
    Basic { user: Seq<char>, password: Seq<char> },
    Bearer { token: Seq<char> },
}

impl DeepView for Auth {
    type V = AuthView;

    open spec fn deep_view(&self) -> AuthView {
        match self {
            Auth::Basic { user, password } => AuthView::Basic { user: user@, password: password@ },
            Auth::Bearer { token } => AuthView::Bearer { token: token@ },
        }
    }
}

impl View for Auth {
    type V = AuthView;

    open spec fn view(&self) -> AuthView {
        self.deep_view()
    }
}

/// One parameter of a query string.
#[derive(Debug, PartialEq, Eq)]
pub struct Param {
    pub name: String,
    pub value: String,
}

impl DeepView for Param {
    type V = (Seq<char>, Seq<char>);

    open spec fn deep_view(&self) -> (Seq<char>, Seq<char>) {
        (self.name@, self.value@)
    }
}

impl View for Param {
    type V = (Seq<char>, Seq<char>);

    open spec fn view(&self) -> (Seq<char>, Seq<char>) {
        self.deep_view()
    }
}

/// Body of a deployment submission: the artifact, the deployment's name and
/// the explicit list of devices.
#[derive(Debug, PartialEq, Eq)]
pub struct DeployData {
    pub artifact_name: String,
    pub name: String,
    pub devices: Vec<String>,
}

/// Mathematical value of a [`DeployData`].
pub struct DeployDataView {
    pub artifact_name: Seq<char>,
    pub name: Seq<char>,
    pub devices: Seq<Seq<char>>,
}

impl DeepView for DeployData {
    type V = DeployDataView;

    open spec fn deep_view(&self) -> DeployDataView {
        DeployDataView {
            artifact_name: self.artifact_name@,
            name: self.name@,
            devices: self.devices.deep_view(),
        }
    }
}

impl View for DeployData {
    type V = DeployDataView;

    open spec fn view(&self) -> DeployDataView {
        self.deep_view()
    }
}

/// What the body of a successful reply is expected to decode into.
#[derive(Debug, Clone, Copy, PartialEq, Eq, Structural)]
pub enum Shape {
    /// The body is taken as text.
    Text,
    /// Any JSON document.
    Document,
    /// A list of `{id}`.
    Ids,
    /// A list of `{id, identity_data: {SerialNumber}}`.
    Identities,
    /// A list of `{id, attributes?: [{name, value}]}`.
    Devices,
    /// A list of device-id strings.
    Members,
}

/// One HTTP call for the transport to perform.
#[derive(Debug, PartialEq, Eq)]
pub struct Request {
    pub method: Method,
    pub url: String,
    pub auth: Auth,
    pub query: Vec<Param>,
    pub body: Option<DeployData>,
    pub expect: Shape,
}

/// Mathematical value of a [`Request`].
pub struct RequestView {
    pub method: Method,
    pub url: Seq<char>,
    pub auth: AuthView,
    pub query: Seq<(Seq<char>, Seq<char>)>,
    pub body: Option<DeployDataView>,
    pub expect: Shape,
}

impl DeepView for Request {
    type V = RequestView;

    open spec fn deep_view(&self) -> RequestView {
        RequestView {
            method: self.method,
            url: self.url@,
            auth: self.auth@,
            query: self.query.deep_view(),
            body: self.body.deep_view(),
            expect: self.expect,
        }
    }
}

impl View for Request {
    type V = RequestView;

    open spec fn view(&self) -> RequestView {
        self.deep_view()
    }
}

/// An inventory record reduced to its identifier.
#[derive(Debug, PartialEq, Eq)]
pub struct MenderId {
    pub id: String,
}

impl DeepView for MenderId {
    type V = Seq<char>;

    open spec fn deep_view(&self) -> Seq<char> {
        self.id@
    }
}

impl View for MenderId {
    type V = Seq<char>;

    open spec fn view(&self) -> Seq<char> {
        self.deep_view()
    }
}

/// The identity data recorded when a device was provisioned.
#[derive(Debug, PartialEq, Eq)]
pub struct MenderSn {
    pub serial_number: String,
}

/// A record of the identity table.
#[derive(Debug, PartialEq, Eq)]
pub struct MenderIdentity {
    pub id: String,
    pub identity_data: MenderSn,
}

/// Mathematical value of a [`MenderIdentity`].
pub struct IdentityView {
    pub id: Seq<char>,
    pub serial_number: Seq<char>,
}

impl DeepView for MenderIdentity {
    type V = IdentityView;

    open spec fn deep_view(&self) -> IdentityView {
        IdentityView { id: self.id@, serial_number: self.identity_data.serial_number@ }
    }
}

impl View for MenderIdentity {
    type V = IdentityView;

    open spec fn view(&self) -> IdentityView {
        self.deep_view()
    }
}

/// A free-form inventory attribute.
#[derive(Debug, PartialEq, Eq)]
pub struct MenderAttribute {
    pub name: String,
    pub value: String,
}

impl DeepView for MenderAttribute {
    type V = (Seq<char>, Seq<char>);

    open spec fn deep_view(&self) -> (Seq<char>, Seq<char>) {
        (self.name@, self.value@)
    }
}

impl View for MenderAttribute {
    type V = (Seq<char>, Seq<char>);

    open spec fn view(&self) -> (Seq<char>, Seq<char>) {
        self.deep_view()
    }
}

/// A record of the inventory.
#[derive(Debug, PartialEq, Eq)]
pub struct MenderDevice {
    pub id: String,
    pub attributes: Option<Vec<MenderAttribute>>,
}

/// Mathematical value of a [`MenderDevice`].
pub struct DeviceView {
    pub id: Seq<char>,
    pub attributes: Option<Seq<(Seq<char>, Seq<char>)>>,
}

impl DeepView for MenderDevice {
    type V = DeviceView;

    open spec fn deep_view(&self) -> DeviceView {
        DeviceView { id: self.id@, attributes: self.attributes.deep_view() }
    }
}

impl View for MenderDevice {
    type V = DeviceView;

    open spec fn view(&self) -> DeviceView {
        self.deep_view()
    }
}

/// What the transport decoded from the body of a reply.
#[derive(Debug, PartialEq)]
pub enum Payload {
    /// The body did not decode into the shape that the request expected.
    Undecodable,
    /// The body itself, for a request that expected text.
    Text,
    Document(serde_json::Value),
    Ids(Vec<MenderId>),
    Identities(Vec<MenderIdentity>),
    Devices(Vec<MenderDevice>),
    Members(Vec<String>),
}

/// Mathematical value of a [`Payload`].
pub enum PayloadView {
    Undecodable,
    Text,
    Document(serde_json::Value),
    Ids(Seq<Seq<char>>),
    Identities(Seq<IdentityView>),
    Devices(Seq<DeviceView>),
    Members(Seq<Seq<char>>),
}

impl DeepView for Payload {
    type V = PayloadView;

    open spec fn deep_view(&self) -> PayloadView {
        match self {
            Payload::Undecodable => PayloadView::Undecodable,
            Payload::Text => PayloadView::Text,
            Payload::Document(document) => PayloadView::Document(*document),
            Payload::Ids(ids) => PayloadView::Ids(ids.deep_view()),
            Payload::Identities(identities) => PayloadView::Identities(identities.deep_view()),
            Payload::Devices(devices) => PayloadView::Devices(devices.deep_view()),
            Payload::Members(members) => PayloadView::Members(members.deep_view()),
        }
    }
}

impl View for Payload {
    type V = PayloadView;

    open spec fn view(&self) -> PayloadView {
        self.deep_view()
    }
}

/// What came back for a request.
#[derive(Debug, PartialEq)]
pub enum Reply {
    /// The connection failed before any HTTP response was obtained.
    Failed { reason: String },
    /// An HTTP response: its status code, its raw body, and what the body
    /// decoded into.
    Http { status: u16, body: String, payload: Payload },
}

/// Mathematical value of a [`Reply`].
pub enum ReplyView {
    Failed { reason: Seq<char> },
    Http { status: u16, body: Seq<char>, payload: PayloadView },
}

impl DeepView for Reply {
    type V = ReplyView;

    open spec fn deep_view(&self) -> ReplyView {
        match self {
            Reply::Failed { reason } => ReplyView::Failed { reason: reason@ },
            Reply::Http { status, body, payload } => ReplyView::Http {
                status: *status,
                body: body@,
                payload: payload@,
            },
        }
    }
}

impl View for Reply {
    type V = ReplyView;

    open spec fn view(&self) -> ReplyView {
        self.deep_view()
    }
}

/// Whether `status` is a success code: 200 to 299.
pub open spec fn is_success(status: u16) -> bool {
    200 <= status < 300
}

/// The error that a reply amounts to when it cannot be used: a transport
/// failure, a status outside 200 to 299, or (for any other reply) a body that
/// was not of the expected shape.
pub open spec fn refusal(reply: ReplyView, operation: Seq<char>, endpoint: Seq<char>) -> ErrorView {
    match reply {
        ReplyView::Failed { reason } => transport_error(reason),
        ReplyView::Http { status, body, payload } => fetch_error(operation, endpoint, status, body),
    }
}

/// Whether a reply carries a success status.
pub open spec fn succeeded(reply: ReplyView) -> bool {
    match reply {
        ReplyView::Failed { reason } => false,
        ReplyView::Http { status, body, payload } => is_success(status),
    }
}

/// The list of device ids that a reply delivers: that of a successful reply
/// which decoded into one.
pub open spec fn members_of(reply: ReplyView) -> Option<Seq<Seq<char>>> {
    match reply {
        ReplyView::Http { status, body, payload: PayloadView::Members(members) } => if is_success(
            status,
        ) {
            Some(members)
        } else {
            None
        },
        _ => None,
    }
}

/// The inventory identifiers that a reply delivers.
pub open spec fn ids_of(reply: ReplyView) -> Option<Seq<Seq<char>>> {
    match reply {
        ReplyView::Http { status, body, payload: PayloadView::Ids(ids) } => if is_success(status) {
            Some(ids)
        } else {
            None
        },
        _ => None,
    }
}

/// The identity records that a reply delivers.
pub open spec fn identities_of(reply: ReplyView) -> Option<Seq<IdentityView>> {
    match reply {
        ReplyView::Http {
            status,
            body,
            payload: PayloadView::Identities(identities),
        } => if is_success(status) {
            Some(identities)
        } else {
            None
        },
        _ => None,
    }
}

/// The inventory records that a reply delivers.
pub open spec fn devices_of(reply: ReplyView) -> Option<Seq<DeviceView>> {
    match reply {
        ReplyView::Http { status, body, payload: PayloadView::Devices(devices) } => if is_success(
            status,
        ) {
            Some(devices)
        } else {
            None
        },
        _ => None,
    }
}

/// The JSON document that a reply delivers.
pub open spec fn document_of(reply: ReplyView) -> Option<serde_json::Value> {
    match reply {
        ReplyView::Http { status, body, payload: PayloadView::Document(document) } => if is_success(
            status,
        ) {
            Some(document)
        } else {
            None
        },
        _ => None,
    }
}

/// The body of a successful reply.
pub open spec fn text_of(reply: ReplyView) -> Option<Seq<char>> {
    match reply {
        ReplyView::Http { status, body, payload } => if is_success(status) {
            Some(body)
        } else {
            None
        },
        _ => None,
    }
}

impl Reply {
    /// The list of device ids that the reply delivers, or the reply itself
    /// where it delivers none.
    pub fn into_members(self) -> (taken: Result<Vec<String>, Reply>)
        ensures
            match taken {
                Ok(members) => members_of(self@) == Some(members.deep_view()),
                Err(reply) => members_of(self@) is None && reply@ == self@,
            },
    {
        if !self.is_success() {
            return Err(self);
        }
        match self {
            Reply::Http { status, body, payload } => match payload {
                Payload::Members(members) => Ok(members),
                other => Err(Reply::Http { status, body, payload: other }),
            },
            other => Err(other),
        }
    }

    /// The inventory identifiers that the reply delivers, or the reply
    /// itself where it delivers none.
    pub fn into_ids(self) -> (taken: Result<Vec<MenderId>, Reply>)
        ensures
            match taken {
                Ok(ids) => ids_of(self@) == Some(ids.deep_view()),
                Err(reply) => ids_of(self@) is None && reply@ == self@,
            },
    {
        if !self.is_success() {
            return Err(self);
        }
        match self {
            Reply::Http { status, body, payload } => match payload {
                Payload::Ids(ids) => Ok(ids),
                other => Err(Reply::Http { status, body, payload: other }),
            },
            other => Err(other),
        }
    }

    /// The identity records that the reply delivers, or the reply itself
    /// where it delivers none.
    pub fn into_identities(self) -> (taken: Result<Vec<MenderIdentity>, Reply>)
        ensures
            match taken {
                Ok(identities) => identities_of(self@) == Some(identities.deep_view()),
                Err(reply) => identities_of(self@) is None && reply@ == self@,
            },
    {
        if !self.is_success() {
            return Err(self);
        }
        match self {
            Reply::Http { status, body, payload } => match payload {
                Payload::Identities(identities) => Ok(identities),
                other => Err(Reply::Http { status, body, payload: other }),
            },
            other => Err(other),
        }
    }

    /// The inventory records that the reply delivers, or the reply itself
    /// where it delivers none.
    pub fn into_devices(self) -> (taken: Result<Vec<MenderDevice>, Reply>)
        ensures
            match taken {
                Ok(devices) => devices_of(self@) == Some(devices.deep_view()),
                Err(reply) => devices_of(self@) is None && reply@ == self@,
            },
    {
        if !self.is_success() {
            return Err(self);
        }
        match self {
            Reply::Http { status, body, payload } => match payload {
                Payload::Devices(devices) => Ok(devices),
                other => Err(Reply::Http { status, body, payload: other }),
            },
            other => Err(other),
        }
    }

    /// The JSON document that the reply delivers.
    pub fn document(&self) -> (found: Option<&serde_json::Value>)
        ensures
            match found {
                Some(document) => document_of(self@) == Some(*document),
                None => document_of(self@) is None,
            },
    {
        if !self.is_success() {
            return None;
        }
        match self {
            Reply::Http { status, body, payload } => match payload {
                Payload::Document(document) => Some(document),
                _ => None,
            },
            _ => None,
        }
    }

    /// The body of a successful reply, or the reply itself where it is none.
    pub fn into_text(self) -> (taken: Result<String, Reply>)
        ensures
            match taken {
                Ok(text) => text_of(self@) == Some(text@),
                Err(reply) => text_of(self@) is None && reply@ == self@,
            },
    {
        if !self.is_success() {
            return Err(self);
        }
        match self {
            Reply::Http { status, body, payload } => Ok(body),
            other => Err(other),
        }
    }

    /// Whether the reply carries a success status.
    pub fn is_success(&self) -> (ok: bool)
        ensures
            ok == succeeded(self@),
    {
        match self {
            Reply::Failed { reason } => false,
            Reply::Http { status, body, payload } => 200 <= *status && *status < 300,
        }
    }

    /// The error for a reply that cannot be used.
    pub fn refuse(self, operation: &str, endpoint: &str) -> (e: MenderError)
        ensures
            e@ == refusal(self@, operation@, endpoint@),
    {
        match self {
            Reply::Failed { reason } => MenderError::transport(reason),
            Reply::Http { status, body, payload } => MenderError::fetch(
                operation,
                endpoint,
                status,
                body.as_str(),
            ),
        }
    }
}

} // verus!
