//! Deployment of an artifact to a group or to a single device: the device
//! set is made explicit first, then submitted in one request.

use crate::error::{fetch_error, usage_error, ErrorView, MenderError};
use crate::machine::{lemma_run_ends_at, lemma_waiting_run, run, Step, StepView, Trace};
use crate::paging::{pager_absorb, pager_start, Cursor, CursorView, Pager, PagerView};
use crate::parse::{Command, CommandView, Config, ConfigView};
use crate::wire::{
    is_success, members_of, refusal, succeeded, Auth, AuthView, DeployData, DeployDataView, Method,
    PayloadView, Reply, ReplyView, Request, RequestView, Shape, DEPLOY_API, GROUPS_API,
};
use vstd::prelude::*;

verus! {

pub const NOT_DEPLOY: &'static str = "Command must be Deploy and token must be provided for deploy";

pub const NO_TARGET: &'static str = "A group or a device id must be provided for deployment";

pub const TWO_TARGETS: &'static str =
    "Only one of a group and a device id can be provided for deployment";

/// Name of the operation in the text of its errors.
pub const DEPLOYMENT: &'static str = "deployment";

/// A deployment under way.
#[derive(Debug, PartialEq, Eq)]
pub enum Deployment {
    /// The members of the group are being listed, page by page.
    Listing { pager: Pager<String>, server_url: String, artifact: String, name: String },
    /// The submission was sent for `devices_affected` devices.
    Submitting { endpoint: String, devices_affected: usize },
}

/// Mathematical value of a [`Deployment`].
pub enum DeploymentView {
    Listing {
        pager: PagerView<Seq<char>>,
        server_url: Seq<char>,
        artifact: Seq<char>,
        name: Seq<char>,
    },
    Submitting { endpoint: Seq<char>, devices_affected: usize },
}

impl DeepView for Deployment {
    type V = DeploymentView;

    open spec fn deep_view(&self) -> DeploymentView {
        match self {
            Deployment::Listing { pager, server_url, artifact, name } => DeploymentView::Listing {
                pager: pager@,
                server_url: server_url@,
                artifact: artifact@,
                name: name@,
            },
            Deployment::Submitting { endpoint, devices_affected } => DeploymentView::Submitting {
                endpoint: endpoint@,
                devices_affected: *devices_affected,
            },
        }
    }
}

impl View for Deployment {
    type V = DeploymentView;

    open spec fn view(&self) -> DeploymentView {
        self.deep_view()
    }
}

/// The name of a deployment: the explicit name if one is given, else the
/// group's name, else the device's id.
pub open spec fn effective_name(
    group: Option<Seq<char>>,
    device: Option<Seq<char>>,
    name: Option<Seq<char>>,
) -> Seq<char> {
    match (name, group, device) {
        (Some(name), _, _) => name,
        (None, Some(group), _) => group,
        (None, None, Some(device)) => device,
        (None, None, None) => Seq::empty(),
    }
}

/// URL of the listing of a group's members.
pub open spec fn members_endpoint(server_url: Seq<char>, group: Seq<char>) -> Seq<char> {
    server_url + GROUPS_API@ + group + "/devices"@
}

/// The cursor on the first page of a group's members.
pub open spec fn members_cursor(
    server_url: Seq<char>,
    token: Seq<char>,
    group: Seq<char>,
) -> CursorView {
    CursorView {
        endpoint: members_endpoint(server_url, group),
        token,
        extra: Seq::empty(),
        expect: Shape::Members,
        page: 1,
    }
}

/// URL of the deployment endpoint.
pub open spec fn deploy_endpoint(server_url: Seq<char>) -> Seq<char> {
    server_url + DEPLOY_API@
}

/// The one request that submits a deployment: a POST that names the
/// artifact, the deployment and every device.
pub open spec fn submission(
    server_url: Seq<char>,
    token: Seq<char>,
    artifact: Seq<char>,
    name: Seq<char>,
    devices: Seq<Seq<char>>,
) -> RequestView {
    RequestView {
        method: Method::Post,
        url: deploy_endpoint(server_url),
        auth: AuthView::Bearer { token },
        query: Seq::empty(),
        body: Some(DeployDataView { artifact_name: artifact, name, devices }),
        expect: Shape::Text,
    }
}

/// The step that submits `devices`.
pub open spec fn submit(
    server_url: Seq<char>,
    token: Seq<char>,
    artifact: Seq<char>,
    name: Seq<char>,
    devices: Seq<Seq<char>>,
) -> StepView<DeploymentView, usize> {
    StepView::Call {
        state: DeploymentView::Submitting {
            endpoint: deploy_endpoint(server_url),
            devices_affected: devices.len() as usize,
        },
        request: submission(server_url, token, artifact, name, devices),
    }
}

/// A step of the listing as a step of the deployment: a further page is
/// asked for, or the list is complete and is submitted.
pub open spec fn listing_step(
    step: StepView<PagerView<Seq<char>>, Seq<Seq<char>>>,
    server_url: Seq<char>,
    token: Seq<char>,
    artifact: Seq<char>,
    name: Seq<char>,
) -> StepView<DeploymentView, usize> {
    match step {
        StepView::Call { state, request } => StepView::Call {
            state: DeploymentView::Listing { pager: state, server_url, artifact, name },
            request,
        },
        StepView::Done(Ok(devices)) => submit(server_url, token, artifact, name, devices),
        StepView::Done(Err(error)) => StepView::Done(Err(error)),
    }
}

/// The first step of a deployment. A configuration whose command is no
/// deployment, or that has no token, is refused, and so is a deployment with
/// no target or with two: nothing is sent then. A group is listed from its
/// first page on; a single device is submitted at once.
pub open spec fn deploy_begin(conf: ConfigView) -> StepView<DeploymentView, usize> {
    match (conf.command, conf.token) {
        (CommandView::Deploy { group, device, artifact, name }, Some(token)) => {
            let name = effective_name(group, device, name);
            match (group, device) {
                (None, None) => StepView::Done(Err(usage_error(NO_TARGET@))),
                (Some(_), Some(_)) => StepView::Done(Err(usage_error(TWO_TARGETS@))),
                (Some(group), None) => listing_step(
                    pager_start(members_cursor(conf.server_url, token, group)),
                    conf.server_url,
                    token,
                    artifact,
                    name,
                ),
                (None, Some(device)) => submit(
                    conf.server_url,
                    token,
                    artifact,
                    name,
                    seq![device],
                ),
            }
        },
        _ => StepView::Done(Err(usage_error(NOT_DEPLOY@))),
    }
}

/// The step of a deployment on the reply to its last request. While
/// listing, a reply that delivers no list of members ends the deployment with
/// the reply's error, and one that does is absorbed by the walk. The reply to
/// the submission ends the deployment: with the number of devices submitted
/// where it succeeded, with its error where it did not.
pub open spec fn deploy_advance(state: DeploymentView, reply: ReplyView) -> StepView<
    DeploymentView,
    usize,
> {
    match state {
        DeploymentView::Listing { pager, server_url, artifact, name } => match members_of(reply) {
            None => StepView::Done(Err(refusal(reply, DEPLOYMENT@, pager.cursor.endpoint))),
            Some(page) => listing_step(
                pager_absorb(pager, page),
                server_url,
                pager.cursor.token,
                artifact,
                name,
            ),
        },
        DeploymentView::Submitting { endpoint, devices_affected } => if succeeded(reply) {
            StepView::Done(Ok(devices_affected))
        } else {
            StepView::Done(Err(refusal(reply, DEPLOYMENT@, endpoint)))
        },
    }
}

/// [`deploy_advance`] as a function value.
pub open spec fn advancing() -> spec_fn(DeploymentView, ReplyView) -> StepView<
    DeploymentView,
    usize,
> {
    |state: DeploymentView, reply: ReplyView| deploy_advance(state, reply)
}

/// What the deployment that `conf` describes does with the replies it is fed.
pub open spec fn deploy_trace(conf: ConfigView, replies: Seq<ReplyView>) -> Trace<usize> {
    run(deploy_begin(conf), advancing(), replies)
}

/// What a deployment does from the state `state` on, once it has sent `request`.
pub open spec fn resume(state: DeploymentView, request: RequestView, replies: Seq<ReplyView>) -> Trace<
    usize,
> {
    run(StepView::Call { state, request }, advancing(), replies)
}

/// How a submission ends on the reply `reply`.
pub open spec fn submitted(server_url: Seq<char>, devices: Seq<Seq<char>>, reply: ReplyView) -> Result<
    usize,
    ErrorView,
> {
    if succeeded(reply) {
        Ok(devices.len() as usize)
    } else {
        Err(refusal(reply, DEPLOYMENT@, deploy_endpoint(server_url)))
    }
}

/// URL of the request that a deployment in state `state` waits on.
pub open spec fn pending_endpoint(state: DeploymentView) -> Seq<char> {
    match state {
        DeploymentView::Listing { pager, server_url, artifact, name } => pager.cursor.endpoint,
        DeploymentView::Submitting { endpoint, devices_affected } => endpoint,
    }
}

proof fn lemma_submit_run(
    server_url: Seq<char>,
    token: Seq<char>,
    artifact: Seq<char>,
    name: Seq<char>,
    devices: Seq<Seq<char>>,
    replies: Seq<ReplyView>,
)
    ensures
        run(submit(server_url, token, artifact, name, devices), advancing(), replies).requests
            == seq![submission(server_url, token, artifact, name, devices)],
        run(submit(server_url, token, artifact, name, devices), advancing(), replies).outcome == (
        if replies.len() == 0 {
            None
        } else {
            Some(submitted(server_url, devices, replies[0]))
        }),
{
    let first = submit(server_url, token, artifact, name, devices);
    let request = submission(server_url, token, artifact, name, devices);
    if replies.len() > 0 {
        let state = first->state;
        let rest = run(deploy_advance(state, replies[0]), advancing(), replies.drop_first());
        assert(rest.requests =~= Seq::empty());
        assert(run(first, advancing(), replies).requests =~= seq![request]);
    }
}

proof fn lemma_listing_run(
    pager: PagerView<Seq<char>>,
    server_url: Seq<char>,
    artifact: Seq<char>,
    name: Seq<char>,
    pages: Seq<Seq<Seq<char>>>,
    replies: Seq<ReplyView>,
)
    requires
        replies.len() == pages.len() + 2,
        forall|i: int|
            0 <= i < pages.len() ==> members_of(#[trigger] replies[i]) == Some(pages[i])
                && pages[i].len() > 0,
        members_of(replies[pages.len() as int]) == Some(Seq::<Seq<char>>::empty()),
    ensures
        ({
            let trace = resume(
                DeploymentView::Listing { pager, server_url, artifact, name },
                pager.cursor.request(),
                replies,
            );
            let devices = pager.items + pages.flatten();
            &&& trace.requests.len() == pages.len() + 2
            &&& forall|k: int|
                0 <= k <= pages.len() ==> #[trigger] trace.requests[k] == pager.cursor.skip(
                    k as nat,
                ).request()
            &&& trace.requests[pages.len() as int + 1] == submission(
                server_url,
                pager.cursor.token,
                artifact,
                name,
                devices,
            )
            &&& trace.outcome == Some(submitted(server_url, devices, replies.last()))
        }),
    decreases pages.len(),
{
    let state = DeploymentView::Listing { pager, server_url, artifact, name };
    let trace = resume(state, pager.cursor.request(), replies);
    let later = replies.drop_first();
    let stepped = deploy_advance(state, replies[0]);
    assert(trace.requests =~= seq![pager.cursor.request()] + run(
        stepped,
        advancing(),
        later,
    ).requests);
    assert(trace.outcome == run(stepped, advancing(), later).outcome);
    assert(pager.cursor.skip(0) == pager.cursor);
    if pages.len() == 0 {
        assert(pager.items + pages.flatten() =~= pager.items);
        assert(stepped == submit(server_url, pager.cursor.token, artifact, name, pager.items));
        lemma_submit_run(server_url, pager.cursor.token, artifact, name, pager.items, later);
        assert(later[0] == replies.last());
    } else {
        let next = PagerView { cursor: pager.cursor.skip(1), items: pager.items + pages[0] };
        let rest = pages.drop_first();
        assert(members_of(replies[0]) == Some(pages[0]));
        assert(stepped == StepView::<DeploymentView, usize>::Call {
            state: DeploymentView::Listing { pager: next, server_url, artifact, name },
            request: next.cursor.request(),
        });
        assert forall|i: int| 0 <= i < rest.len() implies members_of(#[trigger] later[i]) == Some(
            rest[i],
        ) && rest[i].len() > 0 by {
            assert(later[i] == replies[i + 1]);
            assert(rest[i] == pages[i + 1]);
        }
        assert(later[rest.len() as int] == replies[pages.len() as int]);
        lemma_listing_run(next, server_url, artifact, name, rest, later);
        let tail = resume(
            DeploymentView::Listing { pager: next, server_url, artifact, name },
            next.cursor.request(),
            later,
        );
        assert(pages.flatten() == pages[0] + rest.flatten());
        assert(next.items + rest.flatten() =~= pager.items + pages.flatten());
        assert(later.last() == replies.last());
        assert forall|k: int| 0 <= k <= pages.len() implies #[trigger] trace.requests[k]
            == pager.cursor.skip(k as nat).request() by {
            if k > 0 {
                assert(trace.requests[k] == tail.requests[k - 1]);
                assert(next.cursor.skip((k - 1) as nat) == pager.cursor.skip(k as nat));
            }
        }
        assert(trace.requests[pages.len() as int + 1] == tail.requests[rest.len() as int + 1]);
    }
}

/// A deployment to a single device issues exactly one request whatever it is
/// fed: the submission of that one device. The members of a group are never
/// listed, and a submission that succeeds reports one device.
pub proof fn lemma_device_deployment(
    server_url: Seq<char>,
    token: Seq<char>,
    device: Seq<char>,
    artifact: Seq<char>,
    name: Option<Seq<char>>,
    cert_file: Option<Seq<char>>,
    replies: Seq<ReplyView>,
)
    ensures
        ({
            let conf = ConfigView {
                command: CommandView::Deploy { group: None, device: Some(device), artifact, name },
                token: Some(token),
                server_url,
                cert_file,
            };
            let trace = deploy_trace(conf, replies);
            &&& trace.requests == seq![
                submission(
                    server_url,
                    token,
                    artifact,
                    effective_name(None, Some(device), name),
                    seq![device],
                ),
            ]
            &&& replies.len() == 0 ==> trace.outcome is None
            &&& replies.len() > 0 && succeeded(replies[0]) ==> trace.outcome == Some(
                Ok::<usize, ErrorView>(1),
            )
            &&& replies.len() > 0 && !succeeded(replies[0]) ==> trace.outcome == Some(
                Err::<usize, ErrorView>(
                    refusal(replies[0], DEPLOYMENT@, deploy_endpoint(server_url)),
                ),
            )
        }),
{
    lemma_submit_run(
        server_url,
        token,
        artifact,
        effective_name(None, Some(device), name),
        seq![device],
        replies,
    );
}

/// A deployment to a group whose listing delivers the non-empty pages
/// `pages` and then an empty page asks for the pages 1, 2, 3 and so on, one
/// more than `pages` holds, and then submits every listed device once, in the
/// order listed and with nothing removed. It reports the number of devices
/// submitted where the submission succeeds, and the submission's error where
/// it does not.
pub proof fn lemma_group_deployment(
    server_url: Seq<char>,
    token: Seq<char>,
    group: Seq<char>,
    artifact: Seq<char>,
    name: Option<Seq<char>>,
    cert_file: Option<Seq<char>>,
    pages: Seq<Seq<Seq<char>>>,
    replies: Seq<ReplyView>,
)
    requires
        replies.len() == pages.len() + 2,
        forall|i: int|
            0 <= i < pages.len() ==> members_of(#[trigger] replies[i]) == Some(pages[i])
                && pages[i].len() > 0,
        members_of(replies[pages.len() as int]) == Some(Seq::<Seq<char>>::empty()),
    ensures
        ({
            let conf = ConfigView {
                command: CommandView::Deploy { group: Some(group), device: None, artifact, name },
                token: Some(token),
                server_url,
                cert_file,
            };
            let trace = deploy_trace(conf, replies);
            &&& trace.requests.len() == pages.len() + 2
            &&& forall|k: int|
                0 <= k <= pages.len() ==> #[trigger] trace.requests[k] == members_cursor(
                    server_url,
                    token,
                    group,
                ).skip(k as nat).request()
            &&& trace.requests[pages.len() as int + 1] == submission(
                server_url,
                token,
                artifact,
                effective_name(Some(group), None, name),
                pages.flatten(),
            )
            &&& trace.outcome == Some(submitted(server_url, pages.flatten(), replies.last()))
        }),
{
    let cursor = members_cursor(server_url, token, group);
    let pager = PagerView { cursor, items: Seq::<Seq<char>>::empty() };
    lemma_listing_run(
        pager,
        server_url,
        artifact,
        effective_name(Some(group), None, name),
        pages,
        replies,
    );
    assert(pager.items + pages.flatten() =~= pages.flatten());
}

/// At any stage of a deployment, a reply whose status is no success ends it
/// with a fetch error that carries the URL asked, the status and the body.
pub proof fn lemma_deploy_aborts(
    state: DeploymentView,
    status: u16,
    body: Seq<char>,
    payload: PayloadView,
)
    requires
        !is_success(status),
    ensures
        deploy_advance(state, ReplyView::Http { status, body, payload }) == StepView::<
            DeploymentView,
            usize,
        >::Done(Err(fetch_error(DEPLOYMENT@, pending_endpoint(state), status, body))),
{
}

/// Whether `request` asks the URL that a deployment in state `state` waits on.
pub open spec fn awaits(state: DeploymentView, request: RequestView) -> bool {
    request.url == pending_endpoint(state)
}

/// A reply whose status is no success, taken at any point of a deployment
/// that has not ended, ends it with a fetch error that carries the URL of
/// the request it answers, the status and the body. No request follows: a
/// listing that fails is followed by no further page and by no submission.
pub proof fn lemma_deploy_stops_at_failure(
    conf: ConfigView,
    replies: Seq<ReplyView>,
    k: int,
    status: u16,
    body: Seq<char>,
    payload: PayloadView,
)
    requires
        0 <= k < replies.len(),
        deploy_trace(conf, replies.take(k)).outcome is None,
        replies[k] == (ReplyView::Http { status, body, payload }),
        !is_success(status),
    ensures
        deploy_trace(conf, replies).requests == deploy_trace(conf, replies.take(k)).requests,
        deploy_trace(conf, replies).requests.len() == k + 1,
        deploy_trace(conf, replies).outcome == Some(
            Err::<usize, ErrorView>(
                fetch_error(DEPLOYMENT@, deploy_trace(conf, replies).requests.last().url, status, body),
            ),
        ),
{
    let good = |state: DeploymentView, request: RequestView| awaits(state, request);
    let ending = |request: RequestView|
        Err::<usize, ErrorView>(fetch_error(DEPLOYMENT@, request.url, status, body));
    assert forall|state: DeploymentView, request: RequestView, event: ReplyView|
        #![trigger good(state, request), advancing()(state, event)]
        good(state, request) implies (advancing()(state, event) matches StepView::Call {
        state: next,
        request: asked,
    } ==> good(next, asked)) by {}
    assert forall|state: DeploymentView, request: RequestView|
        #![trigger good(state, request)]
        good(state, request) implies advancing()(state, replies[k]) == StepView::<
        DeploymentView,
        usize,
    >::Done(ending(request)) by {}
    lemma_waiting_run(deploy_begin(conf), advancing(), replies.take(k));
    lemma_run_ends_at(deploy_begin(conf), advancing(), replies, k, good, ending);
}

/// A deployment submits only after the listing is complete: every reply
/// before a submission delivered a page of members. So a listing that failed
/// at any page is followed by no submission.
pub proof fn lemma_submission_follows_listing(
    conf: ConfigView,
    replies: Seq<ReplyView>,
    k: int,
)
    requires
        0 <= k < deploy_trace(conf, replies).requests.len(),
        deploy_trace(conf, replies).requests[k].method == Method::Post,
    ensures
        k <= replies.len(),
        forall|j: int| 0 <= j < k ==> members_of(#[trigger] replies[j]) is Some,
{
    match deploy_begin(conf) {
        StepView::Done(outcome) => {},
        StepView::Call { state, request } => {
            lemma_resumed_submission_follows_listing(state, request, replies, k);
        },
    }
}

/// [`lemma_submission_follows_listing`] for a deployment under way.
pub proof fn lemma_resumed_submission_follows_listing(
    state: DeploymentView,
    request: RequestView,
    replies: Seq<ReplyView>,
    k: int,
)
    requires
        0 <= k < resume(state, request, replies).requests.len(),
        resume(state, request, replies).requests[k].method == Method::Post,
    ensures
        k <= replies.len(),
        forall|j: int| 0 <= j < k ==> members_of(#[trigger] replies[j]) is Some,
    decreases replies.len(),
{
    if k > 0 {
        let trace = resume(state, request, replies);
        if replies.len() == 0 {
            assert(trace.requests.len() == 1);
        } else {
            let stepped = deploy_advance(state, replies[0]);
            let later = replies.drop_first();
            let tail = run(stepped, advancing(), later);
            assert(trace.requests =~= seq![request] + tail.requests);
            assert(trace.requests[k] == tail.requests[k - 1]);
            match stepped {
                StepView::Done(outcome) => {
                    assert(tail.requests.len() == 0);
                },
                StepView::Call { state: next, request: asked } => {
                    assert(members_of(replies[0]) is Some);
                    lemma_resumed_submission_follows_listing(next, asked, later, k - 1);
                    assert forall|j: int| 0 <= j < k implies members_of(
                        #[trigger] replies[j],
                    ) is Some by {
                        if j > 0 {
                            assert(replies[j] == later[j - 1]);
                        }
                    }
                },
            }
        }
    }
}

fn submit_step(
    server_url: String,
    token: String,
    artifact: String,
    name: String,
    devices: Vec<String>,
) -> (step: Step<Deployment, usize>)
    ensures
        step@ == submit(server_url@, token@, artifact@, name@, devices.deep_view()),
{
    let devices_affected = devices.len();
    let mut url = server_url;
    url.append(DEPLOY_API);
    let endpoint = url.clone();
    let query: Vec<crate::wire::Param> = Vec::new();
    assert(query.deep_view() =~= Seq::empty());
    let request = Request {
        method: Method::Post,
        url,
        auth: Auth::Bearer { token },
        query,
        body: Some(DeployData { artifact_name: artifact, name, devices }),
        expect: Shape::Text,
    };
    Step::Call { state: Deployment::Submitting { endpoint, devices_affected }, request }
}

fn listing(
    step: Step<Pager<String>, Vec<String>>,
    server_url: String,
    token: String,
    artifact: String,
    name: String,
) -> (out: Step<Deployment, usize>)
    ensures
        out@ == listing_step(step@, server_url@, token@, artifact@, name@),
{
    match step {
        Step::Call { state, request } => Step::Call {
            state: Deployment::Listing { pager: state, server_url, artifact, name },
            request,
        },
        Step::Done(Ok(devices)) => submit_step(server_url, token, artifact, name, devices),
        Step::Done(Err(error)) => Step::Done(Err(error)),
    }
}

/// Begins the deployment that `conf` describes.
pub fn deploy(conf: &Config) -> (step: Step<Deployment, usize>)
    ensures
        step@ == deploy_begin(conf@),
{
    let token = match &conf.token {
        Some(token) => token,
        None => {
            return Step::Done(Err(MenderError::usage(NOT_DEPLOY)));
        },
    };
    match &conf.command {
        Command::Deploy { group, device, artifact, name } => {
            let target = match (group, device) {
                (None, None) => {
                    return Step::Done(Err(MenderError::usage(NO_TARGET)));
                },
                (Some(_), Some(_)) => {
                    return Step::Done(Err(MenderError::usage(TWO_TARGETS)));
                },
                (Some(group), None) => group,
                (None, Some(device)) => device,
            };
            let label = match name {
                Some(name) => name.clone(),
                None => target.clone(),
            };
            assert(label@ == effective_name(
                group.deep_view(),
                device.deep_view(),
                name.deep_view(),
            ));
            if group.is_some() {
                let mut endpoint = conf.server_url.clone();
                endpoint.append(GROUPS_API);
                endpoint.append(target.as_str());
                endpoint.append("/devices");
                let extra: Vec<crate::wire::Param> = Vec::new();
                assert(extra.deep_view() =~= Seq::empty());
                let cursor = Cursor::first(endpoint, token.clone(), extra, Shape::Members);
                listing(
                    Pager::start(cursor),
                    conf.server_url.clone(),
                    token.clone(),
                    artifact.clone(),
                    label,
                )
            } else {
                let mut devices: Vec<String> = Vec::new();
                devices.push(target.clone());
                assert(devices.deep_view() =~= seq![target@]);
                submit_step(conf.server_url.clone(), token.clone(), artifact.clone(), label, devices)
            }
        },
        _ => Step::Done(Err(MenderError::usage(NOT_DEPLOY))),
    }
}

impl Deployment {
    /// Whether the deployment can take a further reply within the limits of
    /// the machine: the page index must not be the largest that fits.
    pub open spec fn within_limits(self) -> bool {
        match self {
            Deployment::Listing { pager, server_url, artifact, name } => pager.cursor.page
                < u64::MAX,
            Deployment::Submitting { endpoint, devices_affected } => true,
        }
    }

    /// Tests [`Self::within_limits`].
    pub fn can_advance(&self) -> (can: bool)
        ensures
            can == self.within_limits(),
    {
        match self {
            Deployment::Listing { pager, server_url, artifact, name } => pager.cursor.page
                < u64::MAX,
            Deployment::Submitting { endpoint, devices_affected } => true,
        }
    }

    /// Takes the reply to the request of the last step.
    pub fn advance(self, reply: Reply) -> (step: Step<Deployment, usize>)
        requires
            self.within_limits(),
        ensures
            step@ == deploy_advance(self@, reply@),
    {
        match self {
            Deployment::Listing { pager, server_url, artifact, name } => {
                match reply.into_members() {
                    Err(reply) => Step::Done(
                        Err(reply.refuse(DEPLOYMENT, pager.cursor.endpoint.as_str())),
                    ),
                    Ok(page) => {
                        let token = pager.cursor.token.clone();
                        listing(pager.absorb(page), server_url, token, artifact, name)
                    },
                }
            },
            Deployment::Submitting { endpoint, devices_affected } => {
                if reply.is_success() {
                    Step::Done(Ok(devices_affected))
                } else {
                    Step::Done(Err(reply.refuse(DEPLOYMENT, endpoint.as_str())))
                }
            },
        }
    }
}

} // verus!
