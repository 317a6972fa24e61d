//! The census of artifacts: how many devices of the inventory run each one.

use crate::error::{fetch_error, usage_error, ErrorView, MenderError};
use crate::machine::{lemma_run_ends_at, lemma_waiting_run, run, Step, StepView, Trace};
use crate::paging::{turned, Cursor, CursorView};
use crate::parse::{Command, CommandView, Config, ConfigView};
use crate::tally::{display_ordered, lemma_record_all_concat, rank, record_all, render, Tally};
use crate::wire::{
    devices_of, is_success, refusal, DeviceView, MenderDevice, Param, Payload, PayloadView, Reply,
    ReplyView, RequestView, Shape, GET_DEVICES_INVENTORY_API,
};
use vstd::prelude::*;

verus! {

/// Name of the attribute that holds the artifact a device runs.
pub const ARTIFACT_NAME: &'static str = "artifact_name";

/// The value of the first attribute named `artifact_name`, or the empty
/// text where there is none.
pub open spec fn artifact_among(attributes: Seq<(Seq<char>, Seq<char>)>) -> Seq<char>
    decreases attributes.len(),
{
    if attributes.len() == 0 {
        Seq::empty()
    } else if attributes[0].0 == ARTIFACT_NAME@ {
        attributes[0].1
    } else {
        artifact_among(attributes.drop_first())
    }
}

/// The artifact that a device runs: the empty text for a device without
/// attributes or without that attribute.
pub open spec fn artifact_of(device: DeviceView) -> Seq<char> {
    match device.attributes {
        Some(attributes) => artifact_among(attributes),
        None => Seq::empty(),
    }
}

/// The artifacts of a list of devices, one for each, in order.
pub open spec fn artifacts_of(devices: Seq<DeviceView>) -> Seq<Seq<char>> {
    Seq::new(devices.len(), |i: int| artifact_of(devices[i]))
}

impl MenderDevice {
    /// The artifact that the device runs.
    pub fn artifact_name(&self) -> (name: String)
        ensures
            name@ == artifact_of(self@),
    {
        if let Some(attributes) = &self.attributes {
            let ghost all = attributes.deep_view();
            assert(all.subrange(0, all.len() as int) =~= all);
            let mut i: usize = 0;
            while i < attributes.len()
                invariant
                    i <= attributes.len(),
                    all == attributes.deep_view(),
                    artifact_of(self@) == artifact_among(all),
                    artifact_among(all) == artifact_among(all.subrange(i as int, all.len() as int)),
                decreases attributes.len() - i,
            {
                let ghost left = all.subrange(i as int, all.len() as int);
                assert(left[0] == all[i as int]);
                assert(left.drop_first() =~= all.subrange(i + 1, all.len() as int));
                if crate::text::same_text(attributes[i].name.as_str(), ARTIFACT_NAME) {
                    return attributes[i].value.clone();
                }
                i = i + 1;
            }
            assert(all.subrange(i as int, all.len() as int).len() == 0);
        }
        String::new()
    }
}

pub const NOT_COUNT_ARTIFACTS: &'static str =
    "Command must be countartifacts and token must be provided in count_artifacts call";

/// Name of the operation in the text of its errors.
pub const COUNTING: &'static str = "artifacts counting";

/// A census under way: where the walk of the inventory stands, and the
/// counts so far.
#[derive(Debug, PartialEq, Eq)]
pub struct Census {
    pub cursor: Cursor,
    pub tally: Tally,
}

/// Mathematical value of a [`Census`].
pub struct CensusView {
    pub cursor: CursorView,
    pub entries: Seq<(Seq<char>, nat)>,
}

impl DeepView for Census {
    type V = CensusView;

    open spec fn deep_view(&self) -> CensusView {
        CensusView { cursor: self.cursor@, entries: self.tally@ }
    }
}

impl View for Census {
    type V = CensusView;

    open spec fn view(&self) -> CensusView {
        self.deep_view()
    }
}

/// The cursor on the first page of the whole inventory.
pub open spec fn inventory_cursor(server_url: Seq<char>, token: Seq<char>) -> CursorView {
    CursorView {
        endpoint: server_url + GET_DEVICES_INVENTORY_API@,
        token,
        extra: Seq::empty(),
        expect: Shape::Devices,
        page: 1,
    }
}

/// The first step of a census: a configuration whose command is no census,
/// or that has no token, is refused; else the first page of the inventory is
/// asked for, with nothing counted yet.
pub open spec fn census_begin(conf: ConfigView) -> StepView<CensusView, Seq<char>> {
    match (conf.command, conf.token) {
        (CommandView::CountArtifacts, Some(token)) => {
            let cursor = inventory_cursor(conf.server_url, token);
            StepView::Call {
                state: CensusView { cursor, entries: Seq::empty() },
                request: cursor.request(),
            }
        },
        _ => StepView::Done(Err(usage_error(NOT_COUNT_ARTIFACTS@))),
    }
}

/// The step of a census on the reply to its last request: a reply that
/// delivers no page of devices ends the census with the reply's error, and
/// the counts so far are dropped; an empty page ends it with the report of
/// the counts; the devices of any other page are recorded and the next page
/// is asked for.
pub open spec fn census_advance(state: CensusView, reply: ReplyView) -> StepView<
    CensusView,
    Seq<char>,
> {
    match devices_of(reply) {
        None => StepView::Done(Err(refusal(reply, COUNTING@, state.cursor.endpoint))),
        Some(devices) => match turned(state.cursor, devices.len()) {
            None => StepView::Done(Ok(render(rank(state.entries)))),
            Some(next) => StepView::Call {
                state: CensusView {
                    cursor: next,
                    entries: record_all(state.entries, artifacts_of(devices)),
                },
                request: next.request(),
            },
        },
    }
}

/// [`census_advance`] as a function value.
pub open spec fn counting_on() -> spec_fn(CensusView, ReplyView) -> StepView<CensusView, Seq<char>> {
    |state: CensusView, reply: ReplyView| census_advance(state, reply)
}

/// What the census that `conf` describes does with the replies it is fed.
pub open spec fn census_trace(conf: ConfigView, replies: Seq<ReplyView>) -> Trace<Seq<char>> {
    run(census_begin(conf), counting_on(), replies)
}

/// What a census does from the state `state` on, once it has asked for the
/// page of its cursor.
pub open spec fn census_from(state: CensusView, replies: Seq<ReplyView>) -> Trace<Seq<char>> {
    run(StepView::Call { state, request: state.cursor.request() }, counting_on(), replies)
}

/// The artifacts of two lists of devices, one behind the other.
pub proof fn lemma_artifacts_of_concat(first: Seq<DeviceView>, second: Seq<DeviceView>)
    ensures
        artifacts_of(first + second) == artifacts_of(first) + artifacts_of(second),
{
    assert(artifacts_of(first + second) =~= artifacts_of(first) + artifacts_of(second));
}

/// A census under way that is fed the non-empty pages `pages` and then an
/// empty page reports the counts it had with every device of the pages
/// recorded, and has asked for one page more than `pages` holds.
pub proof fn lemma_census_run(state: CensusView, pages: Seq<Seq<DeviceView>>, replies: Seq<ReplyView>)
    requires
        replies.len() == pages.len() + 1,
        forall|i: int|
            0 <= i < pages.len() ==> devices_of(#[trigger] replies[i]) == Some(pages[i])
                && pages[i].len() > 0,
        devices_of(replies.last()) == Some(Seq::<DeviceView>::empty()),
    ensures
        ({
            let trace = census_from(state, replies);
            &&& trace.outcome == Some(
                Ok::<Seq<char>, ErrorView>(
                    render(rank(record_all(state.entries, artifacts_of(pages.flatten())))),
                ),
            )
            &&& trace.requests.len() == pages.len() + 1
            &&& forall|k: int|
                0 <= k <= pages.len() ==> #[trigger] trace.requests[k] == state.cursor.skip(
                    k as nat,
                ).request()
        }),
    decreases pages.len(),
{
    let trace = census_from(state, replies);
    let later = replies.drop_first();
    let stepped = census_advance(state, replies[0]);
    let tail = run(stepped, counting_on(), later);
    assert(trace.requests =~= seq![state.cursor.request()] + tail.requests);
    assert(state.cursor.skip(0) == state.cursor);
    if pages.len() == 0 {
        assert(replies[0] == replies.last());
        assert(artifacts_of(pages.flatten()) =~= Seq::empty());
        assert(tail.requests =~= Seq::empty());
    } else {
        let rest = pages.drop_first();
        let next = CensusView {
            cursor: state.cursor.skip(1),
            entries: record_all(state.entries, artifacts_of(pages[0])),
        };
        assert(devices_of(replies[0]) == Some(pages[0]));
        assert(stepped == StepView::<CensusView, Seq<char>>::Call {
            state: next,
            request: next.cursor.request(),
        });
        assert forall|i: int| 0 <= i < rest.len() implies devices_of(#[trigger] later[i]) == Some(
            rest[i],
        ) && rest[i].len() > 0 by {
            assert(later[i] == replies[i + 1]);
            assert(rest[i] == pages[i + 1]);
        }
        assert(later.last() == replies.last());
        lemma_census_run(next, rest, later);
        assert(pages.flatten() == pages[0] + rest.flatten());
        lemma_artifacts_of_concat(pages[0], rest.flatten());
        lemma_record_all_concat(
            state.entries,
            artifacts_of(pages[0]),
            artifacts_of(rest.flatten()),
        );
        assert forall|k: int| 0 <= k <= pages.len() implies #[trigger] trace.requests[k]
            == state.cursor.skip(k as nat).request() by {
            if k > 0 {
                assert(trace.requests[k] == tail.requests[k - 1]);
                assert(next.cursor.skip((k - 1) as nat) == state.cursor.skip(k as nat));
            }
        }
    }
}

/// Census: where the inventory delivers the non-empty pages `pages` and then
/// an empty page, the census reports the ranked counts of the artifacts of
/// all their devices. The report depends on the devices in the order
/// delivered and not on how they are split into pages. One page more than
/// `pages` holds was asked for, from page 1 on.
pub proof fn lemma_census_reports(
    server_url: Seq<char>,
    token: Seq<char>,
    cert_file: Option<Seq<char>>,
    pages: Seq<Seq<DeviceView>>,
    replies: Seq<ReplyView>,
)
    requires
        replies.len() == pages.len() + 1,
        forall|i: int|
            0 <= i < pages.len() ==> devices_of(#[trigger] replies[i]) == Some(pages[i])
                && pages[i].len() > 0,
        devices_of(replies.last()) == Some(Seq::<DeviceView>::empty()),
    ensures
        ({
            let conf = ConfigView {
                command: CommandView::CountArtifacts,
                token: Some(token),
                server_url,
                cert_file,
            };
            let trace = census_trace(conf, replies);
            &&& trace.outcome == Some(
                Ok::<Seq<char>, ErrorView>(
                    render(rank(record_all(Seq::empty(), artifacts_of(pages.flatten())))),
                ),
            )
            &&& trace.requests.len() == pages.len() + 1
            &&& forall|k: int|
                0 <= k <= pages.len() ==> #[trigger] trace.requests[k] == inventory_cursor(
                    server_url,
                    token,
                ).skip(k as nat).request()
        }),
{
    let state = CensusView {
        cursor: inventory_cursor(server_url, token),
        entries: Seq::<(Seq<char>, nat)>::empty(),
    };
    lemma_census_run(state, pages, replies);
}

/// At any stage of a census, a reply whose status is no success ends it with
/// a fetch error that carries the URL asked, the status and the body: no
/// partial count is reported.
pub proof fn lemma_census_aborts(
    state: CensusView,
    status: u16,
    body: Seq<char>,
    payload: PayloadView,
)
    requires
        !is_success(status),
    ensures
        census_advance(state, ReplyView::Http { status, body, payload }) == StepView::<
            CensusView,
            Seq<char>,
        >::Done(Err(fetch_error(COUNTING@, state.cursor.endpoint, status, body))),
{
}

/// Whether `request` asks the URL that a census in state `state` waits on.
pub open spec fn awaits(state: CensusView, request: RequestView) -> bool {
    request.url == state.cursor.endpoint
}

/// A reply whose status is no success, taken at any point of a census that
/// has not ended, ends it with a fetch error that carries the URL of the
/// request it answers, the status and the body; no request follows and no
/// count is reported.
pub proof fn lemma_census_stops_at_failure(
    conf: ConfigView,
    replies: Seq<ReplyView>,
    k: int,
    status: u16,
    body: Seq<char>,
    payload: PayloadView,
)
    requires
        0 <= k < replies.len(),
        census_trace(conf, replies.take(k)).outcome is None,
        replies[k] == (ReplyView::Http { status, body, payload }),
        !is_success(status),
    ensures
        census_trace(conf, replies).requests == census_trace(conf, replies.take(k)).requests,
        census_trace(conf, replies).requests.len() == k + 1,
        census_trace(conf, replies).outcome == Some(
            Err::<Seq<char>, ErrorView>(
                fetch_error(COUNTING@, census_trace(conf, replies).requests.last().url, status, body),
            ),
        ),
{
    let good = |state: CensusView, request: RequestView| awaits(state, request);
    let ending = |request: RequestView|
        Err::<Seq<char>, ErrorView>(fetch_error(COUNTING@, request.url, status, body));
    assert forall|state: CensusView, request: RequestView, event: ReplyView|
        #![trigger good(state, request), counting_on()(state, event)]
        good(state, request) implies (counting_on()(state, event) matches StepView::Call {
        state: next,
        request: asked,
    } ==> good(next, asked)) by {}
    assert forall|state: CensusView, request: RequestView|
        #![trigger good(state, request)]
        good(state, request) implies counting_on()(state, replies[k]) == StepView::<
        CensusView,
        Seq<char>,
    >::Done(ending(request)) by {}
    lemma_waiting_run(census_begin(conf), counting_on(), replies.take(k));
    lemma_run_ends_at(census_begin(conf), counting_on(), replies, k, good, ending);
}

/// Begins the census that `conf` describes.
pub fn count_artifacts(conf: &Config) -> (step: Step<Census, String>)
    ensures
        step@ == census_begin(conf@),
        step matches Step::Call { state, request } ==> state.wf() && state.tally.total() == 0,
{
    let token = match &conf.token {
        Some(token) => token,
        None => {
            return Step::Done(Err(MenderError::usage(NOT_COUNT_ARTIFACTS)));
        },
    };
    match &conf.command {
        Command::CountArtifacts => {
            let mut endpoint = conf.server_url.clone();
            endpoint.append(GET_DEVICES_INVENTORY_API);
            let extra: Vec<Param> = Vec::new();
            assert(extra.deep_view() =~= Seq::empty());
            let cursor = Cursor::first(endpoint, token.clone(), extra, Shape::Devices);
            let request = cursor.request();
            Step::Call { state: Census { cursor, tally: Tally::new() }, request }
        },
        _ => Step::Done(Err(MenderError::usage(NOT_COUNT_ARTIFACTS))),
    }
}

impl Census {
    /// The invariant of a census: that of its counts.
    pub open spec fn wf(self) -> bool {
        self.tally.wf()
    }

    /// Whether the census can take `reply` within the limits of the machine:
    /// the page index must not be the largest that fits, and the number of
    /// devices recorded must still fit with those that the reply delivers.
    pub open spec fn within_limits(self, reply: Reply) -> bool {
        &&& self.cursor.page < u64::MAX
        &&& match devices_of(reply@) {
            Some(devices) => self.tally.total() + devices.len() <= u64::MAX,
            None => true,
        }
    }

    /// Tests [`Self::within_limits`].
    pub fn can_advance(&self, reply: &Reply) -> (can: bool)
        ensures
            can == self.within_limits(*reply),
    {
        if self.cursor.page == u64::MAX {
            return false;
        }
        if !reply.is_success() {
            return true;
        }
        match reply {
            Reply::Http { status, body, payload } => match payload {
                Payload::Devices(devices) => {
                    assert(devices.deep_view().len() == devices@.len());
                    let room = u64::MAX - self.tally.devices();
                    devices.len() as u64 <= room
                },
                _ => true,
            },
            _ => true,
        }
    }

    /// Takes the reply to the request of the last step.
    pub fn advance(self, reply: Reply) -> (step: Step<Census, String>)
        requires
            self.wf(),
            self.within_limits(reply),
        ensures
            step@ == census_advance(self@, reply@),
            step matches Step::Call { state, request } ==> state.wf(),
    {
        let mut tally = self.tally;
        match reply.into_devices() {
            Err(reply) => Step::Done(Err(reply.refuse(COUNTING, self.cursor.endpoint.as_str()))),
            Ok(devices) => match self.cursor.turn(devices.len()) {
                None => Step::Done(Ok(display_ordered(&tally))),
                Some(next) => {
                    let ghost start = tally@;
                    let ghost seen = tally.total();
                    let ghost names = artifacts_of(devices.deep_view());
                    assert(names.take(0) =~= Seq::<Seq<char>>::empty());
                    let mut i: usize = 0;
                    while i < devices.len()
                        invariant
                            i <= devices.len(),
                            tally.wf(),
                            names == artifacts_of(devices.deep_view()),
                            tally.total() == seen + i,
                            seen + devices.len() <= u64::MAX,
                            tally@ == record_all(start, names.take(i as int)),
                        decreases devices.len() - i,
                    {
                        let name = devices[i].artifact_name();
                        proof {
                            assert(devices.deep_view()[i as int] == devices@[i as int]@);
                            assert(names.take(i + 1).drop_last() =~= names.take(i as int));
                            assert(names.take(i + 1).last() == name@);
                        }
                        tally.record(name);
                        i = i + 1;
                    }
                    assert(names.take(i as int) =~= names);
                    let request = next.request();
                    Step::Call { state: Census { cursor: next, tally }, request }
                },
            },
        }
    }
}

} // verus!
