//! Finding a device's identifier from its serial number: the inventory is
//! asked first, and the identity table is scanned only where it knows nothing.

use crate::error::{fetch_error, not_found_error, usage_error, ErrorView, MenderError};
use crate::machine::{lemma_run_ends_at, lemma_waiting_run, run, Step, StepView, Trace};
use crate::paging::{turned, Cursor, CursorView};
use crate::parse::{Command, CommandView, Config, ConfigView};
use crate::wire::{
    identities_of, ids_of, is_success, refusal, Auth, AuthView, IdentityView, MenderIdentity, Method, Param, PayloadView, Reply, ReplyView, Request, RequestView, Shape,
    GET_DEVICES_AUTH_API, GET_DEVICES_INVENTORY_API,
};
use vstd::prelude::*;

verus! {

pub const NOT_GET_ID: &'static str =
    "Command must be getid and token must be provided in get_id call";

/// Name of the first tier in the text of its errors.
pub const SEARCHING_DEVICE: &'static str = "searching device";

/// Name of the second tier in the text of its errors.
pub const DEVICE_SEARCH: &'static str = "device search";

/// A search under way.
#[derive(Debug, PartialEq, Eq)]
pub enum Search {
    /// The inventory was asked for the devices with the serial number.
    Attribute { server_url: String, token: String, serial_number: String },
    /// The identity table is being scanned, page by page.
    Scan { cursor: Cursor, serial_number: String },
}

/// Mathematical value of a [`Search`].
pub enum SearchView {
    Attribute { server_url: Seq<char>, token: Seq<char>, serial_number: Seq<char> },
    Scan { cursor: CursorView, serial_number: Seq<char> },
}

impl DeepView for Search {
    type V = SearchView;

    open spec fn deep_view(&self) -> SearchView {
        match self {
            Search::Attribute { server_url, token, serial_number } => SearchView::Attribute {
                server_url: server_url@,
                token: token@,
                serial_number: serial_number@,
            },
            Search::Scan { cursor, serial_number } => SearchView::Scan {
                cursor: cursor@,
                serial_number: serial_number@,
            },
        }
    }
}

impl View for Search {
    type V = SearchView;

    open spec fn view(&self) -> SearchView {
        self.deep_view()
    }
}

/// URL of the inventory.
pub open spec fn inventory_endpoint(server_url: Seq<char>) -> Seq<char> {
    server_url + GET_DEVICES_INVENTORY_API@
}

/// The request of the first tier: the inventory, filtered by the server to
/// the devices whose `SerialNumber` attribute is `serial_number`.
pub open spec fn attribute_query(
    server_url: Seq<char>,
    token: Seq<char>,
    serial_number: Seq<char>,
) -> RequestView {
    RequestView {
        method: Method::Get,
        url: inventory_endpoint(server_url),
        auth: AuthView::Bearer { token },
        query: seq![("SerialNumber"@, serial_number)],
        body: None,
        expect: Shape::Ids,
    }
}

/// The cursor on the first page of the identity table, filtered by the
/// server to the accepted devices.
pub open spec fn identity_cursor(server_url: Seq<char>, token: Seq<char>) -> CursorView {
    CursorView {
        endpoint: server_url + GET_DEVICES_AUTH_API@,
        token,
        extra: seq![("status"@, "accepted"@)],
        expect: Shape::Identities,
        page: 1,
    }
}

/// The identifier of the first record of `page`, in the order received,
/// whose serial number is exactly `serial_number`.
pub open spec fn first_match(page: Seq<IdentityView>, serial_number: Seq<char>) -> Option<
    Seq<char>,
>
    decreases page.len(),
{
    if page.len() == 0 {
        None
    } else if page[0].serial_number == serial_number {
        Some(page[0].id)
    } else {
        first_match(page.drop_first(), serial_number)
    }
}

/// The first step of a search: a configuration whose command is no search,
/// or that has no token, is refused; else the inventory is asked.
pub open spec fn resolve_begin(conf: ConfigView) -> StepView<SearchView, Seq<char>> {
    match (conf.command, conf.token) {
        (CommandView::GetId { serial_number }, Some(token)) => StepView::Call {
            state: SearchView::Attribute { server_url: conf.server_url, token, serial_number },
            request: attribute_query(conf.server_url, token, serial_number),
        },
        _ => StepView::Done(Err(usage_error(NOT_GET_ID@))),
    }
}

/// The step of a search on the reply to its last request.
///
/// First tier: a reply that delivers no list ends the search with the
/// reply's error; a list that is not empty ends it with the identifier of
/// its last element; an empty list starts the scan of the identity table.
///
/// Scan: a reply that delivers no page ends the search with the reply's
/// error; a page with a match ends it with the first match; an empty page
/// ends it as not found; any other page is followed by the next one.
pub open spec fn resolve_advance(state: SearchView, reply: ReplyView) -> StepView<
    SearchView,
    Seq<char>,
> {
    match state {
        SearchView::Attribute { server_url, token, serial_number } => match ids_of(reply) {
            None => StepView::Done(
                Err(refusal(reply, SEARCHING_DEVICE@, inventory_endpoint(server_url))),
            ),
            Some(ids) => if ids.len() > 0 {
                StepView::Done(Ok(ids.last()))
            } else {
                let cursor = identity_cursor(server_url, token);
                StepView::Call {
                    state: SearchView::Scan { cursor, serial_number },
                    request: cursor.request(),
                }
            },
        },
        SearchView::Scan { cursor, serial_number } => match identities_of(reply) {
            None => StepView::Done(Err(refusal(reply, DEVICE_SEARCH@, cursor.endpoint))),
            Some(page) => match first_match(page, serial_number) {
                Some(id) => StepView::Done(Ok(id)),
                None => match turned(cursor, page.len()) {
                    None => StepView::Done(Err(not_found_error())),
                    Some(next) => StepView::Call {
                        state: SearchView::Scan { cursor: next, serial_number },
                        request: next.request(),
                    },
                },
            },
        },
    }
}

/// [`resolve_advance`] as a function value.
pub open spec fn searching() -> spec_fn(SearchView, ReplyView) -> StepView<SearchView, Seq<char>> {
    |state: SearchView, reply: ReplyView| resolve_advance(state, reply)
}

/// What the search that `conf` describes does with the replies it is fed.
pub open spec fn resolve_trace(conf: ConfigView, replies: Seq<ReplyView>) -> Trace<Seq<char>> {
    run(resolve_begin(conf), searching(), replies)
}

/// What a scan of the identity table does from `cursor` on, once it has
/// asked for the cursor's page.
pub open spec fn scan(cursor: CursorView, serial_number: Seq<char>, replies: Seq<ReplyView>) -> Trace<
    Seq<char>,
> {
    run(
        StepView::Call {
            state: SearchView::Scan { cursor, serial_number },
            request: cursor.request(),
        },
        searching(),
        replies,
    )
}

/// The configuration of a search for `serial_number`.
pub open spec fn search_conf(
    server_url: Seq<char>,
    token: Seq<char>,
    serial_number: Seq<char>,
    cert_file: Option<Seq<char>>,
) -> ConfigView {
    ConfigView {
        command: CommandView::GetId { serial_number },
        token: Some(token),
        server_url,
        cert_file,
    }
}

/// Name of the tier that a search is in, as the text of its errors has it.
pub open spec fn pending_operation(state: SearchView) -> Seq<char> {
    match state {
        SearchView::Attribute { server_url, token, serial_number } => SEARCHING_DEVICE@,
        SearchView::Scan { cursor, serial_number } => DEVICE_SEARCH@,
    }
}

/// URL of the request that a search in state `state` waits on.
pub open spec fn pending_endpoint(state: SearchView) -> Seq<char> {
    match state {
        SearchView::Attribute { server_url, token, serial_number } => inventory_endpoint(
            server_url,
        ),
        SearchView::Scan { cursor, serial_number } => cursor.endpoint,
    }
}

/// [`first_match`] finds the record of least index with the serial number,
/// and finds none only where no record has it.
pub proof fn lemma_first_match_is_least(page: Seq<IdentityView>, serial_number: Seq<char>)
    ensures
        match first_match(page, serial_number) {
            Some(id) => exists|i: int|
                0 <= i < page.len() && (#[trigger] page[i]).serial_number == serial_number
                    && page[i].id == id && forall|j: int|
                    0 <= j < i ==> (#[trigger] page[j]).serial_number != serial_number,
            None => forall|i: int|
                0 <= i < page.len() ==> (#[trigger] page[i]).serial_number != serial_number,
        },
    decreases page.len(),
{
    if page.len() > 0 && page[0].serial_number != serial_number {
        let rest = page.drop_first();
        lemma_first_match_is_least(rest, serial_number);
        match first_match(rest, serial_number) {
            Some(id) => {
                let i = choose|i: int|
                    0 <= i < rest.len() && (#[trigger] rest[i]).serial_number == serial_number
                        && rest[i].id == id && forall|j: int|
                        0 <= j < i ==> (#[trigger] rest[j]).serial_number != serial_number;
                assert(page[i + 1] == rest[i]);
                assert forall|j: int| 0 <= j < i + 1 implies (#[trigger] page[j]).serial_number
                    != serial_number by {
                    if j > 0 {
                        assert(page[j] == rest[j - 1]);
                    }
                }
            },
            None => {
                assert forall|i: int| 0 <= i < page.len() implies (#[trigger] page[i]).serial_number
                    != serial_number by {
                    if i > 0 {
                        assert(page[i] == rest[i - 1]);
                    }
                }
            },
        }
    } else if page.len() > 0 {
        assert(page[0].serial_number == serial_number);
    }
}

/// Where the inventory answers with a list that is not empty, the search
/// returns the identifier of the list's last element and has issued that one
/// request only: the identity table is never asked.
pub proof fn lemma_attribute_tier_answers(
    server_url: Seq<char>,
    token: Seq<char>,
    serial_number: Seq<char>,
    cert_file: Option<Seq<char>>,
    ids: Seq<Seq<char>>,
    replies: Seq<ReplyView>,
)
    requires
        replies.len() > 0,
        ids_of(replies[0]) == Some(ids),
        ids.len() > 0,
    ensures
        ({
            let trace = resolve_trace(
                search_conf(server_url, token, serial_number, cert_file),
                replies,
            );
            &&& trace.requests == seq![attribute_query(server_url, token, serial_number)]
            &&& trace.outcome == Some(Ok::<Seq<char>, ErrorView>(ids.last()))
        }),
{
    let conf = search_conf(server_url, token, serial_number, cert_file);
    let state = SearchView::Attribute { server_url, token, serial_number };
    let rest = run(resolve_advance(state, replies[0]), searching(), replies.drop_first());
    assert(rest.requests =~= Seq::empty());
    assert(resolve_trace(conf, replies).requests =~= seq![
        attribute_query(server_url, token, serial_number),
    ]);
}

/// Where the inventory answers with an empty list, the search goes on as a
/// scan of the identity table from its first page.
pub proof fn lemma_attribute_tier_falls_back(
    server_url: Seq<char>,
    token: Seq<char>,
    serial_number: Seq<char>,
    cert_file: Option<Seq<char>>,
    replies: Seq<ReplyView>,
)
    requires
        replies.len() > 0,
        ids_of(replies[0]) == Some(Seq::<Seq<char>>::empty()),
    ensures
        ({
            let trace = resolve_trace(
                search_conf(server_url, token, serial_number, cert_file),
                replies,
            );
            let scanned = scan(
                identity_cursor(server_url, token),
                serial_number,
                replies.drop_first(),
            );
            &&& trace.requests == seq![attribute_query(server_url, token, serial_number)]
                + scanned.requests
            &&& trace.outcome == scanned.outcome
        }),
{
}

/// A scan that is fed pages which are not empty and hold no match passes
/// over them: it asks for one page after the other and then goes on, from
/// the page behind them, with the replies that are left.
pub proof fn lemma_scan_passes_over(
    cursor: CursorView,
    serial_number: Seq<char>,
    pages: Seq<Seq<IdentityView>>,
    replies: Seq<ReplyView>,
)
    requires
        replies.len() >= pages.len(),
        forall|i: int|
            0 <= i < pages.len() ==> identities_of(#[trigger] replies[i]) == Some(pages[i])
                && pages[i].len() > 0 && first_match(pages[i], serial_number) is None,
    ensures
        ({
            let trace = scan(cursor, serial_number, replies);
            let rest = scan(
                cursor.skip(pages.len()),
                serial_number,
                replies.skip(pages.len() as int),
            );
            &&& trace.outcome == rest.outcome
            &&& trace.requests.len() == pages.len() + rest.requests.len()
            &&& forall|k: int|
                0 <= k < pages.len() ==> #[trigger] trace.requests[k] == cursor.skip(
                    k as nat,
                ).request()
            &&& trace.requests.skip(pages.len() as int) == rest.requests
        }),
    decreases pages.len(),
{
    if pages.len() == 0 {
        assert(cursor.skip(0) == cursor);
        assert(replies.skip(0) =~= replies);
        assert(scan(cursor, serial_number, replies).requests.skip(0) =~= scan(
            cursor,
            serial_number,
            replies,
        ).requests);
    } else {
        let trace = scan(cursor, serial_number, replies);
        let later = replies.drop_first();
        let fewer = pages.drop_first();
        let next = cursor.skip(1);
        assert(identities_of(replies[0]) == Some(pages[0]));
        assert(resolve_advance(SearchView::Scan { cursor, serial_number }, replies[0])
            == StepView::<SearchView, Seq<char>>::Call {
            state: SearchView::Scan { cursor: next, serial_number },
            request: next.request(),
        });
        assert forall|i: int| 0 <= i < fewer.len() implies identities_of(#[trigger] later[i])
            == Some(fewer[i]) && fewer[i].len() > 0 && first_match(fewer[i], serial_number)
            is None by {
            assert(later[i] == replies[i + 1]);
            assert(fewer[i] == pages[i + 1]);
        }
        lemma_scan_passes_over(next, serial_number, fewer, later);
        let tail = scan(next, serial_number, later);
        let rest = scan(cursor.skip(pages.len()), serial_number, replies.skip(pages.len() as int));
        assert(next.skip(fewer.len()) == cursor.skip(pages.len()));
        assert(later.skip(fewer.len() as int) =~= replies.skip(pages.len() as int));
        assert(trace.requests =~= seq![cursor.request()] + tail.requests);
        assert(cursor.skip(0) == cursor);
        assert forall|k: int| 0 <= k < pages.len() implies #[trigger] trace.requests[k]
            == cursor.skip(k as nat).request() by {
            if k > 0 {
                assert(trace.requests[k] == tail.requests[k - 1]);
                assert(next.skip((k - 1) as nat) == cursor.skip(k as nat));
            }
        }
        assert(trace.requests.skip(pages.len() as int) =~= tail.requests.skip(fewer.len() as int));
    }
}

/// Fallback: where the inventory answers with an empty list and the pages
/// of the identity table before the last of `pages` are not empty and hold no
/// match, while the last one holds one, the search returns the first match of
/// that page. It has then asked the inventory once and the identity table for
/// exactly the pages 1 to `pages.len()`.
pub proof fn lemma_scan_finds(
    server_url: Seq<char>,
    token: Seq<char>,
    serial_number: Seq<char>,
    cert_file: Option<Seq<char>>,
    pages: Seq<Seq<IdentityView>>,
    id: Seq<char>,
    replies: Seq<ReplyView>,
)
    requires
        pages.len() >= 1,
        replies.len() == pages.len() + 1,
        ids_of(replies[0]) == Some(Seq::<Seq<char>>::empty()),
        forall|i: int|
            0 <= i < pages.len() ==> identities_of(#[trigger] replies[i + 1]) == Some(pages[i]),
        forall|i: int|
            0 <= i < pages.len() - 1 ==> (#[trigger] pages[i]).len() > 0 && first_match(
                pages[i],
                serial_number,
            ) is None,
        first_match(pages.last(), serial_number) == Some(id),
    ensures
        ({
            let trace = resolve_trace(
                search_conf(server_url, token, serial_number, cert_file),
                replies,
            );
            &&& trace.outcome == Some(Ok::<Seq<char>, ErrorView>(id))
            &&& trace.requests.len() == pages.len() + 1
            &&& trace.requests[0] == attribute_query(server_url, token, serial_number)
            &&& forall|k: int|
                0 <= k < pages.len() ==> #[trigger] trace.requests[k + 1] == identity_cursor(
                    server_url,
                    token,
                ).skip(k as nat).request()
        }),
{
    let conf = search_conf(server_url, token, serial_number, cert_file);
    let trace = resolve_trace(conf, replies);
    let cursor = identity_cursor(server_url, token);
    let later = replies.drop_first();
    let before = pages.drop_last();
    lemma_attribute_tier_falls_back(server_url, token, serial_number, cert_file, replies);
    assert forall|i: int| 0 <= i < before.len() implies identities_of(#[trigger] later[i]) == Some(
        before[i],
    ) && before[i].len() > 0 && first_match(before[i], serial_number) is None by {
        assert(later[i] == replies[i + 1]);
        assert(before[i] == pages[i]);
    }
    lemma_scan_passes_over(cursor, serial_number, before, later);
    let scanned = scan(cursor, serial_number, later);
    let last_cursor = cursor.skip(before.len());
    let left = later.skip(before.len() as int);
    let rest = scan(last_cursor, serial_number, left);
    assert(left.len() == 1);
    assert(left[0] == replies[pages.len() as int]);
    assert(identities_of(left[0]) == Some(pages.last()));
    let ended = run(
        resolve_advance(SearchView::Scan { cursor: last_cursor, serial_number }, left[0]),
        searching(),
        left.drop_first(),
    );
    assert(ended.requests =~= Seq::empty());
    assert(rest.requests =~= seq![last_cursor.request()]);
    assert(rest.outcome == Some(Ok::<Seq<char>, ErrorView>(id)));
    assert forall|k: int| 0 <= k < pages.len() implies #[trigger] trace.requests[k + 1]
        == cursor.skip(k as nat).request() by {
        assert(trace.requests[k + 1] == scanned.requests[k]);
        if k == before.len() {
            assert(scanned.requests[k] == scanned.requests.skip(before.len() as int)[0]);
        }
    }
}

/// Exhaustion: where the inventory answers with an empty list and the
/// identity table delivers the pages `pages`, none empty and none with a
/// match, and then an empty page, the search ends as not found, having asked
/// the identity table for one page more than `pages` holds.
pub proof fn lemma_scan_exhausts(
    server_url: Seq<char>,
    token: Seq<char>,
    serial_number: Seq<char>,
    cert_file: Option<Seq<char>>,
    pages: Seq<Seq<IdentityView>>,
    replies: Seq<ReplyView>,
)
    requires
        replies.len() == pages.len() + 2,
        ids_of(replies[0]) == Some(Seq::<Seq<char>>::empty()),
        forall|i: int|
            0 <= i < pages.len() ==> identities_of(#[trigger] replies[i + 1]) == Some(pages[i])
                && pages[i].len() > 0 && first_match(pages[i], serial_number) is None,
        identities_of(replies.last()) == Some(Seq::<IdentityView>::empty()),
    ensures
        ({
            let trace = resolve_trace(
                search_conf(server_url, token, serial_number, cert_file),
                replies,
            );
            &&& trace.outcome == Some(Err::<Seq<char>, ErrorView>(not_found_error()))
            &&& trace.requests.len() == pages.len() + 2
            &&& trace.requests[0] == attribute_query(server_url, token, serial_number)
            &&& forall|k: int|
                0 <= k <= pages.len() ==> #[trigger] trace.requests[k + 1] == identity_cursor(
                    server_url,
                    token,
                ).skip(k as nat).request()
        }),
{
    let conf = search_conf(server_url, token, serial_number, cert_file);
    let trace = resolve_trace(conf, replies);
    let cursor = identity_cursor(server_url, token);
    let later = replies.drop_first();
    lemma_attribute_tier_falls_back(server_url, token, serial_number, cert_file, replies);
    assert forall|i: int| 0 <= i < pages.len() implies identities_of(#[trigger] later[i]) == Some(
        pages[i],
    ) && pages[i].len() > 0 && first_match(pages[i], serial_number) is None by {
        assert(later[i] == replies[i + 1]);
    }
    lemma_scan_passes_over(cursor, serial_number, pages, later);
    let scanned = scan(cursor, serial_number, later);
    let last_cursor = cursor.skip(pages.len());
    let left = later.skip(pages.len() as int);
    let rest = scan(last_cursor, serial_number, left);
    assert(left.len() == 1);
    assert(left[0] == replies.last());
    let ended = run(
        resolve_advance(SearchView::Scan { cursor: last_cursor, serial_number }, left[0]),
        searching(),
        left.drop_first(),
    );
    assert(first_match(Seq::<IdentityView>::empty(), serial_number) is None);
    assert(ended.requests =~= Seq::empty());
    assert(rest.requests =~= seq![last_cursor.request()]);
    assert forall|k: int| 0 <= k <= pages.len() implies #[trigger] trace.requests[k + 1]
        == cursor.skip(k as nat).request() by {
        assert(trace.requests[k + 1] == scanned.requests[k]);
        if k == pages.len() {
            assert(scanned.requests[k] == scanned.requests.skip(pages.len() as int)[0]);
        }
    }
}

/// While every page delivered holds records but no match, the search has
/// not ended: it waits for the page behind them. A short page is no end.
pub proof fn lemma_scan_goes_on(
    server_url: Seq<char>,
    token: Seq<char>,
    serial_number: Seq<char>,
    cert_file: Option<Seq<char>>,
    pages: Seq<Seq<IdentityView>>,
    replies: Seq<ReplyView>,
)
    requires
        replies.len() == pages.len() + 1,
        ids_of(replies[0]) == Some(Seq::<Seq<char>>::empty()),
        forall|i: int|
            0 <= i < pages.len() ==> identities_of(#[trigger] replies[i + 1]) == Some(pages[i])
                && pages[i].len() > 0 && first_match(pages[i], serial_number) is None,
    ensures
        ({
            let trace = resolve_trace(
                search_conf(server_url, token, serial_number, cert_file),
                replies,
            );
            &&& trace.outcome is None
            &&& trace.requests.len() == pages.len() + 2
            &&& trace.requests.last() == identity_cursor(server_url, token).skip(
                pages.len(),
            ).request()
        }),
{
    let conf = search_conf(server_url, token, serial_number, cert_file);
    let trace = resolve_trace(conf, replies);
    let cursor = identity_cursor(server_url, token);
    let later = replies.drop_first();
    lemma_attribute_tier_falls_back(server_url, token, serial_number, cert_file, replies);
    assert forall|i: int| 0 <= i < pages.len() implies identities_of(#[trigger] later[i]) == Some(
        pages[i],
    ) && pages[i].len() > 0 && first_match(pages[i], serial_number) is None by {
        assert(later[i] == replies[i + 1]);
    }
    lemma_scan_passes_over(cursor, serial_number, pages, later);
    let scanned = scan(cursor, serial_number, later);
    let rest = scan(cursor.skip(pages.len()), serial_number, later.skip(pages.len() as int));
    assert(later.skip(pages.len() as int).len() == 0);
    assert(rest.requests =~= seq![cursor.skip(pages.len()).request()]);
    assert(trace.requests.last() == scanned.requests.skip(pages.len() as int)[0]);
}

/// A search ends as not found only on an empty page of the identity table,
/// never earlier.
pub proof fn lemma_not_found_needs_empty_page(state: SearchView, reply: ReplyView)
    requires
        resolve_advance(state, reply) matches StepView::Done(Err(error)) && error.failure
            is NotFound,
    ensures
        state is Scan,
        identities_of(reply) == Some(Seq::<IdentityView>::empty()),
{
    match state {
        SearchView::Scan { cursor, serial_number } => {
            assert(identities_of(reply)->0 =~= Seq::<IdentityView>::empty());
        },
        _ => {},
    }
}

/// Whether `request` is one that a search in state `state` waits on: it
/// asks that state's URL for that state's kind of list.
pub open spec fn awaits(state: SearchView, request: RequestView) -> bool {
    &&& request.url == pending_endpoint(state)
    &&& match state {
        SearchView::Attribute { server_url, token, serial_number } => request.expect == Shape::Ids,
        SearchView::Scan { cursor, serial_number } => request.expect == Shape::Identities
            && cursor.expect == Shape::Identities,
    }
}

/// Name of the tier that sent `request`, as the text of its errors has it.
pub open spec fn operation_of(request: RequestView) -> Seq<char> {
    if request.expect == Shape::Ids {
        SEARCHING_DEVICE@
    } else {
        DEVICE_SEARCH@
    }
}

/// A reply whose status is no success, taken at any point of a search that
/// has not ended, ends it with a fetch error that carries the URL of the
/// request it answers, the status and the body; no request follows.
pub proof fn lemma_resolve_stops_at_failure(
    conf: ConfigView,
    replies: Seq<ReplyView>,
    k: int,
    status: u16,
    body: Seq<char>,
    payload: PayloadView,
)
    requires
        0 <= k < replies.len(),
        resolve_trace(conf, replies.take(k)).outcome is None,
        replies[k] == (ReplyView::Http { status, body, payload }),
        !is_success(status),
    ensures
        resolve_trace(conf, replies).requests == resolve_trace(conf, replies.take(k)).requests,
        resolve_trace(conf, replies).requests.len() == k + 1,
        resolve_trace(conf, replies).outcome == Some(
            Err::<Seq<char>, ErrorView>(
                fetch_error(
                    operation_of(resolve_trace(conf, replies).requests.last()),
                    resolve_trace(conf, replies).requests.last().url,
                    status,
                    body,
                ),
            ),
        ),
{
    let good = |state: SearchView, request: RequestView| awaits(state, request);
    let ending = |request: RequestView|
        Err::<Seq<char>, ErrorView>(
            fetch_error(operation_of(request), request.url, status, body),
        );
    assert forall|state: SearchView, request: RequestView, event: ReplyView|
        #![trigger good(state, request), searching()(state, event)]
        good(state, request) implies (searching()(state, event) matches StepView::Call {
        state: next,
        request: asked,
    } ==> good(next, asked)) by {}
    assert forall|state: SearchView, request: RequestView|
        #![trigger good(state, request)]
        good(state, request) implies searching()(state, replies[k]) == StepView::<
        SearchView,
        Seq<char>,
    >::Done(ending(request)) by {}
    lemma_waiting_run(resolve_begin(conf), searching(), replies.take(k));
    lemma_run_ends_at(resolve_begin(conf), searching(), replies, k, good, ending);
}

/// At any stage of a search, a reply whose status is no success ends it with
/// a fetch error that carries the URL asked, the status and the body.
pub proof fn lemma_resolve_aborts(
    state: SearchView,
    status: u16,
    body: Seq<char>,
    payload: PayloadView,
)
    requires
        !is_success(status),
    ensures
        resolve_advance(state, ReplyView::Http { status, body, payload }) == StepView::<
            SearchView,
            Seq<char>,
        >::Done(
            Err(fetch_error(pending_operation(state), pending_endpoint(state), status, body)),
        ),
{
}

/// Begins the search that `conf` describes.
pub fn get_id(conf: &Config) -> (step: Step<Search, String>)
    ensures
        step@ == resolve_begin(conf@),
{
    let token = match &conf.token {
        Some(token) => token,
        None => {
            return Step::Done(Err(MenderError::usage(NOT_GET_ID)));
        },
    };
    match &conf.command {
        Command::GetId { serial_number } => {
            let mut url = conf.server_url.clone();
            url.append(GET_DEVICES_INVENTORY_API);
            let mut query: Vec<Param> = Vec::new();
            query.push(
                Param { name: String::from_str("SerialNumber"), value: serial_number.clone() },
            );
            assert(query.deep_view() =~= seq![("SerialNumber"@, serial_number@)]);
            let request = Request {
                method: Method::Get,
                url,
                auth: Auth::Bearer { token: token.clone() },
                query,
                body: None,
                expect: Shape::Ids,
            };
            Step::Call {
                state: Search::Attribute {
                    server_url: conf.server_url.clone(),
                    token: token.clone(),
                    serial_number: serial_number.clone(),
                },
                request,
            }
        },
        _ => Step::Done(Err(MenderError::usage(NOT_GET_ID))),
    }
}

/// Looks for the first record of `page` with the serial number.
pub fn find_serial(page: &Vec<MenderIdentity>, serial_number: &String) -> (found: Option<String>)
    ensures
        found.deep_view() == first_match(page.deep_view(), serial_number@),
{
    let ghost records = page.deep_view();
    let mut i: usize = 0;
    assert(records.subrange(0, records.len() as int) =~= records);
    while i < page.len()
        invariant
            i <= page.len(),
            records == page.deep_view(),
            first_match(records, serial_number@) == first_match(
                records.subrange(i as int, records.len() as int),
                serial_number@,
            ),
        decreases page.len() - i,
    {
        let ghost left = records.subrange(i as int, records.len() as int);
        assert(left[0] == records[i as int]);
        assert(left.drop_first() =~= records.subrange(i + 1, records.len() as int));
        if page[i].identity_data.serial_number == *serial_number {
            return Some(page[i].id.clone());
        }
        i = i + 1;
    }
    assert(records.subrange(i as int, records.len() as int).len() == 0);
    None
}

impl Search {
    /// Whether the search can take a further reply within the limits of the
    /// machine: the page index must not be the largest that fits.
    pub open spec fn within_limits(self) -> bool {
        match self {
            Search::Attribute { server_url, token, serial_number } => true,
            Search::Scan { cursor, serial_number } => cursor.page < u64::MAX,
        }
    }

    /// Tests [`Self::within_limits`].
    pub fn can_advance(&self) -> (can: bool)
        ensures
            can == self.within_limits(),
    {
        match self {
            Search::Attribute { server_url, token, serial_number } => true,
            Search::Scan { cursor, serial_number } => cursor.page < u64::MAX,
        }
    }

    /// Takes the reply to the request of the last step.
    pub fn advance(self, reply: Reply) -> (step: Step<Search, String>)
        requires
            self.within_limits(),
        ensures
            step@ == resolve_advance(self@, reply@),
    {
        match self {
            Search::Attribute { server_url, token, serial_number } => {
                let mut endpoint = server_url.clone();
                endpoint.append(GET_DEVICES_INVENTORY_API);
                match reply.into_ids() {
                    Err(reply) => Step::Done(Err(reply.refuse(SEARCHING_DEVICE, endpoint.as_str()))),
                    Ok(ids) => {
                        let mut ids = ids;
                        let ghost listed = ids.deep_view();
                        match ids.pop() {
                            Some(last) => {
                                assert(last@ == listed.last());
                                Step::Done(Ok(last.id))
                            },
                            None => {
                                let mut url = server_url;
                                url.append(GET_DEVICES_AUTH_API);
                                let mut extra: Vec<Param> = Vec::new();
                                extra.push(
                                    Param {
                                        name: String::from_str("status"),
                                        value: String::from_str("accepted"),
                                    },
                                );
                                assert(extra.deep_view() =~= seq![("status"@, "accepted"@)]);
                                let cursor = Cursor::first(url, token, extra, Shape::Identities);
                                let request = cursor.request();
                                Step::Call { state: Search::Scan { cursor, serial_number }, request }
                            },
                        }
                    },
                }
            },
            Search::Scan { cursor, serial_number } => {
                match reply.into_identities() {
                    Err(reply) => Step::Done(
                        Err(reply.refuse(DEVICE_SEARCH, cursor.endpoint.as_str())),
                    ),
                    Ok(page) => match find_serial(&page, &serial_number) {
                        Some(id) => Step::Done(Ok(id)),
                        None => match cursor.turn(page.len()) {
                            None => Step::Done(Err(MenderError::not_found())),
                            Some(next) => {
                                let request = next.request();
                                Step::Call {
                                    state: Search::Scan { cursor: next, serial_number },
                                    request,
                                }
                            },
                        },
                    },
                }
            },
        }
    }
}

} // verus!
