//! Walking a page-numbered listing: pages are asked for one by one from page
//! 1 on, and only an empty page ends the walk.

use crate::error::ErrorView;
use crate::machine::{run, Step, StepView, Trace};
use crate::text::{decimal, decimal_string};
use crate::wire::{Auth, AuthView, Method, Param, Request, RequestView, Shape, PER_PAGE};
use vstd::prelude::*;

verus! {

/// Where a walk stands: the listing, and the page to ask for next.
#[derive(Debug, PartialEq, Eq)]
pub struct Cursor {
    /// URL of the listing.
    pub endpoint: String,
    /// Bearer token of every request.
    pub token: String,
    /// Query parameters that follow the two of the page.
    pub extra: Vec<Param>,
    /// What each page decodes into.
    pub expect: Shape,
    /// Index of the page to ask for next; the first page is page 1.
    pub page: u64,
}

/// Mathematical value of a [`Cursor`].
pub struct CursorView {
    pub endpoint: Seq<char>,
    pub token: Seq<char>,
    pub extra: Seq<(Seq<char>, Seq<char>)>,
    pub expect: Shape,
    pub page: nat,
}

impl DeepView for Cursor {
    type V = CursorView;

    open spec fn deep_view(&self) -> CursorView {
        CursorView {
            endpoint: self.endpoint@,
            token: self.token@,
            extra: self.extra.deep_view(),
            expect: self.expect,
            page: self.page as nat,
        }
    }
}

impl View for Cursor {
    type V = CursorView;

    open spec fn view(&self) -> CursorView {
        self.deep_view()
    }
}

impl CursorView {
    /// The cursor `pages` pages further on.
    pub open spec fn skip(self, pages: nat) -> CursorView {
        CursorView { page: self.page + pages, ..self }
    }

    /// The request for the cursor's page: a GET on the listing with the
    /// bearer token, asking for 500 items of page `page`, then the extra
    /// parameters.
    pub open spec fn request(self) -> RequestView {
        RequestView {
            method: Method::Get,
            url: self.endpoint,
            auth: AuthView::Bearer { token: self.token },
            query: seq![("per_page"@, PER_PAGE@), ("page"@, decimal(self.page))] + self.extra,
            body: None,
            expect: self.expect,
        }
    }
}

impl Cursor {
    /// A cursor on page 1 of the listing at `endpoint`.
    pub fn first(endpoint: String, token: String, extra: Vec<Param>, expect: Shape) -> (cursor:
        Cursor)
        ensures
            cursor@ == (CursorView {
                endpoint: endpoint@,
                token: token@,
                extra: extra.deep_view(),
                expect,
                page: 1,
            }),
    {
        Cursor { endpoint, token, extra, expect, page: 1 }
    }

    /// The request for the cursor's page.
    pub fn request(&self) -> (request: Request)
        ensures
            request@ == self@.request(),
    {
        let mut query: Vec<Param> = Vec::new();
        query.push(Param { name: String::from_str("per_page"), value: String::from_str(PER_PAGE) });
        query.push(Param { name: String::from_str("page"), value: decimal_string(self.page) });
        let ghost head = query.deep_view();
        let mut i: usize = 0;
        while i < self.extra.len()
            invariant
                i <= self.extra.len(),
                query.deep_view() == head + self.extra.deep_view().take(i as int),
            decreases self.extra.len() - i,
        {
            let param = Param {
                name: self.extra[i].name.clone(),
                value: self.extra[i].value.clone(),
            };
            let ghost earlier = query.deep_view();
            query.push(param);
            proof {
                let all = self.extra.deep_view();
                assert(all[i as int] == param@);
                assert(all.take(i + 1) =~= all.take(i as int).push(param@));
                assert(query.deep_view() =~= earlier.push(param@));
            }
            i = i + 1;
        }
        assert(self.extra.deep_view().take(i as int) =~= self.extra.deep_view());
        assert(head =~= seq![("per_page"@, PER_PAGE@), ("page"@, decimal(self.page as nat))]);
        Request {
            method: Method::Get,
            url: self.endpoint.clone(),
            auth: Auth::Bearer { token: self.token.clone() },
            query,
            body: None,
            expect: self.expect,
        }
    }

    /// Moves on after a page of `received` items: an empty page ends the
    /// walk, any other page is followed by the next one.
    pub fn turn(self, received: usize) -> (next: Option<Cursor>)
        requires
            self.page < u64::MAX,
        ensures
            next.deep_view() == turned(self@, received as nat),
    {
        if received == 0 {
            None
        } else {
            Some(
                Cursor {
                    endpoint: self.endpoint,
                    token: self.token,
                    extra: self.extra,
                    expect: self.expect,
                    page: self.page + 1,
                },
            )
        }
    }
}

/// Where a walk goes after a page of `received` items: nowhere after an
/// empty page, else to the next page. A page that is merely short does not
/// end the walk.
pub open spec fn turned(cursor: CursorView, received: nat) -> Option<CursorView> {
    if received == 0 {
        None
    } else {
        Some(cursor.skip(1))
    }
}

/// A walk that keeps every item it is given, in order.
#[derive(Debug, PartialEq, Eq)]
pub struct Pager<T> {
    pub cursor: Cursor,
    pub items: Vec<T>,
}

/// Mathematical value of a [`Pager`].
pub struct PagerView<V> {
    pub cursor: CursorView,
    pub items: Seq<V>,
}

impl<T: DeepView> DeepView for Pager<T> {
    type V = PagerView<T::V>;

    open spec fn deep_view(&self) -> PagerView<T::V> {
        PagerView { cursor: self.cursor@, items: self.items.deep_view() }
    }
}

impl<T: DeepView> View for Pager<T> {
    type V = PagerView<T::V>;

    open spec fn view(&self) -> PagerView<T::V> {
        self.deep_view()
    }
}

/// The first step of a collecting walk: ask for the cursor's page, with
/// nothing collected yet.
pub open spec fn pager_start<V>(cursor: CursorView) -> StepView<PagerView<V>, Seq<V>> {
    StepView::Call {
        state: PagerView { cursor, items: Seq::empty() },
        request: cursor.request(),
    }
}

/// The step of a collecting walk on a decoded page: an empty page ends it
/// with everything collected, any other page is appended and the next page
/// is asked for.
pub open spec fn pager_absorb<V>(pager: PagerView<V>, page: Seq<V>) -> StepView<
    PagerView<V>,
    Seq<V>,
> {
    match turned(pager.cursor, page.len()) {
        None => StepView::Done(Ok(pager.items)),
        Some(cursor) => StepView::Call {
            state: PagerView { cursor, items: pager.items + page },
            request: cursor.request(),
        },
    }
}

/// What a collecting walk that starts at `cursor` does with the decoded
/// pages it is fed.
pub open spec fn paginate<V>(cursor: CursorView, pages: Seq<Seq<V>>) -> Trace<Seq<V>> {
    walk(PagerView { cursor, items: Seq::empty() }, pages)
}

/// What a collecting walk does from the state `pager` on, once it has asked
/// for the page of its cursor.
pub open spec fn walk<V>(pager: PagerView<V>, pages: Seq<Seq<V>>) -> Trace<Seq<V>> {
    run(StepView::Call { state: pager, request: pager.cursor.request() }, absorbing::<V>(), pages)
}

/// [`pager_absorb`] as a function value.
pub open spec fn absorbing<V>() -> spec_fn(PagerView<V>, Seq<V>) -> StepView<PagerView<V>, Seq<V>> {
    |pager: PagerView<V>, page: Seq<V>| pager_absorb(pager, page)
}

/// Fed the non-empty pages `pages`, a walk has asked for one page more than
/// it was given, each one page further than the last, and still waits:
/// a page that is short but not empty never ends it.
pub proof fn lemma_walk_goes_on<V>(pager: PagerView<V>, pages: Seq<Seq<V>>)
    requires
        forall|i: int| 0 <= i < pages.len() ==> (#[trigger] pages[i]).len() > 0,
    ensures
        walk(pager, pages).outcome is None,
        walk(pager, pages).requests.len() == pages.len() + 1,
        forall|k: int|
            0 <= k <= pages.len() ==> #[trigger] walk(pager, pages).requests[k]
                == pager.cursor.skip(k as nat).request(),
    decreases pages.len(),
{
    if pages.len() > 0 {
        let next = PagerView { cursor: pager.cursor.skip(1), items: pager.items + pages[0] };
        let rest = pages.drop_first();
        assert(pages[0].len() > 0);
        assert forall|i: int| 0 <= i < rest.len() implies (#[trigger] rest[i]).len() > 0 by {
            assert(rest[i] == pages[i + 1]);
        }
        lemma_walk_goes_on(next, rest);
        assert(walk(pager, pages).requests =~= seq![pager.cursor.request()] + walk(
            next,
            rest,
        ).requests);
        assert forall|k: int| 0 <= k <= pages.len() implies #[trigger] walk(
            pager,
            pages,
        ).requests[k] == pager.cursor.skip(k as nat).request() by {
            if k > 0 {
                assert(walk(pager, pages).requests[k] == walk(next, rest).requests[k - 1]);
                assert(next.cursor.skip((k - 1) as nat) == pager.cursor.skip(k as nat));
            } else {
                assert(pager.cursor.skip(0) == pager.cursor);
            }
        }
    } else {
        assert(pager.cursor.skip(0) == pager.cursor);
    }
}

/// Fed the non-empty pages `pages` and then an empty page, a walk ends with
/// what it held before followed by the pages' items in order, and has asked
/// for exactly one page more than `pages` holds, each one page further than
/// the last.
pub proof fn lemma_walk_collects<V>(pager: PagerView<V>, pages: Seq<Seq<V>>)
    requires
        forall|i: int| 0 <= i < pages.len() ==> (#[trigger] pages[i]).len() > 0,
    ensures
        walk(pager, pages.push(Seq::empty())).outcome == Some(
            Ok::<Seq<V>, ErrorView>(pager.items + pages.flatten()),
        ),
        walk(pager, pages.push(Seq::empty())).requests.len() == pages.len() + 1,
        forall|k: int|
            0 <= k <= pages.len() ==> #[trigger] walk(pager, pages.push(Seq::empty())).requests[k]
                == pager.cursor.skip(k as nat).request(),
    decreases pages.len(),
{
    let fed = pages.push(Seq::empty());
    if pages.len() > 0 {
        let next = PagerView { cursor: pager.cursor.skip(1), items: pager.items + pages[0] };
        let rest = pages.drop_first();
        assert(pages[0].len() > 0);
        assert(fed[0] == pages[0]);
        assert(fed.drop_first() =~= rest.push(Seq::empty()));
        assert forall|i: int| 0 <= i < rest.len() implies (#[trigger] rest[i]).len() > 0 by {
            assert(rest[i] == pages[i + 1]);
        }
        lemma_walk_collects(next, rest);
        assert(walk(pager, fed).requests =~= seq![pager.cursor.request()] + walk(
            next,
            rest.push(Seq::empty()),
        ).requests);
        assert(pages.flatten() == pages[0] + rest.flatten());
        assert(next.items + rest.flatten() =~= pager.items + pages.flatten());
        assert forall|k: int| 0 <= k <= pages.len() implies #[trigger] walk(pager, fed).requests[k]
            == pager.cursor.skip(k as nat).request() by {
            if k > 0 {
                assert(walk(pager, fed).requests[k] == walk(
                    next,
                    rest.push(Seq::empty()),
                ).requests[k - 1]);
                assert(next.cursor.skip((k - 1) as nat) == pager.cursor.skip(k as nat));
            } else {
                assert(pager.cursor.skip(0) == pager.cursor);
            }
        }
    } else {
        assert(fed[0].len() == 0);
        assert(fed.drop_first() =~= Seq::<Seq<V>>::empty());
        assert(run(pager_absorb(pager, fed[0]), absorbing::<V>(), fed.drop_first()).outcome == Some(
            Ok::<Seq<V>, ErrorView>(pager.items),
        ));
        assert(run(pager_absorb(pager, fed[0]), absorbing::<V>(), fed.drop_first()).requests.len()
            == 0);
        assert(pager.items + pages.flatten() =~= pager.items);
        assert(pager.cursor.skip(0) == pager.cursor);
    }
}

/// Pagination: fed the non-empty pages `pages` and then an empty page, a
/// collecting walk from page 1 yields the concatenation of the pages in
/// order, and issues exactly one request more than there are pages, for the
/// pages 1, 2, 3 and so on.
pub proof fn lemma_paginate_concatenates<V>(cursor: CursorView, pages: Seq<Seq<V>>)
    requires
        forall|i: int| 0 <= i < pages.len() ==> (#[trigger] pages[i]).len() > 0,
    ensures
        paginate(cursor, pages.push(Seq::empty())).outcome == Some(
            Ok::<Seq<V>, ErrorView>(pages.flatten()),
        ),
        paginate(cursor, pages.push(Seq::empty())).requests.len() == pages.len() + 1,
        forall|k: int|
            0 <= k <= pages.len() ==> #[trigger] paginate(
                cursor,
                pages.push(Seq::empty()),
            ).requests[k] == cursor.skip(k as nat).request(),
{
    let pager = PagerView { cursor, items: Seq::<V>::empty() };
    lemma_walk_collects(pager, pages);
    assert(pager.items + pages.flatten() =~= pages.flatten());
}

impl<T: DeepView> Pager<T> {
    /// Starts a collecting walk at `cursor`.
    pub fn start(cursor: Cursor) -> (step: Step<Pager<T>, Vec<T>>)
        ensures
            step@ == pager_start::<T::V>(cursor@),
    {
        let request = cursor.request();
        let items: Vec<T> = Vec::new();
        assert(items.deep_view() =~= Seq::<T::V>::empty());
        Step::Call { state: Pager { cursor, items }, request }
    }

    /// Takes the decoded page that answered the last request.
    pub fn absorb(self, page: Vec<T>) -> (step: Step<Pager<T>, Vec<T>>)
        requires
            self.cursor.page < u64::MAX,
        ensures
            step@ == pager_absorb(self@, page.deep_view()),
    {
        let mut page = page;
        let mut items = self.items;
        let ghost before = items.deep_view();
        let ghost added = page.deep_view();
        match self.cursor.turn(page.len()) {
            None => Step::Done(Ok(items)),
            Some(cursor) => {
                items.append(&mut page);
                assert(items.deep_view() =~= before + added);
                let request = cursor.request();
                Step::Call { state: Pager { cursor, items }, request }
            },
        }
    }
}

} // verus!
