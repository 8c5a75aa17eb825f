//! The pagination engine: turns the first page of a listing into the plan for
//! the remaining pages, hands out their requests under a bound on how many are
//! in flight, and merges the pages by index into one ordered result, failing
//! as a whole as soon as one page fails.
//!
//! The engine performs no I/O. Its driver sends each request it is handed,
//! runs the requests concurrently, and reports every outcome back with
//! `receive`, in whatever order they complete.
use vstd::prelude::*;

use crate::outcome::FetchError;
use crate::page::ApiResult;

verus! {

/// The page size asked for with the first request.
pub const DEFAULT_PAGE_SIZE: usize = 10;

/// The first page's number.
pub const FIRST_PAGE: usize = 1;

/// One request for a page of the listing.
#[derive(Clone, Copy, Debug, PartialEq, Eq)]
pub struct PageRequest {
    /// The page's number, counted from 1.
    pub page: usize,
    /// How many items each page holds.
    pub page_size: usize,
}

/// The request for the first page.
pub fn first_request() -> (r: PageRequest)
    ensures
        r == (PageRequest { page: FIRST_PAGE, page_size: DEFAULT_PAGE_SIZE }),
{
    PageRequest { page: FIRST_PAGE, page_size: DEFAULT_PAGE_SIZE }
}

/// `a / b` rounded up.
pub open spec fn ceil_div(a: nat, b: nat) -> nat
    recommends
        b > 0,
{
    if a % b == 0 {
        a / b
    } else {
        a / b + 1
    }
}

/// How many pages follow the first one in a listing of `total` items served
/// `size` to a page.
pub open spec fn remaining_pages(total: nat, size: nat) -> int
    recommends
        size > 0,
{
    ceil_div(total, size) - 1
}

/// Fewer pages follow the first one than the listing has items.
proof fn lemma_remaining_pages_bound(total: nat, size: nat)
    requires
        total > 0,
        size > 0,
    ensures
        0 <= remaining_pages(total, size) < total,
{
    let q = total / size;
    vstd::arithmetic::div_mod::lemma_fundamental_div_mod(total as int, size as int);
    assert(size * q >= q) by (nonlinear_arith)
        requires
            size >= 1,
    ;
    if total % size == 0 && q == 0 {
        assert(size * q == 0) by (nonlinear_arith)
            requires
                q == 0,
        ;
    }
}

/// How many pages follow the first one; none for an empty listing.
pub fn pages_remaining(total_count: usize, page_size: usize) -> (r: usize)
    requires
        page_size > 0,
    ensures
        total_count > 0 ==> r == remaining_pages(total_count as nat, page_size as nat),
        total_count == 0 ==> r == 0,
{
    if total_count == 0 {
        return 0;
    }
    let whole = total_count / page_size;
    if total_count % page_size == 0 {
        proof {
            vstd::arithmetic::div_mod::lemma_fundamental_div_mod(
                total_count as int,
                page_size as int,
            );
            if whole == 0 {
                assert(page_size * whole == 0) by (nonlinear_arith)
                    requires
                        whole == 0,
                ;
            }
        }
        whole - 1
    } else {
        whole
    }
}

/// What a page's slot holds once its items arrived; nothing before.
pub open spec fn slot_items<T>(slot: Option<Seq<T>>) -> Seq<T> {
    match slot {
        Some(items) => items,
        None => Seq::empty(),
    }
}

/// The listing that a first page and the following pages make: the first
/// page's items, then each following page's, in ascending page order.
pub open spec fn merged<T>(first: Seq<T>, pages: Seq<Option<Seq<T>>>) -> Seq<T> {
    first + pages.map_values(|slot: Option<Seq<T>>| slot_items(slot)).flatten()
}

/// How many of the slots still wait for their page.
pub open spec fn pending_count<T>(slots: Seq<Option<Seq<T>>>) -> nat
    decreases slots.len(),
{
    if slots.len() == 0 {
        0
    } else {
        pending_count(slots.drop_last()) + if slots.last() is None {
            1nat
        } else {
            0nat
        }
    }
}

/// The slots after the items of `page` arrived. Page `k` (counted from 1)
/// fills slot `k - 2`: the first page is held apart.
pub open spec fn with_page<T>(slots: Seq<Option<Seq<T>>>, page: int, items: Seq<T>) -> Seq<
    Option<Seq<T>>,
> {
    slots.update(page - 2, Some(items))
}

/// The state of a paginated fetch, seen as values.
pub ghost struct PaginationView<T> {
    /// The first page's items.
    pub first: Seq<T>,
    /// The effective page size: how many items the first page held.
    pub page_size: nat,
    /// The bound on requests in flight; 0 for none.
    pub limit: nat,
    /// How many of the following pages have been requested: pages 2 up to
    /// `dispatched + 1`.
    pub dispatched: nat,
    /// One slot for each following page, in page order.
    pub pages: Seq<Option<Seq<T>>>,
    /// Whether a page failed, which ends the fetch.
    pub failed: bool,
}

impl<T> PaginationView<T> {
    pub open spec fn wf(self) -> bool {
        &&& self.page_size > 0
        &&& self.dispatched <= self.pages.len()
        &&& self.pages.len() < usize::MAX
        &&& forall|i: int| self.dispatched <= i < self.pages.len() ==> #[trigger] self.pages[i] is None
        &&& self.failed ==> !self.complete()
    }

    /// How many requested pages have not come back.
    pub open spec fn in_flight(self) -> nat {
        pending_count(self.pages.take(self.dispatched as int))
    }

    /// Whether another page may be requested now.
    pub open spec fn can_dispatch(self) -> bool {
        &&& !self.failed
        &&& self.dispatched < self.pages.len()
        &&& (self.limit == 0 || self.in_flight() < self.limit)
    }

    /// Whether the outcome of `page` is one that the fetch waits for.
    pub open spec fn awaits(self, page: int) -> bool {
        &&& !self.failed
        &&& 2 <= page < self.dispatched + 2
        &&& self.pages[page - 2] is None
    }

    /// Whether every following page has arrived.
    pub open spec fn complete(self) -> bool {
        forall|i: int| 0 <= i < self.pages.len() ==> #[trigger] self.pages[i] is Some
    }

    /// The listing that the fetch yields once complete.
    pub open spec fn items(self) -> Seq<T> {
        merged(self.first, self.pages)
    }
}

/// A paginated fetch under way: the first page is in, the following pages
/// are requested, awaited and merged.
pub struct Pagination<T> {
    first: Vec<T>,
    page_size: usize,
    limit: usize,
    dispatched: usize,
    slots: Vec<Option<Vec<T>>>,
    failed: bool,
}

pub open spec fn slot_view<T>(slot: Option<Vec<T>>) -> Option<Seq<T>> {
    match slot {
        Some(v) => Some(v@),
        None => None,
    }
}

impl<T> View for Pagination<T> {
    type V = PaginationView<T>;

    closed spec fn view(&self) -> PaginationView<T> {
        PaginationView {
            first: self.first@,
            page_size: self.page_size as nat,
            limit: self.limit as nat,
            dispatched: self.dispatched as nat,
            pages: self.slots@.map_values(|slot: Option<Vec<T>>| slot_view(slot)),
            failed: self.failed,
        }
    }
}

/// What became of the fetch after an outcome came in.
#[derive(Debug, PartialEq, Eq)]
pub enum Step {
    /// The outcome was taken; other pages are still awaited.
    Pending,
    /// The outcome was taken and every page is in.
    Complete,
    /// The page failed: the fetch ends with this error, and the requests still
    /// in flight are to be abandoned.
    Failed(FetchError),
    /// The outcome was not awaited (an unknown or repeated page, or the fetch
    /// had already failed) and changed nothing.
    Ignored,
}

/// Where a fetch stands once the first page is in.
pub enum Plan<T> {
    /// The first page was the whole listing: these are its items.
    Done(Vec<T>),
    /// More pages are to be fetched.
    Fetch(Pagination<T>),
}

/// The fetch of the following pages that a first page of `first` items,
/// served `size` to a page, with at most `limit` requests in flight, starts.
pub open spec fn started<T>(first: Seq<T>, size: nat, limit: nat, remaining: nat) -> PaginationView<
    T,
> {
    PaginationView {
        first,
        page_size: size,
        limit,
        dispatched: 0,
        pages: Seq::new(remaining, |i: int| None),
        failed: false,
    }
}

/// Whether `r` holds a finished listing of exactly `items`.
pub open spec fn is_done_with<T>(r: Result<Plan<T>, FetchError>, items: Seq<T>) -> bool {
    match r {
        Ok(Plan::Done(v)) => v@ == items,
        _ => false,
    }
}

/// Whether `r` holds a fetch of the following pages in state `view`.
pub open spec fn is_fetch_of<T>(r: Result<Plan<T>, FetchError>, view: PaginationView<T>) -> bool {
    match r {
        Ok(Plan::Fetch(p)) => p@ == view && p@.wf(),
        _ => false,
    }
}

/// The first step of a paginated fetch, taken on the outcome of the request
/// for the first page. A failed first page fails the fetch. An empty listing,
/// or one without a next page, is done with what the first page held.
/// Otherwise the number of items that the first page actually held is the
/// effective page size, and the pages that remain are planned with it; a
/// first page without items cannot size them and is a decoding error.
/// `max_in_flight` bounds the requests in flight at once; 0 sets no bound.
pub fn begin<T>(first: Result<ApiResult<T>, FetchError>, max_in_flight: usize) -> (r: Result<
    Plan<T>,
    FetchError,
>)
    ensures
        match first {
            Err(e) => r == Err::<Plan<T>, FetchError>(e),
            Ok(p) => {
                if p.count == 0 {
                    is_done_with(r, Seq::empty())
                } else if p.next is None {
                    is_done_with(r, p.results@)
                } else if p.results@.len() == 0 {
                    r matches Err(FetchError::Decode(_))
                } else if remaining_pages(p.count as nat, p.results@.len()) == 0 {
                    is_done_with(r, p.results@)
                } else {
                    is_fetch_of(
                        r,
                        started(
                            p.results@,
                            p.results@.len(),
                            max_in_flight as nat,
                            remaining_pages(p.count as nat, p.results@.len()) as nat,
                        ),
                    )
                }
            },
        },
{
    let page = match first {
        Err(e) => {
            return Err(e);
        },
        Ok(page) => page,
    };
    if page.count == 0 {
        return Ok(Plan::Done(Vec::new()));
    }
    if page.next.is_none() {
        return Ok(Plan::Done(page.results));
    }
    let page_size = page.results.len();
    if page_size == 0 {
        return Err(FetchError::Decode(String::from_str("a page with more to follow held no items")));
    }
    let remaining = pages_remaining(page.count, page_size);
    if remaining == 0 {
        return Ok(Plan::Done(page.results));
    }
    proof {
        lemma_remaining_pages_bound(page.count as nat, page_size as nat);
    }
    let mut slots: Vec<Option<Vec<T>>> = Vec::new();
    let mut i: usize = 0;
    while i < remaining
        invariant
            i <= remaining,
            slots@.len() == i,
            forall|j: int| 0 <= j < i ==> #[trigger] slots@[j] is None,
        decreases remaining - i,
    {
        slots.push(None);
        i = i + 1;
    }
    let fetch = Pagination {
        first: page.results,
        page_size,
        limit: max_in_flight,
        dispatched: 0,
        slots,
        failed: false,
    };
    assert(fetch@.pages =~= Seq::new(remaining as nat, |i: int| None::<Seq<T>>));
    Ok(Plan::Fetch(fetch))
}

impl<T> Pagination<T> {
    /// The effective page size of the fetch.
    pub fn page_size(&self) -> (r: usize)
        ensures
            r == self@.page_size,
    {
        self.page_size
    }

    /// How many pages follow the first one.
    pub fn following_pages(&self) -> (r: usize)
        ensures
            r == self@.pages.len(),
    {
        self.slots.len()
    }

    /// Whether a page failed.
    pub fn is_failed(&self) -> (r: bool)
        ensures
            r == self@.failed,
    {
        self.failed
    }

    /// How many requested pages have not come back.
    pub fn in_flight(&self) -> (r: usize)
        requires
            self@.wf(),
        ensures
            r == self@.in_flight(),
    {
        let ghost pages = self@.pages;
        let mut count: usize = 0;
        let mut i: usize = 0;
        while i < self.dispatched
            invariant
                self@.wf(),
                pages == self@.pages,
                i <= self.dispatched,
                count <= i,
                count == pending_count(pages.take(i as int)),
            decreases self.dispatched - i,
        {
            assert(pages.take(i + 1).drop_last() =~= pages.take(i as int));
            if self.slots[i].is_none() {
                count = count + 1;
            }
            i = i + 1;
        }
        count
    }

    /// Whether every following page has arrived.
    pub fn is_complete(&self) -> (r: bool)
        requires
            self@.wf(),
        ensures
            r == self@.complete(),
    {
        let mut i: usize = 0;
        while i < self.slots.len()
            invariant
                i <= self.slots@.len(),
                forall|j: int| 0 <= j < i ==> #[trigger] self@.pages[j] is Some,
            decreases self.slots@.len() - i,
        {
            if self.slots[i].is_none() {
                assert(self@.pages[i as int] is None);
                return false;
            }
            i = i + 1;
        }
        true
    }

    /// Hands out the request for the next page, in ascending page order, as
    /// long as no page failed, pages remain to be requested, and the bound on
    /// requests in flight allows one more.
    pub fn next_request(&mut self) -> (r: Option<PageRequest>)
        requires
            old(self)@.wf(),
        ensures
            final(self)@.wf(),
            old(self)@.can_dispatch() ==> {
                &&& r == Some(
                    PageRequest {
                        page: (old(self)@.dispatched + 2) as usize,
                        page_size: old(self)@.page_size as usize,
                    },
                )
                &&& final(self)@ == (PaginationView {
                    dispatched: old(self)@.dispatched + 1,
                    ..old(self)@
                })
            },
            !old(self)@.can_dispatch() ==> r is None && final(self)@ == old(self)@,
    {
        if self.failed || self.dispatched >= self.slots.len() {
            return None;
        }
        if self.limit != 0 && self.in_flight() >= self.limit {
            return None;
        }
        let page = self.dispatched + 2;
        self.dispatched = self.dispatched + 1;
        Some(PageRequest { page, page_size: self.page_size })
    }

    /// Takes in the outcome of the request for `page`. An outcome that the
    /// fetch does not wait for is ignored. A failed page fails the whole
    /// fetch: its error is handed back and nothing more is taken in. A page
    /// that arrived fills its own slot, whatever the order of arrival.
    pub fn receive(&mut self, page: usize, outcome: Result<ApiResult<T>, FetchError>) -> (r: Step)
        requires
            old(self)@.wf(),
        ensures
            final(self)@.wf(),
            !old(self)@.awaits(page as int) ==> r == Step::Ignored && final(self)@ == old(self)@,
            old(self)@.awaits(page as int) ==> match outcome {
                Err(e) => {
                    &&& r == Step::Failed(e)
                    &&& final(self)@ == (PaginationView { failed: true, ..old(self)@ })
                },
                Ok(p) => {
                    &&& final(self)@ == (PaginationView {
                        pages: with_page(old(self)@.pages, page as int, p.results@),
                        ..old(self)@
                    })
                    &&& r == if final(self)@.complete() {
                        Step::Complete
                    } else {
                        Step::Pending
                    }
                },
            },
    {
        if self.failed || page < 2 || page - 2 >= self.dispatched {
            return Step::Ignored;
        }
        let index = page - 2;
        if self.slots[index].is_some() {
            return Step::Ignored;
        }
        match outcome {
            Err(e) => {
                self.failed = true;
                assert(!self@.complete()) by {
                    assert(self@.pages[index as int] is None);
                }
                Step::Failed(e)
            },
            Ok(p) => {
                self.slots.set(index, Some(p.results));
                assert(self@.pages =~= with_page(old(self)@.pages, page as int, p.results@));
                if self.is_complete() {
                    Step::Complete
                } else {
                    Step::Pending
                }
            },
        }
    }

    /// The listing, once every page is in: the first page's items, then each
    /// following page's, in ascending page order.
    pub fn into_items(self) -> (r: Vec<T>)
        requires
            self@.wf(),
            self@.complete(),
        ensures
            r@ == self@.items(),
    {
        let ghost view = self@;
        let ghost contents = view.pages.map_values(|slot: Option<Seq<T>>| slot_items(slot));
        let ghost all = self.slots@;
        let mut result = self.first;
        let mut slots = self.slots;
        let n = slots.len();
        assert forall|j: int| 0 <= j < n implies #[trigger] all[j] is Some by {
            assert(view.pages[j] == slot_view(all[j]));
        }
        let mut k: usize = 0;
        while k < n
            invariant
                n == all.len(),
                k <= n,
                slots@ == all.skip(k as int),
                contents.len() == n,
                forall|j: int| 0 <= j < n ==> #[trigger] contents[j] == slot_items(slot_view(all[j])),
                forall|j: int| 0 <= j < n ==> #[trigger] all[j] is Some,
                result@ == view.first + contents.take(k as int).flatten_alt(),
            decreases n - k,
        {
            let slot = slots.remove(0);
            assert(slot == all[k as int]);
            assert(contents.take(k + 1).drop_last() =~= contents.take(k as int));
            match slot {
                Some(mut items) => {
                    result.append(&mut items);
                },
                None => {},
            }
            assert(slots@ =~= all.skip(k + 1));
            k = k + 1;
        }
        proof {
            assert(contents.take(n as int) =~= contents);
            contents.lemma_flatten_and_flatten_alt_are_equivalent();
        }
        result
    }
}

} // verus!

verus! {

/// Pages of `size` items each add up to `size` items per page.
proof fn lemma_flatten_uniform_len<T>(pages: Seq<Seq<T>>, size: nat)
    requires
        forall|i: int| 0 <= i < pages.len() ==> (#[trigger] pages[i]).len() == size,
    ensures
        pages.flatten_alt().len() == pages.len() * size,
    decreases pages.len(),
{
    if pages.len() > 0 {
        lemma_flatten_uniform_len(pages.drop_last(), size);
        assert((pages.len() - 1) * size + size == pages.len() * size) by (nonlinear_arith);
    }
}

/// How many items page `k` (counted from 1) of a listing of `total` items,
/// served `size` to a page, holds when the server fills every page: `size`,
/// but the last page holds what is left.
pub open spec fn full_page_len(total: nat, size: nat, k: nat) -> nat
    recommends
        size > 0,
        1 <= k <= ceil_div(total, size),
{
    if k < ceil_div(total, size) {
        size
    } else {
        (total - (k - 1) * size) as nat
    }
}

/// Whenever every page of a non-empty listing holds all the items it can,
/// the pages that follow the first are `ceil(total / size) - 1` in number,
/// and the merged listing holds exactly `total` items.
pub proof fn lemma_full_pages_cover_total<T>(
    total: nat,
    size: nat,
    first: Seq<T>,
    pages: Seq<Option<Seq<T>>>,
)
    requires
        total > 0,
        size > 0,
        pages.len() == remaining_pages(total, size),
        first.len() == full_page_len(total, size, 1),
        forall|i: int|
            0 <= i < pages.len() ==> (#[trigger] pages[i] is Some) && slot_items(pages[i]).len()
                == full_page_len(total, size, (i + 2) as nat),
    ensures
        pages.len() == ceil_div(total, size) - 1,
        merged(first, pages).len() == total,
{
    lemma_remaining_pages_bound(total, size);
    let n = ceil_div(total, size);
    let contents = pages.map_values(|slot: Option<Seq<T>>| slot_items(slot));
    contents.lemma_flatten_and_flatten_alt_are_equivalent();
    vstd::arithmetic::div_mod::lemma_fundamental_div_mod(total as int, size as int);
    let q = total / size;
    assert(0 * size == 0);
    if pages.len() == 0 {
        assert(contents.flatten_alt() =~= Seq::<T>::empty());
    } else {
        let m = pages.len();
        // The pages before the last one never hold more than the listing.
        assert(m <= q);
        assert(m * size <= total) by (nonlinear_arith)
            requires
                m <= q,
                total == size * q + total % size,
                total % size >= 0,
        ;
        assert(first.len() == size);
        assert(slot_items(pages[m - 1]).len() == total - m * size);
        let init = contents.drop_last();
        assert forall|i: int| 0 <= i < init.len() implies (#[trigger] init[i]).len() == size by {
            assert(init[i] == slot_items(pages[i]));
        }
        lemma_flatten_uniform_len(init, size);
        assert(contents.last() == slot_items(pages[m - 1]));
        assert(contents.flatten_alt() == init.flatten_alt() + contents.last());
        // The last page holds total - (n - 1) * size items, the others size each.
        assert((m - 1) * size + size + (total - m * size) == total) by (nonlinear_arith);
    }
}

/// The slots that a set of arrivals leaves behind do not depend on the order
/// of the arrivals: two pages that arrive in either order fill the same slots.
pub proof fn lemma_arrival_order_irrelevant<T>(
    slots: Seq<Option<Seq<T>>>,
    a: int,
    xs: Seq<T>,
    b: int,
    ys: Seq<T>,
)
    requires
        a != b,
        2 <= a < slots.len() + 2,
        2 <= b < slots.len() + 2,
    ensures
        with_page(with_page(slots, a, xs), b, ys) == with_page(with_page(slots, b, ys), a, xs),
{
    assert(with_page(with_page(slots, a, xs), b, ys) =~= with_page(with_page(slots, b, ys), a, xs));
}

/// In the merged listing, when every page before page `k` holds `size`
/// items, page `k`'s items stand at position `(k - 1) * size`, in their
/// own order.
pub proof fn lemma_page_position<T>(first: Seq<T>, pages: Seq<Option<Seq<T>>>, size: nat, k: int)
    requires
        2 <= k < pages.len() + 2,
        first.len() == size,
        forall|i: int| 0 <= i < k - 2 ==> (#[trigger] slot_items(pages[i])).len() == size,
    ensures
        merged(first, pages).subrange(
            (k - 1) * size,
            (k - 1) * size + slot_items(pages[k - 2]).len(),
        ) == slot_items(pages[k - 2]),
{
    let contents = pages.map_values(|slot: Option<Seq<T>>| slot_items(slot));
    let before = contents.take(k - 2);
    let upto = contents.take(k - 1);
    assert forall|i: int| 0 <= i < before.len() implies (#[trigger] before[i]).len() == size by {
        assert(before[i] == slot_items(pages[i]));
    }
    lemma_flatten_uniform_len(before, size);
    assert(upto.drop_last() =~= before);
    assert(upto.flatten_alt() == before.flatten_alt() + contents[k - 2]);
    lemma_flatten_split(contents, k - 1);
    contents.lemma_flatten_and_flatten_alt_are_equivalent();
    upto.lemma_flatten_and_flatten_alt_are_equivalent();
    assert((k - 2) * size + size == (k - 1) * size) by (nonlinear_arith);
    let whole = merged(first, pages);
    let page = slot_items(pages[k - 2]);
    assert(whole =~= first + upto.flatten_alt() + contents.skip(k - 1).flatten());
    assert(whole.subrange((k - 1) * size, (k - 1) * size + page.len()) =~= page);
}

/// The flattening of a prefix is a prefix of the flattening.
proof fn lemma_flatten_split<T>(pages: Seq<Seq<T>>, k: int)
    requires
        0 <= k <= pages.len(),
    ensures
        pages.flatten() == pages.take(k).flatten() + pages.skip(k).flatten(),
    decreases k,
{
    if k == 0 {
        assert(pages.take(0) =~= Seq::<Seq<T>>::empty());
        assert(pages.skip(0) =~= pages);
        assert(Seq::<Seq<T>>::empty().flatten() =~= Seq::<T>::empty());
        assert(pages.flatten() =~= Seq::<T>::empty() + pages.flatten());
    } else {
        let rest = pages.drop_first();
        lemma_flatten_split(rest, k - 1);
        assert(pages.take(k).drop_first() =~= rest.take(k - 1));
        assert(rest.skip(k - 1) =~= pages.skip(k));
        assert(pages.take(k).first() == pages.first());
        assert(pages.take(k).flatten() == pages.first() + rest.take(k - 1).flatten());
        assert(pages.flatten() == pages.first() + rest.flatten());
        assert(pages.flatten() =~= pages.take(k).flatten() + pages.skip(k).flatten());
    }
}

/// A failed fetch never completes: it takes in no further page and requests
/// none, so its listing is never handed out.
pub proof fn lemma_failure_is_final<T>(fetch: PaginationView<T>, page: int)
    requires
        fetch.wf(),
        fetch.failed,
    ensures
        !fetch.complete(),
        !fetch.awaits(page),
        !fetch.can_dispatch(),
{
}

/// Two fetches that saw the same first page and the same following pages
/// hand out the same listing, whatever order their pages arrived in.
pub proof fn lemma_same_pages_same_listing<T>(a: PaginationView<T>, b: PaginationView<T>)
    requires
        a.first == b.first,
        a.pages.len() == b.pages.len(),
        forall|i: int|
            0 <= i < a.pages.len() ==> slot_items(#[trigger] a.pages[i]) == slot_items(b.pages[i]),
    ensures
        a.items() == b.items(),
{
    let ca = a.pages.map_values(|slot: Option<Seq<T>>| slot_items(slot));
    let cb = b.pages.map_values(|slot: Option<Seq<T>>| slot_items(slot));
    assert(ca =~= cb);
}

} // verus!
