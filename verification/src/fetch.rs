//! Walking the paged release listing of one artist.
//!
//! The caller sends each request that the walk asks for and hands back what
//! came of it. The walk ends when as many records are in hand as the first
//! page said there are, when a page brings nothing new, or with the first
//! request that fails; a failure discards the pages already received.

use vstd::prelude::*;
use vstd::arithmetic::div_mod::{lemma_basic_div, lemma_div_plus_one, lemma_div_pos_is_pos};
use crate::catalog::{Page, RawRelease};
use crate::transport::{CatalogError, HttpReply, reply_result};

verus! {

/// How many records one request asks for.
pub const PAGE_SIZE: usize = 100;

/// One request for a page of the release listing of an artist.
#[derive(Clone, Copy, Debug, PartialEq, Eq, Structural)]
pub struct PageRequest {
    /// Identifier of the artist.
    pub artist: u128,
    /// How many records of the listing to skip.
    pub offset: usize,
    /// How many records to send at most.
    pub limit: usize,
}

/// A walk that waits for a page.
#[derive(Debug)]
pub struct Fetch {
    artist: u128,
    page_size: usize,
    collected: Vec<RawRelease>,
    total: Option<usize>,
}

/// A walk as plain values.
pub struct FetchView {
    /// Identifier of the artist.
    pub artist: u128,
    /// How many records each request asks for.
    pub page_size: usize,
    /// The records received so far, in the order of the listing.
    pub collected: Seq<RawRelease>,
    /// How many records the listing has, by the first page; `None` before
    /// the first page has come.
    pub total: Option<usize>,
}

impl View for Fetch {
    type V = FetchView;

    closed spec fn view(&self) -> FetchView {
        FetchView {
            artist: self.artist,
            page_size: self.page_size,
            collected: self.collected@,
            total: self.total,
        }
    }
}

/// How a walk goes on after a reply.
#[derive(Debug)]
pub enum FetchStep {
    /// Send `request` and hand the reply to `walk`.
    Request { walk: Fetch, request: PageRequest },
    /// The listing is complete.
    Done(Vec<RawRelease>),
    /// The walk is over and nothing is returned.
    Failed(CatalogError),
}

/// A step as plain values.
pub enum FetchStepView {
    Request { walk: FetchView, request: PageRequest },
    Done(Seq<RawRelease>),
    Failed(CatalogError),
}

impl View for FetchStep {
    type V = FetchStepView;

    open spec fn view(&self) -> FetchStepView {
        match *self {
            FetchStep::Request { walk, request } => FetchStepView::Request { walk: walk@, request },
            FetchStep::Done(records) => FetchStepView::Done(records@),
            FetchStep::Failed(error) => FetchStepView::Failed(error),
        }
    }
}

/// The total that a walk goes by once a page with the given hint has come:
/// the hint of the first page, 0 where that page had none.
pub open spec fn total_after(known: Option<usize>, hint: Option<usize>) -> usize {
    match known {
        Some(total) => total,
        None => match hint {
            Some(count) => count,
            None => 0,
        },
    }
}

/// How a walk goes on once a page has come.
pub open spec fn after_page(
    walk: FetchView,
    hint: Option<usize>,
    records: Seq<RawRelease>,
) -> FetchStepView {
    let collected = walk.collected + records;
    let total = total_after(walk.total, hint);
    if collected.len() >= total || records.len() == 0 {
        FetchStepView::Done(collected)
    } else {
        FetchStepView::Request {
            walk: FetchView { collected, total: Some(total), ..walk },
            request: PageRequest {
                artist: walk.artist,
                offset: collected.len() as usize,
                limit: walk.page_size,
            },
        }
    }
}

/// How a walk goes on after a reply.
pub open spec fn after_reply(walk: FetchView, reply: HttpReply<Page>) -> FetchStepView {
    match reply_result(reply) {
        Ok(page) => after_page(walk, page.count_hint, page.records@),
        Err(error) => FetchStepView::Failed(error),
    }
}

impl Fetch {
    /// Starts a walk with the usual page size.
    pub fn begin(artist: u128) -> (start: (Fetch, PageRequest))
        ensures
            start.0@ == (FetchView {
                artist,
                page_size: PAGE_SIZE,
                collected: Seq::empty(),
                total: None,
            }),
            start.1 == (PageRequest { artist, offset: 0, limit: PAGE_SIZE }),
    {
        Fetch::begin_with(artist, PAGE_SIZE)
    }

    /// Starts a walk that asks for `page_size` records at a time.
    pub fn begin_with(artist: u128, page_size: usize) -> (start: (Fetch, PageRequest))
        ensures
            start.0@ == (FetchView { artist, page_size, collected: Seq::empty(), total: None }),
            start.1 == (PageRequest { artist, offset: 0, limit: page_size }),
    {
        let walk = Fetch { artist, page_size, collected: Vec::new(), total: None };
        (walk, PageRequest { artist, offset: 0, limit: page_size })
    }

    /// Takes the reply to the request that the walk last asked for.
    pub fn receive(self, reply: HttpReply<Page>) -> (step: FetchStep)
        ensures
            step@ == after_reply(self@, reply),
    {
        match reply.into_result() {
            Err(error) => FetchStep::Failed(error),
            Ok(page) => {
                let Page { count_hint, records } = page;
                let mut records = records;
                let Fetch { artist, page_size, collected, total } = self;
                let mut collected = collected;
                let brought = records.len();
                collected.append(&mut records);
                let total = match total {
                    Some(known) => known,
                    None => match count_hint {
                        Some(count) => count,
                        None => 0,
                    },
                };
                if collected.len() >= total || brought == 0 {
                    FetchStep::Done(collected)
                } else {
                    let request = PageRequest { artist, offset: collected.len(), limit: page_size };
                    FetchStep::Request {
                        walk: Fetch { artist, page_size, collected, total: Some(total) },
                        request,
                    }
                }
            },
        }
    }
}

/// The page that a service holding the listing `all` sends for `request`.
pub open spec fn served(all: Seq<RawRelease>, request: PageRequest) -> Seq<RawRelease> {
    let from = if request.offset <= all.len() {
        request.offset as int
    } else {
        all.len() as int
    };
    let to = if from + request.limit <= all.len() {
        from + request.limit
    } else {
        all.len() as int
    };
    all.subrange(from, to)
}

/// What a walk came to.
pub struct FetchRun {
    /// The records returned; `None` where the walk returned none.
    pub records: Option<Seq<RawRelease>>,
    /// How many requests were sent.
    pub requests: nat,
}

/// The walk that goes on from `walk` with `request`, against a service that
/// holds the listing `all`, answers every request and gives the length of
/// `all` as its count; cut off after `budget` requests.
pub open spec fn run_against(
    all: Seq<RawRelease>,
    walk: FetchView,
    request: PageRequest,
    budget: nat,
) -> FetchRun
    decreases budget,
{
    if budget == 0 {
        FetchRun { records: None, requests: 0 }
    } else {
        match after_page(walk, Some(all.len() as usize), served(all, request)) {
            FetchStepView::Request { walk: next, request: then_ask } => {
                let rest = run_against(all, next, then_ask, (budget - 1) as nat);
                FetchRun { records: rest.records, requests: rest.requests + 1 }
            },
            FetchStepView::Done(records) => FetchRun { records: Some(records), requests: 1 },
            FetchStepView::Failed(_) => FetchRun { records: None, requests: 1 },
        }
    }
}

/// `total` divided by `page_size`, rounded up.
pub open spec fn pages_for(total: int, page_size: int) -> int {
    (total + page_size - 1) / page_size
}

/// A walk that is asked to go on has more records in hand than before: a
/// page that brings nothing ends the walk.
pub proof fn lemma_walk_advances(walk: FetchView, hint: Option<usize>, records: Seq<RawRelease>)
    ensures
        match after_page(walk, hint, records) {
            FetchStepView::Request { walk: next, request } => {
                &&& records.len() > 0
                &&& next.collected.len() > walk.collected.len()
                &&& next.total matches Some(total)
                &&& next.collected.len() < total
            },
            FetchStepView::Done(collected) => collected == walk.collected + records,
            FetchStepView::Failed(_) => false,
        },
{
}

/// The rest of a walk against a consistent service, from the point where
/// the first `n` records are in hand.
proof fn lemma_consistent_rest(all: Seq<RawRelease>, walk: FetchView, n: int, budget: nat)
    requires
        walk.page_size > 0,
        0 <= n < all.len() <= usize::MAX,
        walk.collected == all.take(n),
        walk.total == if n == 0 {
            None::<usize>
        } else {
            Some(all.len() as usize)
        },
        budget >= pages_for(all.len() - n, walk.page_size as int),
    ensures
        run_against(
            all,
            walk,
            PageRequest { artist: walk.artist, offset: n as usize, limit: walk.page_size },
            budget,
        ) == (FetchRun {
            records: Some(all),
            requests: pages_for(all.len() - n, walk.page_size as int) as nat,
        }),
    decreases all.len() - n,
{
    let size = walk.page_size as int;
    let left = all.len() - n;
    let request = PageRequest { artist: walk.artist, offset: n as usize, limit: walk.page_size };
    let page = served(all, request);
    if left <= size {
        assert(page == all.subrange(n, all.len() as int));
        assert(walk.collected + page =~= all);
        assert(pages_for(left, size) == 1) by {
            lemma_basic_div(left - 1, size);
            lemma_div_plus_one(left - 1, size);
        }
    } else {
        assert(page == all.subrange(n, n + size));
        assert(walk.collected + page =~= all.take(n + size));
        assert(pages_for(left, size) == 1 + pages_for(left - size, size)) by {
            lemma_div_plus_one(left - size + size - 1, size);
        }
        let next = FetchView {
            collected: all.take(n + size),
            total: Some(all.len() as usize),
            ..walk
        };
        assert(pages_for(left - size, size) >= 1) by {
            lemma_div_plus_one(left - size - 1, size);
            lemma_div_pos_is_pos(left - size - 1, size);
        }
        lemma_consistent_rest(all, next, n + size, (budget - 1) as nat);
    }
}

/// Against a service that holds `all`, answers every request and gives the
/// length of `all` as its count, a walk with page size `page_size` sends that
/// length divided by the page size, rounded up, requests, and returns `all`.
pub proof fn lemma_consistent_walk(
    all: Seq<RawRelease>,
    artist: u128,
    page_size: usize,
    budget: nat,
)
    requires
        page_size > 0,
        0 < all.len() <= usize::MAX,
        budget >= pages_for(all.len() as int, page_size as int),
    ensures
        run_against(
            all,
            FetchView { artist, page_size, collected: Seq::empty(), total: None },
            PageRequest { artist, offset: 0, limit: page_size },
            budget,
        ) == (FetchRun {
            records: Some(all),
            requests: pages_for(all.len() as int, page_size as int) as nat,
        }),
{
    let walk = FetchView { artist, page_size, collected: Seq::empty(), total: None };
    assert(walk.collected =~= all.take(0));
    lemma_consistent_rest(all, walk, 0, budget);
}

/// Against a service that holds nothing and says so, a walk sends one
/// request and returns nothing.
pub proof fn lemma_empty_walk(artist: u128, page_size: usize, budget: nat)
    requires
        budget >= 1,
    ensures
        run_against(
            Seq::empty(),
            FetchView { artist, page_size, collected: Seq::empty(), total: None },
            PageRequest { artist, offset: 0, limit: page_size },
            budget,
        ) == (FetchRun { records: Some(Seq::empty()), requests: 1 }),
{
    let none = Seq::<RawRelease>::empty();
    let request = PageRequest { artist, offset: 0, limit: page_size };
    assert(served(none, request) =~= none);
    assert(none + none =~= none);
}

} // verus!
