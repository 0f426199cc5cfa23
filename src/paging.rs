//! The decisions of a walk over numbered pages whose count is only known from
//! the pages themselves. The caller fetches; the walk says what to fetch next.
use vstd::prelude::*;

verus! {

/// The mathematical model of a [`PageWalk`].
pub struct WalkState {
    /// The index of the next page to fetch.
    pub next: int,
    /// The page count reported by the latest page (1 before the first).
    pub total_pages: int,
}

/// What a walk asks its caller to do.
#[derive(Debug, PartialEq, Eq, Structural)]
pub enum PageStep {
    /// Fetch the page with this index and report it with [`PageWalk::page_fetched`].
    Fetch(usize),
    /// Every page has been fetched.
    Done,
}

/// The step that a walk in state `w` asks for.
pub open spec fn step_of(w: WalkState) -> PageStep {
    if w.next < w.total_pages {
        PageStep::Fetch(w.next as usize)
    } else {
        PageStep::Done
    }
}

/// The walk after the page it asked for reported `total_pages`.
pub open spec fn fetched(w: WalkState, total_pages: int) -> WalkState {
    WalkState { next: w.next + 1, total_pages }
}

/// A walk over pages `0, 1, 2, ...` that stops once the latest page reports
/// that no page follows it.
#[derive(Debug)]
pub struct PageWalk {
    next: usize,
    total_pages: usize,
}

impl View for PageWalk {
    type V = WalkState;

    closed spec fn view(&self) -> WalkState {
        WalkState { next: self.next as int, total_pages: self.total_pages as int }
    }
}

impl PageWalk {
    /// A walk that starts at page 0, assuming one page until it learns more.
    pub fn new() -> (r: PageWalk)
        ensures
            r@ == (WalkState { next: 0, total_pages: 1 }),
    {
        PageWalk { next: 0, total_pages: 1 }
    }

    /// The next thing to do: fetch the next page while the latest reported
    /// page count says one is left, else stop.
    pub fn step(&self) -> (r: PageStep)
        ensures
            r == step_of(self@),
    {
        if self.next < self.total_pages {
            PageStep::Fetch(self.next)
        } else {
            PageStep::Done
        }
    }

    /// Records that the page asked for arrived reporting `total_pages` pages;
    /// that count replaces the one seen before.
    pub fn page_fetched(&mut self, total_pages: usize)
        requires
            step_of(old(self)@) is Fetch,
        ensures
            final(self)@ == fetched(old(self)@, total_pages as int),
    {
        self.next = self.next + 1;
        self.total_pages = total_pages;
    }

    /// The index of the next page to fetch.
    pub fn next_page(&self) -> (r: usize)
        ensures
            r == self@.next,
    {
        self.next
    }
}

/// Where a walk stands after each of the given pages, fetched one after the
/// other, reported its page count.
pub open spec fn walk_after(w: WalkState, totals: Seq<int>) -> WalkState
    decreases totals.len(),
{
    if totals.len() == 0 {
        w
    } else {
        walk_after(fetched(w, totals[0]), totals.drop_first())
    }
}

/// Fetching a page that reports a page count of at most its index plus one
/// (0 included) ends the walk.
pub proof fn lemma_last_page_ends_walk(w: WalkState, total_pages: int)
    requires
        step_of(w) is Fetch,
        total_pages <= w.next + 1,
    ensures
        step_of(fetched(w, total_pages)) is Done,
{
}

/// A walk whose first page reports a single page fetches that page and then
/// stops: exactly one fetch.
pub proof fn lemma_single_page_single_fetch()
    ensures
        step_of(WalkState { next: 0, total_pages: 1 }) == PageStep::Fetch(0),
        step_of(walk_after(WalkState { next: 0, total_pages: 1 }, seq![1])) is Done,
{
    lemma_walk_after(WalkState { next: 0, total_pages: 1 }, seq![1]);
}

/// Each page fetched moves a walk from the start on by exactly one index, and
/// the page count it reported replaces the one seen before: after `k` pages
/// the next index is `k` and the count is the one the last page reported.
pub proof fn lemma_pages_in_order(totals: Seq<int>)
    ensures
        walk_after(WalkState { next: 0, total_pages: 1 }, totals).next == totals.len(),
        totals.len() > 0 ==> walk_after(WalkState { next: 0, total_pages: 1 }, totals).total_pages
            == totals.last(),
{
    lemma_walk_after(WalkState { next: 0, total_pages: 1 }, totals);
}

proof fn lemma_walk_after(w: WalkState, totals: Seq<int>)
    ensures
        walk_after(w, totals).next == w.next + totals.len(),
        totals.len() > 0 ==> walk_after(w, totals).total_pages == totals.last(),
        totals.len() == 0 ==> walk_after(w, totals) == w,
    decreases totals.len(),
{
    if totals.len() > 0 {
        lemma_walk_after(fetched(w, totals[0]), totals.drop_first());
        if totals.len() > 1 {
            assert(totals.drop_first().last() == totals.last());
        }
    }
}

/// A collection for a walk, sized up front from the item count that the first
/// page reported; the count is a hint, not a bound.
pub fn start_collection<T>(item_count_hint: usize) -> (r: Vec<T>)
    ensures
        r@ == Seq::<T>::empty(),
{
    Vec::with_capacity(item_count_hint)
}

/// Appends the items of the latest page after those collected so far, in
/// their order on the page.
pub fn append_page<T>(items: &mut Vec<T>, page: Vec<T>)
    ensures
        final(items)@ == old(items)@ + page@,
{
    let mut page = page;
    items.append(&mut page);
}

/// Collecting pages one after another, starting empty, yields the items of
/// all pages in page order, then in their order on each page.
pub proof fn lemma_collected_in_page_order<T>(pages: Seq<Seq<T>>, page: Seq<T>)
    ensures
        pages.push(page).flatten() == pages.flatten() + page,
        Seq::<Seq<T>>::empty().flatten() == Seq::<T>::empty(),
{
    pages.lemma_flatten_push(page);
}

} // verus!
