//! The crawl itself: a state machine that hands out the next page to fetch
//! and takes in what the page held, until the page-visit budget is used up
//! or nothing is left to visit.
//!
//! The budget counts visits, not images: it goes down by one with every
//! address taken from the frontier, whether or not the page yields images.
//! A crawl may therefore end with fewer images than the budget, or with
//! addresses still pending.

use vstd::prelude::*;
use crate::text::texts;
use crate::target::{
    absolute_form, classification, is_web_address, parse_url, parsed_url, resolve, CrawlTarget,
    Resolution, ResolutionView,
};
use crate::markup::{
    extract_images, extract_links, images_of, links_of, or_empty, Document, NodeView,
};
use crate::frontier::{
    dequeue_keeps_discipline, disciplined, enqueue_keeps_discipline, enqueued, is_known, Frontier,
};
use crate::collector::{collect_keeps_distinct, collected, ImageCollector};

verus! {

/// Why a crawl has stopped.
#[derive(Clone, Copy, Debug, PartialEq, Eq, Structural)]
pub enum StopReason {
    /// Nothing is left to visit.
    Exhausted,
    /// The page-visit budget is used up.
    BudgetMet,
}

/// Whether a crawl goes on.
#[derive(Clone, Copy, Debug, PartialEq, Eq, Structural)]
pub enum Status {
    Running,
    Stopped(StopReason),
}

/// Why a crawl cannot start.
#[derive(Clone, Copy, Debug, PartialEq, Eq, Structural)]
pub enum StartError {
    /// The seed is no absolute address.
    BadSeed,
}

/// What the caller is to do next.
#[derive(Debug)]
pub enum Action {
    /// Fetch this page and report its body with `absorb`.
    Fetch(CrawlTarget),
    /// Nothing: this address was taken from the frontier but is no web
    /// address, so it is not fetched. The visit counts against the budget.
    Skip(String),
    /// Stop: the crawl is over.
    Stop(StopReason),
}

/// An action as a plain value.
pub enum ActionView {
    Fetch(Seq<char>),
    Skip(Seq<char>),
    Stop(StopReason),
}

impl View for Action {
    type V = ActionView;

    open spec fn view(&self) -> ActionView {
        match *self {
            Action::Fetch(target) => ActionView::Fetch(target@),
            Action::Skip(url) => ActionView::Skip(url@),
            Action::Stop(reason) => ActionView::Stop(reason),
        }
    }
}

/// The state of a crawl as a plain value.
pub struct CrawlView {
    /// The addresses that wait for a visit, oldest first.
    pub pending: Seq<Seq<char>>,
    /// The addresses taken from the frontier, in the order of their visits.
    pub visited: Seq<Seq<char>>,
    /// The image addresses collected so far.
    pub images: Seq<Seq<char>>,
    /// The visits that the budget still allows.
    pub remaining: nat,
}

/// What holds of every crawl: the frontier keeps its discipline, no image is
/// collected twice, every image is a web address, and so is every pending
/// address, but for a seed that has not been taken out yet.
pub open spec fn well_formed(state: CrawlView) -> bool {
    &&& disciplined(state.pending, state.visited)
    &&& state.images.no_duplicates()
    &&& forall|i: int| 0 <= i < state.images.len() ==> is_web_address(#[trigger] state.images[i])
    &&& forall|i: int|
        0 <= i < state.pending.len() && (i > 0 || state.visited.len() > 0) ==> is_web_address(
            #[trigger] state.pending[i],
        )
}

/// The state in which a crawl starts.
pub open spec fn initial(seed: Seq<char>, budget: u32) -> CrawlView {
    CrawlView {
        pending: seq![seed],
        visited: Seq::empty(),
        images: Seq::empty(),
        remaining: budget as nat,
    }
}

/// Whether a crawl in this state goes on. An empty frontier stops it before
/// the budget is looked at.
pub open spec fn status_of(state: CrawlView) -> Status {
    if state.pending.len() == 0 {
        Status::Stopped(StopReason::Exhausted)
    } else if state.remaining == 0 {
        Status::Stopped(StopReason::BudgetMet)
    } else {
        Status::Running
    }
}

/// The state after one step. A crawl that has stopped stays as it is. A
/// running one takes the oldest pending address out, records the visit and
/// pays for it with one unit of the budget.
pub open spec fn advanced(state: CrawlView) -> CrawlView {
    match status_of(state) {
        Status::Stopped(_) => state,
        Status::Running => CrawlView {
            pending: state.pending.drop_first(),
            visited: state.visited.push(state.pending[0]),
            images: state.images,
            remaining: (state.remaining - 1) as nat,
        },
    }
}

/// The action that one step hands out: to stop where the crawl has stopped,
/// else to fetch the oldest pending address where it is a web address, and
/// to skip it where it is not.
pub open spec fn action_of(state: CrawlView) -> ActionView {
    match status_of(state) {
        Status::Stopped(reason) => ActionView::Stop(reason),
        Status::Running => if is_web_address(state.pending[0]) {
            ActionView::Fetch(state.pending[0])
        } else {
            ActionView::Skip(state.pending[0])
        },
    }
}

/// The target that a reference found on the page `page` resolves to, if any.
pub open spec fn target_of(raw: Seq<char>, page: Seq<char>) -> Option<Seq<char>> {
    match classification(absolute_form(raw, Some(page))) {
        ResolutionView::Target(address) => Some(address),
        ResolutionView::Unresolvable(_) => None,
    }
}

/// The target of a reference that a page holds: none for an empty reference,
/// which is never resolved, else what the reference resolves to against the
/// page.
pub open spec fn reference_target(raw: Seq<char>, page: Seq<char>) -> Option<Seq<char>> {
    if raw.len() == 0 {
        None
    } else {
        target_of(raw, page)
    }
}

/// The pending addresses after one classified link is offered.
pub open spec fn pending_after_offer(
    pending: Seq<Seq<char>>,
    visited: Seq<Seq<char>>,
    target: Option<Seq<char>>,
) -> Seq<Seq<char>> {
    match target {
        Some(address) => enqueued(pending, visited, address),
        None => pending,
    }
}

/// The collection after one classified image reference is offered.
pub open spec fn images_after_offer(images: Seq<Seq<char>>, target: Option<Seq<char>>) -> Seq<
    Seq<char>,
> {
    match target {
        Some(address) => collected(images, address),
        None => images,
    }
}

/// The pending addresses after the links of a page are taken in, in order:
/// each link that is not empty is resolved against the page and, where that
/// gives a target, offered to the frontier.
pub open spec fn pending_after_links(
    pending: Seq<Seq<char>>,
    visited: Seq<Seq<char>>,
    links: Seq<Seq<char>>,
    page: Seq<char>,
) -> Seq<Seq<char>>
    decreases links.len(),
{
    if links.len() == 0 {
        pending
    } else {
        pending_after_offer(
            pending_after_links(pending, visited, links.drop_last(), page),
            visited,
            reference_target(links.last(), page),
        )
    }
}

/// The collection after the image sources of a page are taken in, in order:
/// each source that is not empty is resolved against the page and, where
/// that gives a target, added.
pub open spec fn images_after_sources(images: Seq<Seq<char>>, sources: Seq<Seq<char>>, page: Seq<char>) -> Seq<
    Seq<char>,
>
    decreases sources.len(),
{
    if sources.len() == 0 {
        images
    } else {
        images_after_offer(
            images_after_sources(images, sources.drop_last(), page),
            reference_target(sources.last(), page),
        )
    }
}

/// The state after the page `page` with the nodes `nodes` is taken in.
pub open spec fn absorbed(state: CrawlView, page: Seq<char>, nodes: Seq<NodeView>) -> CrawlView {
    CrawlView {
        pending: pending_after_links(state.pending, state.visited, links_of(nodes), page),
        visited: state.visited,
        images: images_after_sources(state.images, images_of(nodes), page),
        remaining: state.remaining,
    }
}

/// A step keeps a crawl well formed. An address that it hands out was never
/// handed out before, so no page is fetched twice; and an address that it
/// hands out for fetching is a web address.
pub proof fn advance_keeps_well_formed(state: CrawlView)
    requires
        well_formed(state),
    ensures
        well_formed(advanced(state)),
        status_of(state) == Status::Running ==> !state.visited.contains(state.pending[0]),
        action_of(state) matches ActionView::Fetch(address) ==> is_web_address(address),
{
    if status_of(state) == Status::Running {
        dequeue_keeps_discipline(state.pending, state.visited);
        let after = advanced(state);
        assert forall|i: int| 0 <= i < after.pending.len() implies is_web_address(
            #[trigger] after.pending[i],
        ) by {
            assert(after.pending[i] == state.pending[i + 1]);
        }
    }
}

/// A step of a running crawl uses up one unit of the budget, whatever the
/// address and whatever becomes of it; a crawl that has stopped does not
/// move. So a crawl that starts with a budget of `n` hands out at most `n`
/// addresses.
pub proof fn advance_pays_one_visit(state: CrawlView)
    ensures
        status_of(state) == Status::Running ==> advanced(state).remaining + 1 == state.remaining
            && advanced(state).visited.len() == state.visited.len() + 1,
        status_of(state) != Status::Running ==> advanced(state) == state,
        state.remaining == 0 ==> status_of(advanced(state)) != Status::Running,
{
}

/// Offered links keep the pending addresses in order: what waited before
/// still waits, in the same order and ahead of every address that was added.
/// Every address added is a web address, and the target of every link that
/// is not empty is known afterwards: it waits, or it was visited.
pub proof fn links_keep_order(
    pending: Seq<Seq<char>>,
    visited: Seq<Seq<char>>,
    links: Seq<Seq<char>>,
    page: Seq<char>,
)
    requires
        disciplined(pending, visited),
    ensures
        disciplined(pending_after_links(pending, visited, links, page), visited),
        pending.is_prefix_of(pending_after_links(pending, visited, links, page)),
        forall|i: int|
            pending.len() <= i < pending_after_links(pending, visited, links, page).len()
                ==> is_web_address(#[trigger] pending_after_links(pending, visited, links, page)[i]),
        forall|k: int|
            0 <= k < links.len() ==> match reference_target(#[trigger] links[k], page) {
                Some(address) => is_known(
                    pending_after_links(pending, visited, links, page),
                    visited,
                    address,
                ),
                None => true,
            },
    decreases links.len(),
{
    if links.len() > 0 {
        let front = links.drop_last();
        let before = pending_after_links(pending, visited, front, page);
        let after = pending_after_links(pending, visited, links, page);
        links_keep_order(pending, visited, front, page);
        match reference_target(links.last(), page) {
            Some(address) => {
                enqueue_keeps_discipline(before, visited, address);
            },
            None => {},
        }
        assert(before.is_prefix_of(after));
        assert forall|k: int| 0 <= k < links.len() implies match reference_target(
            #[trigger] links[k],
            page,
        ) {
            Some(address) => is_known(after, visited, address),
            None => true,
        } by {
            if k < front.len() {
                assert(front[k] == links[k]);
                match reference_target(links[k], page) {
                    Some(address) => {
                        if before.contains(address) {
                            let i = choose|i: int| 0 <= i < before.len() && before[i] == address;
                            assert(after[i] == address);
                        }
                    },
                    None => {},
                }
            }
        }
    }
}

/// Collected images stay distinct web addresses: however many references,
/// on however many pages, resolve to one address, the collection holds it
/// exactly once. What was collected before stays, in its order, and the
/// target of every source that is not empty is held afterwards.
pub proof fn images_stay_distinct(images: Seq<Seq<char>>, sources: Seq<Seq<char>>, page: Seq<char>)
    requires
        images.no_duplicates(),
        forall|i: int| 0 <= i < images.len() ==> is_web_address(#[trigger] images[i]),
    ensures
        images_after_sources(images, sources, page).no_duplicates(),
        images.is_prefix_of(images_after_sources(images, sources, page)),
        forall|i: int|
            0 <= i < images_after_sources(images, sources, page).len() ==> is_web_address(
                #[trigger] images_after_sources(images, sources, page)[i],
            ),
        forall|k: int|
            0 <= k < sources.len() ==> match reference_target(#[trigger] sources[k], page) {
                Some(address) => images_after_sources(images, sources, page).contains(address),
                None => true,
            },
    decreases sources.len(),
{
    if sources.len() > 0 {
        let front = sources.drop_last();
        let before = images_after_sources(images, front, page);
        let after = images_after_sources(images, sources, page);
        images_stay_distinct(images, front, page);
        match reference_target(sources.last(), page) {
            Some(address) => {
                collect_keeps_distinct(before, address);
            },
            None => {},
        }
        assert(before.is_prefix_of(after));
        assert forall|k: int| 0 <= k < sources.len() implies match reference_target(
            #[trigger] sources[k],
            page,
        ) {
            Some(address) => after.contains(address),
            None => true,
        } by {
            if k < front.len() {
                assert(front[k] == sources[k]);
                match reference_target(sources[k], page) {
                    Some(address) => {
                        let i = choose|i: int| 0 <= i < before.len() && before[i] == address;
                        assert(after[i] == address);
                    },
                    None => {},
                }
            }
        }
    }
}

/// Taking a page in keeps a crawl well formed. It leaves the visits and the
/// budget alone, and what waited before still waits first: pages found on
/// this page are visited after every page that was found earlier.
pub proof fn absorb_keeps_well_formed(state: CrawlView, page: Seq<char>, nodes: Seq<NodeView>)
    requires
        well_formed(state),
    ensures
        well_formed(absorbed(state, page, nodes)),
        state.pending.is_prefix_of(absorbed(state, page, nodes).pending),
        state.images.is_prefix_of(absorbed(state, page, nodes).images),
        absorbed(state, page, nodes).visited == state.visited,
        absorbed(state, page, nodes).remaining == state.remaining,
{
    links_keep_order(state.pending, state.visited, links_of(nodes), page);
    images_stay_distinct(state.images, images_of(nodes), page);
    let after = absorbed(state, page, nodes);
    assert forall|i: int|
        0 <= i < after.pending.len() && (i > 0 || after.visited.len() > 0) implies is_web_address(
        #[trigger] after.pending[i],
    ) by {
        if i < state.pending.len() {
            assert(after.pending[i] == state.pending[i]);
        }
    }
}

/// A page that could not be fetched, or whose body does not parse, counts
/// as a page without nodes, and such a page changes nothing: the crawl goes
/// on with the next pending address as if the page had been empty.
pub proof fn failed_page_changes_nothing(state: CrawlView, page: Seq<char>)
    ensures
        absorbed(state, page, Seq::empty()) == state,
        status_of(absorbed(state, page, Seq::empty())) == status_of(state),
{
    let none = Seq::<NodeView>::empty();
    assert(links_of(none) =~= Seq::<Seq<char>>::empty());
    assert(images_of(none) =~= Seq::<Seq<char>>::empty());
}

/// A crawl in progress.
pub struct Crawl {
    frontier: Frontier,
    images: ImageCollector,
    remaining: u32,
}

impl View for Crawl {
    type V = CrawlView;

    closed spec fn view(&self) -> CrawlView {
        CrawlView {
            pending: self.frontier.pending(),
            visited: self.frontier.visited(),
            images: self.images@,
            remaining: self.remaining as nat,
        }
    }
}

impl Crawl {
    /// Whether the crawl is well formed. Every crawl that this module hands
    /// out is.
    pub open spec fn wf(&self) -> bool {
        well_formed(self@)
    }

    /// Starts a crawl at `seed` with a budget of `budget` page visits. The
    /// seed is parsed, and its normalized form is the one pending address.
    /// Fails where the seed does not parse as an absolute address. A budget
    /// of zero gives a crawl that stops before its first visit.
    pub fn new(seed: &str, budget: u32) -> (started: Result<Crawl, StartError>)
        ensures
            match parsed_url(seed@) {
                Some(address) => started matches Ok(crawl) && crawl.wf() && crawl@ == initial(
                    address,
                    budget,
                ),
                None => started matches Err(StartError::BadSeed),
            },
    {
        Crawl::begin(parse_url(seed), budget)
    }

    /// Starts a crawl at a seed that was parsed already: `parsed` is the
    /// seed's normalized form, or `None` where it did not parse.
    pub fn begin(parsed: Option<String>, budget: u32) -> (started: Result<Crawl, StartError>)
        ensures
            match parsed {
                Some(address) => started matches Ok(crawl) && crawl.wf() && crawl@ == initial(
                    address@,
                    budget,
                ),
                None => started matches Err(StartError::BadSeed),
            },
    {
        match parsed {
            Some(address) => {
                let mut frontier = Frontier::new();
                frontier.enqueue_if_new(address);
                let crawl = Crawl { frontier, images: ImageCollector::new(), remaining: budget };
                assert(crawl@.pending =~= seq![address@]);
                assert(crawl@ == initial(address@, budget));
                Ok(crawl)
            },
            None => Err(StartError::BadSeed),
        }
    }

    /// Whether the crawl goes on, and why not.
    pub fn status(&self) -> (status: Status)
        ensures
            status == status_of(self@),
    {
        if self.frontier.is_empty() {
            Status::Stopped(StopReason::Exhausted)
        } else if self.remaining == 0 {
            Status::Stopped(StopReason::BudgetMet)
        } else {
            Status::Running
        }
    }

    /// The visits that the budget still allows.
    pub fn remaining(&self) -> (remaining: u32)
        ensures
            remaining == self@.remaining,
    {
        self.remaining
    }

    /// How many addresses wait for a visit.
    pub fn pending_count(&self) -> (count: usize)
        ensures
            count == self@.pending.len(),
    {
        self.frontier.len()
    }

    /// How many addresses were taken from the frontier.
    pub fn visit_count(&self) -> (count: usize)
        ensures
            count == self@.visited.len(),
    {
        self.frontier.visits()
    }

    /// Takes one step: says what to do next. While the crawl runs, this takes
    /// the oldest pending address from the frontier and uses up one unit of
    /// the budget.
    pub fn advance(&mut self) -> (action: Action)
        requires
            old(self).wf(),
        ensures
            final(self).wf(),
            final(self)@ == advanced(old(self)@),
            action@ == action_of(old(self)@),
    {
        proof {
            advance_keeps_well_formed(self@);
        }
        match self.status() {
            Status::Stopped(reason) => Action::Stop(reason),
            Status::Running => {
                match self.frontier.dequeue() {
                    Some(url) => {
                        self.remaining = self.remaining - 1;
                        match CrawlTarget::from_address(url) {
                            Ok(target) => Action::Fetch(target),
                            Err(rejected) => Action::Skip(rejected),
                        }
                    },
                    None => Action::Stop(StopReason::Exhausted),
                }
            },
        }
    }

    /// Offers the frontier one classified link: a target is enqueued unless
    /// it is known, anything else is left out.
    pub fn offer_link(&mut self, outcome: Resolution)
        requires
            old(self).wf(),
        ensures
            final(self).wf(),
            final(self)@ == (CrawlView {
                pending: pending_after_offer(
                    old(self)@.pending,
                    old(self)@.visited,
                    offered(outcome@),
                ),
                ..old(self)@
            }),
    {
        match outcome {
            Resolution::Target(target) => {
                let address = target.into_string();
                proof {
                    enqueue_keeps_discipline(self@.pending, self@.visited, address@);
                }
                self.frontier.enqueue_if_new(address);
            },
            Resolution::Unresolvable(_) => {},
        }
    }

    /// Offers the collector one classified image reference: a target is
    /// added unless it is held, anything else is left out.
    pub fn offer_image(&mut self, outcome: Resolution)
        requires
            old(self).wf(),
        ensures
            final(self).wf(),
            final(self)@ == (CrawlView {
                images: images_after_offer(old(self)@.images, offered(outcome@)),
                ..old(self)@
            }),
    {
        match outcome {
            Resolution::Target(target) => {
                let address = target.into_string();
                proof {
                    collect_keeps_distinct(self@.images, address@);
                }
                self.images.add(address);
            },
            Resolution::Unresolvable(_) => {},
        }
    }

    /// Takes in a parsed page that was fetched from `page`: resolves each of
    /// its links that is not empty against `page` and enqueues the targets
    /// that are new, then resolves each image source that is not empty and
    /// collects the targets.
    pub fn absorb_document(&mut self, page: &CrawlTarget, document: &Document)
        requires
            old(self).wf(),
        ensures
            final(self).wf(),
            final(self)@ == absorbed(old(self)@, page@, document@),
    {
        let ghost start = self@;
        let links = extract_links(document);
        let mut i: usize = 0;
        assert(texts(links@).take(0) =~= Seq::<Seq<char>>::empty());
        while i < links.len()
            invariant
                i <= links.len(),
                self.wf(),
                self@ == (CrawlView {
                    pending: pending_after_links(
                        start.pending,
                        start.visited,
                        texts(links@).take(i as int),
                        page@,
                    ),
                    ..start
                }),
            decreases links.len() - i,
        {
            assert(texts(links@).take(i + 1).drop_last() =~= texts(links@).take(i as int));
            assert(texts(links@).take(i + 1).last() == links@[i as int]@);
            if links[i].as_str().unicode_len() > 0 {
                let outcome = resolve(links[i].as_str(), Some(page));
                self.offer_link(outcome);
            }
            i += 1;
        }
        assert(texts(links@).take(i as int) =~= texts(links@));
        let ghost middle = self@;
        let sources = extract_images(document);
        let mut k: usize = 0;
        assert(texts(sources@).take(0) =~= Seq::<Seq<char>>::empty());
        while k < sources.len()
            invariant
                k <= sources.len(),
                self.wf(),
                self@ == (CrawlView {
                    images: images_after_sources(
                        start.images,
                        texts(sources@).take(k as int),
                        page@,
                    ),
                    ..middle
                }),
                middle.images == start.images,
            decreases sources.len() - k,
        {
            assert(texts(sources@).take(k + 1).drop_last() =~= texts(sources@).take(k as int));
            assert(texts(sources@).take(k + 1).last() == sources@[k as int]@);
            if sources[k].as_str().unicode_len() > 0 {
                let outcome = resolve(sources[k].as_str(), Some(page));
                self.offer_image(outcome);
            }
            k += 1;
        }
        assert(texts(sources@).take(k as int) =~= texts(sources@));
    }

    /// Takes in what fetching `page` gave: the body, or `None` where the
    /// fetch failed. A failed fetch changes nothing. A body is parsed, and
    /// the nodes that the parser hands out are taken in as `absorb_document`
    /// does; a body that does not parse counts as a page without nodes.
    /// Neither ends the crawl.
    pub fn absorb(&mut self, page: &CrawlTarget, body: Option<&str>)
        requires
            old(self).wf(),
        ensures
            final(self).wf(),
            body.is_none() ==> final(self)@ == old(self)@,
            exists|nodes: Seq<NodeView>| final(self)@ == absorbed(old(self)@, page@, nodes),
    {
        proof {
            failed_page_changes_nothing(self@, page@);
        }
        match body {
            Some(html) => {
                let document = or_empty(Document::parse(html));
                self.absorb_document(page, &document);
            },
            None => {},
        }
    }

    /// The image addresses collected so far, each once, in the order in
    /// which they were first found.
    pub fn images(&self) -> (urls: Vec<String>)
        ensures
            texts(urls@) == self@.images,
    {
        self.images.all()
    }
}

/// The target that a classification holds, if any.
pub open spec fn offered(outcome: ResolutionView) -> Option<Seq<char>> {
    match outcome {
        ResolutionView::Target(address) => Some(address),
        ResolutionView::Unresolvable(_) => None,
    }
}

} // verus!
