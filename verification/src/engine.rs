//! The traversal of the site: which page to fetch next, and what to do with
//! what a page holds.
//!
//! The traversal is breadth first, and a claim is for the whole run: a node
//! identity is visited once, whatever number of parents lead to it.

use vstd::prelude::*;
use crate::download::{record_batch, tallied, tasks_view, DownloadTask, DownloadTaskView, TaskOutcome};
use crate::frontier::{
    duplicate_nodes, nodes_view, take_next, Frontier, FrontierNode, FrontierNodeView,
};
use crate::ledger::VisitedLedger;
use crate::naming::identity_of;
use crate::page::{
    is_parsable, page_items, read_page, selector_is_valid, CompiledSelector, ParsedPage,
    PatternCache, CATEGORY_SELECTOR, FILE_LINK_SELECTOR,
};
use crate::stats::{advanced, ScrapingStats, StatsSnapshot, REPORT_INTERVAL};
use crate::text::strings_view;

verus! {

/// What the caller is to do next.
pub enum Action {
    /// Fetch the page of this node and hand back its text, or its failure.
    FetchPage { node: FrontierNode },
    /// Create the local directory of each of these nodes and hand back
    /// which of them are there.
    CreateDirectories { nodes: Vec<FrontierNode> },
    /// Transfer these files, at most `concurrency` at a time (all at once
    /// where it is 0), and hand back how each ended.
    RunBatch { tasks: Vec<DownloadTask>, concurrency: usize },
    /// Nothing waits any more: the run is over.
    Finish,
    /// The event did not answer what was asked for: nothing changed.
    Ignore,
}

/// An action as contracts see it.
pub enum ActionView {
    FetchPage { node: FrontierNodeView },
    CreateDirectories { nodes: Seq<FrontierNodeView> },
    RunBatch { tasks: Seq<DownloadTaskView>, concurrency: usize },
    Finish,
    Ignore,
}

impl View for Action {
    type V = ActionView;

    open spec fn view(&self) -> ActionView {
        match self {
            Action::FetchPage { node } => ActionView::FetchPage { node: node@ },
            Action::CreateDirectories { nodes } => ActionView::CreateDirectories {
                nodes: nodes_view(nodes@),
            },
            Action::RunBatch { tasks, concurrency } => ActionView::RunBatch {
                tasks: tasks_view(tasks@),
                concurrency: *concurrency,
            },
            Action::Finish => ActionView::Finish,
            Action::Ignore => ActionView::Ignore,
        }
    }
}

/// The answer to an event: the next action, and the counters to report
/// where the event ended a page and a periodic report is due.
pub struct Decision {
    pub action: Action,
    pub report: Option<StatsSnapshot>,
}

/// A decision as contracts see it.
pub struct DecisionView {
    pub action: ActionView,
    pub report: Option<StatsSnapshot>,
}

impl View for Decision {
    type V = DecisionView;

    open spec fn view(&self) -> DecisionView {
        DecisionView { action: self.action@, report: self.report }
    }
}

/// What the caller hands back after it did what it was asked to do.
pub enum Event {
    /// The run is to begin at this address, with its content going into this directory.
    Start { start_url: String, root_dir: String },
    /// The page that was asked for came, with this text.
    PageFetched { body: String },
    /// The page that was asked for could not be had, after all its attempts.
    PageFailed,
    /// The directories that were asked for are there, or not, position by position.
    DirectoriesCreated { created: Vec<bool> },
    /// The transfers that were asked for ended like this, position by position.
    BatchFinished { outcomes: Vec<TaskOutcome> },
}

/// An event as contracts see it.
pub enum EventView {
    Start { start: FrontierNodeView },
    PageFetched { body: Seq<char> },
    PageFailed,
    DirectoriesCreated { created: Seq<bool> },
    BatchFinished { outcomes: Seq<TaskOutcome> },
}

impl View for Event {
    type V = EventView;

    open spec fn view(&self) -> EventView {
        match self {
            Event::Start { start_url, root_dir } => EventView::Start {
                start: FrontierNodeView { remote_address: start_url@, local_path: root_dir@ },
            },
            Event::PageFetched { body } => EventView::PageFetched { body: body@ },
            Event::PageFailed => EventView::PageFailed,
            Event::DirectoriesCreated { created } => EventView::DirectoriesCreated {
                created: created@,
            },
            Event::BatchFinished { outcomes } => EventView::BatchFinished { outcomes: outcomes@ },
        }
    }
}

/// What the traversal waits for.
pub enum PhaseView {
    /// The start of the run.
    Idle,
    /// The page of this node.
    AwaitingPage { node: FrontierNodeView },
    /// The local directories of these nodes.
    AwaitingDirectories { children: Seq<FrontierNodeView> },
    /// The end of the transfers of a directory.
    AwaitingBatch,
    /// Nothing: the run is over.
    Finished,
}

enum Phase {
    Idle,
    AwaitingPage { node: FrontierNode },
    AwaitingDirectories { children: Vec<FrontierNode> },
    AwaitingBatch,
    Finished,
}

impl View for Phase {
    type V = PhaseView;

    closed spec fn view(&self) -> PhaseView {
        match self {
            Phase::Idle => PhaseView::Idle,
            Phase::AwaitingPage { node } => PhaseView::AwaitingPage { node: node@ },
            Phase::AwaitingDirectories { children } => PhaseView::AwaitingDirectories {
                children: nodes_view(children@),
            },
            Phase::AwaitingBatch => PhaseView::AwaitingBatch,
            Phase::Finished => PhaseView::Finished,
        }
    }
}

/// Those of `children` whose local directory is there: `created` says so,
/// position by position; a child without a word in `created` counts as not
/// there.
pub open spec fn created_children(children: Seq<FrontierNodeView>, created: Seq<bool>) -> Seq<
    FrontierNodeView,
>
    decreases children.len(),
{
    if children.len() == 0 {
        Seq::empty()
    } else {
        let before = created_children(children.drop_last(), created);
        if children.len() <= created.len() && created[children.len() - 1] {
            before.push(children.last())
        } else {
            before
        }
    }
}

/// The counters to report after a page, if a report is due: after every
/// tenth page.
pub open spec fn report_after(stats: StatsSnapshot) -> Option<StatsSnapshot> {
    if stats.pages_scraped % REPORT_INTERVAL == 0 {
        Some(stats)
    } else {
        None
    }
}

/// The traversal as contracts see it.
pub struct EngineState {
    /// The identities that are claimed.
    pub claimed: Set<Seq<char>>,
    /// The nodes that wait, the next one first.
    pub waiting: Seq<FrontierNodeView>,
    /// The counters.
    pub stats: StatsSnapshot,
    /// What the traversal waits for.
    pub phase: PhaseView,
    /// The address that relative links are resolved against.
    pub base_url: Seq<char>,
    /// The names of sub-collections that are never descended into.
    pub skipped: Seq<Seq<char>>,
    /// The number of transfers that may run at a time.
    pub max_concurrent_downloads: usize,
    /// The number of pages that may be fetched at a time.
    pub max_concurrent_scrapes: usize,
    /// What the cache of selectors holds: for each key, the pattern of the
    /// selector that is kept under it.
    pub selectors: Map<Seq<char>, Seq<char>>,
}

/// The cache that holds the two selector groups of the site, each under its
/// own pattern, and nothing else.
pub open spec fn site_selectors() -> Map<Seq<char>, Seq<char>> {
    Map::<Seq<char>, Seq<char>>::empty().insert(FILE_LINK_SELECTOR@, FILE_LINK_SELECTOR@).insert(
        CATEGORY_SELECTOR@,
        CATEGORY_SELECTOR@,
    )
}

impl EngineState {
    /// Both selector groups of the site are compiled and cached, each under
    /// its own pattern.
    pub open spec fn ready(self) -> bool {
        &&& self.selectors.dom().contains(FILE_LINK_SELECTOR@)
        &&& self.selectors[FILE_LINK_SELECTOR@] == FILE_LINK_SELECTOR@
        &&& self.selectors.dom().contains(CATEGORY_SELECTOR@)
        &&& self.selectors[CATEGORY_SELECTOR@] == CATEGORY_SELECTOR@
    }

    /// Whether this is the state of a traversal that has not begun: nothing
    /// is claimed, nothing waits, every counter is zero, and the cache holds
    /// the two selector groups of the site and nothing else.
    pub open spec fn is_initial(
        self,
        base_url: Seq<char>,
        skipped: Seq<Seq<char>>,
        max_concurrent_downloads: usize,
        max_concurrent_scrapes: usize,
    ) -> bool {
        &&& self.claimed == Set::<Seq<char>>::empty()
        &&& self.waiting == Seq::<FrontierNodeView>::empty()
        &&& self.stats == StatsSnapshot {
            pages_scraped: 0,
            files_downloaded: 0,
            bytes_downloaded: 0,
            errors: 0,
        }
        &&& self.phase == PhaseView::Idle
        &&& self.base_url == base_url
        &&& self.skipped == skipped
        &&& self.max_concurrent_downloads == max_concurrent_downloads
        &&& self.max_concurrent_scrapes == max_concurrent_scrapes
        &&& self.selectors == site_selectors()
    }

    /// The state at the end of the page in hand: one more page is counted,
    /// and one more error where the page failed.
    pub open spec fn page_done(self, failed: bool) -> EngineState {
        EngineState {
            stats: StatsSnapshot {
                pages_scraped: advanced(self.stats.pages_scraped, 1),
                errors: if failed {
                    advanced(self.stats.errors, 1)
                } else {
                    self.stats.errors
                },
                ..self.stats
            },
            ..self
        }
    }

    /// Goes on to the next node: the first that waits and is not claimed is
    /// claimed and its page asked for; the run is over where none is left.
    pub open spec fn proceed(self, report: Option<StatsSnapshot>) -> (EngineState, DecisionView) {
        let taken = take_next(self.waiting, self.claimed);
        match taken.node {
            Some(node) => (
                EngineState {
                    waiting: taken.waiting,
                    claimed: taken.claimed,
                    phase: PhaseView::AwaitingPage { node },
                    ..self
                },
                DecisionView { action: ActionView::FetchPage { node }, report },
            ),
            None => (
                EngineState {
                    waiting: taken.waiting,
                    claimed: taken.claimed,
                    phase: PhaseView::Finished,
                    ..self
                },
                DecisionView { action: ActionView::Finish, report },
            ),
        }
    }

    /// Ends the page in hand and goes on to the next node.
    pub open spec fn next_page(self, failed: bool) -> (EngineState, DecisionView) {
        self.page_done(failed).proceed(report_after(self.page_done(failed).stats))
    }

    /// The state and the decision where the event does not fit the state.
    pub open spec fn ignore(self) -> (EngineState, DecisionView) {
        (self, DecisionView { action: ActionView::Ignore, report: None })
    }

    /// The run begins at `start`.
    pub open spec fn after_start(self, start: FrontierNodeView) -> (EngineState, DecisionView) {
        match self.phase {
            PhaseView::Idle => (EngineState { waiting: self.waiting.push(start), ..self }).proceed(
                None,
            ),
            _ => self.ignore(),
        }
    }

    /// The page that was asked for came, with the text `body`. A text that
    /// is too long to be parsed counts as a page that could not be had.
    pub open spec fn after_page(self, body: Seq<char>) -> (EngineState, DecisionView) {
        match self.phase {
            PhaseView::AwaitingPage { node } => if !is_parsable(body) {
                self.next_page(true)
            } else {
                let items = page_items(
                    body,
                    FILE_LINK_SELECTOR@,
                    CATEGORY_SELECTOR@,
                    node,
                    self.base_url,
                    self.claimed,
                    self.skipped,
                );
                if items.downloads.len() > 0 {
                    (
                        EngineState { phase: PhaseView::AwaitingBatch, ..self },
                        DecisionView {
                            action: ActionView::RunBatch {
                                tasks: items.downloads,
                                concurrency: self.max_concurrent_downloads,
                            },
                            report: None,
                        },
                    )
                } else if items.subdirectories.len() > 0 {
                    (
                        EngineState {
                            phase: PhaseView::AwaitingDirectories {
                                children: items.subdirectories,
                            },
                            ..self
                        },
                        DecisionView {
                            action: ActionView::CreateDirectories { nodes: items.subdirectories },
                            report: None,
                        },
                    )
                } else {
                    self.next_page(false)
                }
            },
            _ => self.ignore(),
        }
    }

    /// The page that was asked for could not be had: the node is a dead end.
    pub open spec fn after_page_failure(self) -> (EngineState, DecisionView) {
        match self.phase {
            PhaseView::AwaitingPage { node } => self.next_page(true),
            _ => self.ignore(),
        }
    }

    /// The directories that were asked for are there, as far as `created` says.
    pub open spec fn after_directories(self, created: Seq<bool>) -> (EngineState, DecisionView) {
        match self.phase {
            PhaseView::AwaitingDirectories { children } => (EngineState {
                waiting: self.waiting + created_children(children, created),
                ..self
            }).next_page(false),
            _ => self.ignore(),
        }
    }

    /// The transfers that were asked for ended as `outcomes` says.
    pub open spec fn after_batch(self, outcomes: Seq<TaskOutcome>) -> (EngineState, DecisionView) {
        match self.phase {
            PhaseView::AwaitingBatch => (EngineState {
                stats: tallied(self.stats, outcomes),
                ..self
            }).next_page(false),
            _ => self.ignore(),
        }
    }

    /// The state and the decision that `event` leads to.
    pub open spec fn step(self, event: EventView) -> (EngineState, DecisionView) {
        match event {
            EventView::Start { start } => self.after_start(start),
            EventView::PageFetched { body } => self.after_page(body),
            EventView::PageFailed => self.after_page_failure(),
            EventView::DirectoriesCreated { created } => self.after_directories(created),
            EventView::BatchFinished { outcomes } => self.after_batch(outcomes),
        }
    }

    /// The identities of the nodes whose pages are asked for while `events`
    /// come in, one after the other, in the order of the asking.
    pub open spec fn fetched(self, events: Seq<EventView>) -> Seq<Seq<char>>
        decreases events.len(),
    {
        if events.len() == 0 {
            Seq::empty()
        } else {
            let (next, decision) = self.step(events[0]);
            match decision.action {
                ActionView::FetchPage { node } => seq![identity_of(node.remote_address)]
                    + next.fetched(events.skip(1)),
                _ => next.fetched(events.skip(1)),
            }
        }
    }
}

/// Taking the next node gives up no claim, and the node that is taken was
/// not claimed before and is claimed after.
pub proof fn lemma_take_next_claims_fresh(waiting: Seq<FrontierNodeView>, claimed: Set<Seq<char>>)
    ensures
        claimed.subset_of(take_next(waiting, claimed).claimed),
        take_next(waiting, claimed).node matches Some(node) ==> !claimed.contains(
            identity_of(node.remote_address),
        ) && take_next(waiting, claimed).claimed.contains(identity_of(node.remote_address)),
    decreases waiting.len(),
{
    if waiting.len() > 0 && claimed.contains(identity_of(waiting[0].remote_address)) {
        lemma_take_next_claims_fresh(waiting.skip(1), claimed);
    }
}

/// No event makes the traversal give up a claim, and a page is asked for
/// only of a node whose identity was not claimed before; it is claimed after.
pub proof fn lemma_step_claims_fresh(state: EngineState, event: EventView)
    ensures
        state.claimed.subset_of(state.step(event).0.claimed),
        state.step(event).1.action matches ActionView::FetchPage { node } ==> !state.claimed.contains(
            identity_of(node.remote_address),
        ) && state.step(event).0.claimed.contains(identity_of(node.remote_address)),
{
    match event {
        EventView::Start { start } => {
            lemma_take_next_claims_fresh(state.waiting.push(start), state.claimed);
        },
        EventView::PageFetched { body } => {
            lemma_take_next_claims_fresh(state.waiting, state.claimed);
        },
        EventView::PageFailed => {
            lemma_take_next_claims_fresh(state.waiting, state.claimed);
        },
        EventView::DirectoriesCreated { created } => {
            match state.phase {
                PhaseView::AwaitingDirectories { children } => {
                    lemma_take_next_claims_fresh(
                        state.waiting + created_children(children, created),
                        state.claimed,
                    );
                },
                _ => {},
            }
        },
        EventView::BatchFinished { outcomes } => {
            lemma_take_next_claims_fresh(state.waiting, state.claimed);
        },
    }
}

/// Whatever the site links to and whatever comes back, in one run the page
/// of a node identity is asked for once at most: no identity that was
/// claimed at the start is fetched, and none is fetched twice.
pub proof fn lemma_each_identity_fetched_once(state: EngineState, events: Seq<EventView>)
    ensures
        forall|i: int|
            0 <= i < state.fetched(events).len() ==> !state.claimed.contains(
                #[trigger] state.fetched(events)[i],
            ),
        forall|i: int, j: int|
            0 <= i < j < state.fetched(events).len() ==> state.fetched(events)[i] != state.fetched(
                events,
            )[j],
    decreases events.len(),
{
    if events.len() > 0 {
        let (next, decision) = state.step(events[0]);
        let rest = next.fetched(events.skip(1));
        lemma_step_claims_fresh(state, events[0]);
        lemma_each_identity_fetched_once(next, events.skip(1));
        let all = state.fetched(events);
        match decision.action {
            ActionView::FetchPage { node } => {
                let identity = identity_of(node.remote_address);
                assert(all == seq![identity] + rest);
                assert forall|i: int| 0 <= i < all.len() implies !state.claimed.contains(
                    #[trigger] all[i],
                ) by {
                    if i > 0 {
                        assert(all[i] == rest[i - 1]);
                        assert(!next.claimed.contains(rest[i - 1]));
                    }
                }
                assert forall|i: int, j: int| 0 <= i < j < all.len() implies all[i] != all[j] by {
                    assert(all[j] == rest[j - 1]);
                    assert(!next.claimed.contains(rest[j - 1]));
                    if i > 0 {
                        assert(all[i] == rest[i - 1]);
                    }
                }
            },
            _ => {
                assert(all == rest);
                assert forall|i: int| 0 <= i < all.len() implies !state.claimed.contains(
                    #[trigger] all[i],
                ) by {
                    assert(!next.claimed.contains(rest[i]));
                }
            },
        }
    }
}

/// The traversal of one site in one run.
pub struct AdvancedScraper {
    visited_urls: VisitedLedger,
    frontier: Frontier,
    stats: ScrapingStats,
    selector_cache: PatternCache,
    base_url: String,
    skip_segments: Vec<String>,
    max_concurrent_downloads: usize,
    max_concurrent_scrapes: usize,
    phase: Phase,
}

impl View for AdvancedScraper {
    type V = EngineState;

    closed spec fn view(&self) -> EngineState {
        EngineState {
            claimed: self.visited_urls@,
            waiting: self.frontier@,
            stats: self.stats@,
            phase: self.phase@,
            base_url: self.base_url@,
            skipped: strings_view(self.skip_segments@),
            max_concurrent_downloads: self.max_concurrent_downloads,
            max_concurrent_scrapes: self.max_concurrent_scrapes,
            selectors: self.selector_cache@,
        }
    }
}

/// Those of `children` whose local directory is there.
fn keep_created(children: &Vec<FrontierNode>, created: &Vec<bool>) -> (kept: Vec<FrontierNode>)
    ensures
        nodes_view(kept@) == created_children(nodes_view(children@), created@),
{
    let ghost all = nodes_view(children@);
    let mut kept: Vec<FrontierNode> = Vec::new();
    let mut i: usize = 0;
    assert(all.take(0) =~= Seq::<FrontierNodeView>::empty());
    assert(nodes_view(kept@) =~= Seq::<FrontierNodeView>::empty());
    while i < children.len()
        invariant
            i <= children.len(),
            all == nodes_view(children@),
            nodes_view(kept@) == created_children(all.take(i as int), created@),
        decreases children.len() - i,
    {
        let ghost before = nodes_view(kept@);
        assert(all.take(i + 1).drop_last() =~= all.take(i as int));
        assert(all.take(i + 1).last() == children@[i as int]@);
        if i < created.len() && created[i] {
            kept.push(children[i].duplicate());
            assert(nodes_view(kept@) =~= before.push(children@[i as int]@));
        }
        i += 1;
    }
    assert(all.take(i as int) =~= all);
    kept
}

impl AdvancedScraper {
    /// Both selector groups of the site are compiled and cached, each under
    /// its own pattern.
    pub closed spec fn wf(&self) -> bool {
        self@.ready()
    }

    /// A traversal of the site at `base_url` that has not begun. Sub-collections
    /// named in `skip_segments` are never descended into.
    ///
    /// The two selector groups of the site are checked, and then compiled
    /// into the cache for the run; `None` where the selector parser refuses
    /// one of them, which is a fault of the configuration.
    pub fn new(
        base_url: &str,
        skip_segments: Vec<String>,
        max_concurrent_downloads: usize,
        max_concurrent_scrapes: usize,
    ) -> (scraper: Option<Self>)
        ensures
            scraper is Some == (selector_is_valid(FILE_LINK_SELECTOR@) && selector_is_valid(
                CATEGORY_SELECTOR@,
            )),
            scraper matches Some(s) ==> s.wf() && s@.is_initial(
                base_url@,
                strings_view(skip_segments@),
                max_concurrent_downloads,
                max_concurrent_scrapes,
            ),
    {
        if CompiledSelector::compile(FILE_LINK_SELECTOR).is_none() || CompiledSelector::compile(
            CATEGORY_SELECTOR,
        ).is_none() {
            return None;
        }
        let mut selector_cache = PatternCache::new();
        selector_cache.get_or_compile(FILE_LINK_SELECTOR);
        selector_cache.get_or_compile(CATEGORY_SELECTOR);
        assert(selector_cache@ =~= site_selectors());
        let scraper = AdvancedScraper {
            visited_urls: VisitedLedger::new(),
            frontier: Frontier::new(),
            stats: ScrapingStats::new(),
            selector_cache,
            base_url: String::from_str(base_url),
            skip_segments,
            max_concurrent_downloads,
            max_concurrent_scrapes,
            phase: Phase::Idle,
        };
        Some(scraper)
    }

    /// Goes on to the next node that waits and is not claimed.
    fn proceed(&mut self, report: Option<StatsSnapshot>) -> (decision: Decision)
        requires
            old(self).wf(),
        ensures
            final(self).wf(),
            (final(self)@, decision@) == old(self)@.proceed(report),
    {
        match self.frontier.claim_next(&mut self.visited_urls) {
            Some(node) => {
                self.phase = Phase::AwaitingPage { node: node.duplicate() };
                Decision { action: Action::FetchPage { node }, report }
            },
            None => {
                self.phase = Phase::Finished;
                Decision { action: Action::Finish, report }
            },
        }
    }

    /// Ends the page in hand and goes on to the next node.
    fn next_page(&mut self, failed: bool) -> (decision: Decision)
        requires
            old(self).wf(),
        ensures
            final(self).wf(),
            (final(self)@, decision@) == old(self)@.next_page(failed),
    {
        if failed {
            self.stats.increment_errors();
        }
        self.stats.increment_pages();
        let report = if self.stats.report_due() {
            Some(self.stats.snapshot())
        } else {
            None
        };
        self.proceed(report)
    }

    /// Begins the run at the node of `start_url`, whose content goes into
    /// `root_dir`: the node is claimed and its page asked for. A run that
    /// has begun ignores this.
    pub fn scrape_with_bfs(&mut self, start_url: &str, root_dir: &str) -> (decision: Decision)
        requires
            old(self).wf(),
        ensures
            final(self).wf(),
            (final(self)@, decision@) == old(self)@.after_start(
                FrontierNodeView { remote_address: start_url@, local_path: root_dir@ },
            ),
    {
        match self.phase {
            Phase::Idle => {
                self.frontier.push(
                    FrontierNode {
                        remote_address: String::from_str(start_url),
                        local_path: String::from_str(root_dir),
                    },
                );
                self.proceed(None)
            },
            _ => Decision { action: Action::Ignore, report: None },
        }
    }

    /// Takes the text of the page that was asked for and decides what it
    /// gives to do: a batch of downloads where the page links to files, the
    /// creation of directories where it names sub-collections to visit, the
    /// next page where it holds neither.
    pub fn process_page(&mut self, body: String) -> (decision: Decision)
        requires
            old(self).wf(),
        ensures
            final(self).wf(),
            (final(self)@, decision@) == old(self)@.after_page(body@),
    {
        let items = match &self.phase {
            Phase::AwaitingPage { node } => {
                match ParsedPage::parse(body) {
                    Some(page) => {
                        let link_selector = self.selector_cache.get(FILE_LINK_SELECTOR).unwrap();
                        let label_selector = self.selector_cache.get(CATEGORY_SELECTOR).unwrap();
                        Some(
                            read_page(
                                &page,
                                &link_selector,
                                &label_selector,
                                node,
                                self.base_url.as_str(),
                                &self.visited_urls,
                                &self.skip_segments,
                            ),
                        )
                    },
                    None => None,
                }
            },
            _ => {
                return Decision { action: Action::Ignore, report: None };
            },
        };
        let items = match items {
            Some(items) => items,
            None => {
                return self.next_page(true);
            },
        };
        if items.downloads.len() > 0 {
            self.phase = Phase::AwaitingBatch;
            Decision {
                action: Action::RunBatch {
                    tasks: items.downloads,
                    concurrency: self.max_concurrent_downloads,
                },
                report: None,
            }
        } else if items.subdirectories.len() > 0 {
            let children = duplicate_nodes(&items.subdirectories);
            self.phase = Phase::AwaitingDirectories { children };
            Decision {
                action: Action::CreateDirectories { nodes: items.subdirectories },
                report: None,
            }
        } else {
            self.next_page(false)
        }
    }

    /// Takes note that the page that was asked for could not be had, after
    /// all its attempts: the node is a dead end, one error is counted, and
    /// the run goes on.
    pub fn page_failed(&mut self) -> (decision: Decision)
        requires
            old(self).wf(),
        ensures
            final(self).wf(),
            (final(self)@, decision@) == old(self)@.after_page_failure(),
    {
        match self.phase {
            Phase::AwaitingPage { .. } => self.next_page(true),
            _ => Decision { action: Action::Ignore, report: None },
        }
    }

    /// Takes note of which directories are there, and puts the nodes that
    /// have theirs behind the ones that wait; the others are left out.
    pub fn directories_created(&mut self, created: &Vec<bool>) -> (decision: Decision)
        requires
            old(self).wf(),
        ensures
            final(self).wf(),
            (final(self)@, decision@) == old(self)@.after_directories(created@),
    {
        let kept = match &self.phase {
            Phase::AwaitingDirectories { children } => keep_created(children, created),
            _ => {
                return Decision { action: Action::Ignore, report: None };
            },
        };
        let ghost target = self@.waiting + nodes_view(kept@);
        let mut i: usize = 0;
        assert(self@.waiting + nodes_view(kept@).take(0) =~= self@.waiting);
        while i < kept.len()
            invariant
                i <= kept.len(),
                self.wf(),
                self@ == (EngineState {
                    waiting: old(self)@.waiting + nodes_view(kept@).take(i as int),
                    ..old(self)@
                }),
            decreases kept.len() - i,
        {
            self.frontier.push(kept[i].duplicate());
            assert(old(self)@.waiting + nodes_view(kept@).take(i + 1) =~= (old(self)@.waiting
                + nodes_view(kept@).take(i as int)).push(kept@[i as int]@));
            i += 1;
        }
        assert(nodes_view(kept@).take(i as int) =~= nodes_view(kept@));
        self.next_page(false)
    }

    /// Counts how the transfers of the directory ended: one file and its
    /// bytes for each that was transferred, one error for each that failed.
    /// A failure ends neither the batch nor the run.
    pub fn batch_finished(&mut self, outcomes: &Vec<TaskOutcome>) -> (decision:
        Decision)
        requires
            old(self).wf(),
        ensures
            final(self).wf(),
            (final(self)@, decision@) == old(self)@.after_batch(outcomes@),
    {
        match self.phase {
            Phase::AwaitingBatch => {
                record_batch(&mut self.stats, outcomes);
                self.next_page(false)
            },
            _ => Decision { action: Action::Ignore, report: None },
        }
    }

    /// Takes the event that answers the last action and decides the next one.
    pub fn step(&mut self, event: Event) -> (decision: Decision)
        requires
            old(self).wf(),
        ensures
            final(self).wf(),
            (final(self)@, decision@) == old(self)@.step(event@),
    {
        match event {
            Event::Start { start_url, root_dir } => self.scrape_with_bfs(
                start_url.as_str(),
                root_dir.as_str(),
            ),
            Event::PageFetched { body } => self.process_page(body),
            Event::PageFailed => self.page_failed(),
            Event::DirectoriesCreated { created } => self.directories_created(&created),
            Event::BatchFinished { outcomes } => self.batch_finished(&outcomes),
        }
    }

    /// The counters as they stand now.
    pub fn stats(&self) -> (now: StatsSnapshot)
        ensures
            now == self@.stats,
    {
        self.stats.snapshot()
    }

    /// Whether the run is over.
    pub fn is_finished(&self) -> (finished: bool)
        ensures
            finished == (self@.phase is Finished),
    {
        match self.phase {
            Phase::Finished => true,
            _ => false,
        }
    }

    /// The number of pages that may be fetched at a time.
    pub fn max_concurrent_scrapes(&self) -> (limit: usize)
        ensures
            limit == self@.max_concurrent_scrapes,
    {
        self.max_concurrent_scrapes
    }
}

} // verus!
