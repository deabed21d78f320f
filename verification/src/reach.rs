//! What a run of the traversal reaches: every node that is discovered has
//! its identity fetched, once, and nothing else is fetched.

use vstd::prelude::*;
use crate::download::tallied;
use crate::engine::{
    created_children, lemma_each_identity_fetched_once, report_after, ActionView, DecisionView,
    EngineState, EventView, PhaseView,
};
use crate::frontier::{take_next, FrontierNodeView};
use crate::naming::identity_of;
use crate::page::is_parsable;
use crate::stats::StatsSnapshot;

verus! {

/// The identity of `node`.
pub open spec fn identity(node: FrontierNodeView) -> Seq<char> {
    identity_of(node.remote_address)
}

/// The nodes that `event` puts behind the ones that wait: the node that the
/// run begins at, or the sub-collections of a page whose directories are
/// there. An event that is ignored, or of another kind, adds none.
pub open spec fn enqueued_by(state: EngineState, event: EventView) -> Seq<FrontierNodeView> {
    match event {
        EventView::Start { start } => if state.phase is Idle {
            seq![start]
        } else {
            Seq::empty()
        },
        EventView::DirectoriesCreated { created } => match state.phase {
            PhaseView::AwaitingDirectories { children } => created_children(children, created),
            _ => Seq::empty(),
        },
        _ => Seq::empty(),
    }
}

/// The nodes that are discovered while `events` come in, one after the
/// other, in the order of their discovery.
pub open spec fn discovered(state: EngineState, events: Seq<EventView>) -> Seq<FrontierNodeView>
    decreases events.len(),
{
    if events.len() == 0 {
        Seq::empty()
    } else {
        enqueued_by(state, events[0]) + discovered(state.step(events[0]).0, events.skip(1))
    }
}

/// The state after `events` came in, one after the other.
pub open spec fn after(state: EngineState, events: Seq<EventView>) -> EngineState
    decreases events.len(),
{
    if events.len() == 0 {
        state
    } else {
        after(state.step(events[0]).0, events.skip(1))
    }
}

/// Where the run is over, nothing waits.
pub open spec fn settled(state: EngineState) -> bool {
    state.phase is Finished ==> state.waiting.len() == 0
}

/// Each node of `before` waits in `next` or has its identity claimed there.
pub open spec fn kept_or_claimed(before: Seq<FrontierNodeView>, next: EngineState) -> bool {
    forall|node: FrontierNodeView| #[trigger]
        before.contains(node) ==> next.waiting.contains(node) || next.claimed.contains(
            identity(node),
        )
}

/// Each identity of `ids` is that of a node of `nodes`.
pub open spec fn identities_among(ids: Seq<Seq<char>>, nodes: Seq<FrontierNodeView>) -> bool {
    forall|id: Seq<char>| #[trigger]
        ids.contains(id) ==> exists|node: FrontierNodeView|
            nodes.contains(node) && identity(node) == id
}

/// The identities of `later` are those of `earlier` and those of `ids`.
pub open spec fn claims_grown_by(
    earlier: Set<Seq<char>>,
    later: Set<Seq<char>>,
    ids: Seq<Seq<char>>,
) -> bool {
    forall|id: Seq<char>| #[trigger] later.contains(id) <==> earlier.contains(id) || ids.contains(id)
}

/// The identity that `decision` asks the page of, if it asks for one.
pub open spec fn asked_for(decision: DecisionView) -> Seq<Seq<char>> {
    match decision.action {
        ActionView::FetchPage { node } => seq![identity(node)],
        _ => Seq::empty(),
    }
}

proof fn lemma_concat_contains<A>(a: Seq<A>, b: Seq<A>)
    ensures
        forall|x: A| #[trigger] (a + b).contains(x) <==> a.contains(x) || b.contains(x),
{
    assert forall|x: A| #[trigger] (a + b).contains(x) <==> a.contains(x) || b.contains(x) by {
        if (a + b).contains(x) {
            let k = choose|k: int| 0 <= k < (a + b).len() && (a + b)[k] == x;
            if k < a.len() {
                assert(a[k] == x);
            } else {
                assert(b[k - a.len()] == x);
            }
        }
        if a.contains(x) {
            let k = choose|k: int| 0 <= k < a.len() && a[k] == x;
            assert((a + b)[k] == x);
        }
        if b.contains(x) {
            let k = choose|k: int| 0 <= k < b.len() && b[k] == x;
            assert((a + b)[k + a.len()] == x);
        }
    }
}

/// Taking the next node loses none: each node that waited still waits or
/// has its identity claimed. The node taken is one that waited, and its
/// identity is the one claim that is added; where none is taken, nothing
/// waits any more.
proof fn lemma_take_next_accounts_for_nodes(waiting: Seq<FrontierNodeView>, claimed: Set<Seq<char>>)
    ensures
        forall|node: FrontierNodeView| #[trigger]
            waiting.contains(node) ==> take_next(waiting, claimed).waiting.contains(node)
                || take_next(waiting, claimed).claimed.contains(identity(node)),
        forall|node: FrontierNodeView| #[trigger]
            take_next(waiting, claimed).waiting.contains(node) ==> waiting.contains(node),
        take_next(waiting, claimed).node matches Some(taken) ==> waiting.contains(taken),
        take_next(waiting, claimed).node is None ==> take_next(waiting, claimed).waiting.len() == 0,
        forall|id: Seq<char>| #[trigger]
            take_next(waiting, claimed).claimed.contains(id) <==> claimed.contains(id) || (
            take_next(waiting, claimed).node matches Some(taken) && identity(taken) == id),
    decreases waiting.len(),
{
    if waiting.len() > 0 {
        let first = waiting[0];
        let rest = waiting.skip(1);
        assert(waiting =~= seq![first] + rest);
        lemma_concat_contains(seq![first], rest);
        assert(seq![first][0] == first);
        assert forall|node: FrontierNodeView| #[trigger] seq![first].contains(node) implies node
            == first by {
            let k = choose|k: int| 0 <= k < seq![first].len() && seq![first][k] == node;
        }
        if claimed.contains(identity(first)) {
            lemma_take_next_accounts_for_nodes(rest, claimed);
        }
    }
}

/// Going on to the next node loses none of the nodes that wait.
proof fn lemma_proceed_accounts_for_nodes(state: EngineState, report: Option<StatsSnapshot>)
    ensures
        kept_or_claimed(state.waiting, state.proceed(report).0),
        forall|node: FrontierNodeView| #[trigger]
            state.proceed(report).0.waiting.contains(node) ==> state.waiting.contains(node),
        identities_among(asked_for(state.proceed(report).1), state.waiting),
        claims_grown_by(
            state.claimed,
            state.proceed(report).0.claimed,
            asked_for(state.proceed(report).1),
        ),
        settled(state.proceed(report).0),
{
    lemma_take_next_accounts_for_nodes(state.waiting, state.claimed);
    let (next, decision) = state.proceed(report);
    let ids = asked_for(decision);
    match decision.action {
        ActionView::FetchPage { node } => {
            assert(ids[0] == identity(node));
            assert forall|id: Seq<char>| #[trigger] ids.contains(id) implies id == identity(node) by {
                let k = choose|k: int| 0 <= k < ids.len() && ids[k] == id;
            }
        },
        _ => {
            assert forall|id: Seq<char>| !(#[trigger] ids.contains(id)) by {
                if ids.contains(id) {
                    let k = choose|k: int| 0 <= k < ids.len() && ids[k] == id;
                }
            }
        },
    }
}

/// One event loses no node: each node that waited or that the event
/// discovers waits afterwards or has its identity claimed. Only such nodes
/// wait afterwards, a page is asked for only of such a node, and its
/// identity is the one claim that is added.
proof fn lemma_step_accounts_for_nodes(state: EngineState, event: EventView)
    ensures
        kept_or_claimed(state.waiting + enqueued_by(state, event), state.step(event).0),
        forall|node: FrontierNodeView| #[trigger]
            state.step(event).0.waiting.contains(node) ==> (state.waiting + enqueued_by(
                state,
                event,
            )).contains(node),
        identities_among(
            asked_for(state.step(event).1),
            state.waiting + enqueued_by(state, event),
        ),
        claims_grown_by(
            state.claimed,
            state.step(event).0.claimed,
            asked_for(state.step(event).1),
        ),
        settled(state) ==> settled(state.step(event).0),
{
    let added = enqueued_by(state, event);
    let queue = state.waiting + added;
    let (next, decision) = state.step(event);
    let ignored = next == state && decision.action is Ignore;
    if ignored {
        assert(added =~= Seq::<FrontierNodeView>::empty()) by {
            match event {
                EventView::Start { start } => {},
                EventView::DirectoriesCreated { created } => {},
                _ => {},
            }
        }
        assert(queue =~= state.waiting);
        let ids = asked_for(decision);
        assert forall|id: Seq<char>| !(#[trigger] ids.contains(id)) by {
            if ids.contains(id) {
                let k = choose|k: int| 0 <= k < ids.len() && ids[k] == id;
            }
        }
    } else {
        match event {
            EventView::Start { start } => {
                let from = EngineState { waiting: state.waiting.push(start), ..state };
                assert(queue =~= from.waiting);
                lemma_proceed_accounts_for_nodes(from, None);
            },
            EventView::PageFetched { body } => {
                assert(queue =~= state.waiting);
                let failed = !is_parsable(body);
                let from = state.page_done(failed);
                if next.phase is AwaitingBatch || next.phase is AwaitingDirectories {
                    let ids = asked_for(decision);
                    assert forall|id: Seq<char>| !(#[trigger] ids.contains(id)) by {
                        if ids.contains(id) {
                            let k = choose|k: int| 0 <= k < ids.len() && ids[k] == id;
                        }
                    }
                } else {
                    lemma_proceed_accounts_for_nodes(from, report_after(from.stats));
                }
            },
            EventView::PageFailed => {
                assert(queue =~= state.waiting);
                let from = state.page_done(true);
                lemma_proceed_accounts_for_nodes(from, report_after(from.stats));
            },
            EventView::DirectoriesCreated { created } => {
                let from = (EngineState { waiting: queue, ..state }).page_done(false);
                lemma_proceed_accounts_for_nodes(from, report_after(from.stats));
            },
            EventView::BatchFinished { outcomes } => {
                assert(queue =~= state.waiting);
                let from = (EngineState {
                    stats: tallied(state.stats, outcomes),
                    ..state
                }).page_done(false);
                lemma_proceed_accounts_for_nodes(from, report_after(from.stats));
            },
        }
    }
}

/// In any run, whatever the site answers: every node that waited at the
/// start or is discovered on the way still waits at the end or has its
/// identity claimed; the claims that the run adds are exactly the
/// identities that it fetches; and each identity that it fetches is that of
/// a node that waited at the start or was discovered.
pub proof fn lemma_run_accounts_for_nodes(state: EngineState, events: Seq<EventView>)
    ensures
        kept_or_claimed(state.waiting + discovered(state, events), after(state, events)),
        claims_grown_by(state.claimed, after(state, events).claimed, state.fetched(events)),
        identities_among(state.fetched(events), state.waiting + discovered(state, events)),
        settled(state) ==> settled(after(state, events)),
    decreases events.len(),
{
    let all = state.waiting + discovered(state, events);
    let ids = state.fetched(events);
    if events.len() == 0 {
        assert(all =~= state.waiting);
        assert forall|id: Seq<char>| !(#[trigger] ids.contains(id)) by {
            if ids.contains(id) {
                let k = choose|k: int| 0 <= k < ids.len() && ids[k] == id;
            }
        }
    } else {
        let (next, decision) = state.step(events[0]);
        let rest = events.skip(1);
        let added = enqueued_by(state, events[0]);
        let queue = state.waiting + added;
        let later = discovered(next, rest);
        let later_all = next.waiting + later;
        let first_ids = asked_for(decision);
        let later_ids = next.fetched(rest);
        let end = after(state, events);
        lemma_step_accounts_for_nodes(state, events[0]);
        lemma_run_accounts_for_nodes(next, rest);
        assert(all =~= queue + later);
        assert(ids =~= first_ids + later_ids) by {
            match decision.action {
                ActionView::FetchPage { node } => {},
                _ => {
                    assert(first_ids + later_ids =~= later_ids);
                },
            }
        }
        lemma_concat_contains(queue, later);
        lemma_concat_contains(next.waiting, later);
        lemma_concat_contains(first_ids, later_ids);
        assert forall|node: FrontierNodeView| #[trigger] all.contains(node) implies end.waiting.contains(
            node,
        ) || end.claimed.contains(identity(node)) by {
            if queue.contains(node) {
                if next.waiting.contains(node) {
                    assert(later_all.contains(node));
                } else {
                    assert(next.claimed.contains(identity(node)));
                    assert(end.claimed.contains(identity(node)));
                }
            } else {
                assert(later.contains(node));
                assert(later_all.contains(node));
            }
        }
        assert forall|id: Seq<char>| #[trigger] end.claimed.contains(id) <==> state.claimed.contains(
            id,
        ) || ids.contains(id) by {
            assert(next.claimed.contains(id) <==> state.claimed.contains(id) || first_ids.contains(
                id,
            ));
        }
        assert forall|id: Seq<char>| #[trigger] ids.contains(id) implies exists|
            node: FrontierNodeView,
        |
            all.contains(node) && identity(node) == id by {
            if first_ids.contains(id) {
                let node = choose|node: FrontierNodeView|
                    queue.contains(node) && identity(node) == id;
                assert(all.contains(node) && identity(node) == id);
            } else {
                assert(later_ids.contains(id));
                let node = choose|node: FrontierNodeView|
                    later_all.contains(node) && identity(node) == id;
                if next.waiting.contains(node) {
                    assert(queue.contains(node));
                }
                assert(all.contains(node) && identity(node) == id);
            }
        }
    }
}

/// A run that begins with nothing claimed and nothing waiting, and that is
/// over, has fetched the page of every node identity that it discovered,
/// the one of the start node among them, each exactly once, and of no other
/// identity. This holds whatever the site links to and whatever came back,
/// be it that several parents lead to one identity.
pub proof fn lemma_every_discovered_identity_fetched_exactly_once(
    state: EngineState,
    events: Seq<EventView>,
)
    requires
        state.claimed == Set::<Seq<char>>::empty(),
        state.waiting.len() == 0,
        state.phase is Idle,
        after(state, events).phase is Finished,
    ensures
        forall|node: FrontierNodeView| #[trigger]
            discovered(state, events).contains(node) ==> state.fetched(events).contains(
                identity(node),
            ),
        forall|id: Seq<char>| #[trigger]
            state.fetched(events).contains(id) ==> exists|node: FrontierNodeView|
                discovered(state, events).contains(node) && identity(node) == id,
        forall|i: int, j: int|
            0 <= i < j < state.fetched(events).len() ==> state.fetched(events)[i] != state.fetched(
                events,
            )[j],
{
    lemma_run_accounts_for_nodes(state, events);
    lemma_each_identity_fetched_once(state, events);
    let end = after(state, events);
    let found = discovered(state, events);
    assert(state.waiting + found =~= found);
    assert forall|node: FrontierNodeView| #[trigger] found.contains(node) implies state.fetched(
        events,
    ).contains(identity(node)) by {
        assert(end.waiting.contains(node) || end.claimed.contains(identity(node)));
        if end.waiting.contains(node) {
            let k = choose|k: int| 0 <= k < end.waiting.len() && end.waiting[k] == node;
        }
    }
}

} // verus!
