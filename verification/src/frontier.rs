//! The nodes that were discovered and wait to be visited.

use std::collections::VecDeque;
use vstd::prelude::*;
use crate::ledger::VisitedLedger;
use crate::naming::{identity_of, node_identity};

verus! {

/// A collection page of the site: where it is fetched from and where its
/// content goes on disk.
#[derive(Clone, Debug)]
pub struct FrontierNode {
    pub remote_address: String,
    pub local_path: String,
}

/// A node as contracts see it.
pub struct FrontierNodeView {
    pub remote_address: Seq<char>,
    pub local_path: Seq<char>,
}

impl View for FrontierNode {
    type V = FrontierNodeView;

    open spec fn view(&self) -> FrontierNodeView {
        FrontierNodeView { remote_address: self.remote_address@, local_path: self.local_path@ }
    }
}

impl FrontierNode {
    /// A second node of the same addresses.
    pub fn duplicate(&self) -> (copy: Self)
        ensures
            copy@ == self@,
    {
        FrontierNode {
            remote_address: self.remote_address.clone(),
            local_path: self.local_path.clone(),
        }
    }
}

/// A second list of the same nodes.
pub fn duplicate_nodes(nodes: &Vec<FrontierNode>) -> (copies: Vec<FrontierNode>)
    ensures
        nodes_view(copies@) == nodes_view(nodes@),
{
    let mut copies: Vec<FrontierNode> = Vec::new();
    let mut i: usize = 0;
    while i < nodes.len()
        invariant
            i <= nodes.len(),
            copies@.len() == i,
            forall|j: int| 0 <= j < i ==> (#[trigger] copies@[j])@ == nodes@[j]@,
        decreases nodes.len() - i,
    {
        copies.push(nodes[i].duplicate());
        i += 1;
    }
    assert(nodes_view(copies@) =~= nodes_view(nodes@));
    copies
}

/// The view of a list of nodes.
pub open spec fn nodes_view(nodes: Seq<FrontierNode>) -> Seq<FrontierNodeView> {
    Seq::new(nodes.len(), |i: int| nodes[i]@)
}

/// What taking the next node comes to.
pub struct Taken {
    /// The node to visit, if there is one.
    pub node: Option<FrontierNodeView>,
    /// The nodes that still wait.
    pub waiting: Seq<FrontierNodeView>,
    /// The identities that are claimed afterwards.
    pub claimed: Set<Seq<char>>,
}

/// Takes the next node to visit from `waiting`: the first whose identity is
/// not in `claimed`, which is claimed with that. Every node before it is
/// dropped, its identity being claimed already. Where no node is left, all
/// were dropped and nothing is claimed.
pub open spec fn take_next(waiting: Seq<FrontierNodeView>, claimed: Set<Seq<char>>) -> Taken
    decreases waiting.len(),
{
    if waiting.len() == 0 {
        Taken { node: None, waiting, claimed }
    } else if claimed.contains(identity_of(waiting[0].remote_address)) {
        take_next(waiting.skip(1), claimed)
    } else {
        Taken {
            node: Some(waiting[0]),
            waiting: waiting.skip(1),
            claimed: claimed.insert(identity_of(waiting[0].remote_address)),
        }
    }
}

/// The nodes that wait, first in, first out.
pub struct Frontier {
    waiting: VecDeque<FrontierNode>,
}

impl View for Frontier {
    type V = Seq<FrontierNodeView>;

    /// The nodes that wait, the next one first.
    closed spec fn view(&self) -> Seq<FrontierNodeView> {
        nodes_view(self.waiting@)
    }
}

impl Frontier {
    /// A frontier in which nothing waits.
    pub fn new() -> (frontier: Self)
        ensures
            frontier@ == Seq::<FrontierNodeView>::empty(),
    {
        let frontier = Frontier { waiting: VecDeque::new() };
        assert(frontier@ =~= Seq::<FrontierNodeView>::empty());
        frontier
    }

    /// Puts `node` behind the nodes that wait.
    pub fn push(&mut self, node: FrontierNode)
        ensures
            final(self)@ == old(self)@.push(node@),
    {
        self.waiting.push_back(node);
        assert(self@ =~= old(self)@.push(node@));
    }

    /// Takes the node that waited longest, if any waits.
    pub fn pop(&mut self) -> (node: Option<FrontierNode>)
        ensures
            match node {
                Some(first) => old(self)@.len() > 0 && first@ == old(self)@[0] && final(self)@
                    == old(self)@.skip(1),
                None => old(self)@.len() == 0 && final(self)@ == old(self)@,
            },
    {
        let node = self.waiting.pop_front();
        proof {
            if node is Some {
                assert(self@ =~= old(self)@.skip(1));
            }
        }
        node
    }

    /// The number of nodes that wait.
    pub fn len(&self) -> (len: usize)
        ensures
            len == self@.len(),
    {
        self.waiting.len()
    }

    /// Whether no node waits.
    pub fn is_empty(&self) -> (empty: bool)
        ensures
            empty == (self@.len() == 0),
    {
        self.waiting.len() == 0
    }

    /// Takes the next node to visit and claims it in `ledger`: the first one that
    /// waits whose identity was not claimed. Nodes whose identity was
    /// claimed are dropped on the way.
    pub fn claim_next(&mut self, ledger: &mut VisitedLedger) -> (node: Option<FrontierNode>)
        ensures
            match node {
                Some(next) => Some(next@),
                None => None,
            } == take_next(old(self)@, old(ledger)@).node,
            final(self)@ == take_next(old(self)@, old(ledger)@).waiting,
            final(ledger)@ == take_next(old(self)@, old(ledger)@).claimed,
            node matches Some(next) ==> !old(ledger)@.contains(identity_of(next@.remote_address)),
            node is None ==> final(ledger)@ == old(ledger)@ && final(self)@.len() == 0,
    {
        loop
            invariant
                take_next(self@, ledger@) == take_next(old(self)@, old(ledger)@),
                ledger@ == old(ledger)@,
            decreases self@.len(),
        {
            match self.pop() {
                None => {
                    return None;
                },
                Some(next) => {
                    let identity = node_identity(next.remote_address.as_str());
                    if ledger.claim(identity.as_str()) {
                        return Some(next);
                    }
                    assert(ledger@ =~= old(ledger)@);
                },
            }
        }
    }
}

} // verus!
