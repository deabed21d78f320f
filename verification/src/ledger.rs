//! The ledger of claimed node identities.

use dashmap::DashMap;
use vstd::prelude::*;

verus! {

#[verifier::external_type_specification]
#[verifier::external_body]
#[verifier::reject_recursive_types(K)]
#[verifier::reject_recursive_types(V)]
#[verifier::reject_recursive_types(S)]
pub struct ExDashMap<K, V, S>(DashMap<K, V, S>);

/// The entries that a map of claims holds: each key, as its characters, with its marker.
pub uninterp spec fn claim_entries(map: DashMap<String, bool>) -> Map<Seq<char>, bool>;

/// The map of claims that holds no entry.
pub open spec fn no_claims() -> Map<Seq<char>, bool> {
    Map::empty()
}

/// `DashMap::new` makes a map that holds no entry.
#[verifier::external_body]
fn empty_claims() -> (claims: DashMap<String, bool>)
    ensures
        claim_entries(claims) == no_claims(),
{
    DashMap::new()
}

/// `DashMap::insert` stores the value under the key, in place of an entry of
/// that key if there was one, and returns the value that the key had before.
#[verifier::external_body]
fn insert_claim(map: &mut DashMap<String, bool>, key: String, marker: bool) -> (previous: Option<
    bool,
>)
    ensures
        claim_entries(*final(map)) == claim_entries(*old(map)).insert(key@, marker),
        previous == if claim_entries(*old(map)).dom().contains(key@) {
            Some(claim_entries(*old(map))[key@])
        } else {
            None::<bool>
        },
{
    map.insert(key, marker)
}

/// `DashMap::contains_key` says whether the map holds an entry of the key.
#[verifier::external_body]
fn holds_claim(map: &DashMap<String, bool>, key: &str) -> (held: bool)
    ensures
        held == claim_entries(*map).dom().contains(key@),
{
    map.contains_key(key)
}

/// `DashMap::remove` takes the entry of the key out of the map, if there is
/// one, and returns it.
#[verifier::external_body]
fn remove_claim(map: &mut DashMap<String, bool>, key: &str) -> (removed: Option<(String, bool)>)
    ensures
        claim_entries(*final(map)) == claim_entries(*old(map)).remove(key@),
        removed is Some == claim_entries(*old(map)).dom().contains(key@),
        removed matches Some(entry) ==> entry.0@ == key@ && entry.1 == claim_entries(*old(map))[key@],
{
    map.remove(key)
}

/// Records which node identities have been claimed in this run.
pub struct VisitedLedger {
    claims: DashMap<String, bool>,
}

impl View for VisitedLedger {
    type V = Set<Seq<char>>;

    /// The identities that are claimed.
    closed spec fn view(&self) -> Set<Seq<char>> {
        claim_entries(self.claims).dom()
    }
}

impl VisitedLedger {
    /// A ledger in which nothing is claimed.
    pub fn new() -> (ledger: Self)
        ensures
            ledger@ == Set::<Seq<char>>::empty(),
    {
        let ledger = VisitedLedger { claims: empty_claims() };
        assert(ledger@ =~= Set::<Seq<char>>::empty());
        ledger
    }

    /// Claims `identity`: `true` where this call claimed it, `false` where it
    /// was claimed before. Either way it is claimed afterwards, and every
    /// other identity is as it was.
    pub fn claim(&mut self, identity: &str) -> (newly_claimed: bool)
        ensures
            newly_claimed == !old(self)@.contains(identity@),
            final(self)@ == old(self)@.insert(identity@),
    {
        let key = identity.to_owned();
        let previous = insert_claim(&mut self.claims, key, true);
        assert(self@ =~= old(self)@.insert(identity@));
        previous.is_none()
    }

    /// Whether `identity` is claimed.
    pub fn is_claimed(&self, identity: &str) -> (claimed: bool)
        ensures
            claimed == self@.contains(identity@),
    {
        holds_claim(&self.claims, identity)
    }

    /// Gives up the claim on `identity`: `true` where it was claimed. Every
    /// other identity is as it was.
    pub fn release(&mut self, identity: &str) -> (was_claimed: bool)
        ensures
            was_claimed == old(self)@.contains(identity@),
            final(self)@ == old(self)@.remove(identity@),
    {
        let removed = remove_claim(&mut self.claims, identity);
        assert(self@ =~= old(self)@.remove(identity@));
        removed.is_some()
    }
}

/// The claimed identities after each of `identities` was claimed in turn,
/// starting from `claimed`.
pub open spec fn after_claims(claimed: Set<Seq<char>>, identities: Seq<Seq<char>>) -> Set<
    Seq<char>,
>
    decreases identities.len(),
{
    if identities.len() == 0 {
        claimed
    } else {
        after_claims(claimed, identities.drop_last()).insert(identities.last())
    }
}

/// What the claim at position `i` of `identities` answers, when they are
/// claimed in turn starting from `claimed`.
pub open spec fn answer_at(claimed: Set<Seq<char>>, identities: Seq<Seq<char>>, i: int) -> bool {
    !after_claims(claimed, identities.take(i)).contains(identities[i])
}

/// After a run of claims, exactly the identities claimed before or during it
/// are claimed.
pub proof fn lemma_after_claims(claimed: Set<Seq<char>>, identities: Seq<Seq<char>>)
    ensures
        forall|identity: Seq<char>|
            after_claims(claimed, identities).contains(identity) <==> (claimed.contains(identity)
                || identities.contains(identity)),
    decreases identities.len(),
{
    if identities.len() > 0 {
        let head = identities.drop_last();
        lemma_after_claims(claimed, head);
        assert forall|identity: Seq<char>|
            after_claims(claimed, identities).contains(identity) <==> (claimed.contains(identity)
                || identities.contains(identity)) by {
            if head.contains(identity) {
                let k = choose|k: int| 0 <= k < head.len() && head[k] == identity;
                assert(identities[k] == identity);
            }
            if identities.contains(identity) {
                let k = choose|k: int| 0 <= k < identities.len() && identities[k] == identity;
                if k < head.len() {
                    assert(head[k] == identity);
                } else {
                    assert(identity == identities.last());
                }
            }
            assert(identities[identities.len() - 1] == identities.last());
        }
    }
}

/// Across any run of claims, an identity that was free at the start and is
/// claimed during the run is answered `true` exactly once: at its first
/// claim, and at none of the later ones.
pub proof fn lemma_claimed_exactly_once(
    claimed: Set<Seq<char>>,
    identities: Seq<Seq<char>>,
    identity: Seq<char>,
)
    requires
        !claimed.contains(identity),
        identities.contains(identity),
    ensures
        exists|first: int|
            0 <= first < identities.len() && identities[first] == identity && answer_at(
                claimed,
                identities,
                first,
            ) && forall|other: int|
                0 <= other < identities.len() && identities[other] == identity && other != first
                    ==> !answer_at(claimed, identities, other),
{
    let first = first_claim_of(identities, identity);
    lemma_first_claim_of(identities, identity);
    lemma_after_claims(claimed, identities.take(first));
    assert(answer_at(claimed, identities, first)) by {
        if identities.take(first).contains(identity) {
            let k = choose|k: int|
                0 <= k < identities.take(first).len() && identities.take(first)[k] == identity;
            assert(identities[k] == identity);
        }
    }
    assert forall|other: int|
        0 <= other < identities.len() && identities[other] == identity && other != first implies !answer_at(
        claimed,
        identities,
        other,
    ) by {
        lemma_after_claims(claimed, identities.take(other));
        assert(identities.take(other)[first] == identity);
    }
}

/// An identity that is claimed is answered `false`, whatever was claimed since.
pub proof fn lemma_claimed_stays_claimed(
    claimed: Set<Seq<char>>,
    identities: Seq<Seq<char>>,
    identity: Seq<char>,
)
    requires
        claimed.contains(identity),
    ensures
        after_claims(claimed, identities).contains(identity),
        forall|i: int|
            0 <= i < identities.len() && identities[i] == identity ==> !answer_at(
                claimed,
                identities,
                i,
            ),
{
    lemma_after_claims(claimed, identities);
    assert forall|i: int| 0 <= i < identities.len() && identities[i] == identity implies !answer_at(
        claimed,
        identities,
        i,
    ) by {
        lemma_after_claims(claimed, identities.take(i));
    }
}

/// The position of the first claim of `identity` in `identities`.
pub open spec fn first_claim_of(identities: Seq<Seq<char>>, identity: Seq<char>) -> int
    decreases identities.len(),
{
    if identities.len() == 0 {
        0
    } else if identities.drop_last().contains(identity) {
        first_claim_of(identities.drop_last(), identity)
    } else {
        identities.len() - 1
    }
}

proof fn lemma_first_claim_of(identities: Seq<Seq<char>>, identity: Seq<char>)
    requires
        identities.contains(identity),
    ensures
        0 <= first_claim_of(identities, identity) < identities.len(),
        identities[first_claim_of(identities, identity)] == identity,
        forall|k: int|
            0 <= k < first_claim_of(identities, identity) ==> identities[k] != identity,
    decreases identities.len(),
{
    let head = identities.drop_last();
    if head.contains(identity) {
        lemma_first_claim_of(head, identity);
        let first = first_claim_of(head, identity);
        assert(head[first] == identities[first]);
        assert forall|k: int| 0 <= k < first implies identities[k] != identity by {
            assert(head[k] == identities[k]);
        }
    } else {
        let k0 = choose|k: int| 0 <= k < identities.len() && identities[k] == identity;
        if k0 < head.len() {
            assert(head[k0] == identity);
        }
        assert forall|k: int| 0 <= k < identities.len() - 1 implies identities[k] != identity by {
            assert(head[k] == identities[k]);
        }
    }
}

} // verus!
