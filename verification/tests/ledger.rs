use vxug_scraper::ledger::VisitedLedger;

#[test]
fn a_claim_is_granted_once() {
    let mut ledger = VisitedLedger::new();
    assert!(!ledger.is_claimed("Papers"));
    assert!(ledger.claim("Papers"));
    assert!(ledger.is_claimed("Papers"));
    assert!(!ledger.claim("Papers"));
    assert!(!ledger.claim("Papers"));
    assert!(ledger.claim("papers"));
    assert!(ledger.claim(""));
    assert!(!ledger.claim(""));
}

#[test]
fn a_claim_on_one_identity_leaves_the_others() {
    let mut ledger = VisitedLedger::new();
    assert!(ledger.claim("A"));
    assert!(!ledger.is_claimed("B"));
    assert!(ledger.claim("B"));
    assert!(ledger.is_claimed("A"));
}

#[test]
fn a_released_identity_can_be_claimed_again() {
    let mut ledger = VisitedLedger::new();
    assert!(!ledger.release("A"));
    assert!(ledger.claim("A"));
    assert!(ledger.claim("B"));
    assert!(ledger.release("A"));
    assert!(!ledger.is_claimed("A"));
    assert!(ledger.is_claimed("B"));
    assert!(!ledger.release("A"));
    assert!(ledger.claim("A"));
}

#[test]
fn in_a_run_of_claims_each_identity_is_granted_exactly_once() {
    let mut ledger = VisitedLedger::new();
    let run = ["C", "A", "C", "B", "A", "C", "D", "B"];
    let mut granted = std::collections::HashMap::new();
    for identity in run {
        if ledger.claim(identity) {
            *granted.entry(identity).or_insert(0) += 1;
        }
    }
    assert_eq!(granted.len(), 4);
    for identity in ["A", "B", "C", "D"] {
        assert_eq!(granted[identity], 1);
    }
}
