use eigeen_loader::singleton::{DirectoryState, SingletonManager};

#[test]
fn unresolvable_candidates_are_dropped_and_pending_is_cleared() {
    let mut dir = SingletonManager::new();
    dir.begin_observing();
    dir.record_candidate(0x1000);
    dir.record_candidate(0x2000);
    dir.record_candidate(0x3000);
    assert_eq!(dir.pending_candidates().len(), 3);
    let names = vec![
        Some("sChat".to_string()),
        None, // this candidate's type descriptor cannot be read
        Some("sQuest".to_string()),
    ];
    dir.parse_singletons(&names);
    assert_eq!(dir.state(), DirectoryState::Resolved);
    assert_eq!(dir.resolved_count(), 2);
    assert!(dir.pending_candidates().is_empty());
    assert_eq!(dir.get_address_by_name("sChat"), Some(0x1000));
    assert_eq!(dir.get_address_by_name("sQuest"), Some(0x3000));
    assert_eq!(dir.get_address_by_name("sPlayer"), None);
}

#[test]
fn lookups_miss_until_the_directory_is_resolved() {
    let mut dir = SingletonManager::new();
    assert_eq!(dir.get_address_by_name("sChat"), None);
    dir.begin_observing();
    dir.record_candidate(0x4000);
    // still observing: nothing is exposed, even though a candidate exists
    assert_eq!(dir.get_address_by_name("sChat"), None);
    dir.parse_singletons(&vec![Some("sChat".to_string())]);
    assert_eq!(dir.get_address_by_name("sChat"), Some(0x4000));
}

#[test]
fn candidates_are_deduplicated_and_recorded_only_while_observing() {
    let mut dir = SingletonManager::new();
    // not yet observing: dropped
    dir.record_candidate(0x5000);
    assert!(dir.pending_candidates().is_empty());
    dir.begin_observing();
    dir.record_candidate(0x5000);
    dir.record_candidate(0x5000);
    dir.record_candidate(0x6000);
    assert_eq!(dir.pending_candidates().as_slice(), &[0x5000, 0x6000]);
}

#[test]
fn a_later_candidate_of_the_same_type_name_wins() {
    let mut dir = SingletonManager::new();
    dir.begin_observing();
    dir.record_candidate(0x100);
    dir.record_candidate(0x200);
    dir.parse_singletons(&vec![Some("sTwin".to_string()), Some("sTwin".to_string())]);
    assert_eq!(dir.resolved_count(), 1);
    assert_eq!(dir.get_address_by_name("sTwin"), Some(0x200));
}
