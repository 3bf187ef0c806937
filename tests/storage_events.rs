use sn_node::storage_events::{could_not_store_decision, store_data_decision, FullReportDecision, StoreOutcome};

#[test]
fn stored_data_in_a_new_tranche_opens_joins() {
    let d = store_data_decision(StoreOutcome::Stored { level_updated: true }, true, false, true, false);
    assert!(d.set_joins_allowed);
    assert!(!d.set_joins_allowed_until_split);
    assert!(d.response_ok);
}

#[test]
fn reaching_min_capacity_opens_joins_until_split() {
    let d = store_data_decision(StoreOutcome::Stored { level_updated: false }, true, false, false, false);
    assert!(!d.set_joins_allowed);
    assert!(d.set_joins_allowed_until_split);
    let d = store_data_decision(StoreOutcome::Stored { level_updated: false }, true, true, false, false);
    assert!(!d.set_joins_allowed_until_split);
}

#[test]
fn full_store_is_reported_and_answered_with_an_error() {
    let d = store_data_decision(StoreOutcome::NotEnoughSpace, false, false, true, false);
    assert!(d.report_full_to_elders);
    assert!(!d.response_ok);
    assert!(d.set_joins_allowed_until_split);
    let d = store_data_decision(StoreOutcome::NotEnoughSpace, false, false, false, false);
    assert!(!d.set_joins_allowed_until_split);
    let d = store_data_decision(StoreOutcome::Failed, true, false, true, false);
    assert!(d.response_ok && !d.report_full_to_elders);
}

#[test]
fn premature_full_report_proposes_offline() {
    assert_eq!(
        could_not_store_decision(true, false, true, true),
        FullReportDecision { set_joins_allowed: true, propose_offline: true, track_issue: false }
    );
    assert_eq!(
        could_not_store_decision(true, true, true, false),
        FullReportDecision { set_joins_allowed: false, propose_offline: false, track_issue: true }
    );
    assert_eq!(
        could_not_store_decision(false, false, true, true),
        FullReportDecision { set_joins_allowed: false, propose_offline: false, track_issue: false }
    );
}
