use sn_node::back_pressure::{BackPressure, LoadMonitoring, SANITY_MAX_PER_S_AND_PEER, SANITY_MIN_PER_S_AND_PEER};

#[test]
fn first_value_near_the_ceiling_is_recorded_but_not_reported() {
    let mut bp = BackPressure::new();
    // 10 x 49_000 / 1 = 490_000, 98% of the ceiling
    assert_eq!(bp.try_get_new_value(49_000, 1, 5), None);
    assert_eq!(bp.last_report(), Some((5, 490_000)));
}

#[test]
fn first_value_far_from_the_ceiling_is_reported() {
    let mut bp = BackPressure::new();
    assert_eq!(bp.try_get_new_value(10_000, 2, 5), Some(50_000));
    assert_eq!(bp.last_report().map(|r| r.1), Some(50_000));
}

#[test]
fn backpressure_hysteresis() {
    let mut bp = BackPressure::new();
    assert_eq!(bp.try_get_new_value(10_000, 1, 1), Some(100_000));
    // 96% and 109% of the last report: no advertisement, nothing stored
    assert_eq!(bp.try_get_new_value(9_600, 1, 2), None);
    assert_eq!(bp.try_get_new_value(10_900, 1, 3), None);
    assert_eq!(bp.last_report(), Some((1, 100_000)));
    // exactly 95% and then 110% of the last report are advertised
    assert_eq!(bp.try_get_new_value(9_500, 1, 4), Some(95_000));
    assert_eq!(bp.try_get_new_value(10_450, 1, 5), Some(104_500));
    assert_eq!(bp.last_report(), Some((5, 104_500)));
}

#[test]
fn advertised_rate_stays_within_sanity_bounds() {
    let mut bp = BackPressure::new();
    assert_eq!(bp.try_get_new_value(0, 3, 1), Some(SANITY_MIN_PER_S_AND_PEER));
    assert_eq!(bp.try_get_new_value(u64::MAX, 0, 2), Some(SANITY_MAX_PER_S_AND_PEER));
    assert_eq!(bp.try_get_new_value(1, 1_000_000, 3), Some(SANITY_MIN_PER_S_AND_PEER));
}

#[test]
fn load_is_shared_among_sessions() {
    let mut bp = BackPressure::new();
    assert_eq!(bp.try_get_new_value(30_000, 4, 1), Some(75_000));
}

#[test]
fn load_average_follows_counted_messages() {
    let mut m = LoadMonitoring::new();
    for _ in 0..80 {
        m.count_msg();
    }
    m.sample(0);
    assert_eq!(m.count, 80);
    // 80 messages in 1 s: 80_000 thousandths per second, an eighth of it taken in
    m.sample(1000);
    assert_eq!(m.count, 0);
    assert_eq!(m.msgs_per_s(), 10_000);
    m.sample(1000);
    assert_eq!(m.msgs_per_s(), 8_750);
}

#[test]
fn tolerated_rate_uses_the_average_load() {
    let mut bp = BackPressure::new();
    for _ in 0..80 {
        bp.count_msg();
    }
    bp.sample(1000);
    assert_eq!(bp.msgs_per_s(), 10_000);
    assert_eq!(bp.tolerated_msgs_per_s(1, 7), Some(100_000));
    assert_eq!(bp.last_report(), Some((7, 100_000)));
}
