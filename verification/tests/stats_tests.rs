use osdd::stats::{Counter, Gauge, StatsAllHandlers};

#[test]
fn counter_add_load_test() {
    let mut counter = Counter::default();
    assert_eq!(counter.load(), 0);
    counter.add(5);
    counter.add(7);
    assert_eq!(counter.load(), 12);
    let taken = counter.get_and_reset();
    assert_eq!(taken, 12);
    assert_eq!(counter.load(), 0);
}

#[test]
fn counter_wraps_test() {
    let mut counter = Counter(u64::MAX);
    counter.add(3);
    assert_eq!(counter.load(), 2);
}

#[test]
fn gauge_set_get_test() {
    let mut gauge = Gauge::default();
    assert_eq!(gauge.get(), 0);
    gauge.set(42);
    gauge.set(17);
    assert_eq!(gauge.get(), 17);
}

#[test]
fn snapshot_resets_counters_keeps_gauge_test() {
    let mut stats = StatsAllHandlers::new_with_custom_fields(Some("filtered"), Some("behind"));
    stats.in_bytes.add(100);
    stats.in_packets.add(2);
    stats.out_bytes.add(90);
    stats.out_packets.add(1);
    stats.dropped_bytes.add(10);
    stats.dropped_packets.add(1);
    stats.packetloss.add(3);
    stats.add_custom_counter(4).expect("custom counter is set up");
    stats.set_custom_gauge(55).expect("custom gauge is set up");

    let snapshot = stats.snapshot_and_reset();
    assert_eq!(snapshot.in_bytes, 100);
    assert_eq!(snapshot.in_packets, 2);
    assert_eq!(snapshot.out_bytes, 90);
    assert_eq!(snapshot.out_packets, 1);
    assert_eq!(snapshot.dropped_bytes, 10);
    assert_eq!(snapshot.dropped_packets, 1);
    assert_eq!(snapshot.packetloss, 3);
    assert_eq!(snapshot.custom_counter, Some(4));
    assert_eq!(snapshot.custom_gauge, Some(55));

    // counters were read-and-reset, the gauge keeps its value
    let again = stats.snapshot_and_reset();
    assert_eq!(again.in_bytes, 0);
    assert_eq!(again.packetloss, 0);
    assert_eq!(again.custom_counter, Some(0));
    assert_eq!(again.custom_gauge, Some(55));
}

#[test]
fn custom_fields_missing_test() {
    let mut stats = StatsAllHandlers::default();
    assert!(stats.set_custom_gauge(1).is_err());
    assert!(stats.add_custom_counter(1).is_err());
    let snapshot = stats.snapshot_and_reset();
    assert_eq!(snapshot.custom_counter, None);
    assert_eq!(snapshot.custom_gauge, None);
}

#[test]
fn custom_field_names_test() {
    let stats = StatsAllHandlers::new_with_custom_fields(Some("messages.behind"), None);
    let (_, name) = stats.custom_counter.as_ref().expect("counter is set up");
    assert_eq!(name, "messages.behind");
    assert!(stats.custom_gauge.is_none());
}
