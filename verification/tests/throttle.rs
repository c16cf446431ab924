use ruuvitag_listener::mac_address::MacAddress;
use ruuvitag_listener::throttle::{
    is_fresh, parse_duration, Throttle, CLEANUP_CHECK_INTERVAL, CLEANUP_SIZE_THRESHOLD,
};
use std::time::Duration;

fn mac(text: &str) -> MacAddress {
    text.parse().unwrap()
}

fn nanos(d: Duration) -> u128 {
    d.as_nanos()
}

#[test]
fn test_throttle_first_event_allowed() {
    let mut throttle = Throttle::new(nanos(Duration::from_secs(1)));
    assert!(throttle.should_emit(mac("AA:BB:CC:DD:EE:FF")));
}

#[test]
fn test_throttle_immediate_second_event_blocked() {
    let mut throttle = Throttle::new(nanos(Duration::from_secs(1)));
    assert!(throttle.should_emit(mac("AA:BB:CC:DD:EE:FF")));
    assert!(!throttle.should_emit(mac("AA:BB:CC:DD:EE:FF")));
}

#[test]
fn test_throttle_different_devices_independent() {
    let mut throttle = Throttle::new(nanos(Duration::from_secs(1)));
    assert!(throttle.should_emit(mac("AA:BB:CC:DD:EE:FF")));
    assert!(throttle.should_emit(mac("11:22:33:44:55:66")));
    assert!(!throttle.should_emit(mac("AA:BB:CC:DD:EE:FF")));
    assert!(!throttle.should_emit(mac("11:22:33:44:55:66")));
}

#[test]
fn test_throttle_zero_interval() {
    let mut throttle = Throttle::new(nanos(Duration::ZERO));
    assert!(throttle.should_emit(mac("AA:BB:CC:DD:EE:FF")));
    assert!(throttle.should_emit(mac("AA:BB:CC:DD:EE:FF")));
}

#[test]
fn test_throttle_allowed_after_interval_passes() {
    let mut throttle = Throttle::new(nanos(Duration::from_millis(10)));
    let start = nanos(Duration::from_millis(1000));
    assert!(throttle.should_emit_at(mac("AA:BB:CC:DD:EE:FF"), start));
    assert!(!throttle.should_emit_at(mac("AA:BB:CC:DD:EE:FF"), start));

    // The interval passes
    let later = start + nanos(Duration::from_millis(15));

    // Should now be allowed again
    assert!(throttle.should_emit_at(mac("AA:BB:CC:DD:EE:FF"), later));
}

#[test]
fn test_throttle_multiple_rapid_events_only_first_allowed() {
    let mut throttle = Throttle::new(nanos(Duration::from_secs(1)));
    let mac = mac("AA:BB:CC:DD:EE:FF");

    // First event allowed
    assert!(throttle.should_emit(mac));

    // All subsequent rapid events blocked
    for _ in 0..10 {
        assert!(!throttle.should_emit(mac));
    }
}

#[test]
fn test_throttle_alternating_devices() {
    let mut throttle = Throttle::new(nanos(Duration::from_secs(1)));
    let mac1 = mac("AA:BB:CC:DD:EE:FF");
    let mac2 = mac("11:22:33:44:55:66");

    // First events from each device allowed
    assert!(throttle.should_emit(mac1));
    assert!(throttle.should_emit(mac2));

    // Alternating rapid events all blocked
    assert!(!throttle.should_emit(mac1));
    assert!(!throttle.should_emit(mac2));
    assert!(!throttle.should_emit(mac1));
    assert!(!throttle.should_emit(mac2));
}

#[test]
fn test_throttle_many_devices() {
    let mut throttle = Throttle::new(nanos(Duration::from_secs(1)));

    // Create 100 different MAC addresses
    let macs: Vec<String> = (0..100)
        .map(|i| format!("{:02X}:{:02X}:CC:DD:EE:FF", i / 256, i % 256))
        .collect();

    // First event from each should be allowed
    for text in &macs {
        assert!(
            throttle.should_emit(mac(text)),
            "First event for {} should be allowed",
            text
        );
    }

    // Second event from each should be blocked
    for text in &macs {
        assert!(
            !throttle.should_emit(mac(text)),
            "Second event for {} should be blocked",
            text
        );
    }
}

#[test]
fn test_throttle_empty_mac_address() {
    let mut throttle = Throttle::new(nanos(Duration::from_secs(1)));

    // The all-zero address is a valid key
    assert!(throttle.should_emit(MacAddress::default()));
    assert!(!throttle.should_emit(MacAddress::default()));
}

#[test]
fn test_throttle_timer_resets_on_emit() {
    let mut throttle = Throttle::new(nanos(Duration::from_millis(20)));
    let mac = mac("AA:BB:CC:DD:EE:FF");
    let ms = |n: u64| nanos(Duration::from_millis(n));

    assert!(throttle.should_emit_at(mac, ms(0)));

    // Partial interval
    assert!(!throttle.should_emit_at(mac, ms(15)));

    // Full interval from first emit
    assert!(throttle.should_emit_at(mac, ms(15 + 10))); // Allowed - timer reset here

    // Immediately after, should be blocked again
    assert!(!throttle.should_emit_at(mac, ms(15 + 10)));
    assert!(!throttle.should_emit_at(mac, ms(15 + 10 + 19)));
    assert!(throttle.should_emit_at(mac, ms(15 + 10 + 20)));
}

#[test]
fn test_throttle_blocked_event_does_not_reset_timer() {
    let mut throttle = Throttle::new(nanos(Duration::from_millis(30)));
    let mac = mac("AA:BB:CC:DD:EE:FF");
    let ms = |n: u64| nanos(Duration::from_millis(n));

    assert!(throttle.should_emit_at(mac, ms(0))); // t=0, timer starts

    assert!(!throttle.should_emit_at(mac, ms(10))); // t=10, blocked, timer NOT reset

    assert!(!throttle.should_emit_at(mac, ms(10 + 10))); // t=20, still blocked

    // t=35, now past the 30ms interval from t=0
    assert!(throttle.should_emit_at(mac, ms(10 + 10 + 15))); // Should be allowed
}

#[test]
fn test_throttle_case_sensitive_mac() {
    let mut throttle = Throttle::new(nanos(Duration::from_secs(1)));

    // A device is known by the six bytes of its address: both spellings
    // name one device
    assert!(throttle.should_emit(mac("AA:BB:CC:DD:EE:FF")));
    assert!(!throttle.should_emit(mac("aa:bb:cc:dd:ee:ff"))); // Same key

    assert!(!throttle.should_emit(mac("AA:BB:CC:DD:EE:FF")));
    assert!(!throttle.should_emit(mac("aa:bb:cc:dd:ee:ff")));
    assert_eq!(throttle.len(), 1);
}

#[test]
fn test_parse_duration_seconds() {
    assert_eq!(parse_duration("3s").unwrap(), nanos(Duration::from_secs(3)));
    assert_eq!(parse_duration("30s").unwrap(), nanos(Duration::from_secs(30)));
    assert_eq!(parse_duration("0s").unwrap(), nanos(Duration::from_secs(0)));
}

#[test]
fn test_parse_duration_minutes() {
    assert_eq!(parse_duration("1m").unwrap(), nanos(Duration::from_secs(60)));
    assert_eq!(parse_duration("5m").unwrap(), nanos(Duration::from_secs(300)));
}

#[test]
fn test_parse_duration_hours() {
    assert_eq!(parse_duration("1h").unwrap(), nanos(Duration::from_secs(3600)));
    assert_eq!(parse_duration("2h").unwrap(), nanos(Duration::from_secs(7200)));
}

#[test]
fn test_parse_duration_milliseconds() {
    assert_eq!(
        parse_duration("500ms").unwrap(),
        nanos(Duration::from_millis(500))
    );
    assert_eq!(
        parse_duration("1000ms").unwrap(),
        nanos(Duration::from_millis(1000))
    );
}

#[test]
fn test_parse_duration_no_suffix() {
    assert_eq!(parse_duration("10").unwrap(), nanos(Duration::from_secs(10)));
}

#[test]
fn test_parse_duration_with_whitespace() {
    assert_eq!(parse_duration(" 3s ").unwrap(), nanos(Duration::from_secs(3)));
    assert_eq!(parse_duration("3 s").unwrap(), nanos(Duration::from_secs(3)));
}

#[test]
fn test_parse_duration_invalid() {
    assert!(parse_duration("").is_err());
    assert!(parse_duration("abc").is_err());
    assert!(parse_duration("-1s").is_err());
}

#[test]
fn test_throttle_cleanup_stale_entries() {
    let mut throttle = Throttle::new(nanos(Duration::from_millis(10)));
    let mac1 = mac("AA:BB:CC:DD:EE:FF");
    let mac2 = mac("11:22:33:44:55:66");
    let now = nanos(Duration::from_millis(200)); // 20x the interval

    // Add entries for two devices, one of them very old (a stale device)
    assert!(throttle.should_emit_at(mac1, 0));
    assert!(throttle.should_emit_at(mac2, now));

    // Verify both are remembered
    assert_eq!(throttle.len(), 2);

    // Trigger cleanup
    throttle.cleanup_stale_at(now);

    // Stale entry should be removed, active entry should remain
    assert!(!throttle.contains(mac1));
    assert!(throttle.contains(mac2));
}

#[test]
fn test_throttle_cleanup_preserves_recent_entries() {
    let mut throttle = Throttle::new(nanos(Duration::from_millis(10)));
    let mac1 = mac("AA:BB:CC:DD:EE:FF");
    let mac2 = mac("11:22:33:44:55:66");

    assert!(throttle.should_emit(mac1));
    assert!(throttle.should_emit(mac2));

    // Both entries are recent, cleanup should preserve both
    throttle.cleanup_stale();

    assert!(throttle.contains(mac1));
    assert!(throttle.contains(mac2));
}

#[test]
fn test_throttle_cleanup_zero_interval() {
    let mut throttle = Throttle::new(nanos(Duration::ZERO));
    let mac = mac("AA:BB:CC:DD:EE:FF");

    assert!(throttle.should_emit(mac));
    assert_eq!(throttle.len(), 1);

    // Cleanup with zero interval should be a no-op
    throttle.cleanup_stale();
    throttle.cleanup_stale_at(u128::MAX);

    // Entry should still be there
    assert!(throttle.contains(mac));
}

#[test]
fn test_throttle_periodic_cleanup() {
    let mut throttle = Throttle::new(nanos(Duration::from_millis(10)));
    let stale_mac = mac("AA:BB:CC:DD:EE:FF");
    let now = nanos(Duration::from_millis(200));

    // Add a stale entry
    throttle.should_emit_at(stale_mac, 0);

    // Add enough entries to exceed CLEANUP_SIZE_THRESHOLD
    for i in 0..CLEANUP_SIZE_THRESHOLD + 10 {
        let text = format!("{:02X}:{:02X}:00:00:00:00", i / 256, i % 256);
        throttle.should_emit_at(mac(&text), now);
    }

    // Call should_emit enough times to trigger cleanup check
    for _ in 0..CLEANUP_CHECK_INTERVAL {
        throttle.should_emit_at(mac("FF:FF:FF:FF:FF:FF"), now);
    }

    // Stale entry should be cleaned up
    assert!(!throttle.contains(stale_mac));
}

#[test]
fn test_throttle_no_cleanup_below_size_threshold() {
    let mut throttle = Throttle::new(nanos(Duration::from_millis(10)));
    let stale_mac = mac("AA:BB:CC:DD:EE:FF");
    let now = nanos(Duration::from_millis(200));

    // Add a stale entry
    throttle.should_emit_at(stale_mac, 0);

    // Add fewer entries than CLEANUP_SIZE_THRESHOLD
    for i in 0..10 {
        let text = format!("{:02X}:00:00:00:00:00", i);
        throttle.should_emit_at(mac(&text), now);
    }

    // Trigger check interval multiple times
    for _ in 0..CLEANUP_CHECK_INTERVAL * 2 {
        throttle.should_emit_at(mac("FF:FF:FF:FF:FF:FF"), now);
    }

    // Stale entry should still exist (cleanup was skipped due to size threshold)
    assert!(throttle.contains(stale_mac));
}

#[test]
fn test_throttle_cleanup_empty_map() {
    let mut throttle = Throttle::new(nanos(Duration::from_secs(1)));

    // Cleanup on empty map should not panic
    throttle.cleanup_stale();
    assert_eq!(throttle.len(), 0);
}

#[test]
fn sweep_keeps_entries_at_the_threshold() {
    let mut throttle = Throttle::new(10);
    let at = MacAddress([0, 0, 0, 0, 0, 1]);
    let over = MacAddress([0, 0, 0, 0, 0, 2]);
    let fresh = MacAddress([0, 0, 0, 0, 0, 3]);
    let ahead = MacAddress([0, 0, 0, 0, 0, 4]);
    assert!(throttle.should_emit_at(at, 900));
    assert!(throttle.should_emit_at(over, 899));
    assert!(throttle.should_emit_at(fresh, 1000));
    assert!(throttle.should_emit_at(ahead, 5000));
    throttle.cleanup_stale_at(1000);
    assert!(throttle.contains(at));
    assert!(!throttle.contains(over));
    assert!(throttle.contains(fresh));
    assert!(throttle.contains(ahead));
    assert_eq!(throttle.len(), 3);
    assert_eq!(throttle.interval(), 10);
}

#[test]
fn sweep_is_considered_on_every_hundredth_observation() {
    let mut throttle = Throttle::new(10);
    let stale = MacAddress([9, 9, 9, 9, 9, 9]);
    throttle.should_emit_at(stale, 0);
    for i in 0..60u8 {
        throttle.should_emit_at(MacAddress([0, 0, 0, 0, 1, i]), 1000);
    }
    // 61 observations so far; the sweep comes with the hundredth
    for _ in 0..38 {
        throttle.should_emit_at(MacAddress([0, 0, 0, 0, 1, 0]), 1000);
    }
    assert!(throttle.contains(stale));
    throttle.should_emit_at(MacAddress([0, 0, 0, 0, 1, 0]), 1000);
    assert!(!throttle.contains(stale));
    assert_eq!(throttle.len(), 60);
}

#[test]
fn clock_that_runs_backwards_counts_as_no_time_passed() {
    let mut throttle = Throttle::new(10);
    let mac = MacAddress([1, 2, 3, 4, 5, 6]);
    assert!(throttle.should_emit_at(mac, 1000));
    assert!(!throttle.should_emit_at(mac, 500));
    assert!(!throttle.should_emit_at(mac, 1009));
    assert!(throttle.should_emit_at(mac, 1010));
}

#[test]
fn huge_interval_never_overflows() {
    let mut throttle = Throttle::new(u128::MAX);
    let mac = MacAddress([1, 2, 3, 4, 5, 6]);
    assert!(throttle.should_emit_at(mac, 0));
    assert!(!throttle.should_emit_at(mac, u128::MAX - 1));
    throttle.cleanup_stale_at(u128::MAX);
    assert!(throttle.contains(mac));
}

#[test]
fn freshness_is_age_within_threshold() {
    assert!(is_fresh(100, 90, 10));
    assert!(!is_fresh(100, 89, 10));
    assert!(is_fresh(100, 200, 0));
    assert!(is_fresh(0, 0, 0));
}

#[test]
fn parse_duration_exact_values_and_messages() {
    assert_eq!(parse_duration("500ms"), Ok(500_000_000));
    assert_eq!(parse_duration("2h"), Ok(7_200_000_000_000));
    assert_eq!(parse_duration("5m"), Ok(300_000_000_000));
    assert_eq!(parse_duration("+7"), Ok(7_000_000_000));
    assert_eq!(parse_duration("007s"), Ok(7_000_000_000));
    assert_eq!(parse_duration("\t12 ms\n"), Ok(12_000_000));
    assert_eq!(
        parse_duration("18446744073709551615h"),
        Ok(18446744073709551615u128 * 3_600_000_000_000)
    );
    assert_eq!(parse_duration(""), Err("empty duration string".to_string()));
    assert_eq!(parse_duration("   "), Err("empty duration string".to_string()));
    assert_eq!(parse_duration("abc"), Err("invalid duration: abc".to_string()));
    assert_eq!(parse_duration("-1s"), Err("invalid seconds: -1".to_string()));
    assert_eq!(parse_duration("xms"), Err("invalid milliseconds: x".to_string()));
    assert_eq!(parse_duration("1.5h"), Err("invalid hours: 1.5".to_string()));
    assert_eq!(parse_duration("m"), Err("invalid minutes: ".to_string()));
    assert_eq!(parse_duration("3 x s"), Err("invalid seconds: 3 x ".to_string()));
    assert_eq!(
        parse_duration("18446744073709551616"),
        Err("invalid duration: 18446744073709551616".to_string())
    );
}
