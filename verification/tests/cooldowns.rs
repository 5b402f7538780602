use coral::cooldowns::{snapshot_stale, Cooldowns, REFRESH_THRESHOLD_MS};

#[test]
fn a_started_cooldown_lasts_four_hours() {
    let mut c = Cooldowns::new();
    assert!(!c.on_cooldown(7, 0));
    c.start(7, 1_000);
    assert!(c.on_cooldown(7, 1_000));
    assert!(c.on_cooldown(7, 1_000 + REFRESH_THRESHOLD_MS - 1));
    assert!(!c.on_cooldown(7, 1_000 + REFRESH_THRESHOLD_MS));
    assert!(!c.on_cooldown(8, 1_000));
}

#[test]
fn an_earlier_clock_reading_counts_as_no_time_passed() {
    let mut c = Cooldowns::new();
    c.start(1, 5_000);
    assert!(c.on_cooldown(1, 10));
}

#[test]
fn starting_keeps_other_cooling_members_and_drops_expired_ones() {
    let mut c = Cooldowns::new();
    c.start(1, 0);
    c.start(2, REFRESH_THRESHOLD_MS - 10);
    c.start(3, REFRESH_THRESHOLD_MS + 5);
    assert!(!c.on_cooldown(1, REFRESH_THRESHOLD_MS + 5));
    assert!(c.on_cooldown(2, REFRESH_THRESHOLD_MS + 5));
    assert!(c.on_cooldown(3, REFRESH_THRESHOLD_MS + 5));
    // the expired entry was dropped, so an earlier clock reading no longer finds it
    assert!(!c.on_cooldown(1, 0));
}

#[test]
fn snapshots_go_stale_after_four_hours() {
    assert!(snapshot_stale(None, 0));
    assert!(!snapshot_stale(Some(1_000), 1_000 + 14_400));
    assert!(snapshot_stale(Some(1_000), 1_000 + 14_401));
    assert!(!snapshot_stale(Some(i64::MAX), i64::MIN));
    assert!(snapshot_stale(Some(i64::MIN), i64::MAX));
}
