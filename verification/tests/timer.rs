use rssbox::config::data::Sync;
use rssbox::{sync_rss_tick, sync_rss_timer};

fn config(sync_interval: i64, is_auto_sync: bool) -> Sync {
    Sync { sync_interval, sync_timeout: 15, is_auto_sync, is_start_sync: true }
}

#[test]
fn the_timer_fires_when_the_interval_has_passed() {
    let mut last = 1000;
    assert!(!sync_rss_timer(&mut last, 1000 + 3599, &config(60, true)));
    assert_eq!(last, 1000);
    assert!(sync_rss_timer(&mut last, 1000 + 3600, &config(60, true)));
    assert_eq!(last, 4600);
    assert!(!sync_rss_timer(&mut last, 4600 + 10, &config(60, true)));
    assert_eq!(last, 4600);
}

#[test]
fn the_interval_is_at_least_one_minute() {
    for minutes in [1, 0, -3, i64::MIN] {
        let mut last = 0;
        assert!(!sync_rss_timer(&mut last, 59, &config(minutes, true)));
        assert!(sync_rss_timer(&mut last, 60, &config(minutes, true)));
        assert_eq!(last, 60);
    }
}

#[test]
fn a_timer_that_is_switched_off_is_set_anew() {
    let mut last = 0;
    assert!(!sync_rss_timer(&mut last, 100_000, &config(1, false)));
    assert_eq!(last, 100_000);
    assert!(!sync_rss_timer(&mut last, 100_010, &config(1, true)));
    assert!(sync_rss_timer(&mut last, 100_060, &config(1, true)));
}

#[test]
fn the_timer_does_not_overflow() {
    let mut last = i64::MAX;
    assert!(!sync_rss_timer(&mut last, i64::MAX, &config(i64::MAX, true)));
    assert_eq!(last, i64::MAX);
    let mut last = i64::MIN;
    assert!(sync_rss_timer(&mut last, i64::MAX, &config(1, true)));
    assert_eq!(last, i64::MAX);
}

#[test]
fn a_tick_reads_the_clock() {
    let mut last = 0;
    assert!(sync_rss_tick(&mut last, &config(60, true)));
    assert!(last > 1_600_000_000);
    let set = last;
    assert!(!sync_rss_tick(&mut last, &config(60, true)));
    assert_eq!(last, set);
}
