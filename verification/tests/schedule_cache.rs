//! Schedule cache freshness, liveness derivation, and failure handling.

use openscout::data::schedule::current_from_snapshot;
use openscout::data::schedule::FetchOutcome;
use openscout::data::schedule::ScheduleCache;
use openscout::data::schedule::MATCH_DEAD_SECONDS;
use openscout::data::schedule::SCHEDULE_CACHE_TTL_SECONDS;
use openscout::data::theblueallience::TbaMatchData;
use openscout::data::theblueallience::TbaScoreBreakdown;
use openscout::data::AssignmentError;
use openscout::data::Complevel;
use openscout::data::MatchNumber;

fn breakdown() -> TbaScoreBreakdown {
    TbaScoreBreakdown { autoPoints: 0, teleopPoints: 0, adjustPoints: 0, foulPoints: 0 }
}

fn match_data(number: u32, time: u64, actual_time: u64) -> TbaMatchData {
    TbaMatchData {
        match_number: MatchNumber { number, level: Complevel::Qualifier },
        winning_allience: None,
        red_allience: [1, 2, 3],
        blue_allience: [4, 5, 6],
        red_score: 0,
        blue_score: 0,
        red_score_breakdown: breakdown(),
        blue_score_breakdown: breakdown(),
        time,
        actual_time,
        predicted_time: time,
    }
}

#[test]
fn no_match_started_first_is_current() {
    let s = vec![match_data(1, 100, 0), match_data(2, 200, 0), match_data(3, 300, 0)];
    let r = current_from_snapshot(&s, 1000);
    assert_eq!(r.unwrap().number, 1);
}

#[test]
fn recently_started_match_is_live() {
    let s = vec![match_data(1, 100, 90), match_data(2, 200, 0), match_data(3, 300, 0)];
    let r = current_from_snapshot(&s, 90 + MATCH_DEAD_SECONDS);
    assert_eq!(r.unwrap().number, 1);
}

#[test]
fn dead_match_advances_to_next_scheduled() {
    let s = vec![match_data(1, 100, 90), match_data(2, 200, 0), match_data(3, 300, 0)];
    let r = current_from_snapshot(&s, 91 + MATCH_DEAD_SECONDS);
    assert_eq!(r.unwrap().number, 2);
}

#[test]
fn dead_final_match_stays_current() {
    let s = vec![match_data(1, 100, 90), match_data(2, 200, 5000)];
    let r = current_from_snapshot(&s, 5001 + MATCH_DEAD_SECONDS);
    assert_eq!(r.unwrap().number, 2);
}

#[test]
fn later_start_wins_over_earlier_one() {
    let s = vec![match_data(1, 100, 90), match_data(2, 200, 190), match_data(3, 300, 0)];
    let r = current_from_snapshot(&s, 200);
    assert_eq!(r.unwrap().number, 2);
}

#[test]
fn empty_snapshot_names_no_match() {
    let s: Vec<TbaMatchData> = Vec::new();
    assert!(current_from_snapshot(&s, 1000).is_none());
}

#[test]
fn unknown_event_is_an_error() {
    let cache = ScheduleCache::new();
    let r = cache.current_match(&"2024evt".to_string(), 50);
    assert_eq!(r, Err(AssignmentError::UnknownEvent));
}

#[test]
fn empty_snapshot_is_schedule_unavailable() {
    let mut cache = ScheduleCache::new();
    let event = "2024evt".to_string();
    cache.apply_fetch(&event, FetchOutcome::Success(Vec::new()), 100);
    let r = cache.current_match(&event, 101);
    assert_eq!(r, Err(AssignmentError::ScheduleUnavailable));
}

#[test]
fn one_fetch_serves_a_hundred_callers_in_the_window() {
    let mut cache = ScheduleCache::new();
    let event = "2024evt".to_string();
    let t = 1_000u64;
    assert!(cache.needs_fetch(&event, t));
    let snapshot = vec![match_data(1, 100, 90), match_data(2, 200, 0)];
    cache.apply_fetch(&event, FetchOutcome::Success(snapshot), t);
    let first = cache.current_match(&event, t).unwrap();
    let mut fetches = 0;
    for caller in 0..100u64 {
        let now = t + caller % (SCHEDULE_CACHE_TTL_SECONDS + 1);
        if cache.needs_fetch(&event, now) {
            fetches += 1;
        }
        assert_eq!(cache.current_match(&event, t).unwrap(), first);
    }
    assert_eq!(fetches, 0);
    // One tick past the window the snapshot is stale again.
    assert!(cache.needs_fetch(&event, t + SCHEDULE_CACHE_TTL_SECONDS + 1));
}

#[test]
fn failed_refresh_serves_the_stale_snapshot() {
    let mut cache = ScheduleCache::new();
    let event = "2024evt".to_string();
    let snapshot = vec![match_data(4, 100, 90)];
    cache.apply_fetch(&event, FetchOutcome::Success(snapshot), 100);
    let before = cache.current_match(&event, 150).unwrap();
    assert_eq!(before.number, 4);
    cache.apply_fetch(&event, FetchOutcome::Failure, 150);
    let after = cache.current_match(&event, 150).unwrap();
    assert_eq!(after, before);
}

#[test]
fn failure_with_no_snapshot_stays_unknown() {
    let mut cache = ScheduleCache::new();
    let event = "2024evt".to_string();
    cache.apply_fetch(&event, FetchOutcome::Failure, 100);
    assert_eq!(cache.current_match(&event, 101), Err(AssignmentError::UnknownEvent));
}

#[test]
fn caches_are_kept_per_event() {
    let mut cache = ScheduleCache::new();
    let a = "2024aaa".to_string();
    let b = "2024bbb".to_string();
    cache.apply_fetch(&a, FetchOutcome::Success(vec![match_data(1, 100, 0)]), 100);
    cache.apply_fetch(&b, FetchOutcome::Success(vec![match_data(9, 100, 0)]), 100);
    assert_eq!(cache.current_match(&a, 101).unwrap().number, 1);
    assert_eq!(cache.current_match(&b, 101).unwrap().number, 9);
    assert!(!cache.needs_fetch(&a, 101));
    assert!(cache.needs_fetch(&"2024ccc".to_string(), 101));
}
