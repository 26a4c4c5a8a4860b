//! Slot-table and registry behaviour.

use openscout::assignments::Position;
use openscout::data::Match;
use openscout::data::MatchScoutAssignments;

#[test]
fn allocation_order_is_enumeration_order() {
    let mut table = Match::new();
    assert_eq!(table.get_assignment(), Position::RED1);
    assert_eq!(table.get_assignment(), Position::RED2);
    assert_eq!(table.get_assignment(), Position::RED3);
    assert_eq!(table.get_assignment(), Position::BLUE1);
    assert_eq!(table.get_assignment(), Position::BLUE2);
    assert_eq!(table.get_assignment(), Position::BLUE3);
}

#[test]
fn six_allocations_are_distinct_and_fill_the_table() {
    let mut table = Match::new();
    let mut seen = [false; 6];
    for _ in 0..6 {
        let p = table.get_assignment();
        let i = p.index();
        assert!(!seen[i], "slot handed out twice");
        seen[i] = true;
    }
    assert!(seen.iter().all(|s| *s));
    for i in 0..6 {
        assert!(table.filled(Position::from_index(i)));
    }
}

#[test]
fn seventh_allocation_returns_a_valid_slot_without_error() {
    let mut table = Match::new();
    for _ in 0..6 {
        table.get_assignment();
    }
    let p = table.get_assignment();
    assert!(p.index() < 6);
    // The overflow assignment left the fill state untouched.
    for i in 0..6 {
        assert!(table.filled(Position::from_index(i)));
    }
}

#[test]
fn overflow_allocation_covers_all_slots_roughly_uniformly() {
    let mut table = Match::new();
    for _ in 0..6 {
        table.get_assignment();
    }
    let trials = 6000;
    let mut counts = [0usize; 6];
    for _ in 0..trials {
        let p = table.get_assignment();
        counts[p.index()] += 1;
    }
    // Expected count per slot is 1000; far looser bounds make a miss
    // astronomically unlikely under a uniform draw.
    for c in counts {
        assert!(c > 250, "slot drawn far too rarely: {}", c);
        assert!(c < 4000, "slot drawn far too often: {}", c);
    }
}

#[test]
fn two_sequential_allocations_never_share_a_slot() {
    for prefill in 0..5 {
        let mut table = Match::new();
        for _ in 0..prefill {
            table.get_assignment();
        }
        let a = table.get_assignment();
        let b = table.get_assignment();
        assert_ne!(a, b);
    }
}

#[test]
fn watermark_never_decreases() {
    let mut reg = MatchScoutAssignments::new();
    assert_eq!(reg.current_match(), 0);
    reg.get_assignment(7);
    assert_eq!(reg.current_match(), 7);
    reg.get_assignment(3);
    assert_eq!(reg.current_match(), 7);
    reg.get_assignment(9);
    assert_eq!(reg.current_match(), 9);
}

#[test]
fn registry_tracks_each_match_independently() {
    let mut reg = MatchScoutAssignments::new();
    assert_eq!(reg.get_assignment(4), Position::RED1);
    assert_eq!(reg.get_assignment(4), Position::RED2);
    assert_eq!(reg.get_assignment(5), Position::RED1);
    assert_eq!(reg.get_assignment(4), Position::RED3);
    assert_eq!(reg.get_assignment(5), Position::RED2);
}

#[test]
fn position_index_round_trip() {
    for i in 0..6 {
        let p = Position::from_index(i);
        assert_eq!(p.index(), i);
    }
}
