use raft_election::ElectionTimer;

#[test]
fn timer_needs_a_range_with_a_duration_in_it() {
    assert!(ElectionTimer::new(150, 300).is_some());
    assert!(ElectionTimer::new(0, 1).is_some());
    assert!(ElectionTimer::new(300, 150).is_none());
    assert!(ElectionTimer::new(150, 150).is_none());
    assert!(ElectionTimer::new(0, 0).is_none());
}

#[test]
fn new_timer_is_not_armed() {
    let mut timer = ElectionTimer::new(150, 300).unwrap();
    assert_eq!(timer.deadline(), None);
    assert_eq!(timer.remaining(0), None);
    assert!(!timer.fire(u64::MAX));
}

#[test]
fn reset_selects_the_duration_from_the_sample() {
    let mut timer = ElectionTimer::new(150, 300).unwrap();
    assert_eq!(timer.reset(1000, 7), 1157);
    assert_eq!(timer.deadline(), Some(1157));
    assert_eq!(timer.reset(1000, 0), 1150);
    assert_eq!(timer.reset(1000, 149), 1299);
    assert_eq!(timer.reset(1000, 150), 1150);
    assert_eq!(timer.reset(1000, 151), 1151);
    // u64::MAX is 15 more than a multiple of 150.
    assert_eq!(timer.reset(0, u64::MAX), 165);
}

#[test]
fn reset_stays_within_the_range() {
    let mut timer = ElectionTimer::new(150, 300).unwrap();
    let mut sample: u64 = 1;
    for _ in 0..200 {
        sample = sample.wrapping_mul(6364136223846793005).wrapping_add(1442695040888963407);
        let deadline = timer.reset(5000, sample);
        assert!(deadline >= 5150);
        assert!(deadline < 5300);
    }
}

#[test]
fn every_duration_of_the_range_can_be_drawn() {
    let mut timer = ElectionTimer::new(10, 15).unwrap();
    let mut drawn = Vec::new();
    for sample in 0..5 {
        drawn.push(timer.reset(100, sample));
    }
    assert_eq!(drawn, vec![110, 111, 112, 113, 114]);
}

#[test]
fn reset_replaces_the_live_deadline() {
    let mut timer = ElectionTimer::new(150, 300).unwrap();
    timer.reset(1000, 0);
    timer.reset(1100, 0);
    assert_eq!(timer.deadline(), Some(1250));
    assert!(!timer.fire(1150));
    assert!(!timer.fire(1249));
    assert!(timer.fire(1250));
}

#[test]
fn timer_fires_once_per_deadline() {
    let mut timer = ElectionTimer::new(150, 300).unwrap();
    timer.reset(1000, 7);
    assert!(!timer.fire(1156));
    assert_eq!(timer.deadline(), Some(1157));
    assert!(timer.fire(1157));
    assert_eq!(timer.deadline(), None);
    assert!(!timer.fire(1157));
    assert!(!timer.fire(9999));
    timer.reset(2000, 7);
    assert!(timer.fire(3000));
}

#[test]
fn cancel_disarms_the_timer() {
    let mut timer = ElectionTimer::new(150, 300).unwrap();
    timer.reset(1000, 7);
    timer.cancel();
    assert_eq!(timer.deadline(), None);
    assert!(!timer.fire(5000));
}

#[test]
fn remaining_counts_down_to_the_deadline() {
    let mut timer = ElectionTimer::new(150, 300).unwrap();
    timer.reset(1000, 7);
    assert_eq!(timer.remaining(1000), Some(157));
    assert_eq!(timer.remaining(1100), Some(57));
    assert_eq!(timer.remaining(1157), Some(0));
    assert_eq!(timer.remaining(4000), Some(0));
}

#[test]
fn deadline_stops_at_the_end_of_time() {
    let mut timer = ElectionTimer::new(150, 300).unwrap();
    assert_eq!(timer.reset(u64::MAX - 10, 0), u64::MAX);
    assert_eq!(timer.reset(u64::MAX - 150, 0), u64::MAX);
    assert_eq!(timer.reset(u64::MAX - 151, 0), u64::MAX - 1);
    assert!(!timer.fire(u64::MAX - 2));
    assert!(timer.fire(u64::MAX - 1));
}

#[test]
fn timer_clone_keeps_range_and_deadline() {
    let mut timer = ElectionTimer::new(150, 300).unwrap();
    timer.reset(1000, 7);
    let mut copy = timer.clone();
    assert_eq!(copy.deadline(), Some(1157));
    assert_eq!(copy.reset(0, 149), 299);
    assert_eq!(timer.deadline(), Some(1157));
}
