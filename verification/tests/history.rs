use psr::history::{History, HISTORY_CAPACITY};

#[test]
fn new_history_is_empty() {
    let h = History::new();
    assert_eq!(h.len(), 0);
    assert!(h.samples().is_empty());
}

#[test]
fn seeded_history_holds_one_sample() {
    let h = History::seeded(42);
    assert_eq!(h.samples(), &vec![42u64]);
}

#[test]
fn filled_history_is_full_of_the_value() {
    let h = History::filled(0);
    assert_eq!(h.len(), HISTORY_CAPACITY);
    assert!(h.samples().iter().all(|v| *v == 0));
}

#[test]
fn capacity_is_sixty() {
    assert_eq!(HISTORY_CAPACITY, 60);
}

#[test]
fn push_below_capacity_appends() {
    let mut h = History::new();
    for v in 0..59u64 {
        h.push(v);
    }
    assert_eq!(h.len(), 59);
    h.push(59);
    assert_eq!(h.len(), 60);
    assert_eq!(h.samples()[0], 0);
    assert_eq!(h.samples()[59], 59);
}

#[test]
fn push_at_capacity_drops_the_oldest() {
    let mut h = History::new();
    for v in 0..60u64 {
        h.push(v);
    }
    h.push(60);
    assert_eq!(h.len(), 60);
    assert_eq!(h.samples()[0], 1);
    assert_eq!(h.samples()[59], 60);
}

#[test]
fn history_after_many_pushes_is_the_last_sixty() {
    let mut h = History::seeded(1000);
    for v in 0..200u64 {
        h.push(v);
    }
    let expected: Vec<u64> = (140..200u64).collect();
    assert_eq!(h.samples(), &expected);
}

#[test]
fn history_after_exactly_sixty_pushes_forgets_the_seed() {
    let mut h = History::seeded(7);
    for v in 100..160u64 {
        h.push(v);
    }
    let expected: Vec<u64> = (100..160u64).collect();
    assert_eq!(h.samples(), &expected);
}

#[test]
fn filled_history_shifts_on_push() {
    let mut h = History::filled(0);
    h.push(5);
    assert_eq!(h.len(), 60);
    assert_eq!(h.samples()[58], 0);
    assert_eq!(h.samples()[59], 5);
}

#[test]
fn clone_copies_the_samples() {
    let mut h = History::seeded(1);
    h.push(2);
    let mut copy = h.clone();
    copy.push(3);
    assert_eq!(h.samples(), &vec![1u64, 2]);
    assert_eq!(copy.samples(), &vec![1u64, 2, 3]);
}
