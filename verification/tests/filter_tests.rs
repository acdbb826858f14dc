use loudnorm::filter::{advance, ring_slot, FILTER_BUF_SIZE};

#[test]
fn ring_slot_steps_back_with_wraparound() {
    assert_eq!(ring_slot(4, 0), 4);
    assert_eq!(ring_slot(4, 2), 2);
    assert_eq!(ring_slot(1, 2), 8);
    assert_eq!(ring_slot(0, 8), 1);
    assert_eq!(ring_slot(8, 8), 0);
    assert_eq!(ring_slot(0, 0), 0);
}

#[test]
fn advance_cycles_through_all_slots() {
    assert_eq!(advance(0), 1);
    assert_eq!(advance(7), 8);
    assert_eq!(advance(8), 0);
    let mut cursor = 0;
    let mut seen = vec![false; FILTER_BUF_SIZE];
    for _ in 0..FILTER_BUF_SIZE {
        seen[cursor] = true;
        cursor = advance(cursor);
    }
    assert_eq!(cursor, 0);
    assert!(seen.iter().all(|s| *s));
}
