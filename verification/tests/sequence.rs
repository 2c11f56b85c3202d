use olds::sequence::{next_number, SequenceGenerator};

#[test]
fn starts_at_zero_and_counts_up() {
    let mut counter = SequenceGenerator::new();
    for expected in 0..1000u16 {
        assert_eq!(next_number(&mut counter), expected);
    }
}

#[test]
fn consecutive_numbers_are_distinct() {
    let mut counter = SequenceGenerator::new();
    let mut seen = vec![false; 65536];
    for _ in 0..65536u32 {
        let number = counter.next();
        assert!(!seen[number as usize]);
        seen[number as usize] = true;
    }
    assert!(seen.iter().all(|&b| b));
}

#[test]
fn wraps_after_sixteen_bits() {
    let mut counter = SequenceGenerator::new();
    let mut last = 0u16;
    for _ in 0..65536u32 {
        last = counter.next();
    }
    assert_eq!(last, 65535);
    assert_eq!(counter.next(), 0);
    assert_eq!(counter.next(), 1);
}
