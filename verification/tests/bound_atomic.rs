use smpp_rust::bound_atomic::{BoundAtomic, SequenceCounter};

#[test]
fn generator_counts_up_and_starts_over() {
    let generator = BoundAtomic::new(1, 3);
    assert_eq!(generator.next_val(), 1);
    assert_eq!(generator.next_val(), 2);
    assert_eq!(generator.next_val(), 3);
    assert_eq!(generator.next_val(), 1);
    assert_eq!(generator.next_val(), 2);
}

#[test]
fn generator_gives_every_number_of_its_range_once_a_round() {
    let min: i32 = -3;
    let max: i32 = 4;
    let generator = BoundAtomic::new(min, max);
    let mut round: i32 = 0;
    while round < 3 {
        let mut expected: i32 = min;
        while expected <= max {
            assert_eq!(generator.next_val(), expected);
            expected += 1;
        }
        round += 1;
    }
}

#[test]
fn generator_of_one_number_repeats_it() {
    let generator = BoundAtomic::new(7, 7);
    assert_eq!(generator.next_val(), 7);
    assert_eq!(generator.next_val(), 7);
    assert_eq!(generator.next_val(), 7);
}

#[test]
fn generator_starts_over_at_the_largest_number() {
    let generator = BoundAtomic::new(0x7FFF_FFFE, 0x7FFF_FFFF);
    assert_eq!(generator.next_val(), 0x7FFF_FFFE);
    assert_eq!(generator.next_val(), 0x7FFF_FFFF);
    assert_eq!(generator.next_val(), 0x7FFF_FFFE);
    let generator = BoundAtomic::new(i32::MIN, i32::MIN + 1);
    assert_eq!(generator.next_val(), i32::MIN);
    assert_eq!(generator.next_val(), i32::MIN + 1);
    assert_eq!(generator.next_val(), i32::MIN);
}

#[test]
fn generator_is_shared_by_reference() {
    let generator = BoundAtomic::new(1, 0x7FFF_FFFF);
    let first = &generator;
    let second = &generator;
    assert_eq!(first.next_val(), 1);
    assert_eq!(second.next_val(), 2);
    assert_eq!(first.next_val(), 3);
}

#[test]
fn counter_counts_up_and_starts_over() {
    let mut counter = SequenceCounter::new(-1, 1);
    assert_eq!(counter.next_val(), -1);
    assert_eq!(counter.next_val(), 0);
    assert_eq!(counter.next_val(), 1);
    assert_eq!(counter.next_val(), -1);
}
