use xv0::timer::{pit_divisor_bytes, ticks, ticks_ms, wait_ms, TickCounter, PIT_DIVISOR};

#[test]
fn pit_divisor_is_split_low_byte_first() {
    assert_eq!(pit_divisor_bytes(PIT_DIVISOR), (0xa9, 0x04));
    assert_eq!(pit_divisor_bytes(0), (0, 0));
    assert_eq!(pit_divisor_bytes(0xffff), (0xff, 0xff));
}

#[test]
fn ticks_count_interrupts() {
    let mut t = TickCounter::new();
    assert_eq!(ticks(&t), 0);
    for _ in 0..5 {
        t.timer_interrupt();
    }
    assert_eq!(ticks(&t), 5);
    assert_eq!(ticks_ms(&t), 5);
}

#[test]
fn wait_lasts_exactly_ms_ticks() {
    assert!(wait_ms(100, 100, 28));
    assert!(wait_ms(100, 127, 28));
    assert!(!wait_ms(100, 128, 28));
    assert!(!wait_ms(100, 1000, 28));
    assert!(!wait_ms(5, 5, 0));
}

#[test]
fn wait_across_counter_wrap() {
    assert!(wait_ms(u64::MAX - 1, 3, 10));
    assert!(!wait_ms(u64::MAX - 1, 8, 10));
}
