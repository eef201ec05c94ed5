use requestx::profiling::{micros_to_u64, PhaseTimer};

#[test]
fn timer_keeps_name_and_counts_up() {
    let t = PhaseTimer::new("parse");
    assert_eq!(t.phase_name(), "parse");
    let a = t.elapsed_us();
    let b = t.elapsed_us();
    assert!(b >= a);
}

#[test]
fn micros_truncate() {
    assert_eq!(micros_to_u64(5), 5);
    assert_eq!(micros_to_u64((1u128 << 64) + 7), 7);
}
