use callstack::error::ErrorKind;
use callstack::gas::{GasCharge, GasTracker};

fn charge(compute: i64, storage: i64) -> GasCharge {
    GasCharge::new(compute, storage).unwrap()
}

#[test]
fn charge_parts_must_not_be_negative() {
    assert_eq!(GasCharge::new(-1, 0), None);
    assert_eq!(GasCharge::new(0, -1), None);
    assert_eq!(GasCharge::new(3, 4), Some(GasCharge { compute_gas: 3, storage_gas: 4 }));
}

#[test]
fn tracker_starts_within_its_limit() {
    assert_eq!(GasTracker::new(10, 11), None);
    assert_eq!(GasTracker::new(10, -1), None);
    assert_eq!(GasTracker::new(-5, 0), None);
    let t = GasTracker::new(10, 4).unwrap();
    assert_eq!(t.gas_used(), 4);
    assert_eq!(t.gas_available(), 6);
}

#[test]
fn charge_adds_both_parts() {
    let mut t = GasTracker::new(100, 0).unwrap();
    assert_eq!(t.charge_gas(charge(30, 12)), Ok(()));
    assert_eq!(t.gas_used(), 42);
    assert_eq!(t.gas_available(), 58);
}

#[test]
fn charge_up_to_the_limit_succeeds() {
    let mut t = GasTracker::new(100, 60).unwrap();
    assert_eq!(t.charge_gas(charge(40, 0)), Ok(()));
    assert_eq!(t.gas_used(), 100);
    assert_eq!(t.gas_available(), 0);
}

#[test]
fn charge_over_the_limit_fails_and_keeps_the_total() {
    let mut t = GasTracker::new(100, 60).unwrap();
    assert_eq!(t.charge_gas(charge(40, 1)), Err(ErrorKind::OutOfGas));
    assert_eq!(t.gas_used(), 60);
    assert_eq!(t.gas_available(), 40);
    assert_eq!(t.charge_gas(charge(10, 10)), Ok(()));
    assert_eq!(t.gas_used(), 80);
}

#[test]
fn charge_that_would_overflow_fails() {
    let mut t = GasTracker::new(i64::MAX, 5).unwrap();
    assert_eq!(t.charge_gas(charge(i64::MAX, i64::MAX)), Err(ErrorKind::OutOfGas));
    assert_eq!(t.gas_used(), 5);
    assert_eq!(t.charge_gas(charge(i64::MAX - 5, 0)), Ok(()));
    assert_eq!(t.gas_used(), i64::MAX);
}

#[test]
fn used_never_exceeds_limit_over_a_sequence() {
    let mut t = GasTracker::new(50, 0).unwrap();
    let amounts: [i64; 7] = [10, 25, 20, 15, 1, 0, 7];
    let mut expected: i64 = 0;
    for a in amounts {
        let before = t.gas_used();
        let r = t.charge_gas(charge(a, 0));
        if expected + a > 50 {
            assert_eq!(r, Err(ErrorKind::OutOfGas));
            assert_eq!(t.gas_used(), before);
        } else {
            assert_eq!(r, Ok(()));
            expected += a;
        }
        assert_eq!(t.gas_used(), expected);
        assert!(t.gas_used() <= 50);
    }
    assert_eq!(t.gas_used(), 50);
}
