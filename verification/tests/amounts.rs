//! Fixed-point amounts: arithmetic, conversion from decimal parts, and
//! canonical rendering.

use moneybags::amount::from_parts;
use moneybags::{render_amount, Amount, EventStore, TxEntry};

fn amt(units: i64) -> Amount {
    Amount::from_units(units)
}

#[test]
fn checked_arithmetic_is_exact_and_guarded() {
    assert_eq!(amt(10111).checked_add(amt(-3)), Some(amt(10108)));
    assert_eq!(amt(10111).checked_sub(amt(20222)), Some(amt(-10111)));
    assert_eq!(amt(i64::MAX).checked_add(amt(1)), None);
    assert_eq!(amt(i64::MIN).checked_sub(amt(1)), None);
    assert_eq!(amt(i64::MIN).checked_add(amt(-1)), None);
    assert!(amt(5).ge(&amt(5)));
    assert!(amt(6).ge(&amt(5)));
    assert!(!amt(4).ge(&amt(5)));
    assert_eq!(Amount::zero().as_units(), 0);
}

#[test]
fn from_parts_scales_exactly() {
    // 1.0111 = 10111 / 10^4
    assert_eq!(from_parts(false, 10111, 4), Some(amt(10111)));
    // 3.4 = 34 / 10^1 -> 34000 ten-thousandths
    assert_eq!(from_parts(false, 34, 1), Some(amt(34000)));
    // 5 whole -> 50000 ten-thousandths
    assert_eq!(from_parts(false, 5, 0), Some(amt(50000)));
    // 1.2345 written with eight decimal places
    assert_eq!(from_parts(false, 123450000, 8), Some(amt(12345)));
    // -100.5001
    assert_eq!(from_parts(true, 1005001, 4), Some(amt(-1005001)));
    // a zero with a large scale is still zero
    assert_eq!(from_parts(false, 0, 28), Some(amt(0)));
}

#[test]
fn from_parts_rejects_what_the_fixed_point_cannot_hold() {
    // 0.00003 needs a fifth decimal digit
    assert_eq!(from_parts(false, 3, 5), None);
    // 0.12345 likewise
    assert_eq!(from_parts(false, 12345, 5), None);
    // too large for an i64 count of ten-thousandths
    assert_eq!(from_parts(false, u128::MAX, 0), None);
    assert_eq!(from_parts(false, 9223372036854775808, 4), None);
    // ... but the negative range reaches one step further
    assert_eq!(
        from_parts(true, 9223372036854775808, 4),
        Some(amt(i64::MIN))
    );
    assert_eq!(
        from_parts(false, 9223372036854775807, 4),
        Some(amt(i64::MAX))
    );
}

#[test]
fn rendering_is_minimal_and_canonical() {
    assert_eq!(render_amount(&amt(0)), "0");
    assert_eq!(render_amount(&amt(10111)), "1.0111");
    assert_eq!(render_amount(&amt(-3)), "-0.0003");
    assert_eq!(render_amount(&amt(34000)), "3.4");
    assert_eq!(render_amount(&amt(120000)), "12");
    assert_eq!(render_amount(&amt(-50000)), "-5");
    assert_eq!(render_amount(&amt(5000)), "0.5");
    assert_eq!(render_amount(&amt(2009999)), "200.9999");
    assert_eq!(render_amount(&amt(1004998)), "100.4998");
    assert_eq!(render_amount(&amt(10)), "0.001");
    assert_eq!(render_amount(&amt(100)), "0.01");
    assert_eq!(render_amount(&amt(i64::MIN)), "-922337203685477.5808");
    assert_eq!(render_amount(&amt(i64::MAX)), "922337203685477.5807");
}

#[test]
fn store_registers_once_and_looks_up() {
    let mut store = EventStore::new();
    let first = TxEntry {
        tx: 5,
        client: 1,
        amount: amt(100),
    };
    let second = TxEntry {
        tx: 5,
        client: 2,
        amount: amt(999),
    };
    let other = TxEntry {
        tx: 6,
        client: 1,
        amount: amt(7),
    };
    assert!(store.put(first));
    assert!(!store.put(second));
    assert!(store.put(other));
    assert_eq!(store.get(5), Some(first));
    assert_eq!(store.get(6), Some(other));
    assert_eq!(store.get(7), None);
}
