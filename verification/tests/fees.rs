use commitment_ledger::fees::{fee_from_bps, net_after_fee_bps, BPS_MAX, BPS_SCALE};

#[test]
fn test_fee_from_bps_zero() {
    assert_eq!(fee_from_bps(1000, 0), 0);
}

#[test]
fn test_fee_from_bps_one_percent() {
    assert_eq!(fee_from_bps(10000, 100), 100);
}

#[test]
fn test_fee_from_bps_ten_percent() {
    assert_eq!(fee_from_bps(1000, 1000), 100);
}

#[test]
fn test_fee_from_bps_hundred_percent() {
    assert_eq!(fee_from_bps(1000, 10000), 1000);
}

#[test]
fn test_fee_from_bps_rounds_down() {
    assert_eq!(fee_from_bps(100, 15), 0);
    assert_eq!(fee_from_bps(1000, 33), 3);
}

#[test]
fn test_net_after_fee_bps() {
    assert_eq!(net_after_fee_bps(1000, 100), 990);
    assert_eq!(net_after_fee_bps(10000, 50), 9950);
}

#[test]
fn fee_constants() {
    assert_eq!(BPS_SCALE, 10000);
    assert_eq!(BPS_MAX, 10000);
}

#[test]
fn fee_of_negative_amount_rounds_toward_zero() {
    assert_eq!(fee_from_bps(-1000, 33), -3);
    assert_eq!(fee_from_bps(-100, 15), 0);
    assert_eq!(net_after_fee_bps(-1000, 33), -997);
    assert_eq!(fee_from_bps(-1, 0), 0);
}

#[test]
fn fee_at_the_largest_product_that_fits() {
    let amount = i128::MAX / 10000;
    assert_eq!(fee_from_bps(amount, 10000), amount);
    assert_eq!(net_after_fee_bps(amount, 10000), 0);
    assert_eq!(fee_from_bps(i128::MAX, 1), i128::MAX / 10000);
}
