use anoma::gas::{GasError, VpGasMeter, TRANSACTION_GAS_LIMIT};

#[test]
fn new_meter_starts_at_zero() {
    let m = VpGasMeter::new(42);
    assert_eq!(m.initial_gas, 42);
    assert_eq!(m.current_gas, 0);
}

#[test]
fn add_within_limit_counts_gas() {
    let mut m = VpGasMeter::new(10);
    assert_eq!(m.add(5), Ok(()));
    assert_eq!(m.add(7), Ok(()));
    assert_eq!(m.current_gas, 12);
    assert_eq!(m.initial_gas, 10);
}

#[test]
fn add_up_to_exact_limit_is_accepted() {
    let mut m = VpGasMeter::new(TRANSACTION_GAS_LIMIT - 100);
    assert_eq!(m.add(100), Ok(()));
    assert_eq!(m.current_gas, 100);
}

#[test]
fn add_past_limit_fails_but_counts() {
    let mut m = VpGasMeter::new(TRANSACTION_GAS_LIMIT - 100);
    assert_eq!(m.add(101), Err(GasError::TransactionGasExceededError));
    assert_eq!(m.current_gas, 101);
}

#[test]
fn add_overflowing_current_gas_fails_and_keeps_meter() {
    let mut m = VpGasMeter { initial_gas: 0, current_gas: u64::MAX - 1 };
    assert_eq!(m.add(2), Err(GasError::GasOverflow));
    assert_eq!(m.current_gas, u64::MAX - 1);
}

#[test]
fn add_overflowing_total_fails_after_counting() {
    let mut m = VpGasMeter { initial_gas: u64::MAX, current_gas: 0 };
    assert_eq!(m.add(1), Err(GasError::GasOverflow));
    assert_eq!(m.current_gas, 1);
}

#[test]
fn out_of_gas_is_permanent() {
    let mut m = VpGasMeter::new(TRANSACTION_GAS_LIMIT);
    assert_eq!(m.add(1), Err(GasError::TransactionGasExceededError));
    assert_eq!(m.add(0), Err(GasError::TransactionGasExceededError));
    assert_eq!(m.add(5), Err(GasError::TransactionGasExceededError));
    assert_eq!(m.current_gas, 6);
}
