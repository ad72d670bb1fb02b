//! Gas metering of a validity predicate run.
use vstd::prelude::*;

verus! {

/// The maximum gas that a transaction, validity predicates included, may use.
pub const TRANSACTION_GAS_LIMIT: u64 = 10_000_000_000u64;

/// Why the gas meter refused a charge.
#[derive(Debug, Clone, Copy, PartialEq, Eq, Structural)]
pub enum GasError {
    /// An addition of gas overflowed `u64`.
    GasOverflow,
    /// The total gas exceeds [`TRANSACTION_GAS_LIMIT`].
    TransactionGasExceededError,
}

/// Gas meter of one validity predicate run.
#[derive(Debug, Clone, Copy, PartialEq, Eq, Structural)]
pub struct VpGasMeter {
    /// The gas used in the transaction before the validity predicate run.
    pub initial_gas: u64,
    /// The gas used so far in the validity predicate.
    pub current_gas: u64,
}

/// The meter's `current_gas` after charging `gas`: it grows by `gas` unless
/// that addition overflows, in which case it is left as it was.
pub open spec fn gas_after_charge(current: u64, gas: u64) -> u64 {
    if current + gas <= u64::MAX {
        (current + gas) as u64
    } else {
        current
    }
}

/// The outcome of charging `gas` to a meter with the given gas figures.
pub open spec fn charge_outcome(initial: u64, current: u64, gas: u64) -> Result<(), GasError> {
    if current + gas > u64::MAX {
        Err(GasError::GasOverflow)
    } else if initial + current + gas > u64::MAX {
        Err(GasError::GasOverflow)
    } else if initial + current + gas > TRANSACTION_GAS_LIMIT {
        Err(GasError::TransactionGasExceededError)
    } else {
        Ok(())
    }
}

/// The meter has gone past the transaction gas limit: its total exceeds the
/// limit (or does not even fit in `u64`).
pub open spec fn exhausted(m: VpGasMeter) -> bool {
    m.initial_gas + m.current_gas > TRANSACTION_GAS_LIMIT
}

/// The meter that results from charging `gas` to `m`.
pub open spec fn charged(m: VpGasMeter, gas: u64) -> VpGasMeter {
    VpGasMeter { initial_gas: m.initial_gas, current_gas: gas_after_charge(m.current_gas, gas) }
}

impl VpGasMeter {
    /// A meter for a validity predicate run, starting after the gas that the
    /// transaction has already used.
    pub fn new(initial_gas: u64) -> (m: Self)
        ensures
            m.initial_gas == initial_gas,
            m.current_gas == 0,
    {
        VpGasMeter { initial_gas, current_gas: 0 }
    }

    /// Consume gas in a validity predicate. It fails when the total gas
    /// exceeds [`TRANSACTION_GAS_LIMIT`]; the gas is still counted then.
    pub fn add(&mut self, gas: u64) -> (res: Result<(), GasError>)
        ensures
            res == charge_outcome(old(self).initial_gas, old(self).current_gas, gas),
            *final(self) == charged(*old(self), gas),
    {
        match self.current_gas.checked_add(gas) {
            Some(g) => self.current_gas = g,
            None => return Err(GasError::GasOverflow),
        }
        let total = match self.initial_gas.checked_add(self.current_gas) {
            Some(t) => t,
            None => return Err(GasError::GasOverflow),
        };
        if total > TRANSACTION_GAS_LIMIT {
            return Err(GasError::TransactionGasExceededError);
        }
        Ok(())
    }
}

/// Charging gas never lowers the gas used, and changes nothing else.
pub proof fn lemma_charge_monotone(m: VpGasMeter, gas: u64)
    ensures
        charged(m, gas).current_gas >= m.current_gas,
        charged(m, gas).initial_gas == m.initial_gas,
{
}

/// A charge succeeds exactly when the new total stays within the limit; it
/// then adds exactly the charged gas.
pub proof fn lemma_charge_ok_iff_within_limit(m: VpGasMeter, gas: u64)
    ensures
        charge_outcome(m.initial_gas, m.current_gas, gas) is Ok
            <==> m.initial_gas + m.current_gas + gas <= TRANSACTION_GAS_LIMIT,
        charge_outcome(m.initial_gas, m.current_gas, gas) is Ok
            ==> charged(m, gas).current_gas == m.current_gas + gas,
{
}

/// Once a meter has gone past the limit, every further charge fails and the
/// meter stays past the limit: running out of gas is permanent.
pub proof fn lemma_out_of_gas_is_permanent(m: VpGasMeter, gas: u64)
    requires
        exhausted(m),
    ensures
        charge_outcome(m.initial_gas, m.current_gas, gas) is Err,
        exhausted(charged(m, gas)),
{
}

} // verus!
