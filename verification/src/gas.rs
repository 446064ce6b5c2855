use vstd::prelude::*;
use crate::error::ErrorKind;

verus! {

/// The price of one metered operation, split in its two parts.
#[derive(Clone, Copy, Debug, PartialEq, Eq, Structural)]
pub struct GasCharge {
    pub compute_gas: i64,
    pub storage_gas: i64,
}

impl GasCharge {
    /// A charge never gives gas back.
    pub open spec fn wf(&self) -> bool {
        self.compute_gas >= 0 && self.storage_gas >= 0
    }

    /// The amount that the charge adds to the gas used.
    pub open spec fn total(&self) -> int {
        self.compute_gas + self.storage_gas
    }

    /// A charge of the two parts, where neither is negative.
    pub fn new(compute_gas: i64, storage_gas: i64) -> (r: Option<GasCharge>)
        ensures
            r is Some <==> (compute_gas >= 0 && storage_gas >= 0),
            r is Some ==> r->0.wf() && r->0.compute_gas == compute_gas
                && r->0.storage_gas == storage_gas,
    {
        if compute_gas >= 0 && storage_gas >= 0 {
            Some(GasCharge { compute_gas, storage_gas })
        } else {
            None
        }
    }
}

/// A budget and the running total charged against it.
#[derive(Clone, Copy, Debug, PartialEq, Eq, Structural)]
pub struct GasTracker {
    pub gas_limit: i64,
    pub gas_used: i64,
}

/// What a charge does to a tracker: it is applied whole, or not at all.
pub open spec fn charge_spec(g: GasTracker, c: GasCharge) -> (Result<(), ErrorKind>, GasTracker) {
    if g.gas_used + c.total() > g.gas_limit {
        (Err(ErrorKind::OutOfGas), g)
    } else {
        (Ok(()), GasTracker { gas_limit: g.gas_limit, gas_used: (g.gas_used + c.total()) as i64 })
    }
}

impl GasTracker {
    /// The gas used is never negative and never above the limit.
    pub open spec fn wf(&self) -> bool {
        0 <= self.gas_used <= self.gas_limit
    }

    /// A tracker with the given budget and the given amount already used;
    /// `None` where the amount is negative or above the budget.
    pub fn new(gas_limit: i64, gas_used: i64) -> (r: Option<GasTracker>)
        ensures
            r is Some <==> 0 <= gas_used <= gas_limit,
            r is Some ==> r->0.wf() && r->0.gas_limit == gas_limit && r->0.gas_used == gas_used,
    {
        if 0 <= gas_used && gas_used <= gas_limit {
            Some(GasTracker { gas_limit, gas_used })
        } else {
            None
        }
    }

    /// Charges gas: fails with `OutOfGas`, leaving the total as it was,
    /// where the charge would take the total over the limit; else commits it.
    pub fn charge_gas(&mut self, charge: GasCharge) -> (r: Result<(), ErrorKind>)
        requires
            old(self).wf(),
            charge.wf(),
        ensures
            final(self).wf(),
            (r, *final(self)) == charge_spec(*old(self), charge),
    {
        let room: i64 = self.gas_limit - self.gas_used;
        if charge.compute_gas > room || charge.storage_gas > room - charge.compute_gas {
            Err(ErrorKind::OutOfGas)
        } else {
            self.gas_used = self.gas_used + charge.compute_gas + charge.storage_gas;
            Ok(())
        }
    }

    /// The gas that can still be charged.
    pub fn gas_available(&self) -> (r: i64)
        requires
            self.wf(),
        ensures
            r == self.gas_limit - self.gas_used,
            r >= 0,
    {
        self.gas_limit - self.gas_used
    }

    /// The gas charged so far.
    pub fn gas_used(&self) -> (r: i64)
        ensures
            r == self.gas_used,
    {
        self.gas_used
    }
}

/// The trackers that a sequence of charges leads through, starting at `g`:
/// the tracker after all of them.
pub open spec fn charge_all(g: GasTracker, charges: Seq<GasCharge>) -> GasTracker
    decreases charges.len(),
{
    if charges.len() == 0 {
        g
    } else {
        charge_spec(charge_all(g, charges.drop_last()), charges.last()).1
    }
}

/// Whatever charges are made, in whatever order and whether they succeed or
/// fail, the gas used stays within the limit, the limit stays what it was,
/// and the gas used never goes down.
pub proof fn lemma_charges_stay_within_limit(g: GasTracker, charges: Seq<GasCharge>)
    requires
        g.wf(),
        forall|i: int| 0 <= i < charges.len() ==> (#[trigger] charges[i]).wf(),
    ensures
        charge_all(g, charges).wf(),
        charge_all(g, charges).gas_limit == g.gas_limit,
        charge_all(g, charges).gas_used >= g.gas_used,
    decreases charges.len(),
{
    if charges.len() > 0 {
        lemma_charges_stay_within_limit(g, charges.drop_last());
    }
}

/// A charge that would take the total over the limit fails and changes
/// nothing; any other charge succeeds and adds exactly its total.
pub proof fn lemma_failed_charge_changes_nothing(g: GasTracker, c: GasCharge)
    requires
        g.wf(),
        c.wf(),
    ensures
        g.gas_used + c.total() > g.gas_limit ==> charge_spec(g, c) == (
            Err::<(), ErrorKind>(ErrorKind::OutOfGas),
            g,
        ),
        g.gas_used + c.total() <= g.gas_limit ==> charge_spec(g, c).0 == Ok::<(), ErrorKind>(())
            && charge_spec(g, c).1.gas_used == g.gas_used + c.total(),
{
}

} // verus!
