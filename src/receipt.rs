//! Receipt abstraction.
use vstd::prelude::*;

verus! {

/// Abstraction of a transaction receipt.
pub trait Receipt {
    /// Gas used by the block up to and including this transaction.
    spec fn spec_cumulative_gas_used(&self) -> u64;

    /// Returns the gas used by the block up to and including this transaction.
    fn cumulative_gas_used(&self) -> (r: u64)
        ensures
            r == self.spec_cumulative_gas_used(),
    ;
}

/// Every receipt that a full node can store and serve.
pub trait FullReceipt: Receipt {

}

impl<T: Receipt> FullReceipt for T {

}

/// A plain receipt: whether the transaction succeeded and the cumulative gas used.
#[derive(Clone, Copy, Debug, PartialEq, Eq, Structural)]
pub struct BasicReceipt {
    pub success: bool,
    pub cumulative_gas_used: u64,
}

impl Receipt for BasicReceipt {
    open spec fn spec_cumulative_gas_used(&self) -> u64 {
        self.cumulative_gas_used
    }

    fn cumulative_gas_used(&self) -> (r: u64) {
        self.cumulative_gas_used
    }
}

/// Pairs each receipt's index with its cumulative gas used, in order.
pub fn gas_spent_by_transactions<T: Receipt>(receipts: &[T]) -> (r: Vec<(u64, u64)>)
    ensures
        r@.len() == receipts@.len(),
        forall|i: int|
            0 <= i < r@.len() ==> #[trigger] r@[i] == (i as u64, receipts@[i].spec_cumulative_gas_used()),
{
    let n = receipts.len();
    let mut out: Vec<(u64, u64)> = Vec::new();
    let mut i: usize = 0;
    while i < n
        invariant
            n == receipts@.len(),
            0 <= i <= n,
            out@.len() == i,
            forall|j: int|
                0 <= j < i ==> #[trigger] out@[j] == (j as u64, receipts@[j].spec_cumulative_gas_used()),
        decreases n - i,
    {
        let gas = receipts[i].cumulative_gas_used();
        out.push((i as u64, gas));
        i = i + 1;
    }
    out
}

} // verus!
