//! The gas report a call hands back: how its budget was spent.

use vstd::prelude::*;

verus! {

/// How one call's gas budget was spent. However a call ends, a report made
/// from an acquired instance accounts for the whole budget: what was spent
/// externally and internally and what remains sum to the limit.
#[derive(Clone, Copy, Debug, PartialEq, Eq, Structural)]
pub struct GasReport {
    /// The original limit the instance was created with.
    pub limit: u64,
    /// The gas still available when the call ended.
    pub remaining: u64,
    /// The gas spent in externally metered boundary calls.
    pub used_externally: u64,
    /// The gas spent inside the execution engine.
    pub used_internally: u64,
}

impl GasReport {
    /// The books balance: nothing spent or remaining exceeds the limit.
    pub open spec fn wf(&self) -> bool {
        self.used_externally + self.used_internally + self.remaining <= self.limit
    }
}

impl Default for GasReport {
    /// An empty report, for a slot not yet written.
    fn default() -> (r: Self)
        ensures
            r.limit == 0,
            r.remaining == 0,
            r.used_externally == 0,
            r.used_internally == 0,
    {
        GasReport { limit: 0, remaining: 0, used_externally: 0, used_internally: 0 }
    }
}

/// The report for a budget of `limit` of which `used_ext` was spent outside
/// and `used_int` inside. Spending beyond the limit is clamped, so a report
/// always accounts for exactly the budget: the three parts sum to the limit.
pub open spec fn report_of(limit: u64, used_ext: u64, used_int: u64) -> GasReport {
    let ue = if used_ext <= limit {
        used_ext
    } else {
        limit
    };
    let ui = if used_int <= limit - ue {
        used_int
    } else {
        (limit - ue) as u64
    };
    GasReport {
        limit,
        remaining: (limit - ue - ui) as u64,
        used_externally: ue,
        used_internally: ui,
    }
}

/// A report made by [`report_of`] balances its books.
pub proof fn lemma_report_balanced(limit: u64, used_ext: u64, used_int: u64)
    ensures
        report_of(limit, used_ext, used_int).wf(),
        report_of(limit, used_ext, used_int).used_externally + report_of(
            limit,
            used_ext,
            used_int,
        ).used_internally + report_of(limit, used_ext, used_int).remaining == limit,
{
}

} // verus!
