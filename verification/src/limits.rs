//! Byte-budget evaluation: percentage-of-limit arithmetic and the
//! per-metric limit summary.

use vstd::prelude::*;

use crate::summary::SizeSummary;

verus! {

/// What fraction of a byte budget `of` a value `val` occupies, in whole
/// percent, truncated toward zero. A zero budget counts as infinitely
/// exceeded unless the value is zero too; results beyond `u64::MAX`
/// saturate.
pub open spec fn percent_spec(val: int, of: int) -> u64 {
    if of == 0 {
        if val == 0 {
            0u64
        } else {
            u64::MAX
        }
    } else if 100 * val / of > u64::MAX {
        u64::MAX
    } else {
        (100 * val / of) as u64
    }
}

/// Integer percentage of `val` against the budget `of`, truncated toward
/// zero, saturating at `u64::MAX`.
pub fn percent(val: u64, of: u64) -> (r: u64)
    ensures
        r == percent_spec(val as int, of as int),
{
    if of == 0 {
        if val == 0 {
            0
        } else {
            u64::MAX
        }
    } else {
        let p: u128 = (val as u128) * 100 / (of as u128);
        if p > u64::MAX as u128 {
            u64::MAX
        } else {
            p as u64
        }
    }
}

/// Percentage-of-budget per metric, each `None` when no budget is
/// configured for it.
#[derive(Debug, Clone, PartialEq, Eq)]
pub struct LimitSummary {
    pub total_limit: Option<u64>,
    pub total_fixed_limit: Option<u64>,
    pub instruction_limit: Option<u64>,
    pub data_limit: Option<u64>,
    pub data_fixed_limit: Option<u64>,
}

/// A metric is over its budget when its percentage is strictly above 100;
/// an unconfigured budget never flags.
pub open spec fn over_spec(o: Option<u64>) -> bool {
    match o {
        Some(p) => p > 100,
        None => false,
    }
}

impl LimitSummary {
    /// Which metrics count: with `fixed_only` the fixed ones alone,
    /// otherwise all five.
    pub open spec fn any_over_spec(&self, fixed_only: bool) -> bool {
        if fixed_only {
            over_spec(self.total_fixed_limit) || over_spec(self.instruction_limit) || over_spec(
                self.data_fixed_limit,
            )
        } else {
            over_spec(self.total_limit) || over_spec(self.total_fixed_limit) || over_spec(
                self.instruction_limit,
            ) || over_spec(self.data_limit) || over_spec(self.data_fixed_limit)
        }
    }

    /// Whether any evaluated metric exceeds its configured budget.
    pub fn any_over_100_percent(&self, fixed_only: bool) -> (r: bool)
        ensures
            r == self.any_over_spec(fixed_only),
    {
        if fixed_only {
            over(self.total_fixed_limit) || over(self.instruction_limit) || over(
                self.data_fixed_limit,
            )
        } else {
            over(self.total_limit) || over(self.total_fixed_limit) || over(self.instruction_limit)
                || over(self.data_limit) || over(self.data_fixed_limit)
        }
    }
}

fn over(opt: Option<u64>) -> (r: bool)
    ensures
        r == over_spec(opt),
{
    match opt {
        Some(x) => x > 100,
        None => false,
    }
}

/// The limit summary a footprint earns against the configured budgets: the
/// total budget also bounds the fixed total, and the data budget also
/// bounds the fixed data.
pub open spec fn limit_summary_spec(
    s: SizeSummary,
    total_limit: Option<u64>,
    instruction_limit: Option<u64>,
    data_limit: Option<u64>,
) -> LimitSummary {
    LimitSummary {
        total_limit: match total_limit {
            Some(l) => Some(percent_spec(s.total_spec(), l as int)),
            None => None,
        },
        total_fixed_limit: match total_limit {
            Some(l) => Some(percent_spec(s.total_fixed_spec(), l as int)),
            None => None,
        },
        instruction_limit: match instruction_limit {
            Some(l) => Some(percent_spec(s.instruction_memory as int, l as int)),
            None => None,
        },
        data_limit: match data_limit {
            Some(l) => Some(percent_spec(s.data_memory_total as int, l as int)),
            None => None,
        },
        data_fixed_limit: match data_limit {
            Some(l) => Some(percent_spec(s.fixed_spec(), l as int)),
            None => None,
        },
    }
}

impl SizeSummary {
    /// Evaluates this footprint against the configured budgets.
    pub fn limit_summary(
        &self,
        total_limit: Option<u64>,
        instruction_limit: Option<u64>,
        data_limit: Option<u64>,
    ) -> (r: LimitSummary)
        requires
            self.dyn_in_range(),
            self.dyn_or_zero() <= self.data_memory_total,
            self.total_spec() <= u64::MAX,
        ensures
            r == limit_summary_spec(*self, total_limit, instruction_limit, data_limit),
    {
        let fixed = self.data_memory_fixed();
        let total = self.total();
        let total_fixed = self.total_fixed();
        LimitSummary {
            total_limit: match total_limit {
                Some(l) => Some(percent(total, l)),
                None => None,
            },
            total_fixed_limit: match total_limit {
                Some(l) => Some(percent(total_fixed, l)),
                None => None,
            },
            instruction_limit: match instruction_limit {
                Some(l) => Some(percent(self.instruction_memory, l)),
                None => None,
            },
            data_limit: match data_limit {
                Some(l) => Some(percent(self.data_memory_total, l)),
                None => None,
            },
            data_fixed_limit: match data_limit {
                Some(l) => Some(percent(fixed, l)),
                None => None,
            },
        }
    }

    /// Evaluates this footprint against the configured budgets, or reports
    /// that the footprint itself is inconsistent: reservations that outgrow
    /// the data segments or totals beyond a byte count.
    pub fn limit_summary_checked(
        &self,
        total_limit: Option<u64>,
        instruction_limit: Option<u64>,
        data_limit: Option<u64>,
    ) -> (r: Option<LimitSummary>)
        ensures
            r is Some <==> (self.dyn_in_range() && self.dyn_or_zero() <= self.data_memory_total
                && self.total_spec() <= u64::MAX),
            r matches Some(ls) ==> ls == limit_summary_spec(
                *self,
                total_limit,
                instruction_limit,
                data_limit,
            ),
    {
        if self.data_memory_fixed_checked().is_none() {
            return None;
        }
        if self.instruction_memory > u64::MAX - self.data_memory_total {
            return None;
        }
        Some(self.limit_summary(total_limit, instruction_limit, data_limit))
    }
}

/// Whether any of a batch of evaluated files exceeds a configured budget.
/// An empty batch exceeds nothing.
pub fn any_file_over_limit(limits: &Vec<LimitSummary>, fixed_only: bool) -> (r: bool)
    ensures
        r == exists|i: int|
            0 <= i < limits@.len() && (#[trigger] limits@[i]).any_over_spec(fixed_only),
{
    let n = limits.len();
    let mut i: usize = 0;
    while i < n
        invariant
            i <= n,
            n == limits@.len(),
            forall|j: int| 0 <= j < i ==> !(#[trigger] limits@[j]).any_over_spec(fixed_only),
        decreases n - i,
    {
        if limits[i].any_over_100_percent(fixed_only) {
            return true;
        }
        i += 1;
    }
    false
}

} // verus!
